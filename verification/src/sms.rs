//! SMS message values and the text forms they travel in.

use vstd::prelude::*;

verus! {

use crate::at::{dec_or_zero, has_prefix, resp_chars, trim_crlf, AtError};
use crate::datetime::civil_unix_millis;
use crate::hexstr::{
    encode_utf16_seq, encode_utf16_units, hex_chunks, units_hex, utf16_decodable, UCS2HexString,
};
use crate::poro::{dec_chars, find_char};
use crate::text::{str_eq, string_append, string_of};

/// The storage state of a message, as the module reports it.
#[derive(Debug, Clone, Copy, PartialEq, Eq, Structural)]
pub enum SmsStat {
    ReceivedUnread,
    ReceivedRead,
    StoredUnsent,
    StoredSent,
    All,
}

/// Which state a state text stands for; `None` for an unknown text.
pub open spec fn sms_stat_of(s: Seq<char>) -> Option<SmsStat> {
    if s == "REC UNREAD"@ {
        Some(SmsStat::ReceivedUnread)
    } else if s == "REC READ"@ {
        Some(SmsStat::ReceivedRead)
    } else if s == "STO UNSENT"@ {
        Some(SmsStat::StoredUnsent)
    } else if s == "STO SENT"@ {
        Some(SmsStat::StoredSent)
    } else if s == "ALL"@ {
        Some(SmsStat::All)
    } else {
        None
    }
}

/// The state text of a state.
pub open spec fn sms_stat_text(s: SmsStat) -> Seq<char> {
    match s {
        SmsStat::ReceivedUnread => "REC UNREAD"@,
        SmsStat::ReceivedRead => "REC READ"@,
        SmsStat::StoredUnsent => "STO UNSENT"@,
        SmsStat::StoredSent => "STO SENT"@,
        SmsStat::All => "ALL"@,
    }
}

impl SmsStat {
    /// The text the module uses for this state.
    pub fn as_str(&self) -> (r: &'static str)
        ensures
            r@ == sms_stat_text(*self),
    {
        match self {
            SmsStat::ReceivedUnread => "REC UNREAD",
            SmsStat::ReceivedRead => "REC READ",
            SmsStat::StoredUnsent => "STO UNSENT",
            SmsStat::StoredSent => "STO SENT",
            SmsStat::All => "ALL",
        }
    }

    /// Reads a state from the module's text for it.
    pub fn from_str(input: &str) -> (r: Result<SmsStat, &'static str>)
        ensures
            match sms_stat_of(input@) {
                Option::Some(s) => r is Ok && r->Ok_0 == s,
                Option::None => r is Err,
            },
    {
        if str_eq(input, "REC UNREAD") {
            Ok(SmsStat::ReceivedUnread)
        } else if str_eq(input, "REC READ") {
            Ok(SmsStat::ReceivedRead)
        } else if str_eq(input, "STO UNSENT") {
            Ok(SmsStat::StoredUnsent)
        } else if str_eq(input, "STO SENT") {
            Ok(SmsStat::StoredSent)
        } else if str_eq(input, "ALL") {
            Ok(SmsStat::All)
        } else {
            Err("invalid SMS stat")
        }
    }
}

/// A stored message, already decoded to plain text.
#[derive(Debug, Clone, PartialEq, Eq)]
pub struct Sms {
    pub stat: SmsStat,
    pub phone_number: String,
    pub unix_timestamp_millis: i64,
    pub message: String,
}

/// Mathematical image of a message.
pub ghost struct SmsView {
    pub stat: SmsStat,
    pub phone_number: Seq<char>,
    pub unix_timestamp_millis: i64,
    pub message: Seq<char>,
}

impl View for Sms {
    type V = SmsView;

    open spec fn view(&self) -> SmsView {
        SmsView {
            stat: self.stat,
            phone_number: self.phone_number@,
            unix_timestamp_millis: self.unix_timestamp_millis,
            message: self.message@,
        }
    }
}

// ---------------------------------------------------------------------------
// Commands
// ---------------------------------------------------------------------------

/// `AT+CMGF=<mode>`: select the message format.
#[derive(Debug, Clone, Copy, PartialEq, Eq, Structural)]
pub struct AtSelectSMSMessageFormatWrite {
    pub mode: MessageMode,
}

/// Message formats.
#[derive(Debug, Clone, Copy, PartialEq, Eq, Structural)]
pub enum MessageMode {
    PDU,
    Text,
}

impl MessageMode {
    /// The integer code of the format on the wire.
    pub open spec fn code(self) -> int {
        match self {
            MessageMode::PDU => 0,
            MessageMode::Text => 1,
        }
    }
}

impl AtSelectSMSMessageFormatWrite {
    /// The line sent for this command.
    pub fn write(&self) -> (r: String)
        ensures
            r@ == "AT+CMGF="@ + dec_chars(self.mode.code()) + "\r"@,
    {
        let mut r = string_of("AT+CMGF=");
        let num = match self.mode {
            MessageMode::PDU => string_of("0"),
            MessageMode::Text => string_of("1"),
        };
        proof {
            reveal_strlit("0");
            reveal_strlit("1");
            assert(crate::poro::digit36_char(0) == '0');
            assert(crate::poro::digit36_char(1) == '1');
            assert(dec_chars(0) =~= seq![crate::poro::digit36_char(0)]);
            assert(dec_chars(1) =~= seq![crate::poro::digit36_char(1)]);
            assert(dec_chars(self.mode.code()) =~= num@);
        }
        string_append(&mut r, num.as_str());
        string_append(&mut r, "\r");
        r
    }
}

/// `AT+CSCS=<chset>`: select the character set of the text transport.
#[derive(Debug, Clone, PartialEq, Eq)]
pub struct AtSelectTECharsetWrite {
    pub chset: String,
}

impl AtSelectTECharsetWrite {
    /// The line sent for this command.
    pub fn write(&self) -> (r: String)
        ensures
            r@ == "AT+CSCS=\""@ + self.chset@ + "\"\r"@,
    {
        let mut r = string_of("AT+CSCS=\"");
        string_append(&mut r, self.chset.as_str());
        string_append(&mut r, "\"\r");
        r
    }
}

/// `AT+CMGS=<da>`: open a message send toward a destination number, sent as
/// UCS2 hex between quotes.
#[derive(Debug, Clone, PartialEq, Eq)]
pub struct AtSMSSend {
    pub number: UCS2HexString,
}

impl AtSMSSend {
    /// The line sent for this command.
    pub fn write(&self) -> (r: String)
        ensures
            r@ == "AT+CMGS=\""@ + units_hex(encode_utf16_seq(self.number@.text)) + "\"\r"@,
    {
        let mut r = string_of("AT+CMGS=\"");
        let chars = crate::text::str_to_chars(self.number.text.as_str());
        let units = encode_utf16_units(chars.as_slice());
        let hex = crate::hexstr::units_hex_string(units.as_slice());
        string_append(&mut r, hex.as_str());
        string_append(&mut r, "\"\r");
        r
    }

    /// The send waits longer than the default for its prompt.
    pub fn max_timeout_ms(&self) -> (r: u32)
        ensures
            r == 5000,
    {
        5000
    }
}

/// The message body, sent as UCS2 hex and closed with the control
/// character.
#[derive(Debug, Clone, PartialEq, Eq)]
pub struct AtSMSData {
    pub message: UCS2HexString,
}

impl AtSMSData {
    /// The bytes sent for the body: the UCS2 hex of the text, then the
    /// closing control character.
    pub fn write(&self) -> (r: String)
        ensures
            r@ == units_hex(encode_utf16_seq(self.message@.text)) + seq![26u8 as char],
    {
        let chars = crate::text::str_to_chars(self.message.text.as_str());
        let units = encode_utf16_units(chars.as_slice());
        let mut r = crate::hexstr::units_hex_string(units.as_slice());
        let ctrl_z: char = 26u8 as char;
        crate::text::string_push(&mut r, ctrl_z);
        r
    }

    /// The body waits far longer than the default for its confirmation.
    pub fn max_timeout_ms(&self) -> (r: u32)
        ensures
            r == 60000,
    {
        60000
    }

    /// Reads the send confirmation `+CMGS: <mr>`.
    pub fn parse(&self, v: &[u8]) -> (r: Result<SMSDataResponse, AtError>)
        ensures
            match cmgs_resp_spec(v@) {
                Option::Some(resp) => r is Ok && r->Ok_0 == resp,
                Option::None => r is Err,
            },
    {
        let chars = match crate::at::bytes_to_chars(v) {
            Ok(c) => c,
            Err(e) => {
                return Err(e);
            },
        };
        let body = match crate::at::strip_prefix_chars(chars.as_slice(), "+CMGS: ") {
            Option::Some(b) => b,
            Option::None => {
                return Err(AtError::Parse);
            },
        };
        match crate::at::parse_dec_bounded(body.as_slice(), -0x8000_0000, 0x7FFF_FFFF) {
            Ok(mr) => Ok(SMSDataResponse { mr: mr as i32 }),
            Err(e) => Err(e),
        }
    }
}

/// `+CMGS: <mr>`: the message reference of a completed send.
#[derive(Debug, Clone, Copy, PartialEq, Eq, Structural)]
pub struct SMSDataResponse {
    pub mr: i32,
}

/// What the send confirmation parses to.
pub open spec fn cmgs_resp_spec(v: Seq<u8>) -> Option<SMSDataResponse> {
    match resp_chars(v) {
        Option::Some(chars) => {
            if !has_prefix(chars, "+CMGS: "@) {
                None
            } else {
                match crate::at::dec_bounded(
                    chars.skip("+CMGS: "@.len() as int),
                    -0x8000_0000,
                    0x7FFF_FFFF,
                ) {
                    Option::Some(mr) => Some(SMSDataResponse { mr: mr as i32 }),
                    Option::None => None,
                }
            }
        },
        Option::None => None,
    }
}

/// `AT+CMGR=<index>[,<mode>]`: read a stored message.
#[derive(Debug, Clone, Copy, PartialEq, Eq, Structural)]
pub struct AtReadSMSMessagesWrite {
    pub index: u32,
    pub mode: Option<ReadSMSMode>,
}

/// Whether reading marks the message read.
#[derive(Debug, Clone, Copy, PartialEq, Eq, Structural)]
pub enum ReadSMSMode {
    Normal,
    NotChangeStatusOfSMSRecord,
}

impl ReadSMSMode {
    /// The integer code of the mode on the wire.
    pub open spec fn code(self) -> int {
        match self {
            ReadSMSMode::Normal => 0,
            ReadSMSMode::NotChangeStatusOfSMSRecord => 1,
        }
    }
}

impl AtReadSMSMessagesWrite {
    /// The line sent for this command.
    pub fn write(&self) -> (r: String)
        ensures
            r@ == "AT+CMGR="@ + dec_chars(self.index as int) + (match self.mode {
                Option::Some(m) => ","@ + dec_chars(m.code()),
                Option::None => Seq::<char>::empty(),
            }) + "\r"@,
    {
        let mut r = string_of("AT+CMGR=");
        let idx = crate::poro::to_str_radix(self.index as i64, 10);
        string_append(&mut r, idx.as_str());
        match self.mode {
            Option::Some(m) => {
                string_append(&mut r, ",");
                let num = match m {
                    ReadSMSMode::Normal => string_of("0"),
                    ReadSMSMode::NotChangeStatusOfSMSRecord => string_of("1"),
                };
                proof {
                    reveal_strlit("0");
                    reveal_strlit("1");
                    reveal_strlit(",");
                    assert(crate::poro::digit36_char(0) == '0');
                    assert(crate::poro::digit36_char(1) == '1');
                    assert(dec_chars(0) =~= seq![crate::poro::digit36_char(0)]);
                    assert(dec_chars(1) =~= seq![crate::poro::digit36_char(1)]);
                    assert(dec_chars(m.code()) =~= num@);
                }
                string_append(&mut r, num.as_str());
            },
            Option::None => {},
        }
        string_append(&mut r, "\r");
        proof {
            assert(r@ =~= "AT+CMGR="@ + dec_chars(self.index as int) + (match self.mode {
                Option::Some(m) => ","@ + dec_chars(m.code()),
                Option::None => Seq::<char>::empty(),
            }) + "\r"@);
        }
        r
    }

    /// The read waits longer than the default for its reply.
    pub fn max_timeout_ms(&self) -> (r: u32)
        ensures
            r == 5000,
    {
        5000
    }
}

/// `AT+CNMI=<mode>,<mt>,<bm>,<ds>,<bfr>`: how new-message events reach the
/// host.
#[derive(Debug, Clone, Copy, PartialEq, Eq, Structural)]
pub struct AtNewSMSMessageIndicationsWrite {
    pub mode: SMSIndicationsMode,
    pub mt: Option<MtMode>,
    pub bm: Option<CBMMode>,
    pub ds: Option<DSMode>,
    pub bfr: Option<BFRMode>,
}

/// How unsolicited result codes are buffered.
#[derive(Debug, Clone, Copy, PartialEq, Eq, Structural)]
pub enum SMSIndicationsMode {
    BufferUCRinTA,
    DiscardIndicationRejectNewUCR,
    BufferUCRInTA,
    ForwardUCRDirectlyToTE,
}

impl SMSIndicationsMode {
    /// The integer code of the mode on the wire.
    pub open spec fn code(self) -> int {
        match self {
            SMSIndicationsMode::BufferUCRinTA => 0,
            SMSIndicationsMode::DiscardIndicationRejectNewUCR => 1,
            SMSIndicationsMode::BufferUCRInTA => 2,
            SMSIndicationsMode::ForwardUCRDirectlyToTE => 3,
        }
    }

    fn as_int(&self) -> (r: i64)
        ensures
            r as int == self.code(),
    {
        match self {
            SMSIndicationsMode::BufferUCRinTA => 0,
            SMSIndicationsMode::DiscardIndicationRejectNewUCR => 1,
            SMSIndicationsMode::BufferUCRInTA => 2,
            SMSIndicationsMode::ForwardUCRDirectlyToTE => 3,
        }
    }
}

/// How delivered messages reach the host.
#[derive(Debug, Clone, Copy, PartialEq, Eq, Structural)]
pub enum MtMode {
    NoSMSDeliverIndicationsToTE,
    SMSStoredInMETAToTE,
    SMSDirectlyToTE,
}

impl MtMode {
    /// The integer code of the mode on the wire.
    pub open spec fn code(self) -> int {
        match self {
            MtMode::NoSMSDeliverIndicationsToTE => 0,
            MtMode::SMSStoredInMETAToTE => 1,
            MtMode::SMSDirectlyToTE => 2,
        }
    }

    fn as_int(&self) -> (r: i64)
        ensures
            r as int == self.code(),
    {
        match self {
            MtMode::NoSMSDeliverIndicationsToTE => 0,
            MtMode::SMSStoredInMETAToTE => 1,
            MtMode::SMSDirectlyToTE => 2,
        }
    }
}

/// How broadcast messages reach the host.
#[derive(Debug, Clone, Copy, PartialEq, Eq, Structural)]
pub enum CBMMode {
    NoCBMToTE,
    CBMDirectlyToTE,
}

impl CBMMode {
    /// The integer code of the mode on the wire.
    pub open spec fn code(self) -> int {
        match self {
            CBMMode::NoCBMToTE => 0,
            CBMMode::CBMDirectlyToTE => 2,
        }
    }

    fn as_int(&self) -> (r: i64)
        ensures
            r as int == self.code(),
    {
        match self {
            CBMMode::NoCBMToTE => 0,
            CBMMode::CBMDirectlyToTE => 2,
        }
    }
}

/// How delivery reports reach the host.
#[derive(Debug, Clone, Copy, PartialEq, Eq, Structural)]
pub enum DSMode {
    NoDSToTE,
    DSirectlyToTE,
}

impl DSMode {
    /// The integer code of the mode on the wire.
    pub open spec fn code(self) -> int {
        match self {
            DSMode::NoDSToTE => 0,
            DSMode::DSirectlyToTE => 1,
        }
    }

    fn as_int(&self) -> (r: i64)
        ensures
            r as int == self.code(),
    {
        match self {
            DSMode::NoDSToTE => 0,
            DSMode::DSirectlyToTE => 1,
        }
    }
}

/// What happens to the buffered codes when the mode changes.
#[derive(Debug, Clone, Copy, PartialEq, Eq, Structural)]
pub enum BFRMode {
    TAFlushedToTE,
    TACleared,
}

impl BFRMode {
    /// The integer code of the mode on the wire.
    pub open spec fn code(self) -> int {
        match self {
            BFRMode::TAFlushedToTE => 0,
            BFRMode::TACleared => 1,
        }
    }

    fn as_int(&self) -> (r: i64)
        ensures
            r as int == self.code(),
    {
        match self {
            BFRMode::TAFlushedToTE => 0,
            BFRMode::TACleared => 1,
        }
    }
}

/// An optional numeric tail argument of a command line.
pub open spec fn opt_num_arg(v: Option<int>) -> Seq<char> {
    match v {
        Option::Some(n) => ","@ + dec_chars(n),
        Option::None => Seq::empty(),
    }
}

fn append_opt_num(r: &mut String, v: Option<i64>)
    requires
        v matches Some(n) ==> 0 <= n,
    ensures
        final(r)@ == old(r)@ + opt_num_arg(
            match v {
                Option::Some(n) => Some(n as int),
                Option::None => None,
            },
        ),
{
    match v {
        Option::Some(n) => {
            string_append(r, ",");
            let t = crate::poro::to_str_radix(n, 10);
            string_append(r, t.as_str());
            proof {
                reveal_strlit(",");
                assert(r@ =~= old(r)@ + (","@ + dec_chars(n as int)));
            }
        },
        Option::None => {
            proof {
                assert(r@ =~= old(r)@ + Seq::<char>::empty());
            }
        },
    }
}

impl AtNewSMSMessageIndicationsWrite {
    /// The line sent for this command.
    pub fn write(&self) -> (r: String)
        ensures
            r@ == "AT+CNMI="@ + dec_chars(self.mode.code()) + opt_num_arg(
                match self.mt {
                    Option::Some(m) => Some(m.code()),
                    Option::None => None,
                },
            ) + opt_num_arg(
                match self.bm {
                    Option::Some(m) => Some(m.code()),
                    Option::None => None,
                },
            ) + opt_num_arg(
                match self.ds {
                    Option::Some(m) => Some(m.code()),
                    Option::None => None,
                },
            ) + opt_num_arg(
                match self.bfr {
                    Option::Some(m) => Some(m.code()),
                    Option::None => None,
                },
            ) + "\r"@,
    {
        let mut r = string_of("AT+CNMI=");
        let num = crate::poro::to_str_radix(self.mode.as_int(), 10);
        string_append(&mut r, num.as_str());
        let mt = match self.mt {
            Option::Some(m) => Some(m.as_int()),
            Option::None => None,
        };
        append_opt_num(&mut r, mt);
        let bm = match self.bm {
            Option::Some(m) => Some(m.as_int()),
            Option::None => None,
        };
        append_opt_num(&mut r, bm);
        let ds = match self.ds {
            Option::Some(m) => Some(m.as_int()),
            Option::None => None,
        };
        append_opt_num(&mut r, ds);
        let bfr = match self.bfr {
            Option::Some(m) => Some(m.as_int()),
            Option::None => None,
        };
        append_opt_num(&mut r, bfr);
        string_append(&mut r, "\r");
        r
    }
}

/// `+CMTI: <mem>,<index>`: the unsolicited new-message notification.
#[derive(Debug, Clone, PartialEq, Eq)]
pub struct NewMessageIndicationUrc {
    pub mem: String,
    pub index: i32,
}

/// Mathematical image of the notification.
pub ghost struct NewMessageIndicationUrcView {
    pub mem: Seq<char>,
    pub index: i32,
}

impl View for NewMessageIndicationUrc {
    type V = NewMessageIndicationUrcView;

    open spec fn view(&self) -> NewMessageIndicationUrcView {
        NewMessageIndicationUrcView { mem: self.mem@, index: self.index }
    }
}

/// What the new-message notification parses to: the head, a quoted storage
/// name, and the slot index.
pub open spec fn cmti_spec(v: Seq<u8>) -> Option<NewMessageIndicationUrcView> {
    match resp_chars(v) {
        Option::Some(chars) => {
            if !has_prefix(chars, "+CMTI: "@) {
                None
            } else {
                let toks = crate::poro::split_on(
                    trim_crlf(chars.skip("+CMTI: "@.len() as int)),
                    ',',
                );
                if toks.len() != 2 {
                    None
                } else {
                    match crate::call::unquoted(toks[0]) {
                        Option::Some(mem) => match crate::at::dec_bounded(
                            toks[1],
                            -0x8000_0000,
                            0x7FFF_FFFF,
                        ) {
                            Option::Some(idx) => Some(
                                NewMessageIndicationUrcView { mem: mem, index: idx as i32 },
                            ),
                            Option::None => None,
                        },
                        Option::None => None,
                    }
                }
            }
        },
        Option::None => None,
    }
}

impl NewMessageIndicationUrc {
    /// Reads the new-message notification.
    pub fn parse(v: &[u8]) -> (r: Result<NewMessageIndicationUrc, AtError>)
        ensures
            match cmti_spec(v@) {
                Option::Some(urc) => r is Ok && r->Ok_0@ == urc,
                Option::None => r is Err,
            },
    {
        let chars = match crate::at::bytes_to_chars(v) {
            Ok(c) => c,
            Err(e) => {
                return Err(e);
            },
        };
        let body = match crate::at::strip_prefix_chars(chars.as_slice(), "+CMTI: ") {
            Option::Some(b) => b,
            Option::None => {
                return Err(AtError::Parse);
            },
        };
        let trimmed = crate::at::trim_crlf_chars(body.as_slice());
        let toks = crate::poro::split_chars(trimmed.as_slice(), ',');
        if toks.len() != 2 {
            return Err(AtError::Parse);
        }
        proof {
            assert(crate::poro::token_views(toks@)[0] == toks@[0]@);
            assert(crate::poro::token_views(toks@)[1] == toks@[1]@);
        }
        let mem = match crate::call::unquote_chars(toks[0].as_slice()) {
            Option::Some(q) => crate::text::chars_to_string(q.as_slice()),
            Option::None => {
                return Err(AtError::Parse);
            },
        };
        let idx = match crate::at::parse_dec_bounded(toks[1].as_slice(), -0x8000_0000, 0x7FFF_FFFF) {
            Ok(c) => c,
            Err(e) => {
                return Err(e);
            },
        };
        Ok(NewMessageIndicationUrc { mem: mem, index: idx as i32 })
    }
}

// ---------------------------------------------------------------------------
// Reading a stored message
// ---------------------------------------------------------------------------

/// A stored-message reply:
/// `+CMGR: <stat>,<sender>,<mid>,<datetime>` then the body on its own line.
/// The sender and the body travel as UCS2 hex and are held decoded.
#[derive(Debug, Clone, PartialEq, Eq)]
pub struct SMSMessageResponse {
    pub stat: String,
    pub sn: UCS2HexString,
    pub mid: Option<String>,
    pub date_time: String,
    pub message: UCS2HexString,
}

/// Mathematical image of a stored-message reply.
pub ghost struct SMSMessageResponseView {
    pub stat: Seq<char>,
    pub sn: crate::hexstr::UCS2HexStringView,
    pub mid: Option<Seq<char>>,
    pub date_time: Seq<char>,
    pub message: crate::hexstr::UCS2HexStringView,
}

impl View for SMSMessageResponse {
    type V = SMSMessageResponseView;

    open spec fn view(&self) -> SMSMessageResponseView {
        SMSMessageResponseView {
            stat: self.stat@,
            sn: self.sn@,
            mid: match self.mid {
                Option::Some(ref s) => Some(s@),
                Option::None => None,
            },
            date_time: self.date_time@,
            message: self.message@,
        }
    }
}

/// A quoted field starting at `i`: its text and the cursor after the
/// closing quote.
pub open spec fn take_quoted(s: Seq<char>, i: int) -> Option<(Seq<char>, int)> {
    if 0 <= i < s.len() && s[i] == '"' {
        let rest = s.skip(i + 1);
        let e = find_char(rest, '"');
        if e < 0 {
            None
        } else {
            Some((rest.take(e), i + 1 + e + 1))
        }
    } else {
        None
    }
}

/// The raw pieces of a stored-message reply: the four quoted head fields
/// and the code units of the two hex-borne ones, with the body read from
/// its own line.
pub ghost struct CmgrRaw {
    pub stat: Seq<char>,
    pub sn_units: Seq<u16>,
    pub mid: Seq<char>,
    pub date_time: Seq<char>,
    pub msg_units: Seq<u16>,
}

/// What a stored-message reply splits into: the `+CMGR: ` head, four
/// quoted comma-separated fields, a line break, and the hex body; the
/// sender and body hex must cut into 4-digit chunks.
pub open spec fn cmgr_raw_spec(v: Seq<u8>) -> Option<CmgrRaw> {
    match resp_chars(v) {
        Option::Some(chars) => {
            if !has_prefix(chars, "+CMGR: "@) {
                None
            } else {
                let s = chars.skip("+CMGR: "@.len() as int);
                match take_quoted(s, 0) {
                    Option::Some((stat, i)) => {
                        if !(i < s.len() && s[i] == ',') {
                            None
                        } else {
                            match take_quoted(s, i + 1) {
                                Option::Some((snhex, j)) => {
                                    if !(j < s.len() && s[j] == ',') {
                                        None
                                    } else {
                                        match take_quoted(s, j + 1) {
                                            Option::Some((mid, k)) => {
                                                if !(k < s.len() && s[k] == ',') {
                                                    None
                                                } else {
                                                    match take_quoted(s, k + 1) {
                                                        Option::Some((dt, l)) => {
                                                            if !(l + 2 <= s.len() && s[l] == '\r'
                                                                && s[l + 1] == '\n') {
                                                                None
                                                            } else {
                                                                let payload = trim_crlf(
                                                                    s.skip(l + 2),
                                                                );
                                                                match hex_chunks(
                                                                    snhex,
                                                                    4,
                                                                    65535,
                                                                ) {
                                                                    Option::Some(sn_vals) => match hex_chunks(
                                                                        payload,
                                                                        4,
                                                                        65535,
                                                                    ) {
                                                                        Option::Some(msg_vals) => Some(
                                                                            CmgrRaw {
                                                                                stat: stat,
                                                                                sn_units: sn_vals.map_values(
                                                                                    |x: int| x as u16,
                                                                                ),
                                                                                mid: mid,
                                                                                date_time: dt,
                                                                                msg_units: msg_vals.map_values(
                                                                                    |x: int| x as u16,
                                                                                ),
                                                                            },
                                                                        ),
                                                                        Option::None => None,
                                                                    },
                                                                    Option::None => None,
                                                                }
                                                            }
                                                        },
                                                        Option::None => None,
                                                    }
                                                }
                                            },
                                            Option::None => None,
                                        }
                                    }
                                },
                                Option::None => None,
                            }
                        }
                    },
                    Option::None => None,
                }
            }
        },
        Option::None => None,
    }
}

/// Reads a quoted field at the cursor.
fn p_take_quoted(s: &[char], i: usize) -> (r: Option<(Vec<char>, usize)>)
    ensures
        match take_quoted(s@, i as int) {
            Option::Some((text, j)) => r is Some && r->Some_0.0@ == text && r->Some_0.1 == j,
            Option::None => r is None,
        },
{
    let n = s.len();
    if !(i < n && s[i] == '"') {
        return None;
    }
    let mut j: usize = i + 1;
    let ghost rest = s@.skip(i as int + 1);
    while j < n && s[j] != '"'
        invariant
            i + 1 <= j <= n,
            n == s@.len(),
            rest == s@.skip(i as int + 1),
            forall|m: int| 0 <= m < j - i - 1 ==> rest[m] != '"',
        decreases n - j,
    {
        j = j + 1;
    }
    proof {
        crate::poro::lemma_find_char(rest, '"');
    }
    if j >= n {
        proof {
            if find_char(rest, '"') >= 0 {
                assert(rest[find_char(rest, '"')] == '"');
            }
        }
        return None;
    }
    proof {
        assert(rest[j - i - 1] == s@[j as int] && s@[j as int] == '"');
        if find_char(rest, '"') != j - i - 1 {
            let fc = find_char(rest, '"');
            if 0 <= fc < j - i - 1 {
                assert(rest[fc] != '"');
            }
        }
        assert(find_char(rest, '"') == j - i - 1);
    }
    let mut text: Vec<char> = Vec::new();
    let mut m: usize = i + 1;
    while m < j
        invariant
            i + 1 <= m <= j,
            j < n,
            n == s@.len(),
            text@ == s@.subrange(i as int + 1, m as int),
        decreases j - m,
    {
        text.push(s[m]);
        m = m + 1;
        proof {
            assert(text@ =~= s@.subrange(i as int + 1, m as int));
        }
    }
    proof {
        assert(text@ =~= rest.take(j - i - 1));
    }
    Some((text, j + 1))
}

/// Decodes a UCS2 hex field into its text.
fn p_decode_ucs2(t: &[char]) -> (r: Result<String, AtError>)
    ensures
        match hex_chunks(t@, 4, 65535) {
            Option::Some(vals) => {
                let units = vals.map_values(|x: int| x as u16);
                if utf16_decodable(units) {
                    r is Ok && encode_utf16_seq(r->Ok_0@) == units
                } else {
                    r is Err
                }
            },
            Option::None => r is Err,
        },
{
    let hex_text = crate::text::chars_to_string(t);
    let units = match crate::hexstr::decode_hex_u16(hex_text.as_str()) {
        Ok(u) => u,
        Err(_) => {
            return Err(AtError::Parse);
        },
    };
    proof {
        match hex_chunks(t@, 4, 65535) {
            Option::Some(vals) => {
                assert(units@ =~= vals.map_values(|x: int| x as u16));
            },
            Option::None => {
                assert(false);
            },
        }
    }
    let chars = match crate::hexstr::decode_utf16_units(units.as_slice()) {
        Ok(c) => c,
        Err(_) => {
            return Err(AtError::Parse);
        },
    };
    Ok(crate::text::chars_to_string(chars.as_slice()))
}

impl AtReadSMSMessagesWrite {
    /// Reads a stored-message reply; the sender and body hex must decode
    /// to well-formed text, and what is returned encodes back to exactly
    /// the units the reply carried.
    #[verifier::rlimit(100)]
    pub fn parse(&self, v: &[u8]) -> (r: Result<SMSMessageResponse, AtError>)
        ensures
            match cmgr_raw_spec(v@) {
                Option::Some(raw) => {
                    if utf16_decodable(raw.sn_units) && utf16_decodable(raw.msg_units) {
                        r is Ok && r->Ok_0@.stat == raw.stat && encode_utf16_seq(r->Ok_0@.sn.text)
                            == raw.sn_units && r->Ok_0@.sn.quoted == true && r->Ok_0@.mid == Some(
                            raw.mid,
                        ) && r->Ok_0@.date_time == raw.date_time && encode_utf16_seq(
                            r->Ok_0@.message.text,
                        ) == raw.msg_units && r->Ok_0@.message.quoted == false
                    } else {
                        r is Err
                    }
                },
                Option::None => r is Err,
            },
    {
        let chars = match crate::at::bytes_to_chars(v) {
            Ok(c) => c,
            Err(e) => {
                return Err(e);
            },
        };
        let body = match crate::at::strip_prefix_chars(chars.as_slice(), "+CMGR: ") {
            Option::Some(b) => b,
            Option::None => {
                return Err(AtError::Parse);
            },
        };
        let (stat, i) = match p_take_quoted(body.as_slice(), 0) {
            Option::Some(x) => x,
            Option::None => {
                return Err(AtError::Parse);
            },
        };
        if !(i < body.len() && body[i] == ',') {
            return Err(AtError::Parse);
        }
        let (snhex, j) = match p_take_quoted(body.as_slice(), i + 1) {
            Option::Some(x) => x,
            Option::None => {
                return Err(AtError::Parse);
            },
        };
        if !(j < body.len() && body[j] == ',') {
            return Err(AtError::Parse);
        }
        let (mid, k) = match p_take_quoted(body.as_slice(), j + 1) {
            Option::Some(x) => x,
            Option::None => {
                return Err(AtError::Parse);
            },
        };
        if !(k < body.len() && body[k] == ',') {
            return Err(AtError::Parse);
        }
        let (dt, l) = match p_take_quoted(body.as_slice(), k + 1) {
            Option::Some(x) => x,
            Option::None => {
                return Err(AtError::Parse);
            },
        };
        if !(body.len() >= 2 && l <= body.len() - 2 && body[l] == '\r' && body[l + 1] == '\n') {
            return Err(AtError::Parse);
        }
        let after = vstd::slice::slice_subrange(body.as_slice(), l + 2, body.len());
        proof {
            assert(after@ =~= body@.skip(l as int + 2));
        }
        let payload = crate::at::trim_crlf_chars(after);
        let sn_text = match p_decode_ucs2(snhex.as_slice()) {
            Ok(t) => t,
            Err(e) => {
                return Err(e);
            },
        };
        let msg_text = match p_decode_ucs2(payload.as_slice()) {
            Ok(t) => t,
            Err(e) => {
                return Err(e);
            },
        };
        Ok(
            SMSMessageResponse {
                stat: crate::text::chars_to_string(stat.as_slice()),
                sn: UCS2HexString { text: sn_text, quoted: true },
                mid: Some(crate::text::chars_to_string(mid.as_slice())),
                date_time: crate::text::chars_to_string(dt.as_slice()),
                message: UCS2HexString { text: msg_text, quoted: false },
            },
        )
    }
}

/// The timestamp a stored message's date text stands for.  A well-shaped
/// text (`YY/MM/DD,HH:MM:SS+ZZ`, the two-digit year from 2000) is read
/// field by field, each unreadable field zero; anything else falls back to
/// the fixed epoch of 2000.  The quarter-hour zone suffix is accepted and
/// not applied: the field values themselves are stored as the instant.
pub open spec fn sms_timestamp_spec(dt: Seq<char>) -> int {
    if dt.len() == 20 {
        crate::gps::clamp_i64(
            civil_unix_millis(
                2000 + dt2(dt, 0),
                dt2(dt, 3),
                dt2(dt, 6),
                dt2(dt, 9),
                dt2(dt, 12),
                dt2(dt, 15),
                0,
            ),
        )
    } else {
        crate::gps::clamp_i64(civil_unix_millis(2000, 1, 1, 0, 0, 0, 0))
    }
}

/// A two-digit field of the date text.
pub open spec fn dt2(s: Seq<char>, a: int) -> int {
    if s.len() >= a + 2 {
        dec_or_zero(s.subrange(a, a + 2), 0, 255)
    } else {
        0
    }
}

fn p_dt2(t: &[char], a: usize) -> (r: i64)
    ensures
        r as int == dt2(t@, a as int),
{
    if t.len() >= 2 && a <= t.len() - 2 {
        let f = vstd::slice::slice_subrange(t, a, a + 2);
        crate::at::parse_dec_or_zero(f, 0, 255)
    } else {
        0
    }
}

/// The message a stored-message reply stands for: its state read from the
/// state text, the decoded sender and body, and the timestamp of its date
/// text.  An unknown state text rejects the message.
pub open spec fn sms_of_response(resp: SMSMessageResponseView) -> Option<SmsView> {
    match sms_stat_of(resp.stat) {
        Option::Some(stat) => Some(
            SmsView {
                stat: stat,
                phone_number: resp.sn.text,
                unix_timestamp_millis: sms_timestamp_spec(resp.date_time) as i64,
                message: resp.message.text,
            },
        ),
        Option::None => None,
    }
}

/// Turns a stored-message reply into the message it carries.
pub fn read_sms_from_response(resp: &SMSMessageResponse) -> (r: Result<Sms, &'static str>)
    ensures
        match sms_of_response(resp@) {
            Option::Some(sms) => r is Ok && r->Ok_0@ == sms,
            Option::None => r is Err,
        },
{
    let stat = match SmsStat::from_str(resp.stat.as_str()) {
        Ok(s) => s,
        Err(e) => {
            return Err(e);
        },
    };
    let dt = crate::text::str_to_chars(resp.date_time.as_str());
    let ts: i64 = if dt.len() == 20 {
        let yy = p_dt2(dt.as_slice(), 0);
        let month = p_dt2(dt.as_slice(), 3);
        let day = p_dt2(dt.as_slice(), 6);
        let hour = p_dt2(dt.as_slice(), 9);
        let minute = p_dt2(dt.as_slice(), 12);
        let second = p_dt2(dt.as_slice(), 15);
        crate::datetime::unix_millis_from_civil(
            (2000 + yy) as i32,
            month as u8,
            day as u8,
            hour as u8,
            minute as u8,
            second as u8,
            0,
        )
    } else {
        crate::datetime::unix_millis_from_civil(2000, 1, 1, 0, 0, 0, 0)
    };
    Ok(
        Sms {
            stat: stat,
            phone_number: crate::text::string_of(resp.phone_text()),
            unix_timestamp_millis: ts,
            message: crate::text::string_of(resp.message_text()),
        },
    )
}

impl SMSMessageResponse {
    /// The decoded sender number.
    pub fn phone_text(&self) -> (r: &str)
        ensures
            r@ == self@.sn.text,
    {
        self.sn.text.as_str()
    }

    /// The decoded body text.
    pub fn message_text(&self) -> (r: &str)
        ensures
            r@ == self@.message.text,
    {
        self.message.text.as_str()
    }
}

} // verus!
