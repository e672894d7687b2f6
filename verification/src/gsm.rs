//! Cell-tower locating: packet-service attach, bearer bring-up, the
//! base-station query, and the session that guarantees the bearer is closed
//! and the packet service detached on every exit path.

use vstd::prelude::*;

verus! {

use crate::at::{dec_bounded, dec_or_zero, has_prefix, resp_chars, trim_crlf, AtError};
use crate::datetime::{civil_unix_millis, unix_millis_from_civil};
use crate::location::Location;
use crate::poro::{dec_chars, split_on};
use crate::text::{string_append, string_of};

/// `AT+CGATT=<state>`: attach to or detach from the packet service.
#[derive(Debug, Clone, Copy, PartialEq, Eq, Structural)]
pub struct AtAttachGPRS {
    pub state: AttachState,
}

/// Packet-service attachment states.
#[derive(Debug, Clone, Copy, PartialEq, Eq, Structural)]
pub enum AttachState {
    Detach,
    Attach,
}

impl AttachState {
    /// The integer code of the state on the wire.
    pub open spec fn code(self) -> int {
        match self {
            AttachState::Detach => 0,
            AttachState::Attach => 1,
        }
    }
}

impl AtAttachGPRS {
    /// The line sent for this command.
    pub fn write(&self) -> (r: String)
        ensures
            r@ == "AT+CGATT="@ + dec_chars(self.state.code()) + "\r"@,
    {
        let mut r = string_of("AT+CGATT=");
        let num = match self.state {
            AttachState::Detach => string_of("0"),
            AttachState::Attach => string_of("1"),
        };
        proof {
            reveal_strlit("0");
            reveal_strlit("1");
            assert(crate::poro::digit36_char(0) == '0');
            assert(crate::poro::digit36_char(1) == '1');
            assert(dec_chars(0) =~= seq![crate::poro::digit36_char(0)]);
            assert(dec_chars(1) =~= seq![crate::poro::digit36_char(1)]);
            assert(dec_chars(self.state.code()) =~= num@);
        }
        string_append(&mut r, num.as_str());
        string_append(&mut r, "\r");
        r
    }

    /// Attachment waits longer than the default for its reply.
    pub fn max_timeout_ms(&self) -> (r: u32)
        ensures
            r == 7500,
    {
        7500
    }
}

/// `AT+CSTT=<apn>[,<user>[,<password>]]`: set the access-point name.
#[derive(Debug, Clone, PartialEq, Eq)]
pub struct AtSetApnWrite {
    pub apn: String,
    pub user_name: Option<String>,
    pub password: Option<String>,
}

/// The optional quoted tail arguments of a command line.
pub open spec fn opt_quoted_arg(v: Option<Seq<char>>) -> Seq<char> {
    match v {
        Option::Some(s) => ","@ + seq!['"'] + s + seq!['"'],
        Option::None => Seq::empty(),
    }
}

impl AtSetApnWrite {
    /// The line sent for this command.
    pub fn write(&self) -> (r: String)
        ensures
            r@ == "AT+CSTT=\""@ + self.apn@ + "\""@ + opt_quoted_arg(
                match self.user_name {
                    Option::Some(ref s) => Some(s@),
                    Option::None => None,
                },
            ) + opt_quoted_arg(
                match self.password {
                    Option::Some(ref s) => Some(s@),
                    Option::None => None,
                },
            ) + "\r"@,
    {
        let mut r = string_of("AT+CSTT=\"");
        string_append(&mut r, self.apn.as_str());
        string_append(&mut r, "\"");
        match &self.user_name {
            Option::Some(u) => {
                string_append(&mut r, ",\"");
                string_append(&mut r, u.as_str());
                string_append(&mut r, "\"");
                proof {
                    reveal_strlit(",\"");
                    reveal_strlit("\"");
                }
            },
            Option::None => {},
        }
        match &self.password {
            Option::Some(u) => {
                string_append(&mut r, ",\"");
                string_append(&mut r, u.as_str());
                string_append(&mut r, "\"");
                proof {
                    reveal_strlit(",\"");
                    reveal_strlit("\"");
                }
            },
            Option::None => {},
        }
        string_append(&mut r, "\r");
        proof {
            reveal_strlit(",\"");
            reveal_strlit("\"");
            reveal_strlit(",");
            assert(r@ =~= "AT+CSTT=\""@ + self.apn@ + "\""@ + opt_quoted_arg(
                match self.user_name {
                    Option::Some(ref s) => Some(s@),
                    Option::None => None,
                },
            ) + opt_quoted_arg(
                match self.password {
                    Option::Some(ref s) => Some(s@),
                    Option::None => None,
                },
            ) + "\r"@);
        }
        r
    }
}

/// `AT+CIICR`: bring up the wireless connection.
#[derive(Debug, Clone, Copy, PartialEq, Eq, Structural)]
pub struct AtBringUpWirelessConnectionExecute;

impl AtBringUpWirelessConnectionExecute {
    /// The line sent for this command.
    pub fn write(&self) -> (r: String)
        ensures
            r@ == "AT+CIICR\r"@,
    {
        string_of("AT+CIICR\r")
    }

    /// Bring-up waits far longer than the default for its reply.
    pub fn max_timeout_ms(&self) -> (r: u32)
        ensures
            r == 85000,
    {
        85000
    }
}

/// `AT+CIFSR`: read the local address the connection was given.
#[derive(Debug, Clone, Copy, PartialEq, Eq, Structural)]
pub struct AtGetLocalIPAddressExecute;

/// The assigned address, as its raw text.
#[derive(Debug, Clone, PartialEq, Eq)]
pub struct GetLocalIPAddressResponse {
    pub address: String,
}

/// Mathematical image of the address reply.
pub ghost struct GetLocalIPAddressResponseView {
    pub address: Seq<char>,
}

impl View for GetLocalIPAddressResponse {
    type V = GetLocalIPAddressResponseView;

    open spec fn view(&self) -> GetLocalIPAddressResponseView {
        GetLocalIPAddressResponseView { address: self.address@ }
    }
}

impl AtGetLocalIPAddressExecute {
    /// The line sent for this command.
    pub fn write(&self) -> (r: String)
        ensures
            r@ == "AT+CIFSR\r"@,
    {
        string_of("AT+CIFSR\r")
    }

    /// Reads the address reply: the line's text, without its ending.
    pub fn parse(&self, v: &[u8]) -> (r: Result<GetLocalIPAddressResponse, AtError>)
        ensures
            match resp_chars(v@) {
                Option::Some(chars) => r is Ok && r->Ok_0@.address == trim_crlf(chars),
                Option::None => r is Err,
            },
    {
        let chars = match crate::at::bytes_to_chars(v) {
            Ok(c) => c,
            Err(e) => {
                return Err(e);
            },
        };
        let trimmed = crate::at::trim_crlf_chars(chars.as_slice());
        Ok(GetLocalIPAddressResponse { address: crate::text::chars_to_string(trimmed.as_slice()) })
    }
}

/// `AT+SAPBR=<cmd_type>,<cid>[,<tag>,<value>]`: bearer settings and
/// switching.
#[derive(Debug, Clone, PartialEq, Eq)]
pub struct AtSetBearerWrite {
    pub cmd_type: CmdType,
    pub cid: u8,
    pub con_param_tag: Option<String>,
    pub con_param_value: Option<String>,
}

/// What the bearer command does.
#[derive(Debug, Clone, Copy, PartialEq, Eq, Structural)]
pub enum CmdType {
    CloseBearer,
    OpenBearer,
    QueryBearer,
    SetBearerParameters,
    GetBearerParameters,
}

impl CmdType {
    /// The integer code of the action on the wire.
    pub open spec fn code(self) -> int {
        match self {
            CmdType::CloseBearer => 0,
            CmdType::OpenBearer => 1,
            CmdType::QueryBearer => 2,
            CmdType::SetBearerParameters => 3,
            CmdType::GetBearerParameters => 4,
        }
    }

    fn as_int(&self) -> (r: i64)
        ensures
            r as int == self.code(),
    {
        match self {
            CmdType::CloseBearer => 0,
            CmdType::OpenBearer => 1,
            CmdType::QueryBearer => 2,
            CmdType::SetBearerParameters => 3,
            CmdType::GetBearerParameters => 4,
        }
    }
}

impl AtSetBearerWrite {
    /// The line sent for this command.
    pub fn write(&self) -> (r: String)
        ensures
            r@ == "AT+SAPBR="@ + dec_chars(self.cmd_type.code()) + ","@ + dec_chars(
                self.cid as int,
            ) + opt_quoted_arg(
                match self.con_param_tag {
                    Option::Some(ref s) => Some(s@),
                    Option::None => None,
                },
            ) + opt_quoted_arg(
                match self.con_param_value {
                    Option::Some(ref s) => Some(s@),
                    Option::None => None,
                },
            ) + "\r"@,
    {
        let mut r = string_of("AT+SAPBR=");
        let ct = crate::poro::to_str_radix(self.cmd_type.as_int(), 10);
        string_append(&mut r, ct.as_str());
        string_append(&mut r, ",");
        let cid = crate::poro::to_str_radix(self.cid as i64, 10);
        string_append(&mut r, cid.as_str());
        match &self.con_param_tag {
            Option::Some(u) => {
                string_append(&mut r, ",\"");
                string_append(&mut r, u.as_str());
                string_append(&mut r, "\"");
                proof {
                    reveal_strlit(",\"");
                    reveal_strlit("\"");
                }
            },
            Option::None => {},
        }
        match &self.con_param_value {
            Option::Some(u) => {
                string_append(&mut r, ",\"");
                string_append(&mut r, u.as_str());
                string_append(&mut r, "\"");
                proof {
                    reveal_strlit(",\"");
                    reveal_strlit("\"");
                }
            },
            Option::None => {},
        }
        string_append(&mut r, "\r");
        proof {
            reveal_strlit(",\"");
            reveal_strlit("\"");
            reveal_strlit(",");
            assert(r@ =~= "AT+SAPBR="@ + dec_chars(self.cmd_type.code()) + ","@ + dec_chars(
                self.cid as int,
            ) + opt_quoted_arg(
                match self.con_param_tag {
                    Option::Some(ref s) => Some(s@),
                    Option::None => None,
                },
            ) + opt_quoted_arg(
                match self.con_param_value {
                    Option::Some(ref s) => Some(s@),
                    Option::None => None,
                },
            ) + "\r"@);
        }
        r
    }

    /// Bearer switching waits far longer than the default for its reply.
    pub fn max_timeout_ms(&self) -> (r: u32)
        ensures
            r == 85000,
    {
        85000
    }
}

/// `AT+CLBSCFG=<operate>,<para>[,<value>]`: configure the location service.
#[derive(Debug, Clone, PartialEq, Eq)]
pub struct AtBaseStationLocationConfWrite {
    pub operate: Operate,
    pub para: Para,
    pub value: Option<String>,
}

/// Read or set a location-service parameter.
#[derive(Debug, Clone, Copy, PartialEq, Eq, Structural)]
pub enum Operate {
    Read,
    SetParameter,
}

impl Operate {
    /// The integer code of the operation on the wire.
    pub open spec fn code(self) -> int {
        match self {
            Operate::Read => 0,
            Operate::SetParameter => 1,
        }
    }
}

/// Which location-service parameter is addressed.
#[derive(Debug, Clone, Copy, PartialEq, Eq, Structural)]
pub enum Para {
    CustomerID,
    TimesHaveUsedPositioningCommand,
    ServerAddress,
}

impl Para {
    /// The integer code of the parameter on the wire.
    pub open spec fn code(self) -> int {
        match self {
            Para::CustomerID => 0,
            Para::TimesHaveUsedPositioningCommand => 1,
            Para::ServerAddress => 3,
        }
    }

    fn as_int(&self) -> (r: i64)
        ensures
            r as int == self.code(),
    {
        match self {
            Para::CustomerID => 0,
            Para::TimesHaveUsedPositioningCommand => 1,
            Para::ServerAddress => 3,
        }
    }
}

impl AtBaseStationLocationConfWrite {
    /// The line sent for this command.
    pub fn write(&self) -> (r: String)
        ensures
            r@ == "AT+CLBSCFG="@ + dec_chars(self.operate.code()) + ","@ + dec_chars(
                self.para.code(),
            ) + opt_quoted_arg(
                match self.value {
                    Option::Some(ref s) => Some(s@),
                    Option::None => None,
                },
            ) + "\r"@,
    {
        let mut r = string_of("AT+CLBSCFG=");
        let op = match self.operate {
            Operate::Read => string_of("0"),
            Operate::SetParameter => string_of("1"),
        };
        proof {
            reveal_strlit("0");
            reveal_strlit("1");
            assert(crate::poro::digit36_char(0) == '0');
            assert(crate::poro::digit36_char(1) == '1');
            assert(dec_chars(0) =~= seq![crate::poro::digit36_char(0)]);
            assert(dec_chars(1) =~= seq![crate::poro::digit36_char(1)]);
            assert(dec_chars(self.operate.code()) =~= op@);
        }
        string_append(&mut r, op.as_str());
        string_append(&mut r, ",");
        let pa = crate::poro::to_str_radix(self.para.as_int(), 10);
        string_append(&mut r, pa.as_str());
        match &self.value {
            Option::Some(u) => {
                string_append(&mut r, ",\"");
                string_append(&mut r, u.as_str());
                string_append(&mut r, "\"");
                proof {
                    reveal_strlit(",\"");
                    reveal_strlit("\"");
                }
            },
            Option::None => {},
        }
        string_append(&mut r, "\r");
        proof {
            reveal_strlit(",\"");
            reveal_strlit("\"");
            reveal_strlit(",");
            assert(r@ =~= "AT+CLBSCFG="@ + dec_chars(self.operate.code()) + ","@ + dec_chars(
                self.para.code(),
            ) + opt_quoted_arg(
                match self.value {
                    Option::Some(ref s) => Some(s@),
                    Option::None => None,
                },
            ) + "\r"@);
        }
        r
    }
}

/// `AT+CLBS=<type>,<cid>`: query the base-station fix.
#[derive(Debug, Clone, Copy, PartialEq, Eq, Structural)]
pub struct AtBaseStationLocationWrite {
    pub type_: LocationType,
    pub cid: u8,
    pub longitude: Option<i64>,
    pub latitude: Option<i64>,
    pub lon_type: Option<LonType>,
}

/// What kind of base-station answer is requested.
#[derive(Debug, Clone, Copy, PartialEq, Eq, Structural)]
pub enum LocationType {
    Use3Cell,
    GetAccessTimes,
    GetLongLatDateTime,
    ReportPositionError,
}

impl LocationType {
    /// The integer code of the request kind on the wire.
    pub open spec fn code(self) -> int {
        match self {
            LocationType::Use3Cell => 1,
            LocationType::GetAccessTimes => 3,
            LocationType::GetLongLatDateTime => 4,
            LocationType::ReportPositionError => 9,
        }
    }

    fn as_int(&self) -> (r: i64)
        ensures
            r as int == self.code(),
    {
        match self {
            LocationType::Use3Cell => 1,
            LocationType::GetAccessTimes => 3,
            LocationType::GetLongLatDateTime => 4,
            LocationType::ReportPositionError => 9,
        }
    }
}

/// The coordinate convention of a supplied position.
#[derive(Debug, Clone, Copy, PartialEq, Eq, Structural)]
pub enum LonType {
    WGS84,
    GCJ02,
}

impl AtBaseStationLocationWrite {
    /// The line sent for this command.  Only the request kind and the
    /// connection id travel; the optional position arguments are not used
    /// by this device and are omitted.
    pub fn write(&self) -> (r: String)
        ensures
            r@ == "AT+CLBS="@ + dec_chars(self.type_.code()) + ","@ + dec_chars(self.cid as int)
                + "\r"@,
    {
        let mut r = string_of("AT+CLBS=");
        let ty = crate::poro::to_str_radix(self.type_.as_int(), 10);
        string_append(&mut r, ty.as_str());
        string_append(&mut r, ",");
        let cid = crate::poro::to_str_radix(self.cid as i64, 10);
        string_append(&mut r, cid.as_str());
        string_append(&mut r, "\r");
        proof {
            reveal_strlit(",");
            assert(r@ =~= "AT+CLBS="@ + dec_chars(self.type_.code()) + ","@ + dec_chars(
                self.cid as int,
            ) + "\r"@);
        }
        r
    }
}

/// How the location service answered.
#[derive(Debug, Clone, Copy, PartialEq, Eq, Structural)]
pub enum LocationCode {
    Success,
    Failed,
    Timeout,
    NetError,
    DNSError,
    ServiceOverdue,
    AuthenticationFailed,
    OtherError,
    ReportLbsToServerSuccess,
    ReportLbsToServerParameter,
    ReportLbsToServerFAiled,
}

/// The answer code a wire value stands for.
pub open spec fn location_code_of(v: int) -> Option<LocationCode> {
    if v == 0 {
        Some(LocationCode::Success)
    } else if v == 1 {
        Some(LocationCode::Failed)
    } else if v == 2 {
        Some(LocationCode::Timeout)
    } else if v == 3 {
        Some(LocationCode::NetError)
    } else if v == 4 {
        Some(LocationCode::DNSError)
    } else if v == 5 {
        Some(LocationCode::ServiceOverdue)
    } else if v == 6 {
        Some(LocationCode::AuthenticationFailed)
    } else if v == 7 {
        Some(LocationCode::OtherError)
    } else if v == 80 {
        Some(LocationCode::ReportLbsToServerSuccess)
    } else if v == 81 {
        Some(LocationCode::ReportLbsToServerParameter)
    } else if v == 82 {
        Some(LocationCode::ReportLbsToServerFAiled)
    } else {
        None
    }
}

/// The base-station fix:
/// `+CLBS: <code>,<longitude>,<latitude>,<accuracy>,<date>,<time>`, the
/// calendar fields split out of the `DD/MM/YY` and `HH:MM:SS` texts, an
/// unreadable one zero.
#[derive(Debug, Clone, Copy, PartialEq, Eq, Structural)]
pub struct BaseStationLocationResponseType4 {
    pub location_code: LocationCode,
    pub longitude: Option<i64>,
    pub latitude: Option<i64>,
    pub accuracy: Option<i64>,
    pub year: i32,
    pub month: u8,
    pub day: u8,
    pub hour: u8,
    pub minute: u8,
    pub second: u8,
}

/// A two-digit calendar field of the `DD/MM/YY` and `HH:MM:SS` texts.
pub open spec fn two_digit_field(s: Seq<char>, a: int) -> int {
    if s.len() >= a + 2 {
        dec_or_zero(s.subrange(a, a + 2), 0, 255)
    } else {
        0
    }
}

/// What the base-station reply parses to: the `+CLBS: ` head and exactly
/// six comma-separated fields, with a known answer code; coordinates carry
/// 1e-10 degrees, the accuracy 1e-6 meters, and the two-digit year counts
/// from 2000.
pub open spec fn clbs_resp_spec(v: Seq<u8>) -> Option<BaseStationLocationResponseType4> {
    match resp_chars(v) {
        Option::Some(chars) => {
            if !has_prefix(chars, "+CLBS: "@) {
                None
            } else {
                let toks = split_on(trim_crlf(chars.skip("+CLBS: "@.len() as int)), ',');
                if toks.len() != 6 {
                    None
                } else {
                    match dec_bounded(toks[0], 0, 255) {
                        Option::Some(code) => match location_code_of(code) {
                            Option::Some(lc) => match opt_coord(toks[1]) {
                                Option::Some(lon) => match opt_coord(toks[2]) {
                                    Option::Some(lat) => match opt_acc(toks[3]) {
                                        Option::Some(acc) => Some(
                                            BaseStationLocationResponseType4 {
                                                location_code: lc,
                                                longitude: lon,
                                                latitude: lat,
                                                accuracy: acc,
                                                year: (2000 + two_digit_field(toks[4], 6)) as i32,
                                                month: two_digit_field(toks[4], 3) as u8,
                                                day: two_digit_field(toks[4], 0) as u8,
                                                hour: two_digit_field(toks[5], 0) as u8,
                                                minute: two_digit_field(toks[5], 3) as u8,
                                                second: two_digit_field(toks[5], 6) as u8,
                                            },
                                        ),
                                        Option::None => None,
                                    },
                                    Option::None => None,
                                },
                                Option::None => None,
                            },
                            Option::None => None,
                        },
                        Option::None => None,
                    }
                }
            }
        },
        Option::None => None,
    }
}

/// An optional coordinate field at 1e-10 scale.
pub open spec fn opt_coord(t: Seq<char>) -> Option<Option<i64>> {
    crate::gps::opt_fix_field(t, 10)
}

/// An optional accuracy field at 1e-6 scale.
pub open spec fn opt_acc(t: Seq<char>) -> Option<Option<i64>> {
    crate::gps::opt_fix_field(t, 6)
}

fn p_two_digit(t: &Vec<char>, a: usize) -> (r: i64)
    ensures
        r as int == two_digit_field(t@, a as int),
{
    if t.len() >= 2 && a <= t.len() - 2 {
        let f = vstd::slice::slice_subrange(t.as_slice(), a, a + 2);
        crate::at::parse_dec_or_zero(f, 0, 255)
    } else {
        0
    }
}

impl AtBaseStationLocationWrite {
    /// Reads the base-station reply.
    #[verifier::rlimit(100)]
    pub fn parse(&self, v: &[u8]) -> (r: Result<BaseStationLocationResponseType4, AtError>)
        ensures
            match clbs_resp_spec(v@) {
                Option::Some(resp) => r is Ok && r->Ok_0 == resp,
                Option::None => r is Err,
            },
    {
        let chars = match crate::at::bytes_to_chars(v) {
            Ok(c) => c,
            Err(e) => {
                return Err(e);
            },
        };
        let body = match crate::at::strip_prefix_chars(chars.as_slice(), "+CLBS: ") {
            Option::Some(b) => b,
            Option::None => {
                return Err(AtError::Parse);
            },
        };
        let trimmed = crate::at::trim_crlf_chars(body.as_slice());
        let toks = crate::poro::split_chars(trimmed.as_slice(), ',');
        if toks.len() != 6 {
            return Err(AtError::Parse);
        }
        proof {
            assert forall|j: int| 0 <= j < toks@.len() implies crate::poro::token_views(toks@)[j]
                == toks@[j]@ by {}
        }
        let code = match crate::at::parse_dec_bounded(toks[0].as_slice(), 0, 255) {
            Ok(c) => c,
            Err(e) => {
                return Err(e);
            },
        };
        let lc = if code == 0 {
            LocationCode::Success
        } else if code == 1 {
            LocationCode::Failed
        } else if code == 2 {
            LocationCode::Timeout
        } else if code == 3 {
            LocationCode::NetError
        } else if code == 4 {
            LocationCode::DNSError
        } else if code == 5 {
            LocationCode::ServiceOverdue
        } else if code == 6 {
            LocationCode::AuthenticationFailed
        } else if code == 7 {
            LocationCode::OtherError
        } else if code == 80 {
            LocationCode::ReportLbsToServerSuccess
        } else if code == 81 {
            LocationCode::ReportLbsToServerParameter
        } else if code == 82 {
            LocationCode::ReportLbsToServerFAiled
        } else {
            return Err(AtError::Parse);
        };
        let lon = if toks[1].len() == 0 {
            None
        } else {
            match crate::at::parse_fixpoint(toks[1].as_slice(), 10) {
                Ok(x) => Some(x),
                Err(e) => {
                    return Err(e);
                },
            }
        };
        let lat = if toks[2].len() == 0 {
            None
        } else {
            match crate::at::parse_fixpoint(toks[2].as_slice(), 10) {
                Ok(x) => Some(x),
                Err(e) => {
                    return Err(e);
                },
            }
        };
        let acc = if toks[3].len() == 0 {
            None
        } else {
            match crate::at::parse_fixpoint(toks[3].as_slice(), 6) {
                Ok(x) => Some(x),
                Err(e) => {
                    return Err(e);
                },
            }
        };
        let day = p_two_digit(&toks[4], 0);
        let month = p_two_digit(&toks[4], 3);
        let yy = p_two_digit(&toks[4], 6);
        let hour = p_two_digit(&toks[5], 0);
        let minute = p_two_digit(&toks[5], 3);
        let second = p_two_digit(&toks[5], 6);
        Ok(
            BaseStationLocationResponseType4 {
                location_code: lc,
                longitude: lon,
                latitude: lat,
                accuracy: acc,
                year: (2000 + yy) as i32,
                month: month as u8,
                day: day as u8,
                hour: hour as u8,
                minute: minute as u8,
                second: second as u8,
            },
        )
    }
}

// ---------------------------------------------------------------------------
// The locating session
// ---------------------------------------------------------------------------

/// The steps of the bracketed sequence, in the order they run.
#[derive(Debug, Clone, Copy, PartialEq, Eq, Structural)]
pub enum GsmStep {
    /// Attach to the packet service.
    Attach,
    /// Set the access-point name.
    SetApn,
    /// Bring up the wireless connection.
    BringUp,
    /// Read the assigned address.
    GetIp,
    /// Set the bearer's access-point name.
    BearerApn,
    /// Set the bearer's connection type.
    BearerContype,
    /// Open the bearer.
    BearerOpen,
    /// Point the location service at its server.
    LbsConfig,
    /// Query the base-station fix; pause first after a failed query.
    Locate { sleep_first: bool },
    /// Close the bearer.
    CloseBearer,
    /// Detach from the packet service.
    Detach,
}

/// One cell-tower locating run.  Setup steps walk forward while they
/// succeed; the first failure turns onto the cleanup path, and the cleanup
/// steps — close the bearer, detach — run on every exit but a failure of
/// the attach itself, which left nothing to clean up.
#[derive(Debug, Clone, Copy, PartialEq, Eq, Structural)]
pub struct GsmSession {
    pub max_retries: u8,
    pub attempt: u8,
    pub step: GsmStep,
    pub done: bool,
    pub result: Option<Location>,
}

/// The setup step after a successful one, or the first cleanup step once
/// polling may begin.
pub open spec fn gsm_next_setup(step: GsmStep, max_retries: u8) -> GsmStep {
    match step {
        GsmStep::Attach => GsmStep::SetApn,
        GsmStep::SetApn => GsmStep::BringUp,
        GsmStep::BringUp => GsmStep::GetIp,
        GsmStep::GetIp => GsmStep::BearerApn,
        GsmStep::BearerApn => GsmStep::BearerContype,
        GsmStep::BearerContype => GsmStep::BearerOpen,
        GsmStep::BearerOpen => GsmStep::LbsConfig,
        GsmStep::LbsConfig => if max_retries == 0 {
            GsmStep::CloseBearer
        } else {
            GsmStep::Locate { sleep_first: false }
        },
        _ => step,
    }
}

/// The step a failed setup step falls back to: nothing after a failed
/// attach, detach alone before the bearer was opened, the full cleanup
/// after.
pub open spec fn gsm_cleanup_of(step: GsmStep) -> Option<GsmStep> {
    match step {
        GsmStep::Attach => None,
        GsmStep::SetApn => Some(GsmStep::Detach),
        GsmStep::BringUp => Some(GsmStep::Detach),
        GsmStep::GetIp => Some(GsmStep::Detach),
        GsmStep::BearerApn => Some(GsmStep::Detach),
        GsmStep::BearerContype => Some(GsmStep::Detach),
        GsmStep::BearerOpen => Some(GsmStep::Detach),
        GsmStep::LbsConfig => Some(GsmStep::CloseBearer),
        _ => None,
    }
}

/// The location a successful base-station reply stands for: the coordinates
/// and accuracy as given (zero where absent), and the time of the fix.
pub open spec fn gsm_fix_of(resp: BaseStationLocationResponseType4) -> Location {
    Location {
        latitude: match resp.latitude {
            Option::Some(v) => v,
            Option::None => 0,
        },
        longitude: match resp.longitude {
            Option::Some(v) => v,
            Option::None => 0,
        },
        accuracy: match resp.accuracy {
            Option::Some(v) => v,
            Option::None => 0,
        },
        unix_timestamp_millis: crate::gps::clamp_i64(
            civil_unix_millis(
                resp.year as int,
                resp.month as int,
                resp.day as int,
                resp.hour as int,
                resp.minute as int,
                resp.second as int,
                0,
            ),
        ) as i64,
    }
}

impl GsmSession {
    /// Starts a session that will query the fix at most `max_retries`
    /// times.
    pub fn new(max_retries: u8) -> (r: GsmSession)
        ensures
            r == (GsmSession {
                max_retries,
                attempt: 0,
                step: GsmStep::Attach,
                done: false,
                result: None::<Location>,
            }),
    {
        GsmSession { max_retries, attempt: 0, step: GsmStep::Attach, done: false, result: None }
    }

    /// The step to run now, or nothing once the session is done.
    pub fn pending(&self) -> (r: Option<GsmStep>)
        ensures
            r == if self.done {
                Option::<GsmStep>::None
            } else {
                Some(self.step)
            },
    {
        if self.done {
            None
        } else {
            Some(self.step)
        }
    }

    /// A setup or cleanup step completed with or without success.  Success
    /// walks the setup forward; a setup failure turns onto the cleanup
    /// path or, for the attach itself, ends the session; a cleanup step
    /// always walks on regardless of its own outcome, so both cleanup
    /// commands are always issued.
    pub fn on_step_result(&mut self, ok: bool)
        requires
            !old(self).done,
            !(old(self).step matches GsmStep::Locate { .. }),
        ensures
            final(self).max_retries == old(self).max_retries,
            final(self).attempt == old(self).attempt,
            final(self).result == old(self).result,
            match old(self).step {
                GsmStep::CloseBearer => final(self).step == GsmStep::Detach && !final(self).done,
                GsmStep::Detach => final(self).done,
                _ => {
                    if ok {
                        final(self).step == gsm_next_setup(old(self).step, old(self).max_retries)
                            && !final(self).done
                    } else {
                        match gsm_cleanup_of(old(self).step) {
                            Option::Some(c) => final(self).step == c && !final(self).done,
                            Option::None => final(self).done,
                        }
                    }
                },
            },
    {
        match self.step {
            GsmStep::CloseBearer => {
                self.step = GsmStep::Detach;
            },
            GsmStep::Detach => {
                self.done = true;
            },
            GsmStep::Attach => {
                if ok {
                    self.step = GsmStep::SetApn;
                } else {
                    self.done = true;
                }
            },
            GsmStep::LbsConfig => {
                if ok {
                    if self.max_retries == 0 {
                        self.step = GsmStep::CloseBearer;
                    } else {
                        self.step = GsmStep::Locate { sleep_first: false };
                    }
                } else {
                    self.step = GsmStep::CloseBearer;
                }
            },
            GsmStep::SetApn => {
                if ok {
                    self.step = GsmStep::BringUp;
                } else {
                    self.step = GsmStep::Detach;
                }
            },
            GsmStep::BringUp => {
                if ok {
                    self.step = GsmStep::GetIp;
                } else {
                    self.step = GsmStep::Detach;
                }
            },
            GsmStep::GetIp => {
                if ok {
                    self.step = GsmStep::BearerApn;
                } else {
                    self.step = GsmStep::Detach;
                }
            },
            GsmStep::BearerApn => {
                if ok {
                    self.step = GsmStep::BearerContype;
                } else {
                    self.step = GsmStep::Detach;
                }
            },
            GsmStep::BearerContype => {
                if ok {
                    self.step = GsmStep::BearerOpen;
                } else {
                    self.step = GsmStep::Detach;
                }
            },
            GsmStep::BearerOpen => {
                if ok {
                    self.step = GsmStep::LbsConfig;
                } else {
                    self.step = GsmStep::Detach;
                }
            },
            GsmStep::Locate { .. } => {},
        }
    }

    /// A fix query answered or failed.  A successful answer stores the
    /// location and turns to the cleanup; a failed query pauses before the
    /// next one, an answer with a failure code retries at once; spent
    /// retries turn to the cleanup empty-handed.
    pub fn on_locate_result(&mut self, resp: Result<BaseStationLocationResponseType4, AtError>)
        requires
            !old(self).done,
            old(self).step matches GsmStep::Locate { .. },
            old(self).attempt < old(self).max_retries,
        ensures
            final(self).max_retries == old(self).max_retries,
            !final(self).done,
            match resp {
                Result::Ok(resp) => if resp.location_code == LocationCode::Success {
                    final(self).result == Some(gsm_fix_of(resp)) && final(self).step
                        == GsmStep::CloseBearer && final(self).attempt == old(self).attempt
                } else {
                    final(self).result == old(self).result && final(self).attempt == old(
                        self,
                    ).attempt + 1 && final(self).step == (if old(self).attempt + 1 == old(
                        self,
                    ).max_retries {
                        GsmStep::CloseBearer
                    } else {
                        GsmStep::Locate { sleep_first: false }
                    })
                },
                Result::Err(_) => final(self).result == old(self).result && final(self).attempt
                    == old(self).attempt + 1 && final(self).step == (if old(self).attempt + 1
                    == old(self).max_retries {
                    GsmStep::CloseBearer
                } else {
                    GsmStep::Locate { sleep_first: true }
                }),
            },
    {
        match resp {
            Result::Ok(resp) => {
                let success = match resp.location_code {
                    LocationCode::Success => true,
                    _ => false,
                };
                if success {
                    let lat = match resp.latitude {
                        Option::Some(v) => v,
                        Option::None => 0,
                    };
                    let lon = match resp.longitude {
                        Option::Some(v) => v,
                        Option::None => 0,
                    };
                    let acc = match resp.accuracy {
                        Option::Some(v) => v,
                        Option::None => 0,
                    };
                    let ts = unix_millis_from_civil(
                        resp.year,
                        resp.month,
                        resp.day,
                        resp.hour,
                        resp.minute,
                        resp.second,
                        0,
                    );
                    self.result = Some(
                        Location {
                            latitude: lat,
                            longitude: lon,
                            accuracy: acc,
                            unix_timestamp_millis: ts,
                        },
                    );
                    self.step = GsmStep::CloseBearer;
                } else {
                    self.attempt = self.attempt + 1;
                    if self.attempt == self.max_retries {
                        self.step = GsmStep::CloseBearer;
                    } else {
                        self.step = GsmStep::Locate { sleep_first: false };
                    }
                }
            },
            Result::Err(_) => {
                self.attempt = self.attempt + 1;
                if self.attempt == self.max_retries {
                    self.step = GsmStep::CloseBearer;
                } else {
                    self.step = GsmStep::Locate { sleep_first: true };
                }
            },
        }
    }
}

} // verus!
