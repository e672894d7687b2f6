//! Voice call commands and the incoming-caller notification.

use vstd::prelude::*;

verus! {

use crate::at::{dec_bounded, has_prefix, resp_chars, trim_crlf, AtError};
use crate::poro::{dec_chars, split_on};
use crate::text::{string_append, string_of};

/// `AT+CHFA=<n>`: select the audio channel before dialing.
#[derive(Debug, Clone, Copy, PartialEq, Eq, Structural)]
pub struct AtSwapAudioChannelsWrite {
    pub n: AudioChannels,
}

/// The audio channels the module offers.
#[derive(Debug, Clone, Copy, PartialEq, Eq, Structural)]
pub enum AudioChannels {
    Main,
    Aux,
    MainHandFree,
    AuxHandFree,
    PCM,
}

impl AudioChannels {
    /// The integer code of the channel on the wire.
    pub open spec fn code(self) -> int {
        match self {
            AudioChannels::Main => 1,
            AudioChannels::Aux => 2,
            AudioChannels::MainHandFree => 3,
            AudioChannels::AuxHandFree => 4,
            AudioChannels::PCM => 5,
        }
    }

    fn as_int(&self) -> (r: i64)
        ensures
            r as int == self.code(),
    {
        match self {
            AudioChannels::Main => 1,
            AudioChannels::Aux => 2,
            AudioChannels::MainHandFree => 3,
            AudioChannels::AuxHandFree => 4,
            AudioChannels::PCM => 5,
        }
    }
}

impl AtSwapAudioChannelsWrite {
    /// The line sent for this command.
    pub fn write(&self) -> (r: String)
        ensures
            r@ == "AT+CHFA="@ + dec_chars(self.n.code()) + "\r"@,
    {
        let mut r = string_of("AT+CHFA=");
        let num = crate::poro::to_str_radix(self.n.as_int(), 10);
        string_append(&mut r, num.as_str());
        string_append(&mut r, "\r");
        r
    }
}

/// `ATD<number>,i;`: dial, with caller-id presentation to the called party.
#[derive(Debug, Clone, PartialEq, Eq)]
pub struct AtDialNumber {
    pub number: String,
}

impl AtDialNumber {
    /// The line sent for this command.
    pub fn write(&self) -> (r: String)
        ensures
            r@ == "ATD"@ + self.number@ + ",i;\r"@,
    {
        let mut r = string_of("ATD");
        string_append(&mut r, self.number.as_str());
        string_append(&mut r, ",i;\r");
        r
    }
}

/// `AT+CHUP;`: hang up the call.
#[derive(Debug, Clone, Copy, PartialEq, Eq, Structural)]
pub struct AtHangup;

impl AtHangup {
    /// The line sent for this command.
    pub fn write(&self) -> (r: String)
        ensures
            r@ == "AT+CHUP;\r"@,
    {
        string_of("AT+CHUP;\r")
    }
}

/// `AT+CLIP=<n>`: switch calling-line identification on or off, so that
/// incoming caller numbers arrive unsolicited.
#[derive(Debug, Clone, Copy, PartialEq, Eq, Structural)]
pub struct AtCallingLineIdentificationPresentationWrite {
    pub n: ClipMode,
}

/// Whether the incoming-caller notification is delivered.
#[derive(Debug, Clone, Copy, PartialEq, Eq, Structural)]
pub enum ClipMode {
    DisableClipNotification,
    EnableClipNotification,
}

impl ClipMode {
    /// The integer code of the mode on the wire.
    pub open spec fn code(self) -> int {
        match self {
            ClipMode::DisableClipNotification => 0,
            ClipMode::EnableClipNotification => 1,
        }
    }
}

impl AtCallingLineIdentificationPresentationWrite {
    /// The line sent for this command.
    pub fn write(&self) -> (r: String)
        ensures
            r@ == "AT+CLIP="@ + dec_chars(self.n.code()) + "\r"@,
    {
        let mut r = string_of("AT+CLIP=");
        let num = match self.n {
            ClipMode::DisableClipNotification => string_of("0"),
            ClipMode::EnableClipNotification => string_of("1"),
        };
        proof {
            reveal_strlit("0");
            reveal_strlit("1");
            assert(crate::poro::digit36_char(0) == '0');
            assert(crate::poro::digit36_char(1) == '1');
            assert(dec_chars(0) =~= seq![crate::poro::digit36_char(0)]);
            assert(dec_chars(1) =~= seq![crate::poro::digit36_char(1)]);
            assert(dec_chars(self.n.code()) =~= num@);
        }
        string_append(&mut r, num.as_str());
        string_append(&mut r, "\r");
        r
    }

    /// This command waits longer than the default for its reply.
    pub fn max_timeout_ms(&self) -> (r: u32)
        ensures
            r == 15000,
    {
        15000
    }
}

/// The type of an incoming number.
#[derive(Debug, Clone, Copy, PartialEq, Eq, Structural)]
pub enum ClipType {
    Unknown,
    National,
    International,
    NetworkSpecific,
}

impl ClipType {
    /// The integer code of the number type on the wire.
    pub open spec fn code(self) -> int {
        match self {
            ClipType::Unknown => 129,
            ClipType::National => 161,
            ClipType::International => 145,
            ClipType::NetworkSpecific => 177,
        }
    }
}

/// Whether the incoming number was delivered, withheld or unavailable.
#[derive(Debug, Clone, Copy, PartialEq, Eq, Structural)]
pub enum ClipValidity {
    Valid,
    Withheld,
    NotAvailable,
}

impl ClipValidity {
    /// The integer code of the validity on the wire.
    pub open spec fn code(self) -> int {
        match self {
            ClipValidity::Valid => 0,
            ClipValidity::Withheld => 1,
            ClipValidity::NotAvailable => 2,
        }
    }
}

/// The incoming-caller notification:
/// `+CLIP: <number>,<type>[,<subaddr>,<satype>,<alphaId>,<CLI validity>]`.
#[derive(Debug, Clone, PartialEq, Eq)]
pub struct ClipUrc {
    pub number: String,
    pub type_: ClipType,
    pub sub_addr: Option<String>,
    pub sa_type: Option<i32>,
    pub alpha_id: Option<String>,
    pub cli_validity: Option<ClipValidity>,
}

/// Mathematical image of the notification.
pub ghost struct ClipUrcView {
    pub number: Seq<char>,
    pub type_: ClipType,
    pub sub_addr: Option<Seq<char>>,
    pub sa_type: Option<i32>,
    pub alpha_id: Option<Seq<char>>,
    pub cli_validity: Option<ClipValidity>,
}

impl View for ClipUrc {
    type V = ClipUrcView;

    open spec fn view(&self) -> ClipUrcView {
        ClipUrcView {
            number: self.number@,
            type_: self.type_,
            sub_addr: match self.sub_addr {
                Option::Some(ref s) => Some(s@),
                Option::None => None,
            },
            sa_type: self.sa_type,
            alpha_id: match self.alpha_id {
                Option::Some(ref s) => Some(s@),
                Option::None => None,
            },
            cli_validity: self.cli_validity,
        }
    }
}

/// The text inside a quoted field, or nothing for an unquoted one.
pub open spec fn unquoted(t: Seq<char>) -> Option<Seq<char>> {
    if t.len() >= 2 && t[0] == '"' && t.last() == '"' {
        Some(t.subrange(1, t.len() - 1))
    } else {
        None
    }
}

/// Drops the surrounding quotes of a field.
pub fn unquote_chars(t: &[char]) -> (r: Option<Vec<char>>)
    ensures
        match unquoted(t@) {
            Option::Some(inner) => r is Some && r->Some_0@ == inner,
            Option::None => r is None,
        },
{
    let n = t.len();
    if n < 2 || t[0] != '"' || t[n - 1] != '"' {
        return None;
    }
    let mut out: Vec<char> = Vec::new();
    let mut i: usize = 1;
    while i < n - 1
        invariant
            1 <= i <= n - 1,
            n == t@.len(),
            n >= 2,
            out@ == t@.subrange(1, i as int),
        decreases n - i,
    {
        out.push(t[i]);
        i = i + 1;
        proof {
            assert(out@ =~= t@.subrange(1, i as int));
        }
    }
    Some(out)
}

/// The number-type for a wire code.
pub open spec fn clip_type_of(code: int) -> Option<ClipType> {
    if code == 129 {
        Some(ClipType::Unknown)
    } else if code == 161 {
        Some(ClipType::National)
    } else if code == 145 {
        Some(ClipType::International)
    } else if code == 177 {
        Some(ClipType::NetworkSpecific)
    } else {
        None
    }
}

/// What the incoming-caller notification parses to: the head, a quoted
/// number and a known type code; up to four further fields, each optional,
/// quoted text and codes in turn.
pub open spec fn clip_urc_spec(v: Seq<u8>) -> Option<ClipUrcView> {
    match resp_chars(v) {
        Option::Some(chars) => {
            if !has_prefix(chars, "+CLIP: "@) {
                None
            } else {
                let toks = split_on(trim_crlf(chars.skip("+CLIP: "@.len() as int)), ',');
                if toks.len() < 2 || toks.len() > 6 {
                    None
                } else {
                    match unquoted(toks[0]) {
                        Option::Some(number) => match dec_bounded(toks[1], 0, 255) {
                            Option::Some(tc) => match clip_type_of(tc) {
                                Option::Some(ty) => clip_urc_rest(toks, number, ty),
                                Option::None => None,
                            },
                            Option::None => None,
                        },
                        Option::None => None,
                    }
                }
            }
        },
        Option::None => None,
    }
}

/// The optional tail fields of the notification.
pub open spec fn clip_urc_rest(toks: Seq<Seq<char>>, number: Seq<char>, ty: ClipType) -> Option<
    ClipUrcView,
> {
    let sub_addr: Option<Option<Seq<char>>> = if toks.len() >= 3 {
        match unquoted(toks[2]) {
            Option::Some(s) => Some(Some(s)),
            Option::None => None,
        }
    } else {
        Some(None)
    };
    let sa_type: Option<Option<i32>> = if toks.len() >= 4 {
        match dec_bounded(toks[3], -0x8000_0000, 0x7FFF_FFFF) {
            Option::Some(v) => Some(Some(v as i32)),
            Option::None => None,
        }
    } else {
        Some(None)
    };
    let alpha_id: Option<Option<Seq<char>>> = if toks.len() >= 5 {
        match unquoted(toks[4]) {
            Option::Some(s) => Some(Some(s)),
            Option::None => None,
        }
    } else {
        Some(None)
    };
    let validity: Option<Option<ClipValidity>> = if toks.len() >= 6 {
        match dec_bounded(toks[5], 0, 2) {
            Option::Some(v) => Some(
                Some(
                    if v == 0 {
                        ClipValidity::Valid
                    } else if v == 1 {
                        ClipValidity::Withheld
                    } else {
                        ClipValidity::NotAvailable
                    },
                ),
            ),
            Option::None => None,
        }
    } else {
        Some(None)
    };
    match sub_addr {
        Option::Some(sub_addr) => match sa_type {
            Option::Some(sa_type) => match alpha_id {
                Option::Some(alpha_id) => match validity {
                    Option::Some(cli_validity) => Some(
                        ClipUrcView {
                            number: number,
                            type_: ty,
                            sub_addr: sub_addr,
                            sa_type: sa_type,
                            alpha_id: alpha_id,
                            cli_validity: cli_validity,
                        },
                    ),
                    Option::None => None,
                },
                Option::None => None,
            },
            Option::None => None,
        },
        Option::None => None,
    }
}

impl ClipUrc {
    /// Reads the incoming-caller notification.
    #[verifier::rlimit(100)]
    pub fn parse(v: &[u8]) -> (r: Result<ClipUrc, AtError>)
        ensures
            match clip_urc_spec(v@) {
                Option::Some(urc) => r is Ok && r->Ok_0@ == urc,
                Option::None => r is Err,
            },
    {
        let chars = match crate::at::bytes_to_chars(v) {
            Ok(c) => c,
            Err(e) => {
                return Err(e);
            },
        };
        let body = match crate::at::strip_prefix_chars(chars.as_slice(), "+CLIP: ") {
            Option::Some(b) => b,
            Option::None => {
                return Err(AtError::Parse);
            },
        };
        let trimmed = crate::at::trim_crlf_chars(body.as_slice());
        let toks = crate::poro::split_chars(trimmed.as_slice(), ',');
        let n = toks.len();
        if n < 2 || n > 6 {
            return Err(AtError::Parse);
        }
        proof {
            assert forall|j: int| 0 <= j < toks@.len() implies crate::poro::token_views(toks@)[j]
                == toks@[j]@ by {}
        }
        let number = match unquote_chars(toks[0].as_slice()) {
            Option::Some(q) => crate::text::chars_to_string(q.as_slice()),
            Option::None => {
                return Err(AtError::Parse);
            },
        };
        let tc = match crate::at::parse_dec_bounded(toks[1].as_slice(), 0, 255) {
            Ok(c) => c,
            Err(e) => {
                return Err(e);
            },
        };
        let ty = if tc == 129 {
            ClipType::Unknown
        } else if tc == 161 {
            ClipType::National
        } else if tc == 145 {
            ClipType::International
        } else if tc == 177 {
            ClipType::NetworkSpecific
        } else {
            return Err(AtError::Parse);
        };
        let sub_addr: Option<String> = if n >= 3 {
            match unquote_chars(toks[2].as_slice()) {
                Option::Some(q) => Some(crate::text::chars_to_string(q.as_slice())),
                Option::None => {
                    return Err(AtError::Parse);
                },
            }
        } else {
            None
        };
        let sa_type: Option<i32> = if n >= 4 {
            match crate::at::parse_dec_bounded(toks[3].as_slice(), -0x8000_0000, 0x7FFF_FFFF) {
                Ok(c) => Some(c as i32),
                Err(e) => {
                    return Err(e);
                },
            }
        } else {
            None
        };
        let alpha_id: Option<String> = if n >= 5 {
            match unquote_chars(toks[4].as_slice()) {
                Option::Some(q) => Some(crate::text::chars_to_string(q.as_slice())),
                Option::None => {
                    return Err(AtError::Parse);
                },
            }
        } else {
            None
        };
        let cli_validity: Option<ClipValidity> = if n >= 6 {
            match crate::at::parse_dec_bounded(toks[5].as_slice(), 0, 2) {
                Ok(c) => Some(
                    if c == 0 {
                        ClipValidity::Valid
                    } else if c == 1 {
                        ClipValidity::Withheld
                    } else {
                        ClipValidity::NotAvailable
                    },
                ),
                Err(e) => {
                    return Err(e);
                },
            }
        } else {
            None
        };
        Ok(
            ClipUrc {
                number: number,
                type_: ty,
                sub_addr: sub_addr,
                sa_type: sa_type,
                alpha_id: alpha_id,
                cli_validity: cli_validity,
            },
        )
    }
}

} // verus!
