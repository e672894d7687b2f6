//! The battery charge query.

use vstd::prelude::*;

verus! {

use crate::at::{dec_bounded, has_prefix, resp_chars, trim_crlf, AtError};
use crate::poro::split_on;
use crate::text::string_of;

/// `AT+CBC`: read the battery connection state, charge level and voltage.
#[derive(Debug, Clone, Copy, PartialEq, Eq, Structural)]
pub struct AtBatteryChargeExecute;

/// The charging state the module reports.
#[derive(Debug, Clone, Copy, PartialEq, Eq, Structural)]
pub enum BatteryStatus {
    NotCharging,
    Charging,
    ChargingFinished,
}

impl BatteryStatus {
    /// The integer code of the state on the wire.
    pub open spec fn code(self) -> int {
        match self {
            BatteryStatus::NotCharging => 0,
            BatteryStatus::Charging => 1,
            BatteryStatus::ChargingFinished => 2,
        }
    }
}

/// `+CBC: <bcs>,<bcl>,<voltage>`.
#[derive(Debug, Clone, Copy, PartialEq, Eq, Structural)]
pub struct BatteryChargeResponse {
    pub bcs: BatteryStatus,
    pub bcl: u8,
    pub voltage: u32,
}

/// What the charge reply parses to: the `+CBC: ` head, then the state code,
/// the charge percentage and the voltage, comma-separated.
pub open spec fn battery_resp_spec(v: Seq<u8>) -> Option<BatteryChargeResponse> {
    match resp_chars(v) {
        Option::Some(chars) => {
            if !has_prefix(chars, "+CBC: "@) {
                None
            } else {
                let toks = split_on(trim_crlf(chars.skip("+CBC: "@.len() as int)), ',');
                if toks.len() != 3 {
                    None
                } else {
                    match dec_bounded(toks[0], 0, 2) {
                        Option::Some(code) => match dec_bounded(toks[1], 0, 255) {
                            Option::Some(bcl) => match dec_bounded(toks[2], 0, 0xFFFF_FFFF) {
                                Option::Some(voltage) => Some(
                                    BatteryChargeResponse {
                                        bcs: if code == 0 {
                                            BatteryStatus::NotCharging
                                        } else if code == 1 {
                                            BatteryStatus::Charging
                                        } else {
                                            BatteryStatus::ChargingFinished
                                        },
                                        bcl: bcl as u8,
                                        voltage: voltage as u32,
                                    },
                                ),
                                Option::None => None,
                            },
                            Option::None => None,
                        },
                        Option::None => None,
                    }
                }
            }
        },
        Option::None => None,
    }
}

impl AtBatteryChargeExecute {
    /// The line sent for this command.
    pub fn write(&self) -> (r: String)
        ensures
            r@ == "AT+CBC\r"@,
    {
        string_of("AT+CBC\r")
    }

    /// Reads the charge reply.
    pub fn parse(&self, v: &[u8]) -> (r: Result<BatteryChargeResponse, AtError>)
        ensures
            match battery_resp_spec(v@) {
                Option::Some(resp) => r is Ok && r->Ok_0 == resp,
                Option::None => r is Err,
            },
    {
        let chars = match crate::at::bytes_to_chars(v) {
            Ok(c) => c,
            Err(e) => {
                return Err(e);
            },
        };
        let body = match crate::at::strip_prefix_chars(chars.as_slice(), "+CBC: ") {
            Option::Some(b) => b,
            Option::None => {
                return Err(AtError::Parse);
            },
        };
        let trimmed = crate::at::trim_crlf_chars(body.as_slice());
        let toks = crate::poro::split_chars(trimmed.as_slice(), ',');
        if toks.len() != 3 {
            return Err(AtError::Parse);
        }
        proof {
            assert(crate::poro::token_views(toks@)[0] == toks@[0]@);
            assert(crate::poro::token_views(toks@)[1] == toks@[1]@);
            assert(crate::poro::token_views(toks@)[2] == toks@[2]@);
        }
        let code = match crate::at::parse_dec_bounded(toks[0].as_slice(), 0, 2) {
            Ok(c) => c,
            Err(e) => {
                return Err(e);
            },
        };
        let bcl = match crate::at::parse_dec_bounded(toks[1].as_slice(), 0, 255) {
            Ok(c) => c,
            Err(e) => {
                return Err(e);
            },
        };
        let voltage = match crate::at::parse_dec_bounded(toks[2].as_slice(), 0, 0xFFFF_FFFF) {
            Ok(c) => c,
            Err(e) => {
                return Err(e);
            },
        };
        Ok(
            BatteryChargeResponse {
                bcs: if code == 0 {
                    BatteryStatus::NotCharging
                } else if code == 1 {
                    BatteryStatus::Charging
                } else {
                    BatteryStatus::ChargingFinished
                },
                bcl: bcl as u8,
                voltage: voltage as u32,
            },
        )
    }
}

} // verus!
