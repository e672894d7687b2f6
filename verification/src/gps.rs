//! The GNSS receiver: power control, the navigation query, and the
//! acquisition session that brackets polling between power-on and a
//! guaranteed power-off.

use vstd::prelude::*;

verus! {

use crate::at::{
    dec_bounded, dec_or_zero, fixpoint_i64, resp_chars, trim_crlf, AtError,
};
use crate::datetime::{civil_unix_millis, div_trunc, unix_millis_from_civil};
use crate::location::Location;
use crate::poro::{dec_chars, split_on};
use crate::text::{string_append, string_of};

/// `AT+CGNSPWR=<mode>`: switch the receiver on or off.
#[derive(Debug, Clone, Copy, PartialEq, Eq, Structural)]
pub struct AtGnssPowerControlWrite {
    pub mode: PowerMode,
}

/// Receiver power states.
#[derive(Debug, Clone, Copy, PartialEq, Eq, Structural)]
pub enum PowerMode {
    TurnOff,
    TurnOn,
}

impl PowerMode {
    /// The integer code of the mode on the wire.
    pub open spec fn code(self) -> int {
        match self {
            PowerMode::TurnOff => 0,
            PowerMode::TurnOn => 1,
        }
    }
}

impl AtGnssPowerControlWrite {
    /// The line sent for this command.
    pub fn write(&self) -> (r: String)
        ensures
            r@ == "AT+CGNSPWR="@ + dec_chars(self.mode.code()) + "\r"@,
    {
        let mut r = string_of("AT+CGNSPWR=");
        let num = match self.mode {
            PowerMode::TurnOff => string_of("0"),
            PowerMode::TurnOn => string_of("1"),
        };
        proof {
            reveal_strlit("0");
            reveal_strlit("1");
            assert(crate::poro::digit36_char(0) == '0');
            assert(crate::poro::digit36_char(1) == '1');
            assert(dec_chars(0) =~= seq![crate::poro::digit36_char(0)]);
            assert(dec_chars(1) =~= seq![crate::poro::digit36_char(1)]);
            assert(dec_chars(self.mode.code()) =~= num@);
        }
        string_append(&mut r, num.as_str());
        string_append(&mut r, "\r");
        r
    }
}

/// `AT+CGNSINF`: query the navigation information.
#[derive(Debug, Clone, Copy, PartialEq, Eq, Structural)]
pub struct AtGnssNavigationInformationExecute;

impl AtGnssNavigationInformationExecute {
    /// The line sent for this command.
    pub fn write(&self) -> (r: String)
        ensures
            r@ == "AT+CGNSINF\r"@,
    {
        string_of("AT+CGNSINF\r")
    }
}

/// Whether the receiver is running.
#[derive(Debug, Clone, Copy, PartialEq, Eq, Structural)]
pub enum GNSSRunStatus {
    Off,
    On,
}

/// Whether a position fix is held.
#[derive(Debug, Clone, Copy, PartialEq, Eq, Structural)]
pub enum FixStatus {
    NotFixedPosition,
    FixedPosition,
}

/// The date and time of a fix, split into its calendar fields.  A field
/// that cannot be read is zero.
#[derive(Debug, Clone, Copy, PartialEq, Eq, Structural)]
pub struct GnssDateTime {
    pub year: i32,
    pub month: u8,
    pub day: u8,
    pub hour: u8,
    pub minute: u8,
    pub second: u8,
    pub millis: u32,
}

/// The navigation information: every field of the 21-token reply the logic
/// reads.  Coordinates carry 1e-10 degrees, dilution and accuracy fields
/// 1e-6 units; an empty token is an absent field.
#[derive(Debug, Clone, Copy, PartialEq, Eq, Structural)]
pub struct GnssNavigationInformationResponse {
    pub gnss_run_status: Option<GNSSRunStatus>,
    pub fix_status: Option<FixStatus>,
    pub utc_date_time: Option<GnssDateTime>,
    pub latitude: Option<i64>,
    pub longitude: Option<i64>,
    pub msl_altitude: Option<i64>,
    pub speed_over_ground: Option<i64>,
    pub course_over_ground: Option<i64>,
    pub fix_mode: Option<u8>,
    pub reserved1: Option<u8>,
    pub hdop: Option<i64>,
    pub pdop: Option<i64>,
    pub vdop: Option<i64>,
    pub reserved2: Option<u8>,
    pub gps_satellites_in_view: Option<u8>,
    pub gnss_satellites_used: Option<u8>,
    pub glonass_satellites_in_view: Option<u8>,
    pub reserved3: Option<u8>,
    pub c_n0_max: Option<u8>,
    pub hpa: Option<i64>,
    pub vpa: Option<i64>,
}

/// A fixed calendar field of the date/time token: the given character
/// range, or zero where the token is too short or unreadable.
pub open spec fn dt_field(s: Seq<char>, a: int, b: int, hi: int) -> int {
    if s.len() >= b {
        dec_or_zero(s.subrange(a, b), 0, hi)
    } else {
        0
    }
}

/// The calendar fields of the `yyyyMMddhhmmss.sss` token.  A millisecond
/// count too large to stand in nanoseconds is read as zero.
pub open spec fn gnss_datetime_of(s: Seq<char>) -> GnssDateTime {
    GnssDateTime {
        year: dt_field(s, 0, 4, 0x7FFF_FFFF) as i32,
        month: dt_field(s, 4, 6, 255) as u8,
        day: dt_field(s, 6, 8, 255) as u8,
        hour: dt_field(s, 8, 10, 255) as u8,
        minute: dt_field(s, 10, 12, 255) as u8,
        second: dt_field(s, 12, 14, 255) as u8,
        millis: (if s.len() >= 16 {
            dec_or_zero(s.skip(15), 0, 4294)
        } else {
            0
        }) as u32,
    }
}

/// An optional fixed-point field: absent when empty, rejected when
/// unreadable.
pub open spec fn opt_fix_field(t: Seq<char>, scale: int) -> Option<Option<i64>> {
    if t.len() == 0 {
        Some(None)
    } else {
        match fixpoint_i64(t, scale) {
            Option::Some(v) => Some(Some(v as i64)),
            Option::None => None,
        }
    }
}

/// An optional small decimal field: absent when empty, rejected when
/// unreadable.
pub open spec fn opt_u8_field(t: Seq<char>) -> Option<Option<u8>> {
    if t.len() == 0 {
        Some(None)
    } else {
        match dec_bounded(t, 0, 255) {
            Option::Some(v) => Some(Some(v as u8)),
            Option::None => None,
        }
    }
}

/// What the navigation reply parses to: ten head bytes are dropped, the
/// rest must be text of exactly 21 comma-separated tokens; an empty token
/// is an absent field, an unreadable one rejects the reply.  The three
/// reserved tokens are ignored.
pub open spec fn gnss_resp_spec(v: Seq<u8>) -> Option<GnssNavigationInformationResponse> {
    if v.len() < 10 {
        None
    } else {
        match resp_chars(v.skip(10)) {
            Option::Some(chars) => {
                let toks = split_on(trim_crlf(chars), ',');
                if toks.len() != 21 {
                    None
                } else {
                    gnss_fields_spec(toks)
                }
            },
            Option::None => None,
        }
    }
}

/// The field-by-field reading of the 21 tokens.
pub open spec fn gnss_fields_spec(toks: Seq<Seq<char>>) -> Option<
    GnssNavigationInformationResponse,
>
    recommends
        toks.len() == 21,
{
    let run = if toks[0] == "0"@ {
        Some(GNSSRunStatus::Off)
    } else if toks[0] == "1"@ {
        Some(GNSSRunStatus::On)
    } else {
        None
    };
    let fix = if toks[1] == "0"@ {
        Some(FixStatus::NotFixedPosition)
    } else if toks[1] == "1"@ {
        Some(FixStatus::FixedPosition)
    } else {
        None
    };
    let dt: Option<Option<GnssDateTime>> = if toks[2].len() == 0 {
        Some(None)
    } else if toks[2].len() > 18 {
        None
    } else {
        Some(Some(gnss_datetime_of(toks[2])))
    };
    match dt {
        Option::Some(dt) => match opt_fix_field(toks[3], 10) {
            Option::Some(lat) => match opt_fix_field(toks[4], 10) {
                Option::Some(lon) => match opt_fix_field(toks[5], 6) {
                    Option::Some(alt) => match opt_fix_field(toks[6], 6) {
                        Option::Some(speed) => match opt_fix_field(toks[7], 6) {
                            Option::Some(course) => match opt_u8_field(toks[8]) {
                                Option::Some(fix_mode) => match opt_fix_field(toks[10], 6) {
                                    Option::Some(hdop) => match opt_fix_field(toks[11], 6) {
                                        Option::Some(pdop) => match opt_fix_field(toks[12], 6) {
                                            Option::Some(vdop) => match opt_u8_field(toks[14]) {
                                                Option::Some(in_view) => match opt_u8_field(
                                                    toks[15],
                                                ) {
                                                    Option::Some(used) => match opt_u8_field(
                                                        toks[16],
                                                    ) {
                                                        Option::Some(glonass) => match opt_u8_field(
                                                            toks[18],
                                                        ) {
                                                            Option::Some(cn0) => match opt_fix_field(
                                                                toks[19],
                                                                6,
                                                            ) {
                                                                Option::Some(hpa) => match opt_fix_field(
                                                                    toks[20],
                                                                    6,
                                                                ) {
                                                                    Option::Some(vpa) => Some(
                                                                        GnssNavigationInformationResponse {
                                                                            gnss_run_status: run,
                                                                            fix_status: fix,
                                                                            utc_date_time: dt,
                                                                            latitude: lat,
                                                                            longitude: lon,
                                                                            msl_altitude: alt,
                                                                            speed_over_ground: speed,
                                                                            course_over_ground: course,
                                                                            fix_mode: fix_mode,
                                                                            reserved1: None,
                                                                            hdop: hdop,
                                                                            pdop: pdop,
                                                                            vdop: vdop,
                                                                            reserved2: None,
                                                                            gps_satellites_in_view: in_view,
                                                                            gnss_satellites_used: used,
                                                                            glonass_satellites_in_view: glonass,
                                                                            reserved3: None,
                                                                            c_n0_max: cn0,
                                                                            hpa: hpa,
                                                                            vpa: vpa,
                                                                        },
                                                                    ),
                                                                    Option::None => None,
                                                                },
                                                                Option::None => None,
                                                            },
                                                            Option::None => None,
                                                        },
                                                        Option::None => None,
                                                    },
                                                    Option::None => None,
                                                },
                                                Option::None => None,
                                            },
                                            Option::None => None,
                                        },
                                        Option::None => None,
                                    },
                                    Option::None => None,
                                },
                                Option::None => None,
                            },
                            Option::None => None,
                        },
                        Option::None => None,
                    },
                    Option::None => None,
                },
                Option::None => None,
            },
            Option::None => None,
        },
        Option::None => None,
    }
}

/// Reads one optional fixed-point token.
fn p_opt_fix(t: &Vec<char>, scale: u32) -> (r: Result<Option<i64>, AtError>)
    requires
        scale <= 10,
    ensures
        match opt_fix_field(t@, scale as int) {
            Option::Some(v) => r is Ok && r->Ok_0 == v,
            Option::None => r is Err,
        },
{
    if t.len() == 0 {
        return Ok(None);
    }
    match crate::at::parse_fixpoint(t.as_slice(), scale) {
        Ok(v) => Ok(Some(v)),
        Err(e) => Err(e),
    }
}

/// Reads one optional small decimal token.
fn p_opt_u8(t: &Vec<char>) -> (r: Result<Option<u8>, AtError>)
    ensures
        match opt_u8_field(t@) {
            Option::Some(v) => r is Ok && r->Ok_0 == v,
            Option::None => r is Err,
        },
{
    if t.len() == 0 {
        return Ok(None);
    }
    match crate::at::parse_dec_bounded(t.as_slice(), 0, 255) {
        Ok(v) => Ok(Some(v as u8)),
        Err(e) => Err(e),
    }
}

/// Reads the calendar fields of the date/time token.
fn p_gnss_datetime(t: &Vec<char>) -> (r: GnssDateTime)
    ensures
        r == gnss_datetime_of(t@),
{
    let n = t.len();
    let year = if n >= 4 {
        let f = vstd::slice::slice_subrange(t.as_slice(), 0, 4);
        crate::at::parse_dec_or_zero(f, 0, 0x7FFF_FFFF)
    } else {
        0
    };
    let month = if n >= 6 {
        let f = vstd::slice::slice_subrange(t.as_slice(), 4, 6);
        crate::at::parse_dec_or_zero(f, 0, 255)
    } else {
        0
    };
    let day = if n >= 8 {
        let f = vstd::slice::slice_subrange(t.as_slice(), 6, 8);
        crate::at::parse_dec_or_zero(f, 0, 255)
    } else {
        0
    };
    let hour = if n >= 10 {
        let f = vstd::slice::slice_subrange(t.as_slice(), 8, 10);
        crate::at::parse_dec_or_zero(f, 0, 255)
    } else {
        0
    };
    let minute = if n >= 12 {
        let f = vstd::slice::slice_subrange(t.as_slice(), 10, 12);
        crate::at::parse_dec_or_zero(f, 0, 255)
    } else {
        0
    };
    let second = if n >= 14 {
        let f = vstd::slice::slice_subrange(t.as_slice(), 12, 14);
        crate::at::parse_dec_or_zero(f, 0, 255)
    } else {
        0
    };
    let millis = if n >= 16 {
        let f = vstd::slice::slice_subrange(t.as_slice(), 15, n);
        crate::at::parse_dec_or_zero(f, 0, 4294)
    } else {
        0
    };
    GnssDateTime {
        year: year as i32,
        month: month as u8,
        day: day as u8,
        hour: hour as u8,
        minute: minute as u8,
        second: second as u8,
        millis: millis as u32,
    }
}

/// Reads the navigation reply.
#[verifier::rlimit(100)]
pub fn parse_gnss_navigation_information(v: &[u8]) -> (r: Result<
    GnssNavigationInformationResponse,
    AtError,
>)
    ensures
        match gnss_resp_spec(v@) {
            Option::Some(resp) => r is Ok && r->Ok_0 == resp,
            Option::None => r is Err,
        },
{
    if v.len() < 10 {
        return Err(AtError::Parse);
    }
    let tail = vstd::slice::slice_subrange(v, 10, v.len());
    let chars = match crate::at::bytes_to_chars(tail) {
        Ok(c) => c,
        Err(e) => {
            return Err(e);
        },
    };
    let trimmed = crate::at::trim_crlf_chars(chars.as_slice());
    let toks = crate::poro::split_chars(trimmed.as_slice(), ',');
    if toks.len() != 21 {
        return Err(AtError::Parse);
    }
    proof {
        assert forall|j: int| 0 <= j < toks@.len() implies crate::poro::token_views(toks@)[j]
            == toks@[j]@ by {}
    }
    let run = if toks[0].len() == 1 && toks[0][0] == '0' {
        proof {
            reveal_strlit("0");
            assert(toks@[0]@ =~= "0"@);
        }
        Some(GNSSRunStatus::Off)
    } else if toks[0].len() == 1 && toks[0][0] == '1' {
        proof {
            reveal_strlit("0");
            reveal_strlit("1");
            assert(toks@[0]@ =~= "1"@);
        }
        Some(GNSSRunStatus::On)
    } else {
        proof {
            reveal_strlit("0");
            reveal_strlit("1");
        }
        None
    };
    let fix = if toks[1].len() == 1 && toks[1][0] == '0' {
        proof {
            reveal_strlit("0");
            assert(toks@[1]@ =~= "0"@);
        }
        Some(FixStatus::NotFixedPosition)
    } else if toks[1].len() == 1 && toks[1][0] == '1' {
        proof {
            reveal_strlit("0");
            reveal_strlit("1");
            assert(toks@[1]@ =~= "1"@);
        }
        Some(FixStatus::FixedPosition)
    } else {
        proof {
            reveal_strlit("0");
            reveal_strlit("1");
        }
        None
    };
    let dt: Option<GnssDateTime> = if toks[2].len() == 0 {
        None
    } else if toks[2].len() > 18 {
        return Err(AtError::Parse);
    } else {
        Some(p_gnss_datetime(&toks[2]))
    };
    let lat = match p_opt_fix(&toks[3], 10) {
        Ok(x) => x,
        Err(e) => {
            return Err(e);
        },
    };
    let lon = match p_opt_fix(&toks[4], 10) {
        Ok(x) => x,
        Err(e) => {
            return Err(e);
        },
    };
    let alt = match p_opt_fix(&toks[5], 6) {
        Ok(x) => x,
        Err(e) => {
            return Err(e);
        },
    };
    let speed = match p_opt_fix(&toks[6], 6) {
        Ok(x) => x,
        Err(e) => {
            return Err(e);
        },
    };
    let course = match p_opt_fix(&toks[7], 6) {
        Ok(x) => x,
        Err(e) => {
            return Err(e);
        },
    };
    let fix_mode = match p_opt_u8(&toks[8]) {
        Ok(x) => x,
        Err(e) => {
            return Err(e);
        },
    };
    let hdop = match p_opt_fix(&toks[10], 6) {
        Ok(x) => x,
        Err(e) => {
            return Err(e);
        },
    };
    let pdop = match p_opt_fix(&toks[11], 6) {
        Ok(x) => x,
        Err(e) => {
            return Err(e);
        },
    };
    let vdop = match p_opt_fix(&toks[12], 6) {
        Ok(x) => x,
        Err(e) => {
            return Err(e);
        },
    };
    let in_view = match p_opt_u8(&toks[14]) {
        Ok(x) => x,
        Err(e) => {
            return Err(e);
        },
    };
    let used = match p_opt_u8(&toks[15]) {
        Ok(x) => x,
        Err(e) => {
            return Err(e);
        },
    };
    let glonass = match p_opt_u8(&toks[16]) {
        Ok(x) => x,
        Err(e) => {
            return Err(e);
        },
    };
    let cn0 = match p_opt_u8(&toks[18]) {
        Ok(x) => x,
        Err(e) => {
            return Err(e);
        },
    };
    let hpa = match p_opt_fix(&toks[19], 6) {
        Ok(x) => x,
        Err(e) => {
            return Err(e);
        },
    };
    let vpa = match p_opt_fix(&toks[20], 6) {
        Ok(x) => x,
        Err(e) => {
            return Err(e);
        },
    };
    Ok(
        GnssNavigationInformationResponse {
            gnss_run_status: run,
            fix_status: fix,
            utc_date_time: dt,
            latitude: lat,
            longitude: lon,
            msl_altitude: alt,
            speed_over_ground: speed,
            course_over_ground: course,
            fix_mode: fix_mode,
            reserved1: None,
            hdop: hdop,
            pdop: pdop,
            vdop: vdop,
            reserved2: None,
            gps_satellites_in_view: in_view,
            gnss_satellites_used: used,
            glonass_satellites_in_view: glonass,
            reserved3: None,
            c_n0_max: cn0,
            hpa: hpa,
            vpa: vpa,
        },
    )
}

// ---------------------------------------------------------------------------
// The acquisition session
// ---------------------------------------------------------------------------

/// What the runtime does next for the session.
#[derive(Debug, Clone, Copy, PartialEq, Eq, Structural)]
pub enum GpsAction {
    /// Send the power-on command.
    PowerOn,
    /// Wait this long, then send the navigation query.
    SleepAndQuery { millis: u64 },
    /// Send the power-off command.
    PowerOff,
    /// Nothing is left to do.
    Finished,
}

/// Where the session stands.
#[derive(Debug, Clone, Copy, PartialEq, Eq, Structural)]
pub enum GpsState {
    PowerOn,
    Poll,
    PowerOff,
    Done,
}

/// Whether a navigation reply is accepted as a fix: date/time, latitude
/// and longitude must all be present.
pub open spec fn gps_fix_accepted(resp: GnssNavigationInformationResponse) -> bool {
    resp.utc_date_time is Some && resp.latitude is Some && resp.longitude is Some
}

/// A value clamped to the machine word.
pub open spec fn clamp_i64(v: int) -> int {
    if v > i64::MAX {
        i64::MAX as int
    } else if v < i64::MIN {
        i64::MIN as int
    } else {
        v
    }
}

/// The location an accepted reply stands for: the coordinates as given, the
/// accuracy estimated from the position dilution (2.5 meters per unit, a
/// dilution of 10 assumed where none was reported), and the time of the fix.
pub open spec fn gps_fix_of(resp: GnssNavigationInformationResponse) -> Location
    recommends
        gps_fix_accepted(resp),
{
    let pdop: int = match resp.pdop {
        Option::Some(p) => p as int,
        Option::None => 10_000_000,
    };
    let dt = resp.utc_date_time->Some_0;
    Location {
        latitude: resp.latitude->Some_0,
        longitude: resp.longitude->Some_0,
        accuracy: clamp_i64(div_trunc(5 * pdop, 2)) as i64,
        unix_timestamp_millis: clamp_i64(
            civil_unix_millis(
                dt.year as int,
                dt.month as int,
                dt.day as int,
                dt.hour as int,
                dt.minute as int,
                dt.second as int,
                dt.millis as int * 1_000_000,
            ),
        ) as i64,
    }
}

/// One GNSS acquisition: power the receiver on, poll the navigation query a
/// bounded number of times with a pause before each poll, and power the
/// receiver off on every path — after a fix and after exhaustion alike —
/// before the session can finish.
#[derive(Debug, Clone, Copy, PartialEq, Eq, Structural)]
pub struct GpsSession {
    pub max_retries: u8,
    pub attempt: u8,
    pub state: GpsState,
    pub result: Option<Location>,
}

impl GpsSession {
    /// Starts a session that will poll at most `max_retries` times.
    pub fn new(max_retries: u8) -> (r: GpsSession)
        ensures
            r == (GpsSession {
                max_retries,
                attempt: 0,
                state: GpsState::PowerOn,
                result: None::<Location>,
            }),
    {
        GpsSession { max_retries, attempt: 0, state: GpsState::PowerOn, result: None }
    }

    /// What to do next: each state asks for exactly one action, and only
    /// the done state reports the session finished.
    pub fn next_action(&self) -> (r: GpsAction)
        ensures
            r == (match self.state {
                GpsState::PowerOn => GpsAction::PowerOn,
                GpsState::Poll => GpsAction::SleepAndQuery { millis: 1000u64 },
                GpsState::PowerOff => GpsAction::PowerOff,
                GpsState::Done => GpsAction::Finished,
            }),
    {
        match self.state {
            GpsState::PowerOn => GpsAction::PowerOn,
            GpsState::Poll => GpsAction::SleepAndQuery { millis: 1000 },
            GpsState::PowerOff => GpsAction::PowerOff,
            GpsState::Done => GpsAction::Finished,
        }
    }

    /// The power-on command completed (its outcome is not examined):
    /// polling starts, or the session moves straight to power-off when no
    /// polls are allowed.
    pub fn on_power_on(&mut self)
        requires
            old(self).state == GpsState::PowerOn,
        ensures
            final(self).max_retries == old(self).max_retries,
            final(self).attempt == 0,
            final(self).result == old(self).result,
            final(self).state == if old(self).max_retries == 0 {
                GpsState::PowerOff
            } else {
                GpsState::Poll
            },
    {
        self.attempt = 0;
        if self.max_retries == 0 {
            self.state = GpsState::PowerOff;
        } else {
            self.state = GpsState::Poll;
        }
    }

    /// A navigation reply (or its failure) arrived: an accepted fix stores
    /// the location and moves to power-off; otherwise the next poll, or
    /// power-off with no result once the retries are spent.
    pub fn on_nav_info(&mut self, resp: Result<GnssNavigationInformationResponse, AtError>)
        requires
            old(self).state == GpsState::Poll,
            old(self).attempt < old(self).max_retries,
            resp matches Ok(g) ==> (g.utc_date_time matches Some(dt) ==> dt.millis <= 4294),
        ensures
            final(self).max_retries == old(self).max_retries,
            match resp {
                Result::Ok(resp) => if gps_fix_accepted(resp) {
                    final(self).result == Some(gps_fix_of(resp)) && final(self).state
                        == GpsState::PowerOff
                } else {
                    final(self).result == old(self).result && final(self).attempt == old(
                        self,
                    ).attempt + 1 && final(self).state == (if old(self).attempt + 1 == old(
                        self,
                    ).max_retries {
                        GpsState::PowerOff
                    } else {
                        GpsState::Poll
                    })
                },
                Result::Err(_) => final(self).result == old(self).result && final(self).attempt
                    == old(self).attempt + 1 && final(self).state == (if old(self).attempt + 1
                    == old(self).max_retries {
                    GpsState::PowerOff
                } else {
                    GpsState::Poll
                }),
            },
    {
        match resp {
            Result::Ok(resp) => {
                let accepted = match (&resp.utc_date_time, &resp.latitude, &resp.longitude) {
                    (Option::Some(_), Option::Some(_), Option::Some(_)) => true,
                    _ => false,
                };
                if accepted {
                    let dt = match resp.utc_date_time {
                        Option::Some(dt) => dt,
                        Option::None => {
                            proof {
                                assert(false);
                            }
                            GnssDateTime {
                                year: 0,
                                month: 0,
                                day: 0,
                                hour: 0,
                                minute: 0,
                                second: 0,
                                millis: 0,
                            }
                        },
                    };
                    let lat = match resp.latitude {
                        Option::Some(v) => v,
                        Option::None => 0,
                    };
                    let lon = match resp.longitude {
                        Option::Some(v) => v,
                        Option::None => 0,
                    };
                    let pdop: i64 = match resp.pdop {
                        Option::Some(p) => p,
                        Option::None => 10_000_000,
                    };
                    let scaled: i128 = 5 * (pdop as i128);
                    let acc128: i128 = if scaled >= 0 {
                        scaled / 2
                    } else {
                        -((-scaled) / 2)
                    };
                    let accuracy: i64 = if acc128 > i64::MAX as i128 {
                        i64::MAX
                    } else if acc128 < i64::MIN as i128 {
                        i64::MIN
                    } else {
                        acc128 as i64
                    };
                    let ts = unix_millis_from_civil(
                        dt.year,
                        dt.month,
                        dt.day,
                        dt.hour,
                        dt.minute,
                        dt.second,
                        dt.millis * 1_000_000,
                    );
                    self.result = Some(
                        Location {
                            latitude: lat,
                            longitude: lon,
                            accuracy: accuracy,
                            unix_timestamp_millis: ts,
                        },
                    );
                    self.state = GpsState::PowerOff;
                } else {
                    self.attempt = self.attempt + 1;
                    if self.attempt == self.max_retries {
                        self.state = GpsState::PowerOff;
                    }
                }
            },
            Result::Err(_) => {
                self.attempt = self.attempt + 1;
                if self.attempt == self.max_retries {
                    self.state = GpsState::PowerOff;
                }
            },
        }
    }

    /// The power-off command completed (its outcome is not examined): the
    /// session is done, with whatever result it holds.
    pub fn on_power_off(&mut self)
        requires
            old(self).state == GpsState::PowerOff,
        ensures
            *final(self) == (GpsSession { state: GpsState::Done, ..*old(self) }),
    {
        self.state = GpsState::Done;
    }
}

} // verus!
