//! The orchestrator: owns configuration and device status, and decides what
//! the device does on each event.
//!
//! The decisions are pure functions from the current state and the event's
//! plain values to the next state and a list of actions (send a message,
//! place a call).  The surrounding runtime performs the actions, acquires
//! fixes and battery readings, and hands their values back in; distances
//! between fixes are computed outside and passed in as fixed-point values
//! (1e-6 meters), since great-circle math is floating-point work.

use vstd::prelude::*;

verus! {

use crate::location::Location;
use crate::poro;
use crate::poro::{
    human_message, machine_message_chars, opt_int, CarLocation, ParkLocation, Position, Protector,
    ProtectorHuman, ProtectorMachine, Source, Status, Watcher, WatcherView,
};
use crate::sms::{Sms, SmsStat, SmsView};
use crate::text::{str_eq, string_push};

/// How long an outbound call is held open.
pub const FIVE_MINUTES_IN_MILLIS: u64 = 5 * 60 * 1_000;

/// How long the vehicle must sit still before it is judged parked.
pub const TWENTY_FIVE_MINUTES_IN_MILLIS: u64 = 5 * FIVE_MINUTES_IN_MILLIS;

/// The floor under a stored park location's accuracy, in 1e-6 meters.
pub const MINIMUM_PARK_LOCATION_ACCURACY: i64 = 150_000_000;

/// The charge fraction under which an alert is due, in 1e-6 of full charge.
pub const BATTERY_LOW: i64 = 250_000;

/// The cooldown between two battery alerts.
pub const THREE_HOURS_IN_MILLIS: i64 = 3 * 60 * 60 * 1_000;

/// The device's standing settings, loaded once at start and changed only by
/// an authenticated remote command.
#[derive(Debug, Clone, PartialEq, Eq)]
pub struct Configuration {
    /// The paired phone: the one number that is called, alerted, and
    /// answered.
    pub phone_number: String,
    /// The password a remote command must carry.
    pub sms_password: String,
    /// Whether the periodic service logic runs.
    pub service_enabled: bool,
    /// How many times a location poll is retried.
    pub locator_poll_count: u8,
    /// The period of the service logic, in seconds.
    pub check_period_seconds: u32,
    /// Whether to call the paired phone after boot.
    pub call_after_boot: bool,
    /// Whether park/theft transitions are reported to the paired phone.
    pub debug_alerts: bool,
    /// Whether low-battery alerts are sent.
    pub battery_alerts: bool,
    /// Whether parking is detected from standstill.
    pub detect_parking: bool,
    /// How many stored messages are kept.
    pub keep_n_sms: u32,
}

/// Mathematical image of a configuration.
pub ghost struct ConfigurationView {
    pub phone_number: Seq<char>,
    pub sms_password: Seq<char>,
    pub service_enabled: bool,
    pub locator_poll_count: u8,
    pub check_period_seconds: u32,
    pub call_after_boot: bool,
    pub debug_alerts: bool,
    pub battery_alerts: bool,
    pub detect_parking: bool,
    pub keep_n_sms: u32,
}

impl View for Configuration {
    type V = ConfigurationView;

    open spec fn view(&self) -> ConfigurationView {
        ConfigurationView {
            phone_number: self.phone_number@,
            sms_password: self.sms_password@,
            service_enabled: self.service_enabled,
            locator_poll_count: self.locator_poll_count,
            check_period_seconds: self.check_period_seconds,
            call_after_boot: self.call_after_boot,
            debug_alerts: self.debug_alerts,
            battery_alerts: self.battery_alerts,
            detect_parking: self.detect_parking,
            keep_n_sms: self.keep_n_sms,
        }
    }
}

/// What the device knows of itself.  The battery level is a fraction of
/// full charge in 1e-6 units; the timestamps are milliseconds since the
/// Unix epoch.
#[derive(Debug, Clone, Copy, PartialEq, Eq, Structural)]
pub struct DeviceStatus {
    pub last_big_location_change: i64,
    pub location: Option<Location>,
    pub park_location: Option<Location>,
    pub battery: i64,
    pub last_battery_alert: i64,
}

/// The orchestrator's whole state.
#[derive(Debug, Clone, PartialEq, Eq)]
pub struct Service {
    pub cfg: Configuration,
    pub status: DeviceStatus,
}

/// Mathematical image of the orchestrator's state.
pub ghost struct ServiceView {
    pub cfg: ConfigurationView,
    pub status: DeviceStatus,
}

impl View for Service {
    type V = ServiceView;

    open spec fn view(&self) -> ServiceView {
        ServiceView { cfg: self.cfg@, status: self.status }
    }
}

/// One thing the runtime is asked to do.
#[derive(Debug, Clone, PartialEq, Eq)]
pub enum Action {
    /// Send a text message.
    SendSms { phone_number: String, message: String },
    /// Place a call and hold it open for the duration.
    Call { phone_number: String, duration_millis: u64 },
}

/// Mathematical image of an action.
pub ghost enum ActionView {
    SendSms { phone_number: Seq<char>, message: Seq<char> },
    Call { phone_number: Seq<char>, duration_millis: u64 },
}

impl View for Action {
    type V = ActionView;

    open spec fn view(&self) -> ActionView {
        match self {
            Action::SendSms { phone_number, message } => ActionView::SendSms {
                phone_number: phone_number@,
                message: message@,
            },
            Action::Call { phone_number, duration_millis } => ActionView::Call {
                phone_number: phone_number@,
                duration_millis: *duration_millis,
            },
        }
    }
}

/// The images of a list of actions.
pub open spec fn actions_view(s: Seq<Action>) -> Seq<ActionView> {
    s.map_values(|a: Action| a@)
}

/// What is done with an incoming call.
#[derive(Debug, Clone, Copy, PartialEq, Eq, Structural)]
pub enum IncomingCallAction {
    /// Answer, after waiting this long.
    AnswerAfter { delay_millis: u64 },
    /// Hang up at once.
    HangUp,
}

// ---------------------------------------------------------------------------
// Message composition
// ---------------------------------------------------------------------------

/// The status payload sent out: the current and park locations, the battery,
/// an optional event tag, and the service flag.
pub open spec fn build_protector_spec(
    cfg: ConfigurationView,
    st: DeviceStatus,
    tag: Option<Status>,
) -> Protector {
    Protector {
        car_location: match st.location {
            Option::Some(l) => Some(
                CarLocation {
                    position: Position { latitude: l.latitude, longitude: l.longitude },
                    accuracy: l.accuracy,
                    battery: st.battery,
                    timestamp: l.unix_timestamp_millis,
                },
            ),
            Option::None => None,
        },
        park_location: match st.park_location {
            Option::Some(l) => Some(
                ParkLocation {
                    position: Position { latitude: l.latitude, longitude: l.longitude },
                    accuracy: l.accuracy,
                },
            ),
            Option::None => None,
        },
        status: tag,
        service: Some(poro::Service { value: cfg.service_enabled }),
    }
}

/// The text sent for a given receiver kind: prose for a human reader, the
/// framed compact form for the paired application, nothing for the rest.
pub open spec fn composed_message(
    cfg: ConfigurationView,
    st: DeviceStatus,
    source: Source,
    tag: Option<Status>,
    park_distance: Option<int>,
) -> Seq<char> {
    match source {
        Source::SmsHuman => human_message(build_protector_spec(cfg, st, tag), park_distance),
        Source::SmsMachine => machine_message_chars(build_protector_spec(cfg, st, tag)),
        _ => Seq::empty(),
    }
}

/// The action `send_message` yields: a send where the composed text is
/// nonempty, nothing where it is empty.
pub open spec fn send_message_spec(
    cfg: ConfigurationView,
    st: DeviceStatus,
    phone_number: Seq<char>,
    source: Source,
    tag: Option<Status>,
    park_distance: Option<int>,
) -> Option<ActionView> {
    let m = composed_message(cfg, st, source, tag, park_distance);
    if m.len() > 0 {
        Some(ActionView::SendSms { phone_number: phone_number, message: m })
    } else {
        None
    }
}

/// The report of a park/theft transition: one framed compact message to the
/// paired phone, where transition reports are enabled and a paired phone is
/// set.
pub open spec fn debug_actions(
    cfg: ConfigurationView,
    st: DeviceStatus,
    tag: Option<Status>,
) -> Seq<ActionView> {
    if cfg.debug_alerts && cfg.phone_number.len() > 0 {
        seq![
            ActionView::SendSms {
                phone_number: cfg.phone_number,
                message: machine_message_chars(build_protector_spec(cfg, st, tag)),
            },
        ]
    } else {
        Seq::empty()
    }
}

// ---------------------------------------------------------------------------
// The detection rules
// ---------------------------------------------------------------------------

/// The stored charge fraction for a reported percentage, clamped to 0..100,
/// in 1e-6 of full charge.
pub open spec fn battery_fraction(b: u8) -> int {
    (if b > 100 {
        100int
    } else {
        b as int
    }) * 10000
}

/// Whether a low-battery alert is owed: the fraction is under the threshold,
/// alerts are enabled, and the cooldown since the last alert has passed.
pub open spec fn battery_alert_due(
    cfg: ConfigurationView,
    st: DeviceStatus,
    frac: int,
    now: int,
) -> bool {
    frac < BATTERY_LOW as int && cfg.battery_alerts && now - st.last_battery_alert as int
        > THREE_HOURS_IN_MILLIS as int
}

/// Whether a movement is judged significant: the distance exceeds the sum of
/// the two accuracy radii.
pub open spec fn significant(distance: int, accuracy_a: int, accuracy_b: int) -> bool {
    distance > accuracy_a + accuracy_b
}

/// A fix stored as the park location never claims better accuracy than the
/// configured floor.
pub open spec fn floored(l: Location) -> Location {
    Location {
        accuracy: if l.accuracy < MINIMUM_PARK_LOCATION_ACCURACY {
            MINIMUM_PARK_LOCATION_ACCURACY
        } else {
            l.accuracy
        },
        ..l
    }
}

/// An adjusted fix handed to the periodic refresh: the new location with
/// its accuracy already widened by the confidence adjustment, and its
/// distances (1e-6 meters) from the stored park location and from the last
/// known location, where those exist.
#[derive(Debug, Clone, Copy, PartialEq, Eq, Structural)]
pub struct AdjustedFix {
    pub location: Location,
    pub distance_from_park: Option<i64>,
    pub distance_from_last: Option<i64>,
}

/// The whole periodic-refresh transition: given the state and a fix, the
/// next device status and the actions to take, exactly as the detection
/// rules say.
///
/// - A park location is set and the fix moved significantly away from it:
///   theft.  The theft report is composed while the park location still
///   stands; then the park location is cleared and the paired phone called.
/// - A park location is set, the fix lies within its accuracy radius, and
///   the tightened accuracy floor of the fix undercuts the stored accuracy:
///   the park location is replaced by the fix (floored) and an update
///   reported.
/// - No park location, detection enabled, a previous location known: a
///   significant move restamps the last-movement time; standing still
///   longer than the threshold parks the vehicle (floored fix) and reports
///   it.
/// - No previous location yet: the fix only stamps the last-movement time.
///
/// The fix always becomes the current location.
pub open spec fn refresh_transition(s: ServiceView, fix: AdjustedFix) -> (
    DeviceStatus,
    Seq<ActionView>,
) {
    let l = fix.location;
    let st = s.status;
    let cfg = s.cfg;
    if st.park_location is Some {
        let p = st.park_location->Some_0;
        let d = fix.distance_from_park->Some_0 as int;
        if significant(d, l.accuracy as int, p.accuracy as int) {
            let acts = debug_actions(cfg, st, Some(Status::CarTheftDetected)) + (if cfg
                .phone_number.len() > 0 {
                seq![
                    ActionView::Call {
                        phone_number: cfg.phone_number,
                        duration_millis: FIVE_MINUTES_IN_MILLIS,
                    },
                ]
            } else {
                Seq::empty()
            });
            (DeviceStatus { park_location: None, location: Some(l), ..st }, acts)
        } else if d <= p.accuracy as int && (if 2 * (l.accuracy as int)
            > MINIMUM_PARK_LOCATION_ACCURACY as int {
            2 * (l.accuracy as int)
        } else {
            MINIMUM_PARK_LOCATION_ACCURACY as int
        }) < p.accuracy as int {
            let st1 = DeviceStatus { park_location: Some(floored(l)), ..st };
            (
                DeviceStatus { location: Some(l), ..st1 },
                debug_actions(cfg, st1, Some(Status::ParkingUpdated)),
            )
        } else {
            (DeviceStatus { location: Some(l), ..st }, Seq::<ActionView>::empty())
        }
    } else if cfg.detect_parking {
        match st.location {
            Option::Some(prev) => {
                let d = fix.distance_from_last->Some_0 as int;
                if significant(d, l.accuracy as int, prev.accuracy as int) {
                    (
                        DeviceStatus {
                            last_big_location_change: l.unix_timestamp_millis,
                            location: Some(l),
                            ..st
                        },
                        Seq::<ActionView>::empty(),
                    )
                } else if l.unix_timestamp_millis as int - st.last_big_location_change as int
                    > TWENTY_FIVE_MINUTES_IN_MILLIS as int {
                    let st1 = DeviceStatus { park_location: Some(floored(l)), ..st };
                    (
                        DeviceStatus { location: Some(l), ..st1 },
                        debug_actions(cfg, st1, Some(Status::ParkingDetected)),
                    )
                } else {
                    (DeviceStatus { location: Some(l), ..st }, Seq::<ActionView>::empty())
                }
            },
            Option::None => {
                (
                    DeviceStatus {
                        last_big_location_change: l.unix_timestamp_millis,
                        location: Some(l),
                        ..st
                    },
                    Seq::<ActionView>::empty(),
                )
            },
        }
    } else {
        (DeviceStatus { location: Some(l), ..st }, Seq::<ActionView>::empty())
    }
}

// ---------------------------------------------------------------------------
// Remote commands
// ---------------------------------------------------------------------------

/// What an incoming message commands, if anything: the message must be
/// unread, shaped `<prefix>/<payload>/<password>` with the configured
/// password, and carry a decodable payload; the accepted record is tagged
/// with the sender.  Anything else commands nothing.
pub open spec fn sms_command(cfg: ConfigurationView, sms: SmsView) -> Option<WatcherView> {
    if sms.stat != SmsStat::ReceivedUnread {
        None
    } else {
        let parts = poro::split_on(sms.message, '/');
        if parts.len() != 3 {
            None
        } else if parts[2] != cfg.sms_password {
            None
        } else if parts[0] == "$tATA"@ {
            match poro::watcher_human_spec(parts[1]) {
                Option::Some(w) => Some(
                    WatcherView {
                        receiver: Some(
                            poro::ReceiverView {
                                source: Source::SmsHuman,
                                phone_number: sms.phone_number,
                            },
                        ),
                        ..w
                    },
                ),
                Option::None => None,
            }
        } else if parts[0] == "$TATA"@ {
            match poro::sp_watcher(poro::split_on(parts[1], ' '), 0) {
                Option::Some((w, _)) => Some(
                    WatcherView {
                        receiver: Some(
                            poro::ReceiverView {
                                source: Source::SmsMachine,
                                phone_number: sms.phone_number,
                            },
                        ),
                        ..w
                    },
                ),
                Option::None => None,
            }
        } else {
            None
        }
    }
}

/// The configuration after a record's service flag is applied.
pub open spec fn apply_service_flag(cfg: ConfigurationView, w: WatcherView) -> ConfigurationView {
    match w.service {
        Option::Some(s) => ConfigurationView { service_enabled: s.value, ..cfg },
        Option::None => cfg,
    }
}

/// The device status after a record's park flag is applied: park here (the
/// current location, floored) on `true` with a known location, clear the
/// park location on `true` without one or on `false`, leave it on an absent
/// flag.
pub open spec fn apply_park_flag(st: DeviceStatus, w: WatcherView) -> DeviceStatus {
    match w.park {
        Option::Some(p) => if p.value {
            match st.location {
                Option::Some(l) => DeviceStatus { park_location: Some(floored(l)), ..st },
                Option::None => DeviceStatus { park_location: None, ..st },
            }
        } else {
            DeviceStatus { park_location: None, ..st }
        },
        Option::None => st,
    }
}

impl Service {
    /// Decides what to do with an incoming call: a call from the paired
    /// phone is answered after a short wait; any other caller is hung up on
    /// at once.
    pub fn handle_incoming_call(&self, phone_number: &String) -> (r: IncomingCallAction)
        ensures
            r == if self@.cfg.phone_number == phone_number@ {
                IncomingCallAction::AnswerAfter { delay_millis: 2000u64 }
            } else {
                IncomingCallAction::HangUp
            },
    {
        if str_eq(self.cfg.phone_number.as_str(), phone_number.as_str()) {
            IncomingCallAction::AnswerAfter { delay_millis: 2000 }
        } else {
            IncomingCallAction::HangUp
        }
    }

    /// Reads an incoming message as a remote command: checks that it is
    /// unread, splits it into prefix, payload and password, rejects a wrong
    /// password, decodes the payload by its prefix, and tags the record
    /// with the sender.  The record's service flag is applied at once; a
    /// rejected message changes nothing and commands nothing.
    pub fn handle_sms(&mut self, sms: &Sms) -> (w: Option<Watcher>)
        ensures
            final(self)@.status == old(self)@.status,
            match sms_command(old(self)@.cfg, sms@) {
                Option::Some(wv) => w is Some && w->Some_0@ == wv && final(self)@.cfg
                    == apply_service_flag(old(self)@.cfg, wv),
                Option::None => w is None && final(self)@.cfg == old(self)@.cfg,
            },
    {
        if !(self.stat_is_unread(sms)) {
            return None;
        }
        let chars = crate::text::str_to_chars(sms.message.as_str());
        let parts = poro::split_chars(chars.as_slice(), '/');
        if parts.len() != 3 {
            return None;
        }
        proof {
            assert(poro::token_views(parts@)[2] == parts@[2]@);
            assert(poro::token_views(parts@)[1] == parts@[1]@);
            assert(poro::token_views(parts@)[0] == parts@[0]@);
        }
        let password = crate::text::chars_to_string(parts[2].as_slice());
        if !str_eq(password.as_str(), self.cfg.sms_password.as_str()) {
            return None;
        }
        let payload = crate::text::chars_to_string(parts[1].as_slice());
        let parsed: Option<Watcher> = if crate::text::chars_eq_str(parts[0].as_slice(), "$tATA") {
            let p = poro::WatcherHuman {  };
            match p.parse(payload) {
                Ok(w) => Some(
                    Watcher {
                        receiver: Some(
                            poro::ReceiverInfo {
                                source: Source::SmsHuman,
                                phone_number: self.clone_string(&sms.phone_number),
                            },
                        ),
                        ..w
                    },
                ),
                Err(_) => None,
            }
        } else if crate::text::chars_eq_str(parts[0].as_slice(), "$TATA") {
            let p = poro::WatcherMachine {  };
            match p.parse(payload) {
                Ok(w) => Some(
                    Watcher {
                        receiver: Some(
                            poro::ReceiverInfo {
                                source: Source::SmsMachine,
                                phone_number: self.clone_string(&sms.phone_number),
                            },
                        ),
                        ..w
                    },
                ),
                Err(_) => None,
            }
        } else {
            None
        };
        match parsed {
            Option::Some(w) => {
                match &w.service {
                    Option::Some(s) => {
                        self.cfg.service_enabled = s.value;
                    },
                    Option::None => {},
                }
                Some(w)
            },
            Option::None => None,
        }
    }

    /// Whether a message is still unread.
    fn stat_is_unread(&self, sms: &Sms) -> (r: bool)
        ensures
            r == (sms@.stat == SmsStat::ReceivedUnread),
    {
        match sms.stat {
            SmsStat::ReceivedUnread => true,
            _ => false,
        }
    }

    /// A plain copy of a string value.
    fn clone_string(&self, s: &String) -> (r: String)
        ensures
            r@ == s@,
    {
        let mut r = String::new();
        let chars = crate::text::str_to_chars(s.as_str());
        let mut i: usize = 0;
        while i < chars.len()
            invariant
                i <= chars@.len(),
                chars@ == s@,
                r@ == s@.take(i as int),
            decreases chars@.len() - i,
        {
            string_push(&mut r, chars[i]);
            i = i + 1;
            proof {
                assert(r@ =~= s@.take(i as int));
            }
        }
        proof {
            assert(r@ =~= s@);
        }
        r
    }

    /// Carries out the rest of an accepted remote command: applies the park
    /// flag, then composes the reply for a refresh request and the
    /// call-back for a call request, in that order.  `park_distance` is the
    /// distance for the prose reply's parked-distance line, needed exactly
    /// when that line will be rendered.
    pub fn handle_sms_actions(&mut self, w: &Watcher, park_distance: Option<i64>) -> (acts: Vec<
        Action,
    >)
        requires
            ({
                let st1 = apply_park_flag(old(self)@.status, w@);
                (w@.refresh matches Some(rf) && rf.value) && (w@.receiver matches Some(r)
                    && r.source == Source::SmsHuman) && st1.location is Some
                    && st1.park_location is Some
            }) ==> park_distance is Some,
            w.receiver is Some,
        ensures
            final(self)@.cfg == old(self)@.cfg,
            final(self)@.status == apply_park_flag(old(self)@.status, w@),
            actions_view(acts@) == ({
                let st1 = apply_park_flag(old(self)@.status, w@);
                let recv = w@.receiver->Some_0;
                let reply: Seq<ActionView> = if w@.refresh matches Some(r) && r.value {
                    match send_message_spec(
                        old(self)@.cfg,
                        st1,
                        recv.phone_number,
                        recv.source,
                        None,
                        opt_int(park_distance),
                    ) {
                        Option::Some(a) => seq![a],
                        Option::None => Seq::<ActionView>::empty(),
                    }
                } else {
                    Seq::<ActionView>::empty()
                };
                let call: Seq<ActionView> = if w@.call matches Some(c) && c.value {
                    seq![
                        ActionView::Call {
                            phone_number: recv.phone_number,
                            duration_millis: FIVE_MINUTES_IN_MILLIS,
                        },
                    ]
                } else {
                    Seq::<ActionView>::empty()
                };
                reply + call
            }),
    {
        let mut acts: Vec<Action> = Vec::new();
        match &w.park {
            Option::Some(p) => {
                if p.value {
                    match &self.status.location {
                        Option::Some(l) => {
                            let stored = Location {
                                latitude: l.latitude,
                                longitude: l.longitude,
                                accuracy: if l.accuracy < MINIMUM_PARK_LOCATION_ACCURACY {
                                    MINIMUM_PARK_LOCATION_ACCURACY
                                } else {
                                    l.accuracy
                                },
                                unix_timestamp_millis: l.unix_timestamp_millis,
                            };
                            self.status.park_location = Some(stored);
                        },
                        Option::None => {
                            self.status.park_location = None;
                        },
                    }
                } else {
                    self.status.park_location = None;
                }
            },
            Option::None => {},
        }
        let recv = match &w.receiver {
            Option::Some(r) => r,
            Option::None => {
                proof {
                    assert(false);
                }
                return acts;
            },
        };
        let send_reply = match &w.refresh {
            Option::Some(r) => r.value,
            Option::None => false,
        };
        if send_reply {
            match self.send_message(&recv.phone_number, &recv.source, None, park_distance) {
                Option::Some(a) => {
                    acts.push(a);
                },
                Option::None => {},
            }
        }
        let ghost reply_acts = actions_view(acts@);
        let place_call = match &w.call {
            Option::Some(c) => c.value,
            Option::None => false,
        };
        if place_call {
            let number = self.clone_string(&recv.phone_number);
            acts.push(Action::Call { phone_number: number, duration_millis: FIVE_MINUTES_IN_MILLIS });
        }
        proof {
            assert(actions_view(acts@) =~= reply_acts + (if w@.call matches Some(c) && c.value {
                seq![
                    ActionView::Call {
                        phone_number: w@.receiver->Some_0.phone_number,
                        duration_millis: FIVE_MINUTES_IN_MILLIS,
                    },
                ]
            } else {
                Seq::<ActionView>::empty()
            }));
        }
        acts
    }

    /// Stores a battery reading and decides whether an alert is owed: the
    /// reported percentage is clamped to 0..100 and kept as a fraction; an
    /// alert goes out when the fraction is low, alerts are enabled, and the
    /// cooldown since the last alert has passed.  No reading changes
    /// nothing.
    pub fn update_battery(&mut self, bcl: Option<u8>, now_millis: i64) -> (alert: Option<Action>)
        ensures
            final(self)@.cfg == old(self)@.cfg,
            match bcl {
                Option::None => final(self)@.status == old(self)@.status && alert is None,
                Option::Some(b) => ({
                    let frac = battery_fraction(b);
                    let due = battery_alert_due(
                        old(self)@.cfg,
                        old(self)@.status,
                        frac,
                        now_millis as int,
                    );
                    &&& final(self)@.status == (DeviceStatus {
                        battery: frac as i64,
                        last_battery_alert: if due {
                            now_millis
                        } else {
                            old(self)@.status.last_battery_alert
                        },
                        ..old(self)@.status
                    })
                    &&& if due {
                        alert matches Some(a) && a@ == (ActionView::SendSms {
                            phone_number: old(self)@.cfg.phone_number,
                            message: "Battery alert "@ + poro::fixed2_chars(frac) + " %!"@,
                        })
                    } else {
                        alert is None
                    }
                }),
            },
    {
        let b = match bcl {
            Option::Some(b) => b,
            Option::None => {
                return None;
            },
        };
        let clamped: i64 = if b > 100 {
            100
        } else {
            b as i64
        };
        self.status.battery = clamped * 10000;
        let due = self.status.battery < BATTERY_LOW && self.cfg.battery_alerts && (
        now_millis as i128 - self.status.last_battery_alert as i128)
            > THREE_HOURS_IN_MILLIS as i128;
        if due {
            self.status.last_battery_alert = now_millis;
            let mut message = String::new();
            crate::text::string_append(&mut message, "Battery alert ");
            let frac_chars = poro::fixed2_string(self.status.battery);
            crate::text::string_append(&mut message, frac_chars.as_str());
            crate::text::string_append(&mut message, " %!");
            let number = self.clone_string(&self.cfg.phone_number);
            proof {
                assert(message@ =~= "Battery alert "@ + poro::fixed2_chars(
                    self.status.battery as int,
                ) + " %!"@);
            }
            Some(Action::SendSms { phone_number: number, message: message })
        } else {
            None
        }
    }

    /// Runs the periodic refresh on a fix, or does nothing when none was
    /// obtained: the whole parking/theft decision of
    /// `refresh_transition`.
    pub fn refresh(&mut self, fix: Option<AdjustedFix>) -> (acts: Vec<Action>)
        requires
            fix matches Some(f) ==> (old(self)@.status.park_location is Some
                ==> f.distance_from_park is Some),
            fix matches Some(f) ==> (old(self)@.status.park_location is None && old(
                self,
            )@.status.location is Some ==> f.distance_from_last is Some),
        ensures
            final(self)@.cfg == old(self)@.cfg,
            match fix {
                Option::None => final(self)@.status == old(self)@.status && acts@.len() == 0,
                Option::Some(f) => final(self)@.status == refresh_transition(old(self)@, f).0
                    && actions_view(acts@) == refresh_transition(old(self)@, f).1,
            },
    {
        let mut acts: Vec<Action> = Vec::new();
        let f = match fix {
            Option::Some(f) => f,
            Option::None => {
                proof {
                    assert(actions_view(acts@) =~= Seq::<ActionView>::empty());
                }
                return acts;
            },
        };
        let l = f.location;
        let park = self.status.park_location;
        match park {
            Option::Some(p) => {
                let d = match f.distance_from_park {
                    Option::Some(d) => d,
                    Option::None => {
                        proof {
                            assert(false);
                        }
                        0
                    },
                };
                if crate::utils::is_distance_big_enough(d, l.accuracy, p.accuracy) {
                    match self.send_debug_message(Some(Status::CarTheftDetected)) {
                        Option::Some(a) => {
                            acts.push(a);
                        },
                        Option::None => {},
                    }
                    self.status.park_location = None;
                    if self.cfg.phone_number.as_str().unicode_len() > 0 {
                        let number = self.clone_string(&self.cfg.phone_number);
                        acts.push(
                            Action::Call {
                                phone_number: number,
                                duration_millis: FIVE_MINUTES_IN_MILLIS,
                            },
                        );
                    }
                } else {
                    let tightened: i128 = if 2 * (l.accuracy as i128)
                        > MINIMUM_PARK_LOCATION_ACCURACY as i128 {
                        2 * (l.accuracy as i128)
                    } else {
                        MINIMUM_PARK_LOCATION_ACCURACY as i128
                    };
                    if d <= p.accuracy && tightened < p.accuracy as i128 {
                        self.status.park_location = Some(
                            Location {
                                latitude: l.latitude,
                                longitude: l.longitude,
                                accuracy: if l.accuracy < MINIMUM_PARK_LOCATION_ACCURACY {
                                    MINIMUM_PARK_LOCATION_ACCURACY
                                } else {
                                    l.accuracy
                                },
                                unix_timestamp_millis: l.unix_timestamp_millis,
                            },
                        );
                        match self.send_debug_message(Some(Status::ParkingUpdated)) {
                            Option::Some(a) => {
                                acts.push(a);
                            },
                            Option::None => {},
                        }
                    }
                }
            },
            Option::None => {
                if self.cfg.detect_parking {
                    match self.status.location {
                        Option::Some(prev) => {
                            let d = match f.distance_from_last {
                                Option::Some(d) => d,
                                Option::None => {
                                    proof {
                                        assert(false);
                                    }
                                    0
                                },
                            };
                            if crate::utils::is_distance_big_enough(
                                d,
                                l.accuracy,
                                prev.accuracy,
                            ) {
                                self.status.last_big_location_change = l.unix_timestamp_millis;
                            } else if (l.unix_timestamp_millis as i128
                                - self.status.last_big_location_change as i128)
                                > TWENTY_FIVE_MINUTES_IN_MILLIS as i128 {
                                self.status.park_location = Some(
                                    Location {
                                        latitude: l.latitude,
                                        longitude: l.longitude,
                                        accuracy: if l.accuracy < MINIMUM_PARK_LOCATION_ACCURACY {
                                            MINIMUM_PARK_LOCATION_ACCURACY
                                        } else {
                                            l.accuracy
                                        },
                                        unix_timestamp_millis: l.unix_timestamp_millis,
                                    },
                                );
                                match self.send_debug_message(Some(Status::ParkingDetected)) {
                                    Option::Some(a) => {
                                        acts.push(a);
                                    },
                                    Option::None => {},
                                }
                            }
                        },
                        Option::None => {
                            self.status.last_big_location_change = l.unix_timestamp_millis;
                        },
                    }
                }
            },
        }
        self.status.location = Some(l);
        proof {
            let (spec_st, spec_acts) = refresh_transition(old(self)@, f);
            assert(self@.status == spec_st);
            assert(actions_view(acts@) =~= spec_acts);
        }
        acts
    }

    /// Composes the park/theft transition report, where reports are enabled
    /// and a paired phone is set.
    fn send_debug_message(&self, status: Option<Status>) -> (r: Option<Action>)
        ensures
            ({
                let spec = debug_actions(self@.cfg, self@.status, status);
                if spec.len() > 0 {
                    r matches Some(a) && a@ == spec[0]
                } else {
                    r is None
                }
            }),
    {
        if self.cfg.debug_alerts {
            if self.cfg.phone_number.as_str().unicode_len() > 0 {
                let number = self.clone_string(&self.cfg.phone_number);
                self.send_message(&number, &Source::SmsMachine, status, None)
            } else {
                None
            }
        } else {
            None
        }
    }

    /// Composes the status message for a receiver: prose for a human, the
    /// framed compact form for the paired application, nothing for other
    /// kinds.  `park_distance` feeds the prose parked-distance line and
    /// must be given when the current and park locations are both set.
    pub fn send_message(
        &self,
        phone_number: &String,
        receiver_type: &Source,
        status: Option<Status>,
        park_distance: Option<i64>,
    ) -> (r: Option<Action>)
        requires
            *receiver_type == Source::SmsHuman && self@.status.location is Some
                && self@.status.park_location is Some ==> park_distance is Some,
        ensures
            match send_message_spec(
                self@.cfg,
                self@.status,
                phone_number@,
                *receiver_type,
                status,
                opt_int(park_distance),
            ) {
                Option::Some(av) => r matches Some(a) && a@ == av,
                Option::None => r is None,
            },
    {
        let car_location = match &self.status.location {
            Option::Some(l) => Some(
                CarLocation {
                    position: Position { latitude: l.latitude, longitude: l.longitude },
                    accuracy: l.accuracy,
                    battery: self.status.battery,
                    timestamp: l.unix_timestamp_millis,
                },
            ),
            Option::None => None,
        };
        let park_location = match &self.status.park_location {
            Option::Some(l) => Some(
                ParkLocation {
                    position: Position { latitude: l.latitude, longitude: l.longitude },
                    accuracy: l.accuracy,
                },
            ),
            Option::None => None,
        };
        let protector = Protector {
            car_location: car_location,
            park_location: park_location,
            status: status,
            service: Some(poro::Service { value: self.cfg.service_enabled }),
        };
        proof {
            assert(protector == build_protector_spec(self@.cfg, self@.status, status));
        }
        match receiver_type {
            Source::SmsHuman => {
                let p = ProtectorHuman {  };
                let message = p.dump(&protector, park_distance);
                let number = self.clone_string(phone_number);
                proof {
                    lemma_human_message_nonempty(protector, opt_int(park_distance));
                }
                Some(Action::SendSms { phone_number: number, message: message })
            },
            Source::SmsMachine => {
                let p = ProtectorMachine {  };
                let dumped = p.dump(&protector);
                let mut message = String::new();
                crate::text::string_append(&mut message, "$tATA/");
                crate::text::string_append(&mut message, dumped.as_str());
                let number = self.clone_string(phone_number);
                proof {
                    assert(message@ =~= machine_message_chars(protector));
                    assert(message@.len() > 0) by {
                        reveal_strlit("$tATA/");
                    }
                }
                Some(Action::SendSms { phone_number: number, message: message })
            },
            _ => None,
        }
    }
}

/// The prose summary always holds at least the service line, so a composed
/// prose message is never empty.
proof fn lemma_human_message_nonempty(p: Protector, park_distance: Option<int>)
    requires
        p.service is Some,
    ensures
        human_message(p, park_distance).len() > 0,
{
    reveal_strlit("Service on\n\n");
}

} // verus!
