//! The orchestrator's detection, alerting and command rules, and the
//! acquisition sessions, on concrete scenarios.

use pico_lib::gps::{GpsAction, GpsSession};
use pico_lib::gsm::{AtBaseStationLocationWrite, GsmSession, GsmStep, LocationType};
use pico_lib::location::Location;
use pico_lib::poro::{Park, Source, Watcher};
use pico_lib::service::{
    Action, AdjustedFix, Configuration, DeviceStatus, IncomingCallAction, Service,
};
use pico_lib::sms::{AtReadSMSMessagesWrite, Sms, SmsStat};

fn test_configuration() -> Configuration {
    Configuration {
        phone_number: String::from("+36301234567"),
        sms_password: String::from("12345"),
        service_enabled: true,
        locator_poll_count: 5,
        check_period_seconds: 600,
        call_after_boot: false,
        debug_alerts: true,
        battery_alerts: true,
        detect_parking: true,
        keep_n_sms: 10,
    }
}

fn fresh_status() -> DeviceStatus {
    DeviceStatus {
        last_big_location_change: 0,
        location: None,
        park_location: None,
        battery: 1_000_000,
        last_battery_alert: 0,
    }
}

fn fix_at(lat: i64, lon: i64, accuracy: i64, ts: i64) -> Location {
    Location { latitude: lat, longitude: lon, accuracy, unix_timestamp_millis: ts }
}

const TWENTY_FIVE_MINUTES: i64 = 25 * 60 * 1000;

#[test]
fn test_parking_detected_after_standstill() {
    let mut svc = Service { cfg: test_configuration(), status: fresh_status() };
    let prev = fix_at(467624859000, 186304591000, 100_000_000, 1_000_000);
    svc.status.location = Some(prev);
    svc.status.last_big_location_change = 1_000_000;

    // still within both accuracy radii, but not yet long enough
    let soon = AdjustedFix {
        location: fix_at(467624859100, 186304591100, 100_000_000, 1_000_000 + 60_000),
        distance_from_park: None,
        distance_from_last: Some(10_000_000),
    };
    let acts = svc.refresh(Some(soon));
    assert!(acts.is_empty());
    assert!(svc.status.park_location.is_none());

    // stationary past the threshold: parked, accuracy floored, one report
    let later_ts = 1_000_000 + TWENTY_FIVE_MINUTES + 1;
    let later = AdjustedFix {
        location: fix_at(467624859200, 186304591200, 100_000_000, later_ts),
        distance_from_park: None,
        distance_from_last: Some(10_000_000),
    };
    let acts = svc.refresh(Some(later));
    let park = svc.status.park_location.expect("park location set");
    assert_eq!(150_000_000, park.accuracy);
    assert_eq!(467624859200, park.latitude);
    assert_eq!(later_ts, park.unix_timestamp_millis);
    assert_eq!(1, acts.len());
    match &acts[0] {
        Action::SendSms { phone_number, message } => {
            assert_eq!("+36301234567", phone_number);
            assert!(message.starts_with("$tATA/"));
            // the report names the parking-detected event: status code 0
            assert!(message.ends_with(" 0 t"));
        }
        other => panic!("unexpected action {:?}", other),
    }
}

#[test]
fn test_significant_move_restamps_timer() {
    let mut svc = Service { cfg: test_configuration(), status: fresh_status() };
    svc.status.location = Some(fix_at(467624859000, 186304591000, 100_000_000, 1_000_000));
    svc.status.last_big_location_change = 1_000_000;

    let moved_ts = 1_000_000 + TWENTY_FIVE_MINUTES + 1;
    let moved = AdjustedFix {
        location: fix_at(471258945000, 178372091000, 100_000_000, moved_ts),
        distance_from_park: None,
        distance_from_last: Some(72_519_744_441),
    };
    let acts = svc.refresh(Some(moved));
    assert!(acts.is_empty());
    assert!(svc.status.park_location.is_none());
    assert_eq!(moved_ts, svc.status.last_big_location_change);
}

#[test]
fn test_theft_detected_on_significant_move_from_park() {
    let mut svc = Service { cfg: test_configuration(), status: fresh_status() };
    let park = fix_at(467624859000, 186304591000, 150_000_000, 1_000_000);
    svc.status.park_location = Some(park);
    svc.status.location = Some(park);

    let fix = AdjustedFix {
        location: fix_at(471258945000, 178372091000, 200_000_000, 2_000_000),
        distance_from_park: Some(72_519_744_441),
        distance_from_last: Some(72_519_744_441),
    };
    let acts = svc.refresh(Some(fix));
    assert!(svc.status.park_location.is_none());
    assert_eq!(2, acts.len());
    match &acts[0] {
        Action::SendSms { phone_number, message } => {
            assert_eq!("+36301234567", phone_number);
            // composed while the park location still stood, with status code 2
            assert!(message.starts_with("$tATA/"));
            assert!(message.contains(" 2 "));
        }
        other => panic!("unexpected action {:?}", other),
    }
    match &acts[1] {
        Action::Call { phone_number, duration_millis } => {
            assert_eq!("+36301234567", phone_number);
            assert_eq!(300_000, *duration_millis);
        }
        other => panic!("unexpected action {:?}", other),
    }
}

#[test]
fn test_park_location_updated_on_better_accuracy() {
    let mut svc = Service { cfg: test_configuration(), status: fresh_status() };
    let park = fix_at(467624859000, 186304591000, 500_500_000, 1_000_000);
    svc.status.park_location = Some(park);
    svc.status.location = Some(park);

    // within the stored radius, and max(2*100m, 150m) = 200m < 500.5m
    let fix = AdjustedFix {
        location: fix_at(467624859100, 186304591100, 100_000_000, 2_000_000),
        distance_from_park: Some(50_000_000),
        distance_from_last: Some(50_000_000),
    };
    let acts = svc.refresh(Some(fix));
    let new_park = svc.status.park_location.expect("park location kept");
    assert_eq!(150_000_000, new_park.accuracy);
    assert_eq!(467624859100, new_park.latitude);
    assert_eq!(1, acts.len());
    match &acts[0] {
        Action::SendSms { message, .. } => {
            // the report names the parking-updated event: status code 1
            assert!(message.contains(" 1 "));
        }
        other => panic!("unexpected action {:?}", other),
    }

    // within the radius but no accuracy improvement: no change, no report
    let worse = AdjustedFix {
        location: fix_at(467624859100, 186304591100, 300_000_000, 3_000_000),
        distance_from_park: Some(50_000_000),
        distance_from_last: Some(0),
    };
    let acts = svc.refresh(Some(worse));
    assert!(acts.is_empty());
    assert_eq!(150_000_000, svc.status.park_location.unwrap().accuracy);
}

#[test]
fn test_incoming_call_access_control() {
    let svc = Service { cfg: test_configuration(), status: fresh_status() };
    assert_eq!(
        IncomingCallAction::AnswerAfter { delay_millis: 2000 },
        svc.handle_incoming_call(&String::from("+36301234567"))
    );
    assert_eq!(
        IncomingCallAction::HangUp,
        svc.handle_incoming_call(&String::from("+36307654321"))
    );
    assert_eq!(IncomingCallAction::HangUp, svc.handle_incoming_call(&String::from("")));
}

fn unread(message: &str) -> Sms {
    Sms {
        stat: SmsStat::ReceivedUnread,
        phone_number: String::from("+36309999999"),
        unix_timestamp_millis: 1_700_000_000_000,
        message: String::from(message),
    }
}

#[test]
fn test_park_on_command_with_correct_password() {
    let mut svc = Service { cfg: test_configuration(), status: fresh_status() };
    let here = fix_at(467624859000, 186304591000, 90_000_000, 1_000_000);
    svc.status.location = Some(here);

    let w = svc.handle_sms(&unread("$tATA/park on/12345")).expect("command accepted");
    assert_eq!(Some(Park { value: true }), w.park);
    let recv = w.receiver.clone().unwrap();
    assert_eq!(Source::SmsHuman, recv.source);
    assert_eq!("+36309999999", recv.phone_number);

    let acts = svc.handle_sms_actions(&w, None);
    assert!(acts.is_empty());
    let park = svc.status.park_location.expect("parked here");
    assert_eq!(467624859000, park.latitude);
    assert_eq!(150_000_000, park.accuracy);
}

#[test]
fn test_park_command_with_wrong_password_changes_nothing() {
    let mut svc = Service { cfg: test_configuration(), status: fresh_status() };
    svc.status.location = Some(fix_at(467624859000, 186304591000, 90_000_000, 1_000_000));
    let before = svc.status;

    assert!(svc.handle_sms(&unread("$tATA/park on/99999")).is_none());
    assert_eq!(before, svc.status);
    assert!(svc.status.park_location.is_none());

    // a read message is ignored too
    let mut read = unread("$tATA/park on/12345");
    read.stat = SmsStat::ReceivedRead;
    assert!(svc.handle_sms(&read).is_none());
    assert_eq!(before, svc.status);
}

#[test]
fn test_machine_command_and_service_flag() {
    let mut svc = Service { cfg: test_configuration(), status: fresh_status() };
    let w = svc.handle_sms(&unread("$TATA/* * * * f/12345")).expect("command accepted");
    assert!(!svc.cfg.service_enabled);
    let recv = w.receiver.clone().unwrap();
    assert_eq!(Source::SmsMachine, recv.source);

    // an undecodable payload commands nothing
    assert!(svc.handle_sms(&unread("$TATA/q * * * */12345")).is_none());
    assert!(svc.handle_sms(&unread("$xATA/location/12345")).is_none());
    assert!(svc.handle_sms(&unread("no separators")).is_none());
}

#[test]
fn test_refresh_command_sends_reply_and_call() {
    let mut svc = Service { cfg: test_configuration(), status: fresh_status() };
    svc.status.location = Some(fix_at(467624859000, 186304591000, 90_000_000, 1_000_000));
    svc.status.battery = 891_200;

    let w = svc.handle_sms(&unread("$tATA/location/12345")).expect("command accepted");
    assert!(w.refresh.unwrap().value);
    let acts = svc.handle_sms_actions(&w, None);
    assert_eq!(1, acts.len());
    match &acts[0] {
        Action::SendSms { phone_number, message } => {
            assert_eq!("+36309999999", phone_number);
            assert!(message.starts_with("https://maps.google.com/?q=46.7624859,18.6304591"));
        }
        other => panic!("unexpected action {:?}", other),
    }

    let w = svc.handle_sms(&unread("$tATA/call/12345")).expect("command accepted");
    let acts = svc.handle_sms_actions(&w, None);
    assert_eq!(1, acts.len());
    match &acts[0] {
        Action::Call { phone_number, duration_millis } => {
            assert_eq!("+36309999999", phone_number);
            assert_eq!(300_000, *duration_millis);
        }
        other => panic!("unexpected action {:?}", other),
    }
}

#[test]
fn test_battery_alert_cooldown() {
    let mut svc = Service { cfg: test_configuration(), status: fresh_status() };
    let three_hours: i64 = 3 * 60 * 60 * 1000;

    // drops below a quarter with alerts enabled and no recent alert: one SMS
    let alert = svc.update_battery(Some(20), three_hours + 1).expect("alert owed");
    assert_eq!(200_000, svc.status.battery);
    assert_eq!(three_hours + 1, svc.status.last_battery_alert);
    match alert {
        Action::SendSms { phone_number, message } => {
            assert_eq!("+36301234567", phone_number);
            assert_eq!("Battery alert 0.20 %!", message);
        }
        other => panic!("unexpected action {:?}", other),
    }

    // a repeat within the cooldown sends nothing
    assert!(svc.update_battery(Some(18), three_hours + 2).is_none());
    assert_eq!(180_000, svc.status.battery);
    assert_eq!(three_hours + 1, svc.status.last_battery_alert);

    // after the cooldown it alerts again
    assert!(svc.update_battery(Some(18), 2 * three_hours + 2).is_some());

    // a healthy reading never alerts
    assert!(svc.update_battery(Some(80), 10 * three_hours).is_none());
    assert_eq!(800_000, svc.status.battery);

    // the reported level is clamped to 100%
    svc.update_battery(Some(250), 10 * three_hours);
    assert_eq!(1_000_000, svc.status.battery);

    // no reading changes nothing
    let before = svc.status;
    assert!(svc.update_battery(None, 20 * three_hours).is_none());
    assert_eq!(before, svc.status);
}

#[test]
fn test_battery_alert_disabled() {
    let mut cfg = test_configuration();
    cfg.battery_alerts = false;
    let mut svc = Service { cfg, status: fresh_status() };
    assert!(svc.update_battery(Some(5), 100_000_000).is_none());
}

#[test]
fn test_estimate_gps_accuracy() {
    // 2.5 meters of estimated error per unit of position dilution
    assert_eq!(5_750_000, pico_lib::utils::estimate_gps_accuracy(2_300_000));
    assert_eq!(25_000_000, pico_lib::utils::estimate_gps_accuracy(10_000_000));
    assert_eq!(0, pico_lib::utils::estimate_gps_accuracy(0));
}

#[test]
fn test_is_distance_big_enough() {
    assert!(pico_lib::utils::is_distance_big_enough(300_000_000, 100_000_000, 150_000_000));
    assert!(!pico_lib::utils::is_distance_big_enough(250_000_000, 100_000_000, 150_000_000));
    assert!(!pico_lib::utils::is_distance_big_enough(0, 0, 0));
}

#[test]
fn test_get_gps_location() {
    let mut session = GpsSession::new(5);
    assert_eq!(GpsAction::PowerOn, session.next_action());
    session.on_power_on();

    let mut sleeps = 0;
    let responses: [&[u8]; 3] = [
        b"+CGNSINF: ,,,,",
        b"+CGNSINF: ,,,,",
        b"+CGNSINF: 1,1,20221212120221.123,46.7624859,18.6304591,329.218,2.20,285.8,1,,2.1,2.3,0.9,,7,6,,,51,,",
    ];
    let mut next = 0;
    loop {
        match session.next_action() {
            GpsAction::SleepAndQuery { millis } => {
                assert_eq!(1000, millis);
                sleeps += 1;
                let parsed = pico_lib::gps::parse_gnss_navigation_information(responses[next]);
                next += 1;
                session.on_nav_info(parsed);
            }
            GpsAction::PowerOff => break,
            other => panic!("unexpected action {:?}", other),
        }
    }
    session.on_power_off();
    assert_eq!(GpsAction::Finished, session.next_action());
    assert_eq!(3, sleeps);
    assert_eq!(
        Location {
            latitude: 467624859000,
            longitude: 186304591000,
            accuracy: 5_750_000,
            unix_timestamp_millis: 1670846541123,
        },
        session.result.unwrap()
    );
}

#[test]
fn test_gps_session_exhausts_retries() {
    let mut session = GpsSession::new(2);
    session.on_power_on();
    session.on_nav_info(Err(pico_lib::at::AtError::Timeout));
    session.on_nav_info(Err(pico_lib::at::AtError::Timeout));
    assert_eq!(GpsAction::PowerOff, session.next_action());
    session.on_power_off();
    assert_eq!(GpsAction::Finished, session.next_action());
    assert!(session.result.is_none());
}

#[test]
fn test_get_gsm_location() {
    let mut session = GsmSession::new(5);
    let setup = [
        GsmStep::Attach,
        GsmStep::SetApn,
        GsmStep::BringUp,
        GsmStep::GetIp,
        GsmStep::BearerApn,
        GsmStep::BearerContype,
        GsmStep::BearerOpen,
        GsmStep::LbsConfig,
    ];
    for step in setup {
        assert_eq!(Some(step), session.pending());
        session.on_step_result(true);
    }
    let cmd = AtBaseStationLocationWrite {
        type_: LocationType::GetLongLatDateTime,
        cid: 1,
        longitude: None,
        latitude: None,
        lon_type: None,
    };
    // two empty replies, then the fix
    assert_eq!(Some(GsmStep::Locate { sleep_first: false }), session.pending());
    session.on_locate_result(cmd.parse(b""));
    assert_eq!(Some(GsmStep::Locate { sleep_first: true }), session.pending());
    session.on_locate_result(cmd.parse(b""));
    assert_eq!(Some(GsmStep::Locate { sleep_first: true }), session.pending());
    session.on_locate_result(cmd.parse(b"+CLBS: 0,18.6304591,46.7624859,550,12/12/22,12:02:21"));

    assert_eq!(Some(GsmStep::CloseBearer), session.pending());
    session.on_step_result(true);
    assert_eq!(Some(GsmStep::Detach), session.pending());
    session.on_step_result(true);
    assert_eq!(None, session.pending());
    assert_eq!(
        Location {
            latitude: 467624859000,
            longitude: 186304591000,
            accuracy: 550_000_000,
            unix_timestamp_millis: 1670846541000,
        },
        session.result.unwrap()
    );
}

#[test]
fn test_gsm_session_cleans_up_after_setup_failure() {
    let mut session = GsmSession::new(5);
    session.on_step_result(true);  // attach
    session.on_step_result(true);  // apn
    session.on_step_result(false);  // bring-up fails
    assert_eq!(Some(GsmStep::Detach), session.pending());
    session.on_step_result(false);  // even a failed detach ends the run
    assert_eq!(None, session.pending());
    assert!(session.result.is_none());

    // a failure after the bearer opened closes it first
    let mut session = GsmSession::new(0);
    for _ in 0..7 {
        session.on_step_result(true);
    }
    assert_eq!(Some(GsmStep::LbsConfig), session.pending());
    session.on_step_result(false);
    assert_eq!(Some(GsmStep::CloseBearer), session.pending());
    session.on_step_result(true);
    assert_eq!(Some(GsmStep::Detach), session.pending());
    session.on_step_result(true);
    assert_eq!(None, session.pending());
}

#[test]
fn test_read_sms() {
    let cmd = AtReadSMSMessagesWrite { index: 5, mode: None };

    let resp = cmd.parse(b"+CMGR: \"REC READ\",\"002B00330036003300300031003200330034003500360037\",\"\",\"26/01/10,17:25:32+04\"\r\n00240074004100540041002F006C006F0063006100740069006F006E002F00310032003300340035").unwrap();
    let sms = pico_lib::sms::read_sms_from_response(&resp).unwrap();
    assert_eq!(
        Sms {
            stat: SmsStat::ReceivedRead,
            phone_number: String::from("+36301234567"),
            unix_timestamp_millis: 1768065932000,
            message: String::from("$tATA/location/12345"),
        },
        sms
    );

    let resp = cmd.parse(b"+CMGR: \"REC UNREAD\",\"002B00330036003300300031003200330034003500360037\",\"\",\"23/08/06,15:42:16+08\"\r\n00240074004100540041002F006C006F0063006100740069006F006E002F00310032003300340035").unwrap();
    let sms = pico_lib::sms::read_sms_from_response(&resp).unwrap();
    assert_eq!(SmsStat::ReceivedUnread, sms.stat);
    assert_eq!(1691336536000, sms.unix_timestamp_millis);

    // a date of the wrong shape falls back to the fixed epoch
    let resp = cmd.parse(b"+CMGR: \"STO UNSENT\",\"002B00330036003300300031003200330034003500360037\",\"\",\"23/08/abc:16+08\"\r\n00240074004100540041002F006C006F0063006100740069006F006E002F00310032003300340035").unwrap();
    let sms = pico_lib::sms::read_sms_from_response(&resp).unwrap();
    assert_eq!(SmsStat::StoredUnsent, sms.stat);
    assert_eq!(946684800000, sms.unix_timestamp_millis);

    // an unreadable field inside a well-shaped date is read as zero
    let resp = cmd.parse(b"+CMGR: \"STO UNSENT\",\"002B00330036003300300031003200330034003500360037\",\"\",\"23/08/06,xx:42:16+08\"\r\n00240074004100540041002F006C006F0063006100740069006F006E002F00310032003300340035").unwrap();
    let sms = pico_lib::sms::read_sms_from_response(&resp).unwrap();
    assert_eq!(1691282536000, sms.unix_timestamp_millis);
}

#[test]
fn test_sms_response() {
    let cmd = AtReadSMSMessagesWrite { index: 0, mode: None };

    let resp = cmd.parse(b"+CMGR: \"REC READ\",\"002B00330036003300300031003200330034003500360037\",\"\",\"25/04/25,10:37:39+08\"\r\n00240074004100540041002F006C006F0063006100740069006F006E002F00310032003300340035\r\n").unwrap();
    assert_eq!("REC READ", resp.stat);
    assert_eq!("+36301234567", resp.sn.text);
    assert!(resp.sn.quoted);
    assert_eq!(Some(String::new()), resp.mid);
    assert_eq!("25/04/25,10:37:39+08", resp.date_time);
    assert_eq!("$tATA/location/12345", resp.message.text);

    let resp = cmd.parse(b"+CMGR: \"REC READ\",\"002B00330036003300300031003200330034003500360037\",\"\",\"25/04/25,10:37:39+08\"\r\n004B00F60073007A00F6006E006A00FC006B002E000A00DC0064007600F6007A006C0065007400740065006C002000590065007400740065006C002E\r\n").unwrap();
    assert_eq!("Köszönjük.\nÜdvözlettel Yettel.", resp.message.text);

    let resp = cmd.parse(b"+CMGR: \"REC READ\",\"002B00330036003300300031003200330034003500360037\",\"\",\"25/04/25,10:37:39+08\"\r\n00540061006D00E100730020004400F6006D0151006B0020D83DDE0E\r\n").unwrap();
    assert_eq!("Tamás Dömők 😎", resp.message.text);
}

#[test]
fn test_sms_stat_texts() {
    assert_eq!("REC UNREAD", SmsStat::ReceivedUnread.as_str());
    assert_eq!(Ok(SmsStat::StoredSent), SmsStat::from_str("STO SENT"));
    assert_eq!(Ok(SmsStat::All), SmsStat::from_str("ALL"));
    assert!(SmsStat::from_str("REC").is_err());
}
