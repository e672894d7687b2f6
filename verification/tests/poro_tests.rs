//! The compact codec against its documented wire forms, machine and human.

use pico_lib::poro::{
    escape, to_str_radix, unescape, Call, CarLocation, Park, ParkLocation, Position, Protector,
    ProtectorHuman, ProtectorMachine, ReceiverInfo, Refresh, Service, Source, Status, Watcher,
    WatcherHuman, WatcherMachine,
};

const POS1: Position = Position { latitude: 467624859000, longitude: 186304591000 };
const POS2: Position = Position { latitude: 471258945000, longitude: 178372091000 };
const CAR_LOC: CarLocation = CarLocation {
    position: POS1,
    accuracy: 250250000,
    battery: 891200,
    timestamp: 1670077542109,
};
const PARK_LOC: ParkLocation = ParkLocation { position: POS2, accuracy: 500500000 };
const PARK_DISTANCE: i64 = 72519744441;

fn check_protector(
    expected_human: &str,
    expected_machine: &str,
    protector: Protector,
    park_distance: Option<i64>,
) {
    let ph = ProtectorHuman {};
    assert_eq!(expected_human, ph.dump(&protector, park_distance));

    let pm = ProtectorMachine {};
    let machine_dumped = pm.dump(&protector);
    assert_eq!(expected_machine, machine_dumped);
    let re_parsed = pm.parse(machine_dumped).unwrap();
    assert_eq!(protector, re_parsed);
}

#[test]
fn test_protector_0() {
    check_protector(
        "",
        "* * * *",
        Protector { car_location: None, park_location: None, status: None, service: None },
        None,
    );
}

#[test]
fn test_protector_1() {
    check_protector(
        "https://maps.google.com/?q=46.7624859,18.6304591\n\n250.25 meters, 89.12 %, 2022-12-03T14:25:42.109Z\n\n",
        "5ytnrmgo 2dl4xyfs 44zq4w j3nk lb811qsd * * *",
        Protector {
            car_location: Some(CAR_LOC),
            park_location: None,
            status: None,
            service: None,
        },
        None,
    );
}

#[test]
fn test_protector_2() {
    check_protector(
        "Last park location\n\nhttps://maps.google.com/?q=47.1258945,17.8372091\n\n500.50 meters\n\n",
        "* 60hrep60 29xy4y9k 89zg9s * *",
        Protector {
            car_location: None,
            park_location: Some(PARK_LOC),
            status: None,
            service: None,
        },
        None,
    );
}

#[test]
fn test_protector_3() {
    check_protector(
        "",
        "* * 2 *",
        Protector {
            car_location: None,
            park_location: None,
            status: Some(Status::CarTheftDetected),
            service: None,
        },
        None,
    );
}

#[test]
fn test_protector_4() {
    check_protector(
        "Service on\n\n",
        "* * * t",
        Protector {
            car_location: None,
            park_location: None,
            status: None,
            service: Some(Service { value: true }),
        },
        None,
    );
}

#[test]
fn test_protector_5() {
    check_protector(
        "Last park location\n\nhttps://maps.google.com/?q=47.1258945,17.8372091\n\n500.50 meters\n\n",
        "* 60hrep60 29xy4y9k 89zg9s 1 *",
        Protector {
            car_location: None,
            park_location: Some(PARK_LOC),
            status: Some(Status::ParkingUpdated),
            service: None,
        },
        None,
    );
}

#[test]
fn test_protector_6() {
    check_protector(
        "https://maps.google.com/?q=46.7624859,18.6304591\n\n250.25 meters, 89.12 %, 2022-12-03T14:25:42.109Z\n\nService on\n\nPark distance 72519.74 meters\n\n",
        "5ytnrmgo 2dl4xyfs 44zq4w j3nk lb811qsd 60hrep60 29xy4y9k 89zg9s 0 t",
        Protector {
            car_location: Some(CAR_LOC),
            park_location: Some(PARK_LOC),
            status: Some(Status::ParkingDetected),
            service: Some(Service { value: true }),
        },
        Some(PARK_DISTANCE),
    );
}

fn check_watcher_human(expected: Watcher, command: &str) {
    let wh = WatcherHuman {};
    let parsed = wh.parse(String::from(command)).unwrap();
    assert_eq!(expected, parsed);
}

#[test]
fn test_watcher_human_0() {
    check_watcher_human(
        Watcher {
            call: None,
            refresh: Some(Refresh { value: true }),
            park: None,
            receiver: None,
            service: None,
        },
        "location",
    );
}

#[test]
fn test_watcher_human_1() {
    check_watcher_human(
        Watcher {
            call: Some(Call { value: true }),
            refresh: None,
            park: None,
            receiver: None,
            service: None,
        },
        "call",
    );
}

#[test]
fn test_watcher_human_2() {
    check_watcher_human(
        Watcher {
            call: None,
            refresh: None,
            park: Some(Park { value: true }),
            receiver: None,
            service: None,
        },
        "park on",
    );
}

#[test]
fn test_watcher_human_3() {
    check_watcher_human(
        Watcher {
            call: None,
            refresh: None,
            park: Some(Park { value: false }),
            receiver: None,
            service: None,
        },
        "park off",
    );
}

#[test]
fn test_watcher_human_4() {
    check_watcher_human(
        Watcher {
            call: None,
            refresh: None,
            park: None,
            receiver: None,
            service: Some(Service { value: true }),
        },
        "service on",
    );
}

#[test]
fn test_watcher_human_5() {
    check_watcher_human(
        Watcher {
            call: None,
            refresh: None,
            park: None,
            receiver: None,
            service: Some(Service { value: false }),
        },
        "service off",
    );
}

#[test]
fn test_watcher_human_rejects_unknown() {
    let wh = WatcherHuman {};
    assert!(wh.parse(String::from("park")).is_err());
    assert!(wh.parse(String::from("")).is_err());
    assert!(wh.parse(String::from("service")).is_err());
}

fn check_watcher_machine(expected_machine: &str, watcher: Watcher) {
    let wm = WatcherMachine {};
    let machine_dumped = wm.dump(&watcher);
    assert_eq!(expected_machine, machine_dumped);
    let re_parsed = wm.parse(machine_dumped).unwrap();
    assert_eq!(watcher, re_parsed);
}

#[test]
fn test_watcher_machine_0() {
    check_watcher_machine(
        "* * * * *",
        Watcher { call: None, refresh: None, park: None, receiver: None, service: None },
    );
}

#[test]
fn test_watcher_machine_1() {
    check_watcher_machine(
        "t * * * *",
        Watcher {
            call: Some(Call { value: true }),
            refresh: None,
            park: None,
            receiver: None,
            service: None,
        },
    );
}

#[test]
fn test_watcher_machine_2() {
    check_watcher_machine(
        "t f * * *",
        Watcher {
            call: Some(Call { value: true }),
            refresh: Some(Refresh { value: false }),
            park: None,
            receiver: None,
            service: None,
        },
    );
}

#[test]
fn test_watcher_machine_3() {
    check_watcher_machine(
        "* t f * *",
        Watcher {
            call: None,
            refresh: Some(Refresh { value: true }),
            park: Some(Park { value: false }),
            receiver: None,
            service: None,
        },
    );
}

#[test]
fn test_watcher_machine_4() {
    check_watcher_machine(
        "* * t 2 phonenumber *",
        Watcher {
            call: None,
            refresh: None,
            park: Some(Park { value: true }),
            receiver: Some(ReceiverInfo {
                source: Source::SmsMachine,
                phone_number: String::from("phonenumber"),
            }),
            service: None,
        },
    );
}

#[test]
fn test_watcher_machine_5() {
    check_watcher_machine(
        "* * * 3 phonenumber f",
        Watcher {
            call: None,
            refresh: None,
            park: None,
            receiver: Some(ReceiverInfo {
                source: Source::Service,
                phone_number: String::from("phonenumber"),
            }),
            service: Some(Service { value: false }),
        },
    );
}

#[test]
fn test_watcher_machine_6() {
    check_watcher_machine(
        "* * * 0 phonenumber t",
        Watcher {
            call: None,
            refresh: None,
            park: None,
            receiver: Some(ReceiverInfo {
                source: Source::Gcm,
                phone_number: String::from("phonenumber"),
            }),
            service: Some(Service { value: true }),
        },
    );
}

#[test]
fn test_watcher_machine_7() {
    check_watcher_machine(
        "t f t 1 phonenumber f",
        Watcher {
            call: Some(Call { value: true }),
            refresh: Some(Refresh { value: false }),
            park: Some(Park { value: true }),
            receiver: Some(ReceiverInfo {
                source: Source::SmsHuman,
                phone_number: String::from("phonenumber"),
            }),
            service: Some(Service { value: false }),
        },
    );
}

fn check_watcher_escape(expected_machine: &str, text: &str) {
    let watcher = Watcher {
        call: None,
        refresh: None,
        park: None,
        receiver: Some(ReceiverInfo {
            source: Source::SmsMachine,
            phone_number: String::from(text),
        }),
        service: None,
    };
    let wm = WatcherMachine {};
    let machine_dumped = wm.dump(&watcher);
    assert_eq!(expected_machine, machine_dumped);
    let re_parsed = wm.parse(machine_dumped).unwrap();
    assert_eq!(watcher, re_parsed);
}

#[test]
fn test_watcher_escape_0() {
    check_watcher_escape("* * * 2 ; *", "");
}

#[test]
fn test_watcher_escape_1() {
    check_watcher_escape("* * * 2 _ *", " ");
}

#[test]
fn test_watcher_escape_2() {
    check_watcher_escape("* * * 2 ____ *", "  ");
}

#[test]
fn test_watcher_escape_3() {
    check_watcher_escape("* * * 2 _____ *", "   ");
}

#[test]
fn test_watcher_escape_4() {
    check_watcher_escape("* * * 2 ;; *", ";");
}

#[test]
fn test_watcher_escape_5() {
    check_watcher_escape("* * * 2 ;;;; *", ";;");
}

#[test]
fn test_watcher_escape_6() {
    check_watcher_escape("* * * 2 ;;;;;; *", ";;;");
}

#[test]
fn test_watcher_escape_7() {
    check_watcher_escape("* * * 2 ;;;;;;;; *", ";;;;");
}

#[test]
fn test_watcher_escape_12() {
    check_watcher_escape("* * * 2 ** *", "*");
}

#[test]
fn test_watcher_escape_13() {
    check_watcher_escape("* * * 2 **** *", "**");
}

#[test]
fn test_watcher_escape_14() {
    check_watcher_escape("* * * 2 ****** *", "***");
}

#[test]
fn test_watcher_escape_15() {
    check_watcher_escape("* * * 2 ******** *", "****");
}

#[test]
fn test_escape_unescape_round_trip() {
    for text in ["", "hello", "two words", "a  b", ";*; *", "+36301234567", "árvíztűrő"] {
        let escaped = escape(String::from(text));
        assert!(!escaped.contains(' '));
        assert_eq!(text, unescape(escaped));
    }
}

#[test]
fn test_to_str_radix() {
    assert_eq!("0", to_str_radix(0, 36));
    assert_eq!("z", to_str_radix(35, 36));
    assert_eq!("10", to_str_radix(36, 36));
    assert_eq!("-1z", to_str_radix(-71, 36));
    assert_eq!("lb811qsd", to_str_radix(1670077542109, 36));
    assert_eq!("101", to_str_radix(5, 2));
    assert_eq!("-9223372036854775808", to_str_radix(i64::MIN, 10));
}

#[test]
fn test_machine_parse_rejects_bad_tokens() {
    let pm = ProtectorMachine {};
    assert!(pm.parse(String::from("")).is_err());
    assert!(pm.parse(String::from("* *")).is_err());
    assert!(pm.parse(String::from("x! * * *")).is_err());
    let wm = WatcherMachine {};
    assert!(wm.parse(String::from("t f")).is_err());
    assert!(wm.parse(String::from("* * * 9 phonenumber *")).is_err());
    assert!(wm.parse(String::from("q * * * *")).is_err());
}

#[test]
fn test_machine_parse_ignores_extra_tokens() {
    let pm = ProtectorMachine {};
    let parsed = pm.parse(String::from("* * * * extra tokens")).unwrap();
    assert_eq!(
        Protector { car_location: None, park_location: None, status: None, service: None },
        parsed
    );
}

#[test]
fn test_machine_round_trip_negative_values() {
    let pm = ProtectorMachine {};
    let p = Protector {
        car_location: Some(CarLocation {
            position: Position { latitude: -467624859000, longitude: -1 },
            accuracy: 0,
            battery: -891200,
            timestamp: i64::MIN,
        }),
        park_location: None,
        status: Some(Status::ParkingDetected),
        service: Some(Service { value: false }),
    };
    assert_eq!(p, pm.parse(pm.dump(&p)).unwrap());
}
