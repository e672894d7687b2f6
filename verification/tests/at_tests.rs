//! The command codec against the module's documented lines and replies.

use pico_lib::battery::{AtBatteryChargeExecute, BatteryChargeResponse, BatteryStatus};
use pico_lib::call::{
    AtCallingLineIdentificationPresentationWrite, AtDialNumber, AtHangup,
    AtSwapAudioChannelsWrite, AudioChannels, ClipMode, ClipType, ClipUrc, ClipValidity,
};
use pico_lib::gps::{
    parse_gnss_navigation_information, AtGnssNavigationInformationExecute,
    AtGnssPowerControlWrite, FixStatus, GNSSRunStatus, GnssDateTime,
    GnssNavigationInformationResponse, PowerMode,
};
use pico_lib::gsm::{
    AtAttachGPRS, AtBaseStationLocationConfWrite, AtBaseStationLocationWrite,
    AtBringUpWirelessConnectionExecute, AtGetLocalIPAddressExecute, AtSetApnWrite,
    AtSetBearerWrite, AttachState, BaseStationLocationResponseType4, CmdType, LocationCode,
    LocationType, Operate, Para,
};
use pico_lib::hexstr::{
    decode_hex_u8, decode_utf16_hex_string, decode_utf8_hex_string, encode_utf16_hex_string,
    encode_utf8_hex_string, UCS2HexString,
};
use pico_lib::network::{AT, ATE, CGREG};
use pico_lib::sms::{
    AtNewSMSMessageIndicationsWrite, AtReadSMSMessagesWrite, AtSMSData, AtSMSSend,
    AtSelectSMSMessageFormatWrite, AtSelectTECharsetWrite, BFRMode, CBMMode, DSMode, MessageMode,
    MtMode, NewMessageIndicationUrc, SMSDataResponse, SMSIndicationsMode,
};
use pico_lib::urc::{MessageWaitingIndication, Urc};

#[test]
fn test_at() {
    assert_eq!("AT\r\n", AT.write());
    assert_eq!(5000, AT.max_timeout_ms());
}

#[test]
fn test_ate() {
    assert_eq!("ATE1\r\n", ATE.write());
}

#[test]
fn test_cgreg() {
    assert_eq!("AT+CGREG?\r\n", CGREG.write());
    assert_eq!("+CGREG: 0,1", CGREG.parse(b"+CGREG: 0,1\r\n").unwrap().text);
}

#[test]
fn test_at_battery_charge_execute() {
    assert_eq!("AT+CBC\r", AtBatteryChargeExecute.write());
}

#[test]
fn test_network_registration_responses() {
    let cmd = AtBatteryChargeExecute;

    assert_eq!(
        BatteryChargeResponse { bcs: BatteryStatus::NotCharging, bcl: 50, voltage: 300 },
        cmd.parse(b"+CBC: 0,50,300\r\n").unwrap()
    );

    assert_eq!(
        BatteryChargeResponse { bcs: BatteryStatus::Charging, bcl: 75, voltage: 450 },
        cmd.parse(b"+CBC: 1,75,450\r\n").unwrap()
    );

    assert_eq!(
        BatteryChargeResponse { bcs: BatteryStatus::ChargingFinished, bcl: 100, voltage: 600 },
        cmd.parse(b"+CBC: 2,100,600\r\n").unwrap()
    );
}

#[test]
fn test_battery_parse_rejects_malformed() {
    let cmd = AtBatteryChargeExecute;
    assert!(cmd.parse(b"+CBC: 3,50,300\r\n").is_err());
    assert!(cmd.parse(b"+CBC: 0,50\r\n").is_err());
    assert!(cmd.parse(b"+CBD: 0,50,300\r\n").is_err());
    assert!(cmd.parse(b"+CBC: 0,abc,300\r\n").is_err());
}

#[test]
fn test_at_swap_audio_channels_write() {
    assert_eq!("AT+CHFA=1\r", AtSwapAudioChannelsWrite { n: AudioChannels::Main }.write());
}

#[test]
fn test_at_dial_number() {
    assert_eq!(
        "ATD+361234567,i;\r",
        AtDialNumber { number: String::from("+361234567") }.write()
    );
}

#[test]
fn test_at_hangup() {
    assert_eq!("AT+CHUP;\r", AtHangup.write());
}

#[test]
fn test_at_calling_line_identification_presentation_write() {
    let cmd = AtCallingLineIdentificationPresentationWrite {
        n: ClipMode::EnableClipNotification,
    };
    assert_eq!("AT+CLIP=1\r", cmd.write());
    assert_eq!(15000, cmd.max_timeout_ms());
}

#[test]
fn call_test_clip_response() {
    assert_eq!(
        ClipUrc {
            number: String::from("+36301234567"),
            type_: ClipType::International,
            sub_addr: Some(String::new()),
            sa_type: Some(0),
            alpha_id: Some(String::new()),
            cli_validity: Some(ClipValidity::Valid),
        },
        ClipUrc::parse(b"+CLIP: \"+36301234567\",145,\"\",0,\"\",0\r\n").unwrap()
    );
}

#[test]
fn test_at_gnss_power_control() {
    assert_eq!("AT+CGNSPWR=1\r", AtGnssPowerControlWrite { mode: PowerMode::TurnOn }.write());
    assert_eq!("AT+CGNSPWR=0\r", AtGnssPowerControlWrite { mode: PowerMode::TurnOff }.write());
    assert_eq!("AT+CGNSINF\r", AtGnssNavigationInformationExecute.write());
}

#[test]
fn test_at_gnss_navigation_information_responses() {
    assert!(parse_gnss_navigation_information(
        b"+CGNSINF: 1,1,20221212120221.123,46.7624859,18.6304591,329.218,2.20,285.8,1,,2.1,2.3,0.9,,7,f,,,51,,\r\n"
    ).is_err());

    assert!(parse_gnss_navigation_information(b"+CGNSI").is_err());

    assert_eq!(
        GnssNavigationInformationResponse {
            gnss_run_status: Some(GNSSRunStatus::Off),
            fix_status: None,
            utc_date_time: None,
            latitude: None,
            longitude: None,
            msl_altitude: None,
            speed_over_ground: None,
            course_over_ground: None,
            fix_mode: None,
            reserved1: None,
            hdop: None,
            pdop: None,
            vdop: None,
            reserved2: None,
            gps_satellites_in_view: None,
            gnss_satellites_used: None,
            glonass_satellites_in_view: None,
            reserved3: None,
            c_n0_max: None,
            hpa: None,
            vpa: None,
        },
        parse_gnss_navigation_information(b"+CGNSINF: 0,,,,,,,,,,,,,,,,,,,,\r\n").unwrap(),
    );

    assert_eq!(
        GnssNavigationInformationResponse {
            gnss_run_status: Some(GNSSRunStatus::On),
            fix_status: Some(FixStatus::FixedPosition),
            utc_date_time: Some(GnssDateTime {
                year: 2022,
                month: 12,
                day: 12,
                hour: 12,
                minute: 2,
                second: 21,
                millis: 123,
            }),
            latitude: Some(467624859000),
            longitude: Some(186304591000),
            msl_altitude: Some(329218000),
            speed_over_ground: Some(2200000),
            course_over_ground: Some(285800000),
            fix_mode: Some(1),
            reserved1: None,
            hdop: Some(2100000),
            pdop: Some(2300000),
            vdop: Some(900000),
            reserved2: None,
            gps_satellites_in_view: Some(7),
            gnss_satellites_used: Some(6),
            glonass_satellites_in_view: None,
            reserved3: None,
            c_n0_max: Some(51),
            hpa: None,
            vpa: None,
        },
        parse_gnss_navigation_information(
            b"+CGNSINF: 1,1,20221212120221.123,46.7624859,18.6304591,329.218,2.20,285.8,1,,2.1,2.3,0.9,,7,6,,,51,,\r\n"
        ).unwrap()
    );
}

#[test]
fn test_at_attach_gprs() {
    assert_eq!("AT+CGATT=1\r", AtAttachGPRS { state: AttachState::Attach }.write());
    assert_eq!("AT+CGATT=0\r", AtAttachGPRS { state: AttachState::Detach }.write());
    assert_eq!(7500, AtAttachGPRS { state: AttachState::Attach }.max_timeout_ms());
}

#[test]
fn test_at_set_apn_write() {
    assert_eq!(
        "AT+CSTT=\"online\"\r",
        AtSetApnWrite { apn: String::from("online"), user_name: None, password: None }.write()
    );
}

#[test]
fn test_at_bring_up_wireless_connection_execute() {
    assert_eq!("AT+CIICR\r", AtBringUpWirelessConnectionExecute.write());
}

#[test]
fn test_at_get_local_ip_address_execute() {
    assert_eq!("AT+CIFSR\r", AtGetLocalIPAddressExecute.write());
}

#[test]
fn test_at_get_local_ip_address_response() {
    assert_eq!(
        "100.95.173.97",
        AtGetLocalIPAddressExecute.parse(b"100.95.173.97\r\n").unwrap().address
    );
}

#[test]
fn test_at_set_bearer_write() {
    assert_eq!(
        "AT+SAPBR=3,1,\"APN\",\"online\"\r",
        AtSetBearerWrite {
            cmd_type: CmdType::SetBearerParameters,
            cid: 1,
            con_param_tag: Some(String::from("APN")),
            con_param_value: Some(String::from("online")),
        }
        .write()
    );
    assert_eq!(
        "AT+SAPBR=3,1,\"Contype\",\"GPRS\"\r",
        AtSetBearerWrite {
            cmd_type: CmdType::SetBearerParameters,
            cid: 1,
            con_param_tag: Some(String::from("Contype")),
            con_param_value: Some(String::from("GPRS")),
        }
        .write()
    );
    assert_eq!(
        "AT+SAPBR=1,1\r",
        AtSetBearerWrite {
            cmd_type: CmdType::OpenBearer,
            cid: 1,
            con_param_tag: None,
            con_param_value: None,
        }
        .write()
    );
    assert_eq!(
        "AT+SAPBR=0,1\r",
        AtSetBearerWrite {
            cmd_type: CmdType::CloseBearer,
            cid: 1,
            con_param_tag: None,
            con_param_value: None,
        }
        .write()
    );
}

#[test]
fn test_at_base_station_conf_write() {
    assert_eq!(
        "AT+CLBSCFG=1,3,\"lbs-simcom.com:3002\"\r",
        AtBaseStationLocationConfWrite {
            operate: Operate::SetParameter,
            para: Para::ServerAddress,
            value: Some(String::from("lbs-simcom.com:3002")),
        }
        .write()
    );
}

#[test]
fn test_at_base_station_write() {
    assert_eq!(
        "AT+CLBS=4,1\r",
        AtBaseStationLocationWrite {
            type_: LocationType::GetLongLatDateTime,
            cid: 1,
            longitude: None,
            latitude: None,
            lon_type: None,
        }
        .write()
    );
}

#[test]
fn test_at_a() {
    let cmd = AtBaseStationLocationWrite {
        type_: LocationType::GetLongLatDateTime,
        cid: 1,
        longitude: None,
        latitude: None,
        lon_type: None,
    };
    assert_eq!(
        BaseStationLocationResponseType4 {
            location_code: LocationCode::Success,
            longitude: Some(186304591000),
            latitude: Some(467624859000),
            accuracy: Some(550000000),
            year: 2022,
            month: 12,
            day: 12,
            hour: 12,
            minute: 2,
            second: 21,
        },
        cmd.parse(b"+CLBS: 0,18.6304591,46.7624859,550,12/12/22,12:02:21\r\n").unwrap()
    );
}

#[test]
fn test_at_select_sms_message_format_write() {
    assert_eq!(
        "AT+CMGF=1\r",
        AtSelectSMSMessageFormatWrite { mode: MessageMode::Text }.write()
    );
}

#[test]
fn test_at_select_te_charset_write() {
    assert_eq!(
        "AT+CSCS=\"UCS2\"\r",
        AtSelectTECharsetWrite { chset: String::from("UCS2") }.write()
    );
}

#[test]
fn test_at_send_sms_1() {
    assert_eq!(
        "AT+CMGS=\"002B00330036003300300031003200330034003500360037\"\r",
        AtSMSSend {
            number: UCS2HexString { text: String::from("+36301234567"), quoted: true },
        }
        .write()
    );
}

#[test]
fn test_at_send_sms_2() {
    assert_eq!(
        "00740068006900730020006900730020007400680065002000740065007800740020006D006500730073006100670065\x1a",
        AtSMSData {
            message: UCS2HexString {
                text: String::from("this is the text message"),
                quoted: false,
            },
        }
        .write()
    );
}

#[test]
fn test_at_new_sms_message_indications_write() {
    assert_eq!(
        "AT+CNMI=2,1,0,0,0\r",
        AtNewSMSMessageIndicationsWrite {
            mode: SMSIndicationsMode::BufferUCRInTA,
            mt: Some(MtMode::SMSStoredInMETAToTE),
            bm: Some(CBMMode::NoCBMToTE),
            ds: Some(DSMode::NoDSToTE),
            bfr: Some(BFRMode::TAFlushedToTE),
        }
        .write()
    );
}

#[test]
fn test_at_read_sms_messages_write() {
    assert_eq!("AT+CMGR=42\r", AtReadSMSMessagesWrite { index: 42, mode: None }.write());
}

#[test]
fn sms_test_clip_response() {
    assert_eq!(
        NewMessageIndicationUrc { mem: String::from("SM"), index: 1 },
        NewMessageIndicationUrc::parse(b"+CMTI: \"SM\",1\r\n").unwrap()
    );
}

#[test]
fn test_send_sms_response() {
    let cmd = AtSMSData {
        message: UCS2HexString { text: String::from("data"), quoted: false },
    };
    assert_eq!(SMSDataResponse { mr: 13 }, cmd.parse(b"+CMGS: 13").unwrap());
}

#[test]
fn test_urc_parse() {
    assert_eq!(
        Some(Urc::MessageWaitingIndication(MessageWaitingIndication)),
        Urc::parse(b"+UMWI: 0,1\r\n")
    );
    assert_eq!(None, Urc::parse(b"+RING\r\n"));
}

#[test]
fn test_encode_utf8_hex_string() {
    assert_eq!("", encode_utf8_hex_string(b""));
    assert_eq!("3030303036", encode_utf8_hex_string(b"00006"));
    assert_eq!("2B3336333031323334353637", encode_utf8_hex_string(b"+36301234567"));
    assert_eq!(
        "24744154412F6C6F636174696F6E2F3132333435",
        encode_utf8_hex_string(b"$tATA/location/12345")
    );
    assert_eq!(
        "4BC3B6737AC3B66E6AC3BC6B2E0AC39C6476C3B67A6C657474656C2059657474656C2E",
        encode_utf8_hex_string("Köszönjük.\nÜdvözlettel Yettel.".as_bytes())
    );
    assert_eq!(
        "54616DC3A1732044C3B66DC5916B20F09F988E",
        encode_utf8_hex_string("Tamás Dömők 😎".as_bytes())
    );
}

#[test]
fn test_decode_utf8_hex_string() {
    assert_eq!("", decode_utf8_hex_string(b"").unwrap());
    assert_eq!("00006", decode_utf8_hex_string(b"3030303036").unwrap());
    assert_eq!("+36301234567", decode_utf8_hex_string(b"2B3336333031323334353637").unwrap());
    assert_eq!(
        "$tATA/location/12345",
        decode_utf8_hex_string(b"24744154412F6C6F636174696F6E2F3132333435").unwrap()
    );
    assert_eq!(
        "Köszönjük.\nÜdvözlettel Yettel.",
        decode_utf8_hex_string(
            b"4BC3B6737AC3B66E6AC3BC6B2E0AC39C6476C3B67A6C657474656C2059657474656C2E"
        )
        .unwrap()
    );
    assert_eq!(
        "Tamás Dömők 😎",
        decode_utf8_hex_string(b"54616DC3A1732044C3B66DC5916B20F09F988E").unwrap()
    );
    assert!(decode_utf8_hex_string(b"3").is_err());
    assert!(decode_utf8_hex_string(b"FF").is_err());
}

#[test]
fn test_encode_utf16_hex_string() {
    assert_eq!("", encode_utf16_hex_string(b"").unwrap());
    assert_eq!("00300030003000300036", encode_utf16_hex_string(b"00006").unwrap());
    assert_eq!(
        "002B00330036003300300031003200330034003500360037",
        encode_utf16_hex_string(b"+36301234567").unwrap()
    );
    assert_eq!(
        "00240074004100540041002F006C006F0063006100740069006F006E002F00310032003300340035",
        encode_utf16_hex_string(b"$tATA/location/12345").unwrap()
    );
    assert_eq!(
        "004B00F60073007A00F6006E006A00FC006B002E000A00DC0064007600F6007A006C0065007400740065006C002000590065007400740065006C002E",
        encode_utf16_hex_string("Köszönjük.\nÜdvözlettel Yettel.".as_bytes()).unwrap()
    );
    assert_eq!(
        "00540061006D00E100730020004400F6006D0151006B0020D83DDE0E",
        encode_utf16_hex_string("Tamás Dömők 😎".as_bytes()).unwrap()
    );
}

#[test]
fn test_decode_utf16_hex_string() {
    assert_eq!("", decode_utf16_hex_string(b"").unwrap());
    assert_eq!("00006", decode_utf16_hex_string(b"00300030003000300036").unwrap());
    assert_eq!(
        "+36301234567",
        decode_utf16_hex_string(b"002B00330036003300300031003200330034003500360037").unwrap()
    );
    assert_eq!(
        "$tATA/location/12345",
        decode_utf16_hex_string(
            b"00240074004100540041002F006C006F0063006100740069006F006E002F00310032003300340035"
        )
        .unwrap()
    );
    assert_eq!(
        "Köszönjük.\nÜdvözlettel Yettel.",
        decode_utf16_hex_string(
            b"004B00F60073007A00F6006E006A00FC006B002E000A00DC0064007600F6007A006C0065007400740065006C002000590065007400740065006C002E"
        )
        .unwrap()
    );
    assert_eq!(
        "Tamás Dömők 😎",
        decode_utf16_hex_string(b"00540061006D00E100730020004400F6006D0151006B0020D83DDE0E")
            .unwrap()
    );
    assert!(decode_utf16_hex_string(b"D83D").is_err());
    assert!(decode_utf16_hex_string(b"003").is_err());
}

#[test]
fn test_decode_hex_u8() {
    assert_eq!(vec![0u8, 255, 16], decode_hex_u8("00FF10").unwrap());
    assert!(decode_hex_u8("0").is_err());
    assert!(decode_hex_u8("zz").is_err());
}
