use easee::api::{ChargerOpMode, Context, LoginResponse, UtcDateTime};
use easee::double::Double;
use easee::json::{parse, Json};
use easee::decode::DeserializeError;
use easee::observation::{
    decode_update, handle, low_bits, op_mode_from_int, reversed, DataType, Event, InputPin, Observation,
    ObservationData, ObservationError, ParseError, PhaseMode, PilotMode, ProductUpdate,
    ReasonForNoCurrent, Stream,
};
use easee::signalr::{Message, StreamError};
use easee::stream::{Incoming, NegotiateResponse, RecvError};

fn text(s: &str) -> ObservationData {
    ObservationData::String(s.to_owned())
}

fn double(s: &str) -> Double {
    Double::new(s.to_owned()).unwrap()
}

fn measured(s: &str) -> ObservationData {
    ObservationData::Double(double(s))
}

fn update(data_type: DataType, id: u16, value: &str) -> ProductUpdate {
    ProductUpdate {
        data_type,
        id,
        mid: "EH000001".to_owned(),
        timestamp: UtcDateTime { seconds: 0, nanoseconds: 0 },
        value: value.to_owned(),
    }
}

fn update_json(data_type: u8, id: u32, value: &str) -> String {
    format!(
        "{{\"dataType\":{},\"id\":{},\"mid\":\"EH000001\",\
         \"timestamp\":\"2024-01-02T03:04:05Z\",\"value\":\"{}\"}}",
        data_type, id, value
    )
}

fn update_message(data_type: u8, id: u32, value: &str) -> String {
    format!(
        "{{\"type\":1,\"target\":\"ProductUpdate\",\"arguments\":[{}]}}\u{1e}",
        update_json(data_type, id, value)
    )
}

fn new_stream() -> Stream {
    let ctx = Context::from_login_response_at(
        LoginResponse {
            access_token: "bearer".to_owned(),
            expires_in: 60,
            access_claims: vec![],
            token_type: None,
            refresh_token: "r".to_owned(),
        },
        0,
    );
    let answer = NegotiateResponse {
        negotiate_version: 1,
        connection_id: "id".to_owned(),
        connection_token: "tok".to_owned(),
    };
    let upgrade = easee::stream::Stream::open(&ctx, Ok(answer)).unwrap();
    Stream::from_ws(upgrade.connected(Ok(())).unwrap().0)
}

fn event(observation: Observation) -> Event {
    Event { charger: "EH000001".to_owned(), observation }
}

#[test]
fn strings_in_the_table_are_named() {
    let s = || "abc".to_owned();
    assert_eq!(Observation::try_from_data(1, text("abc")), Observation::SelfTestResult(s()));
    assert_eq!(Observation::try_from_data(2, text("abc")), Observation::SelfTestDetails(s()));
    assert_eq!(Observation::try_from_data(26, text("abc")), Observation::SiteID(s()));
    assert_eq!(Observation::try_from_data(81, text("abc")), Observation::ICCID(s()));
    assert_eq!(
        Observation::try_from_data(84, text("abc")),
        Observation::MobileNetworkOperator(s())
    );
    assert_eq!(
        Observation::try_from_data(100, text("C")),
        Observation::PilotMode(PilotMode::Charging)
    );
    assert_eq!(Observation::try_from_data(107, text("abc")), Observation::UserId("cba".to_owned()));
}

#[test]
fn integers_in_the_table_are_named() {
    let n = ObservationData::Integer;
    assert_eq!(Observation::try_from_data(10, n(-3)), Observation::WifiEvent(-3));
    assert_eq!(Observation::try_from_data(11, n(4)), Observation::ChargerOfflineReason(4));
    assert_eq!(
        Observation::try_from_data(22, n(16)),
        Observation::CircuitMaxCurrent { phase: 1, amperes: 16 }
    );
    assert_eq!(
        Observation::try_from_data(23, n(20)),
        Observation::CircuitMaxCurrent { phase: 2, amperes: 20 }
    );
    assert_eq!(
        Observation::try_from_data(24, n(32)),
        Observation::CircuitMaxCurrent { phase: 3, amperes: 32 }
    );
    assert_eq!(Observation::try_from_data(32, n(-40)), Observation::Temperature(-40));
    assert_eq!(
        Observation::try_from_data(96, n(55)),
        Observation::ReasonForNoCurrent(ReasonForNoCurrent(55))
    );
    assert_eq!(
        Observation::try_from_data(109, n(3)),
        Observation::ChargerOpMode(ChargerOpMode::Charging)
    );
}

#[test]
fn booleans_in_the_table_are_named() {
    let b = ObservationData::Boolean;
    assert_eq!(Observation::try_from_data(31, b(true)), Observation::IsEnabled(true));
    assert_eq!(Observation::try_from_data(102, b(false)), Observation::SmartCharging(false));
    assert_eq!(Observation::try_from_data(103, b(true)), Observation::CableLocked(true));
}

#[test]
fn doubles_in_the_table_are_named() {
    assert_eq!(
        Observation::try_from_data(48, measured("6.5")),
        Observation::DynamicChargerCurrent(double("6.5"))
    );
    assert_eq!(Observation::try_from_data(104, measured("32")), Observation::CableRating(double("32")));
    assert_eq!(Observation::try_from_data(120, measured("7.2")), Observation::TotalPower(double("7.2")));
    let pins = [(182, InputPin::T2), (183, InputPin::T3), (184, InputPin::T4), (185, InputPin::T5)];
    for (code, pin) in pins {
        assert_eq!(
            Observation::try_from_data(code, measured("1.25")),
            Observation::IntCurrent { pin, current: double("1.25") }
        );
    }
}

#[test]
fn codes_outside_the_table_are_kept_as_unknown() {
    for code in [0u16, 3, 9, 12, 25, 33, 47, 97, 101, 108, 110, 121, 181, 186, 1000, u16::MAX] {
        assert_eq!(
            Observation::try_from_data(code, text("x")),
            Observation::Unknown { code, value: text("x") }
        );
        assert_eq!(
            Observation::try_from_data(code, ObservationData::Integer(7)),
            Observation::Unknown { code, value: ObservationData::Integer(7) }
        );
        assert_eq!(
            Observation::try_from_data(code, ObservationData::Boolean(true)),
            Observation::Unknown { code, value: ObservationData::Boolean(true) }
        );
        assert_eq!(
            Observation::try_from_data(code, measured("1.5")),
            Observation::Unknown { code, value: measured("1.5") }
        );
    }
}

#[test]
fn a_known_code_with_a_value_of_another_type_is_kept_as_unknown() {
    assert_eq!(
        Observation::try_from_data(102, ObservationData::Integer(1)),
        Observation::Unknown { code: 102, value: ObservationData::Integer(1) }
    );
    assert_eq!(
        Observation::try_from_data(102, text("true")),
        Observation::Unknown { code: 102, value: text("true") }
    );
    assert_eq!(
        Observation::try_from_data(1, ObservationData::Boolean(true)),
        Observation::Unknown { code: 1, value: ObservationData::Boolean(true) }
    );
    assert_eq!(
        Observation::try_from_data(120, ObservationData::Integer(7)),
        Observation::Unknown { code: 120, value: ObservationData::Integer(7) }
    );
    assert_eq!(
        Observation::try_from_data(10, measured("1")),
        Observation::Unknown { code: 10, value: measured("1") }
    );
    assert_eq!(
        Observation::try_from_data(107, ObservationData::Integer(7)),
        Observation::Unknown { code: 107, value: ObservationData::Integer(7) }
    );
}

#[test]
fn boolean_is_true_unless_zero() {
    assert_eq!(
        ObservationData::from_dynamic("0".to_owned(), DataType::Boolean),
        Ok(ObservationData::Boolean(false))
    );
    assert_eq!(
        ObservationData::from_dynamic("5".to_owned(), DataType::Boolean),
        Ok(ObservationData::Boolean(true))
    );
    assert_eq!(
        ObservationData::from_dynamic("-1".to_owned(), DataType::Boolean),
        Ok(ObservationData::Boolean(true))
    );
    assert_eq!(
        ObservationData::from_dynamic("+0".to_owned(), DataType::Boolean),
        Ok(ObservationData::Boolean(false))
    );
    assert_eq!(
        ObservationData::from_dynamic("-000".to_owned(), DataType::Boolean),
        Ok(ObservationData::Boolean(false))
    );
}

#[test]
fn boolean_update_decodes_by_the_nonzero_rule() {
    assert_eq!(
        decode_update(update(DataType::Boolean, 102, "0")),
        Ok(event(Observation::SmartCharging(false)))
    );
    assert_eq!(
        decode_update(update(DataType::Boolean, 102, "5")),
        Ok(event(Observation::SmartCharging(true)))
    );
}

#[test]
fn number_of_phases_tells_triple_phase() {
    let n = ObservationData::Integer;
    assert_eq!(Observation::try_from_data(38, n(1)), Observation::TriplePhase(false));
    assert_eq!(Observation::try_from_data(38, n(3)), Observation::TriplePhase(true));
    assert_eq!(
        Observation::try_from_data(38, n(2)),
        Observation::Unknown { code: 38, value: n(2) }
    );
    assert_eq!(
        Observation::try_from_data(38, n(0)),
        Observation::Unknown { code: 38, value: n(0) }
    );
    assert_eq!(
        Observation::try_from_data(38, n(-1)),
        Observation::Unknown { code: 38, value: n(-1) }
    );
}

#[test]
fn user_id_is_reversed() {
    assert_eq!(Observation::try_from_data(107, text("oof")), Observation::UserId("foo".to_owned()));
    assert_eq!(Observation::try_from_data(107, text("")), Observation::UserId("".to_owned()));
    assert_eq!(
        decode_update(update(DataType::String, 107, "oof")),
        Ok(event(Observation::UserId("foo".to_owned())))
    );
}

#[test]
fn reversed_turns_characters_not_bytes() {
    assert_eq!(reversed("aé€"), "€éa");
    assert_eq!(reversed("x"), "x");
    assert_eq!(reversed(""), "");
}

#[test]
fn reason_for_no_current_is_shown_by_name() {
    assert_eq!(ReasonForNoCurrent(100).to_string(), "Error: undefined");
    assert_eq!(ReasonForNoCurrent(200).to_string(), "Code 200");
    assert_eq!(ReasonForNoCurrent(0).to_string(), "OK");
    assert_eq!(ReasonForNoCurrent(12).to_string(), "Code 12");
    assert_eq!(ReasonForNoCurrent(65535).to_string(), "Code 65535");
}

#[test]
fn every_reason_has_its_text() {
    let names = [
        (0, "OK"),
        (1, "LoadBalance: circuit too low"),
        (2, "LoadBalance: dynamic circuit too low"),
        (3, "LoadBalance: max dynamic offline"),
        (4, "LoadBalance: circuit fuse too low"),
        (5, "LoadBalance: waiting in queue"),
        (6, "LoadBalance: waiting in charged queue"),
        (7, "Error: illegal grid type"),
        (8, "Error: not received request from car"),
        (9, "Error: master communication lost"),
        (10, "Error: no current from equalizer"),
        (11, "Error: no current, phase disconnected"),
        (25, "Error: limited by circuit fuse"),
        (26, "Error: limited by circuit max current"),
        (27, "Error: limited by dynamic circuit current"),
        (28, "Error: limited by equalizer"),
        (29, "Error: limited by circuit load balancing"),
        (30, "Error: limited by offline settings"),
        (53, "Info: charger disabled"),
        (54, "Waiting: pending schedule"),
        (55, "Waiting: pending authorization"),
        (56, "Error: charger in error state"),
        (57, "Error: Erratic EV"),
        (75, "Cable: limited by cable rating"),
        (76, "Schedule: limited by schedule"),
        (77, "Charger limit: limited by charger max current"),
        (78, "Charger Limit: limited by dynamic charger current"),
        (79, "Car limit: limited by car not charging"),
        (80, "Local: limited by local adjustment"),
        (81, "Car limit: limited by car"),
        (100, "Error: undefined"),
    ];
    let mut named = 0;
    for code in 0..=300u16 {
        let shown = ReasonForNoCurrent(code).to_string();
        match names.iter().find(|(c, _)| *c == code) {
            Some((_, name)) => {
                assert_eq!(shown, *name);
                named += 1;
            }
            None => assert_eq!(shown, format!("Code {}", code)),
        }
    }
    assert_eq!(named, 31);
}

#[test]
fn reason_for_no_current_keeps_the_low_sixteen_bits() {
    assert_eq!(low_bits(0), 0);
    assert_eq!(low_bits(65535), 65535);
    assert_eq!(low_bits(65536), 0);
    assert_eq!(low_bits(65536 + 100), 100);
    assert_eq!(low_bits(-1), 65535);
    assert_eq!(low_bits(-65536), 0);
    assert_eq!(low_bits(i64::MAX), 65535);
    assert_eq!(low_bits(i64::MIN), 0);
    for n in [-70000i64, -65537, -2, 1, 70000, 1 << 40] {
        assert_eq!(low_bits(n), n as u16);
    }
    assert_eq!(
        Observation::try_from_data(96, ObservationData::Integer(-1)),
        Observation::ReasonForNoCurrent(ReasonForNoCurrent(65535))
    );
}

#[test]
fn pilot_mode_is_read_from_its_letter() {
    assert_eq!(PilotMode::from("A"), PilotMode::Disconnected);
    assert_eq!(PilotMode::from("B"), PilotMode::Connected);
    assert_eq!(PilotMode::from("C"), PilotMode::Charging);
    assert_eq!(PilotMode::from("D"), PilotMode::NeedsVentilation);
    assert_eq!(PilotMode::from("F"), PilotMode::FaultDetected);
    for other in ["", "E", "a", "AB", " A", "G", "Z"] {
        assert_eq!(PilotMode::from(other), PilotMode::Unknown);
        assert_eq!(
            Observation::try_from_data(100, text(other)),
            Observation::PilotMode(PilotMode::Unknown)
        );
    }
}

#[test]
fn pilot_and_phase_modes_have_codes() {
    assert_eq!(PilotMode::Disconnected.code(), b'A');
    assert_eq!(PilotMode::Connected.code(), b'B');
    assert_eq!(PilotMode::Charging.code(), b'C');
    assert_eq!(PilotMode::NeedsVentilation.code(), b'D');
    assert_eq!(PilotMode::FaultDetected.code(), b'F');
    assert_eq!(PilotMode::Unknown.code(), 0);
    assert_eq!(PhaseMode::Ignore.code(), 0);
    assert_eq!(PhaseMode::Phase1.code(), 1);
    assert_eq!(PhaseMode::Auto.code(), 2);
    assert_eq!(PhaseMode::Phase2.code(), 3);
}

#[test]
fn operating_mode_is_read_from_its_number() {
    assert_eq!(op_mode_from_int(1), ChargerOpMode::Disconnected);
    assert_eq!(op_mode_from_int(2), ChargerOpMode::Paused);
    assert_eq!(op_mode_from_int(3), ChargerOpMode::Charging);
    assert_eq!(op_mode_from_int(4), ChargerOpMode::Finished);
    assert_eq!(op_mode_from_int(5), ChargerOpMode::Error);
    assert_eq!(op_mode_from_int(6), ChargerOpMode::Ready);
    for other in [0i64, 7, 8, -1, 100, i64::MIN, i64::MAX] {
        assert_eq!(op_mode_from_int(other), ChargerOpMode::Unknown);
        assert_eq!(
            Observation::try_from_data(109, ObservationData::Integer(other)),
            Observation::ChargerOpMode(ChargerOpMode::Unknown)
        );
    }
}

#[test]
fn data_types_have_numbers() {
    assert_eq!(DataType::from_code(2), Some(DataType::Boolean));
    assert_eq!(DataType::from_code(3), Some(DataType::Double));
    assert_eq!(DataType::from_code(4), Some(DataType::Integer));
    assert_eq!(DataType::from_code(6), Some(DataType::String));
    for other in [0u64, 1, 5, 7, 256 + 2, u64::MAX] {
        assert_eq!(DataType::from_code(other), None);
    }
}

#[test]
fn from_dynamic_reads_integers() {
    let read = |s: &str| ObservationData::from_dynamic(s.to_owned(), DataType::Integer);
    assert_eq!(read("0"), Ok(ObservationData::Integer(0)));
    assert_eq!(read("42"), Ok(ObservationData::Integer(42)));
    assert_eq!(read("+42"), Ok(ObservationData::Integer(42)));
    assert_eq!(read("-42"), Ok(ObservationData::Integer(-42)));
    assert_eq!(read("0042"), Ok(ObservationData::Integer(42)));
    assert_eq!(read("9223372036854775807"), Ok(ObservationData::Integer(i64::MAX)));
    assert_eq!(read("-9223372036854775808"), Ok(ObservationData::Integer(i64::MIN)));
}

#[test]
fn from_dynamic_reports_text_that_is_no_integer() {
    for bad in ["", "+", "-", "1.0", " 1", "1 ", "1_000", "0x10", "one", "--1", "+-1", "1e3",
        "9223372036854775808", "-9223372036854775809", "٣"]
    {
        assert_eq!(
            ObservationData::from_dynamic(bad.to_owned(), DataType::Integer),
            Err(ParseError::Integer(bad.to_owned())),
            "{:?}",
            bad
        );
        assert_eq!(
            ObservationData::from_dynamic(bad.to_owned(), DataType::Boolean),
            Err(ParseError::Integer(bad.to_owned())),
            "{:?}",
            bad
        );
    }
}

#[test]
fn from_dynamic_reads_doubles() {
    let read = |s: &str| ObservationData::from_dynamic(s.to_owned(), DataType::Double);
    assert_eq!(read("1.5"), Ok(measured("1.5")));
    assert_eq!(read("-0.25e3"), Ok(measured("-0.25e3")));
    assert_eq!(read("7"), Ok(measured("7")));
    match read("230.125") {
        Ok(ObservationData::Double(d)) => assert_eq!(d.as_str().parse::<f64>(), Ok(230.125)),
        other => panic!("{:?}", other),
    }
}

#[test]
fn from_dynamic_reports_text_that_is_no_double() {
    for bad in ["", "abc", "1,5", "1.5.5", " 1.5", "e3"] {
        assert_eq!(
            ObservationData::from_dynamic(bad.to_owned(), DataType::Double),
            Err(ParseError::Double(bad.to_owned()))
        );
    }
}

#[test]
fn from_dynamic_takes_any_string() {
    for s in ["", "abc", "1", "\u{1e}"] {
        assert_eq!(ObservationData::from_dynamic(s.to_owned(), DataType::String), Ok(text(s)));
    }
}

#[test]
fn product_update_is_read_from_an_object() {
    let doc = parse(&update_json(4, 109, "3")).unwrap();
    assert_eq!(
        ProductUpdate::from_json(&doc),
        Ok(ProductUpdate {
            data_type: DataType::Integer,
            id: 109,
            mid: "EH000001".to_owned(),
            timestamp: UtcDateTime { seconds: 1_704_164_645, nanoseconds: 0 },
            value: "3".to_owned(),
        })
    );
    let with_more = parse(
        "{\"dataType\":6,\"id\":65535,\"mid\":\"\",\"timestamp\":\"1970-01-01T01:00:00+01:00\",\
         \"value\":\"\",\"extra\":[1]}",
    )
    .unwrap();
    assert_eq!(
        ProductUpdate::from_json(&with_more),
        Ok(ProductUpdate {
            data_type: DataType::String,
            id: 65535,
            mid: "".to_owned(),
            timestamp: UtcDateTime { seconds: 0, nanoseconds: 0 },
            value: "".to_owned(),
        })
    );
}

#[test]
fn product_update_needs_an_object() {
    for source in ["null", "[]", "\"x\"", "5", "[2,1,\"m\",\"2024-01-02T03:04:05Z\",\"v\"]"] {
        assert_eq!(
            ProductUpdate::from_json(&parse(source).unwrap()),
            Err(DeserializeError::ExpectingObject)
        );
    }
}

#[test]
fn product_update_needs_every_member() {
    let full = [
        ("dataType", "2"),
        ("id", "1"),
        ("mid", "\"m\""),
        ("timestamp", "\"2024-01-02T03:04:05Z\""),
        ("value", "\"v\""),
    ];
    for (missing, _) in full {
        let members: Vec<String> = full
            .iter()
            .filter(|(name, _)| *name != missing)
            .map(|(name, value)| format!("\"{}\":{}", name, value))
            .collect();
        let doc = parse(&format!("{{{}}}", members.join(","))).unwrap();
        assert_eq!(ProductUpdate::from_json(&doc), Err(DeserializeError::MissingField(missing)));
    }
    assert_eq!(
        ProductUpdate::from_json(&Json::Object(vec![])),
        Err(DeserializeError::MissingField("dataType"))
    );
}

#[test]
fn product_update_needs_members_of_the_right_kind() {
    let cases = [
        ("dataType", "5"),
        ("dataType", "0"),
        ("dataType", "258"),
        ("dataType", "\"2\""),
        ("dataType", "-2"),
        ("dataType", "2.0"),
        ("id", "65536"),
        ("id", "-1"),
        ("id", "1.5"),
        ("id", "\"1\""),
        ("mid", "7"),
        ("mid", "null"),
        ("timestamp", "0"),
        ("timestamp", "\"yesterday\""),
        ("timestamp", "\"2024-01-02T03:04:05\""),
        ("value", "1"),
        ("value", "true"),
    ];
    let full = [
        ("dataType", "2"),
        ("id", "1"),
        ("mid", "\"m\""),
        ("timestamp", "\"2024-01-02T03:04:05Z\""),
        ("value", "\"v\""),
    ];
    for (bad, bad_value) in cases {
        let members: Vec<String> = full
            .iter()
            .map(|(name, value)| {
                format!("\"{}\":{}", name, if *name == bad { bad_value } else { value })
            })
            .collect();
        let doc = parse(&format!("{{{}}}", members.join(","))).unwrap();
        assert_eq!(
            ProductUpdate::from_json(&doc),
            Err(DeserializeError::InvalidField(bad)),
            "{} = {}",
            bad,
            bad_value
        );
    }
}

#[test]
fn decode_update_names_the_charger() {
    assert_eq!(
        decode_update(update(DataType::Double, 120, "7.36")),
        Ok(Event {
            charger: "EH000001".to_owned(),
            observation: Observation::TotalPower(double("7.36")),
        })
    );
    assert_eq!(
        decode_update(update(DataType::Integer, 999, "5")),
        Ok(event(Observation::Unknown { code: 999, value: ObservationData::Integer(5) }))
    );
}

#[test]
fn decode_update_reports_a_value_that_cannot_be_read() {
    assert_eq!(
        decode_update(update(DataType::Double, 120, "lots")),
        Err(ObservationError::Parsing(ParseError::Double("lots".to_owned())))
    );
    assert_eq!(
        decode_update(update(DataType::Integer, 109, "3.0")),
        Err(ObservationError::Parsing(ParseError::Integer("3.0".to_owned())))
    );
    assert_eq!(
        decode_update(update(DataType::Boolean, 102, "true")),
        Err(ObservationError::Parsing(ParseError::Integer("true".to_owned())))
    );
}

#[test]
fn a_new_stream_asks_for_a_message() {
    let mut stream = new_stream();
    assert_eq!(stream.recv(), None);
}

#[test]
fn recv_decodes_a_product_update() {
    let mut stream = new_stream();
    assert_eq!(stream.deliver(Incoming::Text(update_message(4, 109, "3"))), Ok(()));
    assert_eq!(
        stream.recv(),
        Some(Ok(event(Observation::ChargerOpMode(ChargerOpMode::Charging))))
    );
    assert_eq!(stream.recv(), None);
}

#[test]
fn a_ping_is_invisible() {
    let mut stream = new_stream();
    let text = format!("{{\"type\":6}}\u{1e}{}", update_message(3, 120, "1.5"));
    assert_eq!(stream.deliver(Incoming::Text(text)), Ok(()));
    assert_eq!(stream.recv(), Some(Ok(event(Observation::TotalPower(double("1.5"))))));
    assert_eq!(stream.recv(), None);
}

#[test]
fn keep_alives_and_results_are_passed_over() {
    let mut stream = new_stream();
    let text = format!(
        "{{}}\u{1e}{{\"type\":3,\"invocationId\":\"0\",\"result\":null}}\u{1e}{{\"type\":6}}\u{1e}{}",
        update_message(2, 103, "1")
    );
    assert_eq!(stream.deliver(Incoming::Text(text)), Ok(()));
    assert_eq!(stream.recv(), Some(Ok(event(Observation::CableLocked(true)))));
    assert_eq!(stream.recv(), None);
}

#[test]
fn an_invocation_of_another_target_is_passed_over() {
    let mut stream = new_stream();
    let text = format!(
        "{{\"type\":1,\"target\":\"CommandResponse\",\"arguments\":[1,2]}}\u{1e}{}",
        update_message(6, 26, "site")
    );
    assert_eq!(stream.deliver(Incoming::Text(text)), Ok(()));
    assert_eq!(stream.recv(), Some(Ok(event(Observation::SiteID("site".to_owned())))));
    assert_eq!(stream.recv(), None);
}

#[test]
fn a_message_of_noise_only_asks_for_the_next() {
    let mut stream = new_stream();
    let noise = "{\"type\":6}\u{1e}{}\u{1e}{\"type\":1,\"target\":\"x\",\"arguments\":[]}\u{1e}";
    assert_eq!(stream.deliver(Incoming::Text(noise.to_owned())), Ok(()));
    assert_eq!(stream.recv(), None);
    assert_eq!(stream.deliver(Incoming::Text(update_message(4, 32, "21"))), Ok(()));
    assert_eq!(stream.recv(), Some(Ok(event(Observation::Temperature(21)))));
}

#[test]
fn events_come_in_the_order_of_the_documents() {
    let mut stream = new_stream();
    let first = format!("{}{}", update_message(4, 32, "21"), update_message(4, 32, "22"));
    assert_eq!(stream.deliver(Incoming::Text(first)), Ok(()));
    assert_eq!(stream.deliver(Incoming::Text(update_message(4, 32, "23"))), Ok(()));
    assert_eq!(stream.recv(), Some(Ok(event(Observation::Temperature(21)))));
    assert_eq!(stream.recv(), Some(Ok(event(Observation::Temperature(22)))));
    assert_eq!(stream.recv(), Some(Ok(event(Observation::Temperature(23)))));
    assert_eq!(stream.recv(), None);
}

#[test]
fn a_product_update_needs_exactly_one_argument() {
    for arguments in ["[]", "[1,2]"] {
        let mut stream = new_stream();
        let source =
            format!("{{\"type\":1,\"target\":\"ProductUpdate\",\"arguments\":{}}}", arguments);
        assert_eq!(stream.deliver(Incoming::Text(source.clone())), Ok(()));
        let message = Message::from_json(parse(&source).unwrap()).unwrap();
        assert_eq!(stream.recv(), Some(Err(ObservationError::Protocol(message))));
    }
}

#[test]
fn a_message_of_an_unknown_kind_is_a_protocol_error() {
    let mut stream = new_stream();
    let source = "{\"type\":7,\"error\":\"closing\"}";
    let text = format!("{}\u{1e}{}", source, update_message(4, 32, "21"));
    assert_eq!(stream.deliver(Incoming::Text(text)), Ok(()));
    assert_eq!(
        stream.recv(),
        Some(Err(ObservationError::Protocol(Message::Other(parse(source).unwrap()))))
    );
    assert_eq!(stream.recv(), Some(Ok(event(Observation::Temperature(21)))));
}

#[test]
fn a_document_that_is_no_message_is_a_stream_error() {
    let mut stream = new_stream();
    assert_eq!(stream.deliver(Incoming::Text("{\"type\":\"x\"}".to_owned())), Ok(()));
    assert_eq!(
        stream.recv(),
        Some(Err(ObservationError::Stream(StreamError::ParseError(
            easee::signalr::ParseError::TypeNotANumber
        ))))
    );
}

#[test]
fn an_argument_that_is_no_update_is_a_deserialize_error() {
    let mut stream = new_stream();
    let source = "{\"type\":1,\"target\":\"ProductUpdate\",\"arguments\":[{\"id\":1}]}";
    assert_eq!(stream.deliver(Incoming::Text(source.to_owned())), Ok(()));
    assert_eq!(
        stream.recv(),
        Some(Err(ObservationError::Deserialize(DeserializeError::MissingField("dataType"))))
    );
}

#[test]
fn a_value_that_cannot_be_read_is_a_parsing_error() {
    let mut stream = new_stream();
    assert_eq!(stream.deliver(Incoming::Text(update_message(3, 120, "much"))), Ok(()));
    assert_eq!(
        stream.recv(),
        Some(Err(ObservationError::Parsing(ParseError::Double("much".to_owned()))))
    );
}

#[test]
fn a_message_that_is_no_text_is_a_stream_error() {
    let mut stream = new_stream();
    assert_eq!(
        stream.deliver(Incoming::Other),
        Err(ObservationError::Stream(StreamError::StreamError(RecvError::BadMessageType)))
    );
    assert_eq!(stream.recv(), None);
}

#[test]
fn subscribe_asks_for_the_state_of_a_charger() {
    let mut stream = new_stream();
    assert_eq!(
        stream.subscribe("EH12345"),
        "{\"arguments\":[\"EH12345\",true],\"invocationId\":\"0\",\
         \"target\":\"SubscribeWithCurrentState\",\"type\":1}\u{1e}"
    );
    assert_eq!(stream.recv(), None);
}

#[test]
fn handle_hands_back_what_is_passed_over() {
    assert_eq!(handle(Message::Ping), Err(Message::Ping));
    assert_eq!(handle(Message::Empty), Err(Message::Empty));
    let result = || Message::InvocationResult { id: "0".to_owned(), result: Json::Null };
    assert_eq!(handle(result()), Err(result()));
    let other = || Message::Invocation { target: "x".to_owned(), arguments: vec![Json::Null] };
    assert_eq!(handle(other()), Err(other()));
}

#[test]
fn handle_decides_on_updates_and_unknown_kinds() {
    let update = Message::Invocation {
        target: "ProductUpdate".to_owned(),
        arguments: vec![parse(&update_json(4, 32, "21")).unwrap()],
    };
    assert_eq!(handle(update), Ok(Ok(event(Observation::Temperature(21)))));
    let raw = || Message::Other(parse("{\"type\":-1}").unwrap());
    assert_eq!(handle(raw()), Ok(Err(ObservationError::Protocol(raw()))));
}

#[test]
fn recv_noting_hands_back_the_messages_that_were_passed_over() {
    let mut stream = new_stream();
    let text = format!(
        "{{}}\u{1e}{{\"type\":3,\"invocationId\":\"0\",\"result\":null}}\u{1e}{{\"type\":6}}\u{1e}\
         {{\"type\":1,\"target\":\"x\",\"arguments\":[]}}\u{1e}{}{{}}\u{1e}",
        update_message(2, 103, "1")
    );
    assert_eq!(stream.deliver(Incoming::Text(text)), Ok(()));
    let (outcome, skipped) = stream.recv_noting();
    assert_eq!(outcome, Some(Ok(event(Observation::CableLocked(true)))));
    assert_eq!(
        skipped,
        vec![
            Message::Empty,
            Message::InvocationResult { id: "0".to_owned(), result: Json::Null },
            Message::Ping,
            Message::Invocation { target: "x".to_owned(), arguments: vec![] },
        ]
    );
    let (outcome, skipped) = stream.recv_noting();
    assert_eq!(outcome, None);
    assert_eq!(skipped, vec![Message::Empty]);
    let (outcome, skipped) = stream.recv_noting();
    assert_eq!(outcome, None);
    assert_eq!(skipped, vec![]);
}

#[test]
fn recv_noting_notes_nothing_behind_an_error() {
    let mut stream = new_stream();
    let text = "{\"type\":6}\u{1e}[1]\u{1e}{}\u{1e}";
    assert_eq!(stream.deliver(Incoming::Text(text.to_owned())), Ok(()));
    let (outcome, skipped) = stream.recv_noting();
    assert!(matches!(outcome, Some(Err(ObservationError::Stream(_)))));
    assert_eq!(skipped, vec![Message::Ping]);
    let (outcome, skipped) = stream.recv_noting();
    assert_eq!(outcome, None);
    assert_eq!(skipped, vec![Message::Empty]);
}

#[test]
fn a_negative_kind_is_a_protocol_error_not_a_parse_error() {
    let mut stream = new_stream();
    assert_eq!(stream.deliver(Incoming::Text("{\"type\":-1}".to_owned())), Ok(()));
    assert_eq!(
        stream.recv(),
        Some(Err(ObservationError::Protocol(Message::Other(parse("{\"type\":-1}").unwrap()))))
    );
}

#[test]
fn the_stream_of_events_knows_the_address_of_its_connection() {
    let mut stream = new_stream();
    let address = "wss://streams.easee.com/hubs/products?id=tok&access_token=bearer";
    assert_eq!(stream.url(), address);
    assert_eq!(stream.deliver(Incoming::Text(update_message(4, 32, "21"))), Ok(()));
    assert!(stream.recv().is_some());
    assert_eq!(stream.url(), address);
}

#[test]
fn subscribe_escapes_the_identifier() {
    let mut stream = new_stream();
    assert_eq!(
        stream.subscribe("a\"b\u{1e}"),
        "{\"arguments\":[\"a\\\"b\\u001e\",true],\"invocationId\":\"0\",\
         \"target\":\"SubscribeWithCurrentState\",\"type\":1}\u{1e}"
    );
}
