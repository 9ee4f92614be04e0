use easee::double::{is_float, Double};

const ACCEPTED: [&str; 30] = [
    "0", "1", "007", "1.", ".5", "1.5", "+1.5", "-1.5", "1e5", "1E5", "1e+5", "1e-5", "1.e5",
    ".5e5", "1.5E-10", "-0", "+0.0", "123456789012345678901234567890", "0.000000000000000000001",
    "1e400", "inf", "INF", "+inf", "-Infinity", "infinity", "iNfInItY", "nan", "NaN", "-nan",
    "+NAN",
];

const REJECTED: [&str; 30] = [
    "", "+", "-", ".", "+.", "e5", ".e5", "1e", "1e+", "1e-", "1e5.0", "1.5.2", "1..5", " 1",
    "1 ", "1_0", "0x10", "1,5", "++1", "+-1", "1f", "in", "infinit", "infinityy", "na", "nanx",
    "1e5e5", "١", "1é", "--inf",
];

#[test]
fn is_float_accepts_the_grammar() {
    for text in ACCEPTED {
        assert!(is_float(text), "{:?}", text);
    }
}

#[test]
fn is_float_rejects_everything_else() {
    for text in REJECTED {
        assert!(!is_float(text), "{:?}", text);
    }
}

#[test]
fn is_float_agrees_with_the_parser_of_std() {
    for text in ACCEPTED.iter().chain(REJECTED.iter()) {
        assert_eq!(is_float(text), text.parse::<f64>().is_ok(), "{:?}", text);
    }
}

#[test]
fn double_keeps_its_text() {
    let d = Double::new("12.50".to_owned()).unwrap();
    assert_eq!(d.as_str(), "12.50");
    assert_eq!(d.as_str().parse::<f64>().unwrap(), 12.5);
    assert_eq!(d.clone(), d);
}

#[test]
fn double_hands_back_what_is_no_number() {
    assert_eq!(Double::new("twelve".to_owned()), Err("twelve".to_owned()));
    assert_eq!(Double::new("".to_owned()), Err("".to_owned()));
}
