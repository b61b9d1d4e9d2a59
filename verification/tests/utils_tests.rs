use kvs::errors::DBError;
use kvs::thread_pool::worker_count;
use kvs::utils::{parse_u64, str_eq, trim_string, u64_to_decimal};

#[test]
fn trim_string_strips_json_quotes() {
    let mut text = String::from("\"sled\"");
    assert_eq!(trim_string(text.as_mut_str()), "sled");
}

#[test]
fn trim_string_two_bytes_gives_empty() {
    let mut text = String::from("\"\"");
    assert_eq!(trim_string(text.as_mut_str()), "");
}

#[test]
fn trim_string_keeps_inner_multibyte_chars() {
    let mut text = String::from("[héllo]");
    assert_eq!(trim_string(text.as_mut_str()), "héllo");
}

#[test]
fn parse_u64_accepts_what_std_accepts() {
    let cases = [
        "0",
        "42",
        "+7",
        "007",
        "18446744073709551615",
        "18446744073709551616",
        "",
        "+",
        "-1",
        "1a",
        " 1",
        "config",
        "99999999999999999999999",
    ];
    for case in cases.iter() {
        assert_eq!(parse_u64(case), case.parse::<u64>().ok(), "case {:?}", case);
    }
}

#[test]
fn parse_u64_exact_values() {
    assert_eq!(parse_u64("42"), Some(42));
    assert_eq!(parse_u64("+7"), Some(7));
    assert_eq!(parse_u64("18446744073709551615"), Some(u64::MAX));
    assert_eq!(parse_u64("18446744073709551616"), None);
    assert_eq!(parse_u64("+"), None);
    assert_eq!(parse_u64(""), None);
}

#[test]
fn u64_to_decimal_matches_to_string() {
    for n in [0u64, 1, 9, 10, 1234, 100000, u64::MAX].iter() {
        assert_eq!(u64_to_decimal(*n), n.to_string());
    }
}

#[test]
fn decimal_then_parse_round_trips() {
    for n in [0u64, 5, 17, 4096, u64::MAX - 1].iter() {
        assert_eq!(parse_u64(&u64_to_decimal(*n)), Some(*n));
    }
}

#[test]
fn str_eq_compares_text() {
    assert!(str_eq("sled", "sled"));
    assert!(!str_eq("sled", "kvs"));
    assert!(!str_eq("sled", "sle"));
    assert!(str_eq("", ""));
}

#[test]
fn worker_count_is_one_per_thread() {
    assert_eq!(worker_count(1), 1);
    assert_eq!(worker_count(4), 4);
}

#[test]
fn error_constructors() {
    assert!(matches!(DBError::from_log_read(), DBError::Log));
    assert!(matches!(DBError::no_key(), DBError::NoKey));
    assert!(matches!(DBError::server(), DBError::Server));
}
