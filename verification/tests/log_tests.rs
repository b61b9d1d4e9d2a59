use kvs::log::{KvPair, Log, LogEntry};

fn entry(previous: u64, command: &str, key: &str, value: Option<&str>) -> LogEntry {
    LogEntry {
        previous,
        command: command.to_string(),
        kv_pair: KvPair { key: key.to_string(), value: value.map(|v| v.to_string()) },
    }
}

#[test]
fn new_log_starts_at_one() {
    let log = Log::new();
    assert_eq!(log.current, 1);
    assert_eq!(log.previous, 0);
    assert!(log.log_dict.is_none());
    let d = Log::default();
    assert_eq!(d.current, 1);
    assert_eq!(d.previous, 0);
}

#[test]
fn append_links_to_the_previous_record() {
    let mut log = Log::new();
    log.append("set".to_string(), KvPair { key: "a".to_string(), value: Some("1".to_string()) });
    assert_eq!(log.current, 2);
    assert_eq!(log.previous, 1);
    let e = log.log_dict.as_ref().unwrap();
    assert_eq!(e.previous, 1);
    assert_eq!(e.command, "set");
    assert_eq!(e.kv_pair.key, "a");
    assert_eq!(e.kv_pair.value.as_deref(), Some("1"));
    log.append("rm".to_string(), KvPair { key: "a".to_string(), value: None });
    assert_eq!(log.current, 3);
    assert_eq!(log.previous, 2);
    assert_eq!(log.log_dict.as_ref().unwrap().previous, 2);
    assert_eq!(log.file_name(), "3");
}

#[test]
fn highest_numbered_file_is_the_greatest_number() {
    let log = Log::new();
    let names: Vec<String> =
        ["1", "config", "10", "9", "010", "+3"].iter().map(|s| s.to_string()).collect();
    assert_eq!(log.find_highest_numbered_file(&names), Some("10".to_string()));
}

#[test]
fn highest_numbered_file_none_without_numbers() {
    let log = Log::new();
    let names: Vec<String> = ["config", "db", ""].iter().map(|s| s.to_string()).collect();
    assert_eq!(log.find_highest_numbered_file(&names), None);
    assert_eq!(log.find_highest_numbered_file(&Vec::new()), None);
}

#[test]
fn get_log_from_dict_reads_number_and_previous() {
    let log = Log::get_log_from_dict("12", entry(11, "set", "k", Some("v")));
    assert_eq!(log.current, 12);
    assert_eq!(log.previous, 11);
    assert_eq!(log.log_dict.unwrap().kv_pair.key, "k");
}

#[test]
fn load_without_records_is_a_new_log() {
    let log = Log::new().load(None);
    assert_eq!(log.current, 1);
    assert_eq!(log.previous, 0);
    assert!(log.log_dict.is_none());
}

#[test]
fn reload_after_appends_finds_the_newest_record() {
    let mut log = Log::new();
    let mut names = vec!["config".to_string()];
    for i in 0..12 {
        log.append("set".to_string(), KvPair { key: format!("k{}", i), value: Some("v".to_string()) });
        names.push(log.file_name());
    }
    let highest = log.find_highest_numbered_file(&names).unwrap();
    assert_eq!(highest, log.file_name());
    let e = log.log_dict.clone().unwrap();
    let reloaded = Log::new().load(Some((highest, e)));
    assert_eq!(reloaded.current, log.current);
    assert_eq!(reloaded.previous, log.previous);
    let (a, b) = (reloaded.log_dict.unwrap(), log.log_dict.unwrap());
    assert_eq!(a.previous, b.previous);
    assert_eq!(a.command, b.command);
    assert_eq!(a.kv_pair.key, b.kv_pair.key);
    assert_eq!(a.kv_pair.value, b.kv_pair.value);
}
