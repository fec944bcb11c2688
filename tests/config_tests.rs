use dyndns::{load_config, interval_from, list_entries, split_text, ConfigError, DEFAULT_INTERVAL_SECS};

fn s(v: &str) -> Option<String> {
    Some(v.to_string())
}

#[test]
fn entries_are_split_and_trimmed() {
    assert_eq!(list_entries(" a.example.com ,b.example.com,  c.example.com"), vec!["a.example.com", "b.example.com", "c.example.com"]);
}

#[test]
fn empty_list_is_one_empty_entry() {
    assert_eq!(list_entries(""), vec![""]);
    assert_eq!(split_text("a,,b,", ','), vec!["a", "", "b", ""]);
}

#[test]
fn full_settings_load() {
    let c = load_config(s("tok"), s("zone1"), s("a.example.com, b.example.com"), s("r1 , r2"), s("30")).unwrap();
    assert_eq!(c.token, "tok");
    assert_eq!(c.zone, "zone1");
    assert_eq!(c.interval_secs, 30);
    assert_eq!(c.domains, vec!["a.example.com", "b.example.com"]);
    assert_eq!(c.record_ids, Some(vec!["r1".to_string(), "r2".to_string()]));
}

#[test]
fn records_are_optional() {
    let c = load_config(s("tok"), s("z"), s("a.example.com"), None, None).unwrap();
    assert_eq!(c.record_ids, None);
    assert_eq!(c.interval_secs, DEFAULT_INTERVAL_SECS);
}

#[test]
fn more_records_than_domains_is_refused() {
    let r = load_config(s("tok"), s("z"), s("a.example.com"), s("r1,r2"), None);
    assert_eq!(r.err(), Some(ConfigError::MoreRecordsThanDomains { domains: 1, records: 2 }));
}

#[test]
fn fewer_records_than_domains_is_refused() {
    let r = load_config(s("tok"), s("z"), s("a.example.com,b.example.com,c.example.com"), s("r1"), None);
    assert_eq!(r.err(), Some(ConfigError::FewerRecordsThanDomains { domains: 3, records: 1 }));
}

#[test]
fn missing_keys_are_named() {
    assert_eq!(load_config(None, s("z"), s("d"), None, None).err(), Some(ConfigError::MissingToken));
    assert_eq!(load_config(s("t"), None, s("d"), None, None).err(), Some(ConfigError::MissingZone));
    assert_eq!(load_config(s("t"), s("z"), None, None, None).err(), Some(ConfigError::MissingDomains));
}

#[test]
fn interval_values() {
    assert_eq!(interval_from(Some("45")), 45);
    assert_eq!(interval_from(Some("+45")), 45);
    assert_eq!(interval_from(Some("0")), 70);
    assert_eq!(interval_from(Some("abc")), 70);
    assert_eq!(interval_from(Some(" 45")), 70);
    assert_eq!(interval_from(Some("18446744073709551616")), 70);
    assert_eq!(interval_from(Some("18446744073709551615")), u64::MAX);
    assert_eq!(interval_from(None), 70);
}
