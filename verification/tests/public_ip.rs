use pantau::public_ip::{flag_emoji, reading_from, PublicIpWatcher, Provider};

#[test]
fn flag_emoji_from_valid_code() {
    assert_eq!(flag_emoji("us"), Some("\u{1F1FA}\u{1F1F8}".to_string()));
    assert_eq!(flag_emoji("ID"), Some("\u{1F1EE}\u{1F1E9}".to_string()));
}

#[test]
fn flag_emoji_rejects_invalid_input() {
    assert_eq!(flag_emoji("xx1"), None);
    assert_eq!(flag_emoji("u"), None);
    assert_eq!(flag_emoji(""), None);
}

#[test]
fn myip_unknown_country_is_dropped() {
    let r = reading_from(Provider::MyIp, "1.2.3.4".to_string(), Some("XX".to_string()));
    assert_eq!(r.ip, "1.2.3.4");
    assert_eq!(r.country_code, None);
    let r = reading_from(Provider::MyIp, "1.2.3.4".to_string(), Some("DE".to_string()));
    assert_eq!(r.country_code, Some("de".to_string()));
    let r = reading_from(Provider::Ipify, "1.2.3.4".to_string(), Some("DE".to_string()));
    assert_eq!(r.country_code, None);
    let r = reading_from(Provider::CoreCoding, "5.6.7.8".to_string(), Some("xx".to_string()));
    assert_eq!(r.country_code, Some("xx".to_string()));
}

#[test]
fn watcher_asks_once_per_interval() {
    let mut w = PublicIpWatcher::new();
    assert!(!w.poll(false, 0, 60, None));
    assert!(w.poll(true, 1_000, 60, None));
    assert!(!w.poll(true, 2_000, 60, None));
    assert!(!w.poll(true, 100_000, 60, None));
    let reading = reading_from(Provider::Ipify, "9.9.9.9".to_string(), None);
    assert!(w.poll(true, 100_000, 60, Some(reading)));
    assert_eq!(w.latest.as_ref().map(|r| r.ip.clone()), Some("9.9.9.9".to_string()));
}
