use stelliberty_ipc::backup::{check_backup_version, decode_file, encode_file, OverrideBackup, SubscriptionBackup};

#[test]
fn file_content_round_trips_through_base64() {
    assert_eq!(encode_file(b"hello"), "aGVsbG8=");
    assert_eq!(encode_file(b""), "");
    assert_eq!(decode_file("aGVsbG8=").unwrap(), b"hello".to_vec());
    assert!(decode_file("not base64!").is_err());
}

#[test]
fn subscription_entries_replace_same_stem() {
    let mut b = SubscriptionBackup::new();
    b.add_config("a".to_string(), b"one");
    b.add_config("b".to_string(), b"two");
    b.add_config("a".to_string(), b"three");
    assert_eq!(b.configs.len(), 2);
    assert_eq!(b.configs[0], ("a".to_string(), "dGhyZWU=".to_string()));
    assert_eq!(b.configs[1], ("b".to_string(), "dHdv".to_string()));
}

#[test]
fn restore_paths_and_contents() {
    let mut b = SubscriptionBackup::new();
    b.add_config("main".to_string(), b"proxies: []");
    let files = b.restore_files("/data").unwrap();
    assert_eq!(files, vec![("/data/subscriptions/main.yaml".to_string(), b"proxies: []".to_vec())]);
    let mut o = OverrideBackup::new();
    o.add_file("rules.js".to_string(), b"x");
    let files = o.restore_files("/data").unwrap();
    assert_eq!(files, vec![("/data/overrides/rules.js".to_string(), b"x".to_vec())]);
    o.files.push(("bad".to_string(), "%%%".to_string()));
    assert!(o.restore_files("/data").is_err());
}

#[test]
fn backup_version_check() {
    assert!(check_backup_version("1.0.0").is_ok());
    assert_eq!(check_backup_version("2.0.0").unwrap_err(), "不支持的备份版本：2.0.0");
}
