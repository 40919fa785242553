use monitor_server::credentials::{parse_htpasswd, CredentialStore};

#[test]
fn credential_file_skips_bad_lines() {
    let store = parse_htpasswd("alice:hash1\nbadline\nbob:hash2");
    assert_eq!(store.len(), 2);
    assert_eq!(store.lookup(&"alice".to_string()), Some(&"hash1".to_string()));
    assert_eq!(store.lookup(&"bob".to_string()), Some(&"hash2".to_string()));
    assert_eq!(store.lookup(&"badline".to_string()), None);
}

#[test]
fn credential_lines_with_other_field_counts_are_skipped() {
    let store = parse_htpasswd("a:b:c\n\n:\nx:y\n");
    assert_eq!(store.len(), 2);
    assert_eq!(store.lookup(&"".to_string()), Some(&"".to_string()));
    assert_eq!(store.lookup(&"x".to_string()), Some(&"y".to_string()));
    assert_eq!(store.lookup(&"a".to_string()), None);
}

#[test]
fn credential_lines_may_end_with_crlf() {
    let store = parse_htpasswd("alice:hash1\r\nbob:hash2\r\n");
    assert_eq!(store.lookup(&"alice".to_string()), Some(&"hash1".to_string()));
    assert_eq!(store.lookup(&"bob".to_string()), Some(&"hash2".to_string()));
}

#[test]
fn a_later_record_replaces_an_earlier_one() {
    let store = parse_htpasswd("alice:old\nalice:new\n");
    assert_eq!(store.len(), 1);
    assert_eq!(store.lookup(&"alice".to_string()), Some(&"new".to_string()));
}

#[test]
fn an_empty_store_holds_nothing() {
    let store = CredentialStore::new();
    assert_eq!(store.len(), 0);
    assert_eq!(parse_htpasswd("").len(), 0);
}
