use composition_harness::fields::{Fields, HeaderError};

#[test]
fn append_valid_header_is_stored_in_order() {
    let mut f = Fields::new();
    f.append(&"X-First".to_string(), &b"one".to_vec()).unwrap();
    f.append(&"x-second".to_string(), &b"two".to_vec()).unwrap();
    let entries = f.entries();
    assert_eq!(entries.len(), 2);
    assert_eq!(entries[0].0, "X-First");
    assert_eq!(entries[0].1, b"one".to_vec());
    assert_eq!(entries[1].0, "x-second");
    assert_eq!(entries[1].1, b"two".to_vec());
}

#[test]
fn append_keeps_name_case_in_storage() {
    let mut f = Fields::new();
    f.append(&"X-TeSt".to_string(), &b"1".to_vec()).unwrap();
    let entries = f.entries();
    assert_eq!(entries[0].0, "X-TeSt");
}

#[test]
fn append_rejects_name_with_space() {
    let mut f = Fields::new();
    let r = f.append(&"bad name".to_string(), &b"v".to_vec());
    assert_eq!(r, Err(HeaderError::InvalidSyntax));
    assert_eq!(f.len(), 0);
}

#[test]
fn append_rejects_empty_name() {
    let mut f = Fields::new();
    let r = f.append(&"".to_string(), &b"v".to_vec());
    assert_eq!(r, Err(HeaderError::InvalidSyntax));
}

#[test]
fn append_rejects_value_with_newline() {
    let mut f = Fields::new();
    let r = f.append(&"x-test".to_string(), &b"a\nb".to_vec());
    assert_eq!(r, Err(HeaderError::InvalidSyntax));
    assert_eq!(f.len(), 0);
}

#[test]
fn append_accepts_value_with_tab_and_high_bytes() {
    let mut f = Fields::new();
    f.append(&"x-test".to_string(), &vec![b'a', 9, 0xff]).unwrap();
    assert_eq!(f.len(), 1);
}

#[test]
fn duplicate_copies_all_entries() {
    let mut f = Fields::new();
    f.append(&"a".to_string(), &b"1".to_vec()).unwrap();
    f.append(&"b".to_string(), &b"2".to_vec()).unwrap();
    let g = f.duplicate();
    assert_eq!(g.entries(), f.entries());
}
