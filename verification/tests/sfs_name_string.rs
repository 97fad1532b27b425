use radon_core::fs::sfs::name_string::{is_forbidden_character, is_valid_name_string, NameString};
use std::str::FromStr;

#[test]
fn name_string_creation() {
    assert!(NameString::new(b"".to_vec()).is_err());
    assert!(NameString::new(b"\0".to_vec()).is_err());

    assert!(NameString::new(b"foo\0".to_vec()).is_ok());
    assert!(NameString::new(b"foo".to_vec()).is_err());
    assert!(NameString::new(b"foo*.txt\0".to_vec()).is_err());

    assert!(NameString::from_str("foo").is_ok());
    assert!(NameString::from_str("foo.txt").is_ok());
    assert!(NameString::from_str("foo/bar").is_ok());
    assert!(NameString::from_str("foo/bar/baz.txt").is_ok());

    assert!(NameString::from_str("foo.txt\0").is_err());
    assert!(NameString::from_str("foo:txt").is_err());
    assert!(NameString::from_str("foo*txt").is_err());
}

#[test]
fn name_string_to_path() {
    assert_eq!(NameString::from_str("foo.txt").unwrap().to_path(), b"/foo.txt".to_vec());
    assert_eq!(NameString::from_str("foo/bar.txt").unwrap().to_path(), b"/foo/bar.txt".to_vec());
}

#[test]
fn path_to_name_string() {
    assert_eq!(NameString::from_path(b"/foo.txt").unwrap(), NameString::from_str("foo.txt").unwrap());
    assert_eq!(NameString::from_path(b"/foo/bar.txt").unwrap(), NameString::from_str("foo/bar.txt").unwrap());
}

#[test]
fn name_string_from_start() {
    assert_eq!(NameString::new_from_start(b"foo.txt\0*:zeaqqdqs#").unwrap(), NameString::from_str("foo.txt").unwrap());
    assert_eq!(NameString::new_from_start(b"foo.txttoto").unwrap(), NameString::from_str("foo.txttoto").unwrap());
    assert!(NameString::new_from_start(b"foo.txt*\0:zeaqqdqs#").is_err());
}

#[test]
fn name_string_join_and_root() {
    let mut name = NameString::from_str("foo").unwrap();
    name.join(&NameString::from_str("/bar").unwrap());
    assert_eq!(name, NameString::from_str("foo/bar").unwrap());
    assert_eq!(name.as_bytes(), b"foo/bar");
    assert_eq!(NameString::root().as_bytes(), b"/");
    assert_eq!(NameString::root().to_path(), b"//".to_vec());
}

#[test]
fn forbidden_characters() {
    for c in [0x00u8, 0x1F, 0x22, 0x2A, 0x3A, 0x3C, 0x3E, 0x3F, 0x5C, 0x7F, 0x80, 0x9F, 0xA0] {
        assert!(is_forbidden_character(&c));
    }
    for c in [b'a', b'/', b'.', b' ', 0xA1u8] {
        assert!(!is_forbidden_character(&c));
    }
    assert!(is_valid_name_string(b"a\0"));
    assert!(!is_valid_name_string(b"\0"));
    assert!(!is_valid_name_string(b"a"));
}
