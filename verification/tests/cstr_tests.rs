use std::collections::hash_map::DefaultHasher;
use std::hash::Hash;
use std::hash::Hasher;

use cstr_core::CStr;
use cstr_core::CString;
use cstr_core::FromBytesWithNulError;

#[test]
fn to_str() {
    let data = b"123\xE2\x80\xA6\0";
    let cstr = CStr::from_bytes_with_nul(data).unwrap();
    assert_eq!(cstr.to_str(), Ok("123…"));
    assert_eq!(cstr.to_string_lossy(), String::from("123…"));

    let data = b"123\xE2\0";
    let cstr = CStr::from_bytes_with_nul(data).unwrap();
    assert!(cstr.to_str().is_err());
    assert_eq!(cstr.to_string_lossy(), format!("123\u{FFFD}"));
}

#[test]
fn equal_hash() {
    let data = b"123\xE2\xFA\xA6\0";
    let cstr = CStr::from_bytes_with_nul(data).unwrap();

    let mut s = DefaultHasher::new();
    cstr.hash(&mut s);
    let cstr_hash = s.finish();
    let mut s = DefaultHasher::new();
    CString::new(data[..data.len() - 1].to_vec()).unwrap().hash(&mut s);
    let cstring_hash = s.finish();

    assert_eq!(cstr_hash, cstring_hash);
}

#[test]
fn from_bytes_with_nul() {
    let data = b"123\0";
    let cstr = CStr::from_bytes_with_nul(data);
    assert_eq!(cstr.map(|c| c.to_bytes()), Ok(&b"123"[..]));
    let cstr = CStr::from_bytes_with_nul(data);
    assert_eq!(cstr.map(|c| c.to_bytes_with_nul()), Ok(&b"123\0"[..]));

    let cstr = CStr::from_bytes_with_nul(data);
    let cstr_unchecked = CStr::from_bytes_with_nul_unchecked(data);
    assert_eq!(cstr, Ok(cstr_unchecked));
}

#[test]
fn from_bytes_with_nul_unterminated() {
    let data = b"123";
    let cstr = CStr::from_bytes_with_nul(data);
    assert!(cstr.is_err());
}

#[test]
fn from_bytes_with_nul_interior() {
    let data = &[b'1', 0, b'2', b'3', 0];
    let cstr = CStr::from_bytes_with_nul(data);
    assert!(cstr.is_err());
}

#[test]
fn error_variants_match_defect() {
    let err = CStr::from_bytes_with_nul(b"he\0llo\0").unwrap_err();
    assert_eq!(err, FromBytesWithNulError::interior_nul(2));

    let err = CStr::from_bytes_with_nul(b"hello").unwrap_err();
    assert_eq!(err, FromBytesWithNulError::not_nul_terminated());
}

#[test]
fn error_messages() {
    let err = CStr::from_bytes_with_nul(b"he\0llo\0").unwrap_err();
    assert_eq!(
        err.message(),
        "data provided contains an interior nul byte at byte pos 2"
    );

    let err = CStr::from_bytes_with_nul(b"0123456789ab\0cd\0").unwrap_err();
    assert_eq!(
        err.message(),
        "data provided contains an interior nul byte at byte pos 12"
    );

    let err = CStr::from_bytes_with_nul(b"hello").unwrap_err();
    assert_eq!(err.message(), "data provided is not nul terminated");
}

#[test]
fn view_and_owned_interchangeable() {
    let owned = CString::new(b"abc".to_vec()).unwrap();
    let view = CStr::from_bytes_with_nul(b"abc\0").unwrap();
    assert!(owned.as_c_str() == view);
    assert_eq!(owned, view.to_owned());
}

#[test]
fn lexicographic_order() {
    let ab = CStr::from_bytes_with_nul(b"ab\0").unwrap();
    let abc = CStr::from_bytes_with_nul(b"abc\0").unwrap();
    let abd = CStr::from_bytes_with_nul(b"abd\0").unwrap();
    assert!(abc < abd);
    assert!(ab < abc);
    assert!(abd > ab);
    assert_eq!(
        abc.partial_cmp(&abc),
        Some(std::cmp::Ordering::Equal)
    );
}

#[test]
fn debug_rendering_of_view() {
    let view = CStr::from_bytes_with_nul(b"a\tb\0").unwrap();
    assert_eq!(view.to_debug_string(), r#""a\tb""#);
}

#[test]
fn lossy_of_valid_borrows_content() {
    let view = CStr::from_bytes_with_nul(b"plain text\0").unwrap();
    assert_eq!(view.to_string_lossy(), String::from("plain text"));
    assert_eq!(view.to_str(), Ok("plain text"));
}
