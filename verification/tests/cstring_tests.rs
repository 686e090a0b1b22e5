use cstr_core::CString;
use cstr_core::CStr;

#[test]
fn simple() {
    let s = CString::new(b"1234".to_vec()).unwrap();
    assert_eq!(s.as_bytes(), b"1234");
    assert_eq!(s.as_bytes_with_nul(), b"1234\0");
}

#[test]
fn build_with_zero1() {
    assert!(CString::new(b"\0".to_vec()).is_err());
}

#[test]
fn build_with_zero2() {
    assert!(CString::new(vec![0]).is_err());
}

#[test]
fn build_with_zero3() {
    let s = CString::from_vec_unchecked(vec![0]);
    assert_eq!(s.as_bytes(), b"\0");
}

#[test]
fn formatted() {
    let s = CString::new(b"abc\x01\x02\n\xE2\x80\xA6\xFF".to_vec()).unwrap();
    assert_eq!(s.to_debug_string(), r#""abc\x01\x02\n\xe2\x80\xa6\xff""#);
}

#[test]
fn to_owned() {
    let data = b"123\0";
    let owned = CStr::from_bytes_with_nul(data).unwrap().to_owned();
    assert_eq!(owned.as_bytes_with_nul(), data);
}

#[test]
fn nul_error_offset_and_recovery() {
    let err = CString::new(b"foo\0bar".to_vec()).unwrap_err();
    assert_eq!(err.nul_position(), 3);
    assert_eq!(err.into_vec(), b"foo\0bar".to_vec());

    let err = CString::new(b"foo bar\0".to_vec()).unwrap_err();
    assert_eq!(err.nul_position(), 7);
    assert_eq!(err.into_vec(), b"foo bar\0".to_vec());
}

#[test]
fn new_round_trip_bytes() {
    let created = CString::new(b"abc".to_vec()).unwrap();
    assert_eq!(created.as_bytes(), b"abc");
    assert_eq!(created.as_bytes_with_nul(), b"abc\0");
    assert_eq!(created.clone().into_bytes(), b"abc".to_vec());
    assert_eq!(created.into_bytes_with_nul(), b"abc\0".to_vec());
}

#[test]
fn default_is_empty() {
    let empty = CString::default();
    assert_eq!(empty.as_bytes(), b"");
    assert_eq!(empty.as_bytes_with_nul(), b"\0");
}

#[test]
fn clone_and_eq() {
    let a = CString::new(b"pair".to_vec()).unwrap();
    let b = a.clone();
    assert_eq!(a, b);
    let c = CString::new(b"pail".to_vec()).unwrap();
    assert!(a != c);
}

#[test]
fn into_string_ok() {
    let s = CString::new(b"hello".to_vec()).unwrap();
    assert_eq!(s.into_string(), Ok(String::from("hello")));
}

#[test]
fn into_string_error_keeps_buffer() {
    let s = CString::new(b"he\xE2llo".to_vec()).unwrap();
    let err = s.into_string().unwrap_err();
    assert_eq!(err.utf8_error().valid_up_to(), 2);
    let back = err.into_cstring();
    assert_eq!(back.as_bytes(), b"he\xE2llo");
}

#[test]
fn export_and_reclaim_round_trip() {
    let s = CString::new(b"round trip".to_vec()).unwrap();
    let copy = s.clone();
    let raw = s.into_raw();
    let back = CString::from_raw(raw);
    assert_eq!(back.as_bytes_with_nul(), copy.as_bytes_with_nul());
    assert_eq!(back, copy);
}

#[test]
fn reclaim_scans_to_first_zero() {
    // The unchecked path can leave an interior zero behind; reclaiming then
    // keeps only the bytes up to and including the first zero, as a foreign
    // length scan would.
    let s = CString::from_vec_unchecked(vec![b'a', 0, b'b']);
    assert_eq!(s.as_bytes_with_nul(), b"a\0b\0");
    let back = CString::from_raw(s.into_raw());
    assert_eq!(back.as_bytes_with_nul(), b"a\0");
}

#[test]
fn empty_input_gets_only_terminator() {
    let s = CString::new(Vec::new()).unwrap();
    assert_eq!(s.as_bytes(), b"");
    assert_eq!(s.as_bytes_with_nul(), b"\0");
    assert_eq!(s.to_debug_string(), "\"\"");
}
