use cstr_core::escape_default;

#[test]
fn escape_tab() {
    let mut escaped = escape_default(0x09);
    assert_eq!(escaped.size_hint(), (2, Some(2)));
    assert_eq!(escaped.next(), Some(b'\\'));
    assert_eq!(escaped.next(), Some(b't'));
    assert_eq!(escaped.next(), None);
}

#[test]
fn escape_printable() {
    let mut escaped = escape_default(0x41);
    assert_eq!(escaped.size_hint(), (1, Some(1)));
    assert_eq!(escaped.next(), Some(b'A'));
    assert_eq!(escaped.next(), None);
}

#[test]
fn escape_hex() {
    let mut escaped = escape_default(0x9d);
    assert_eq!(escaped.size_hint(), (4, Some(4)));
    assert_eq!(escaped.next(), Some(b'\\'));
    assert_eq!(escaped.next(), Some(b'x'));
    assert_eq!(escaped.next(), Some(b'9'));
    assert_eq!(escaped.next(), Some(b'd'));
    assert_eq!(escaped.next(), None);
}

#[test]
fn escape_named_characters() {
    let mut cr = escape_default(b'\r');
    assert_eq!((cr.next(), cr.next()), (Some(b'\\'), Some(b'r')));
    let mut lf = escape_default(b'\n');
    assert_eq!((lf.next(), lf.next()), (Some(b'\\'), Some(b'n')));
    let mut bs = escape_default(b'\\');
    assert_eq!((bs.next(), bs.next()), (Some(b'\\'), Some(b'\\')));
    let mut sq = escape_default(b'\'');
    assert_eq!((sq.next(), sq.next()), (Some(b'\\'), Some(b'\'')));
    let mut dq = escape_default(b'"');
    assert_eq!((dq.next(), dq.next()), (Some(b'\\'), Some(b'"')));
}

#[test]
fn escape_from_the_back() {
    let mut escaped = escape_default(0x9d);
    assert_eq!(escaped.next_back(), Some(b'd'));
    assert_eq!(escaped.next_back(), Some(b'9'));
    assert_eq!(escaped.next(), Some(b'\\'));
    assert_eq!(escaped.size_hint(), (1, Some(1)));
    assert_eq!(escaped.next_back(), Some(b'x'));
    assert_eq!(escaped.next_back(), None);
    assert_eq!(escaped.next(), None);
}

#[test]
fn escape_zero_byte() {
    let mut escaped = escape_default(0x00);
    assert_eq!(escaped.next(), Some(b'\\'));
    assert_eq!(escaped.next(), Some(b'x'));
    assert_eq!(escaped.next(), Some(b'0'));
    assert_eq!(escaped.next(), Some(b'0'));
    assert_eq!(escaped.next(), None);
}
