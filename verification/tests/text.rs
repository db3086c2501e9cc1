use laya::text::{cut, find, push_all, push_digits, read_u32, same, skip, starts_with, NumberError};

#[test]
fn digits_are_written_and_read() {
    for n in [0u32, 7, 10, 99, 100, 4294967295] {
        let mut out = Vec::new();
        push_digits(&mut out, n as u64);
        assert_eq!(out, n.to_string().into_bytes());
        assert_eq!(read_u32(&out), Ok(n));
    }
    let mut out = b"x=".to_vec();
    push_digits(&mut out, 18446744073709551615);
    assert_eq!(out, b"x=18446744073709551615".to_vec());
}

#[test]
fn numbers_that_do_not_fit_or_are_none() {
    assert_eq!(read_u32(b"4294967296"), Err(NumberError::TooLarge));
    assert_eq!(read_u32(b"99999999999999999999999999"), Err(NumberError::TooLarge));
    assert_eq!(read_u32(b"0004294967295"), Ok(4294967295));
    assert_eq!(read_u32(b""), Err(NumberError::Malformed));
    assert_eq!(read_u32(b"12a"), Err(NumberError::Malformed));
    assert_eq!(read_u32(b"99999999999999999999999999x"), Err(NumberError::Malformed));
}

#[test]
fn cutting_at_the_first_separator() {
    assert_eq!(find(b"a/b/c", b'/'), 1);
    assert_eq!(find(b"abc", b'/'), 3);
    assert_eq!(cut(b"a/b/c", b'/'), (&b"a"[..], Some(&b"b/c"[..])));
    assert_eq!(cut(b"abc", b'/'), (&b"abc"[..], None));
    assert_eq!(cut(b"abc/", b'/'), (&b"abc"[..], Some(&b""[..])));
    assert_eq!(cut(b"", b'/'), (&b""[..], None));
}

#[test]
fn comparing_and_skipping() {
    assert!(same(b"full", b"full"));
    assert!(!same(b"full", b"fulL"));
    assert!(!same(b"full", b"ful"));
    assert!(starts_with(b"pct:1", b"pct:"));
    assert!(!starts_with(b"pct", b"pct:"));
    assert!(starts_with(b"pct", b""));
    assert_eq!(skip(b"pct:1", 4), b"1");
    let mut out = b"a".to_vec();
    push_all(&mut out, b"bc");
    assert_eq!(out, b"abc".to_vec());
}
