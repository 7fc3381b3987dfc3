use minilang::error::ErrorType;
use minilang::token::{is_in, lex};

#[test]
fn delimiter_isolation() {
    // "a,b" lexes as "a", ",", "b", in that order.
    let src = b"a,b".to_vec();
    assert_eq!(lex(&src, 0).unwrap(), Some((0, 1)));
    assert_eq!(lex(&src, 1).unwrap(), Some((1, 2)));
    assert_eq!(&src[1..2], b",");
    assert_eq!(lex(&src, 2).unwrap(), Some((2, 3)));
    assert_eq!(&src[2..3], b"b");
    assert_eq!(lex(&src, 3).unwrap(), None);
}

#[test]
fn whitespace_skipping() {
    // "  42" lexes its first token as "42", starting at offset 2.
    let src = b"  42".to_vec();
    let span = lex(&src, 0).unwrap().unwrap();
    assert_eq!(span, (2, 4));
    assert_eq!(&src[span.0..span.1], b"42");
}

#[test]
fn tokenizer_determinism() {
    // Repeated calls with the same arguments yield the same span.
    let src = b"  foo(bar, baz): 42".to_vec();
    for start in 0..=src.len() {
        let first = lex(&src, start).unwrap();
        let second = lex(&src, start).unwrap();
        assert_eq!(first, second);
    }
}

#[test]
fn idempotent_re_lex() {
    // Re-lexing the same span from the same start offset over an
    // unmodified buffer is referentially identical.
    let src = b"alpha beta".to_vec();
    let a = lex(&src, 0).unwrap().unwrap();
    let b = lex(&src, 0).unwrap().unwrap();
    assert_eq!(a, b);
    let c = lex(&src, a.1).unwrap().unwrap();
    let d = lex(&src, b.1).unwrap().unwrap();
    assert_eq!(c, d);
    assert_eq!(&src[c.0..c.1], b"beta");
}

#[test]
fn each_delimiter_is_a_token() {
    let src = b"():,".to_vec();
    assert_eq!(lex(&src, 0).unwrap(), Some((0, 1)));
    assert_eq!(lex(&src, 1).unwrap(), Some((1, 2)));
    assert_eq!(lex(&src, 2).unwrap(), Some((2, 3)));
    assert_eq!(lex(&src, 3).unwrap(), Some((3, 4)));
}

#[test]
fn zero_byte_is_end_of_input() {
    let src = b"a\0b".to_vec();
    assert_eq!(lex(&src, 0).unwrap(), Some((0, 1)));
    assert_eq!(lex(&src, 1).unwrap(), None);
    let ws = b"  \0x".to_vec();
    assert_eq!(lex(&ws, 0).unwrap(), None);
    // A zero byte also ends a token that has already begun.
    let mid = b"ab\0cd".to_vec();
    assert_eq!(lex(&mid, 0).unwrap(), Some((0, 2)));
}

#[test]
fn cursor_past_end_is_arguments_error() {
    let src = b"ab".to_vec();
    let err = lex(&src, 3).unwrap_err();
    assert_eq!(err.kind, ErrorType::Arguments);
}

#[test]
fn cursor_at_end_is_no_token() {
    let src = b"ab".to_vec();
    assert_eq!(lex(&src, 2).unwrap(), None);
    let empty: Vec<u8> = Vec::new();
    assert_eq!(lex(&empty, 0).unwrap(), None);
}

#[test]
fn whitespace_only_is_no_token() {
    let src = b" \r\n \n".to_vec();
    assert_eq!(lex(&src, 0).unwrap(), None);
}

#[test]
fn run_of_bytes_is_one_token() {
    let src = b"integer".to_vec();
    assert_eq!(lex(&src, 0).unwrap(), Some((0, 7)));
}

#[test]
fn is_in_membership() {
    let set = b" \r\n".to_vec();
    assert!(is_in(&set, b' '));
    assert!(is_in(&set, b'\r'));
    assert!(is_in(&set, b'\n'));
    assert!(!is_in(&set, b'a'));
    let empty: Vec<u8> = Vec::new();
    assert!(!is_in(&empty, b' '));
}
