use mdstream::Span;

#[test]
fn new_and_one_set_offsets() {
    let pair = Span::new(3, 7);
    let single = Span::one(4);
    let source = b"0123456789";
    assert_eq!(pair.resolve(source).unwrap(), b"34567");
    assert_eq!(single.resolve(source).unwrap(), b"4");
}

#[test]
fn push_extends_by_character_width() {
    let mut span = Span::one(0);
    span.push(1);
    let source = b"abcdef";
    assert_eq!(span.resolve(source).unwrap(), b"ab");
    span.push(2);
    assert_eq!(span.resolve(source).unwrap(), b"abcd");
}

#[test]
fn resolve_returns_exact_bytes() {
    let source = b"abcdef";
    let span = Span::new(1, 3);
    assert_eq!(span.resolve(source).unwrap(), b"bcd");
    assert_eq!(span.resolve_unchecked(source), b"bcd");
}

#[test]
fn resolve_rejects_out_of_bounds() {
    let source = b"abc";
    assert!(Span::new(1, 3).resolve(source).is_none());
    assert!(Span::new(5, 9).resolve(source).is_none());
}

#[test]
fn resolve_rejects_split_characters() {
    // Two-byte character: resolving from its continuation byte must fail,
    // as must stopping right before it.
    let source = "a\u{e9}b".as_bytes();
    assert_eq!(source.len(), 4);
    assert!(Span::new(2, 3).resolve(source).is_none());
    assert!(Span::new(0, 1).resolve(source).is_none());
    assert_eq!(Span::new(1, 2).resolve(source).unwrap(), "\u{e9}".as_bytes());
}
