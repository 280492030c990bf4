use mdstream::{Element, NoExtensions, ParseError, Parser, QuoteStub, Snippet, TabBreak};

fn drain<B: mdstream::BlockRule, I: mdstream::InlineRule>(parser: &mut Parser<B, I>) {
    loop {
        match parser.parse_line() {
            Some(ParseError::EndOfInput) => break,
            Some(ParseError::UnsupportedConstruct(_)) => {}
            None => {}
        }
    }
}

fn resolved<'a>(element: &Element, source: &'a str) -> &'a [u8] {
    match element {
        Element::Text(span) => span.resolve(source.as_bytes()).unwrap(),
        other => panic!("expected text, found {:?}", other),
    }
}

#[test]
fn empty_extension_changes_nothing() {
    let source = "# Title\nbody\n";
    let mut plain = Parser::from_str(source);
    drain(&mut plain);
    let mut with_empty: Parser<NoExtensions, NoExtensions> =
        Parser::with_rules(source, vec![NoExtensions], vec![NoExtensions]);
    drain(&mut with_empty);
    assert_eq!(plain.into_document(), with_empty.into_document());
}

#[test]
fn tab_break_splits_text_runs() {
    let source = "a\tb\n";
    let mut parser: Parser<NoExtensions, TabBreak> =
        Parser::with_rules(source, vec![], vec![TabBreak]);
    drain(&mut parser);
    let doc: Snippet = parser.into_document();
    assert_eq!(doc.len(), 1);
    match &doc[0] {
        Element::Line(texts) => {
            assert_eq!(texts.len(), 3);
            assert_eq!(resolved(&texts[0], source), b"a");
            assert_eq!(resolved(&texts[1], source), b"\t");
            assert_eq!(resolved(&texts[2], source), b"b");
        }
        other => panic!("expected a plain line, found {:?}", other),
    }
}

#[test]
fn tab_break_leaves_tabless_lines_whole() {
    let source = "plain text\n";
    let mut parser: Parser<NoExtensions, TabBreak> =
        Parser::with_rules(source, vec![], vec![TabBreak]);
    drain(&mut parser);
    let doc = parser.into_document();
    assert_eq!(doc.len(), 1);
    match &doc[0] {
        Element::Line(texts) => {
            assert_eq!(texts.len(), 1);
            assert_eq!(resolved(&texts[0], source), b"plain text");
        }
        other => panic!("expected a plain line, found {:?}", other),
    }
}

#[test]
fn declined_claim_reports_unsupported_construct() {
    let source = "> quoted\nplain\n";
    let mut parser: Parser<QuoteStub, NoExtensions> =
        Parser::with_rules(source, vec![QuoteStub], vec![]);
    let first = parser.parse_line();
    assert!(matches!(
        first,
        Some(ParseError::UnsupportedConstruct("block quotes are not interpreted"))
    ));
    let second = parser.parse_line();
    assert!(second.is_none());
    assert!(matches!(parser.parse_line(), Some(ParseError::EndOfInput)));
    let doc = parser.into_document();
    assert_eq!(doc.len(), 2);
    match &doc[0] {
        Element::Line(texts) => {
            assert_eq!(texts.len(), 1);
            assert_eq!(resolved(&texts[0], source), b"> quoted");
        }
        other => panic!("expected a plain-text fallback line, found {:?}", other),
    }
}
