use mdstream::{Element, ParseError, Parser, Snippet};

/// Drives a fresh parser over `source` until `EndOfInput` and returns the
/// accumulated document together with the final line number.
fn parse_all(source: &str) -> (Snippet, usize) {
    let mut parser = Parser::from_str(source);
    loop {
        match parser.parse_line() {
            Some(ParseError::EndOfInput) => break,
            Some(ParseError::UnsupportedConstruct(_)) => {}
            None => {}
        }
    }
    let lines = parser.line_number();
    (parser.into_document(), lines)
}

#[test]
fn debug() {
    let input = "LINE 1\nLINE 2\r\n\t\t\t \t\nBLANK LINE ABOVE\n";
    let _ = parse_all(input);
}

#[test]
fn empty_input_yields_end_of_input() {
    let mut parser = Parser::from_str("");
    let first = parser.parse_line();
    assert!(matches!(first, Some(ParseError::EndOfInput)));
    assert_eq!(parser.line_number(), 0);
    let doc = parser.into_document();
    assert!(doc.is_empty());
}

#[test]
fn heading_level_one() {
    let source = "# Title\n";
    let (doc, _) = parse_all(source);
    assert_eq!(doc.len(), 1);
    match &doc[0] {
        Element::Heading { level, contents } => {
            assert_eq!(*level, 1u8);
            assert_eq!(contents.len(), 1);
            match &contents[0] {
                Element::Text(span) => {
                    assert_eq!(span.resolve(source.as_bytes()).unwrap(), b"Title");
                }
                other => panic!("expected text contents, found {:?}", other),
            }
        }
        other => panic!("expected a heading, found {:?}", other),
    }
}

#[test]
fn heading_level_six() {
    let source = "###### Title\n";
    let (doc, _) = parse_all(source);
    assert_eq!(doc.len(), 1);
    match &doc[0] {
        Element::Heading { level, contents } => {
            assert_eq!(*level, 6u8);
            assert_eq!(contents.len(), 1);
            match &contents[0] {
                Element::Text(span) => {
                    assert_eq!(span.resolve(source.as_bytes()).unwrap(), b"Title");
                }
                other => panic!("expected text contents, found {:?}", other),
            }
        }
        other => panic!("expected a heading, found {:?}", other),
    }
}

#[test]
fn seven_hashes_exceed_max_level() {
    let source = "####### Title\n";
    let (doc, _) = parse_all(source);
    assert_eq!(doc.len(), 1);
    match &doc[0] {
        Element::Line(texts) => {
            assert_eq!(texts.len(), 1);
            match &texts[0] {
                Element::Text(span) => {
                    assert_eq!(span.resolve(source.as_bytes()).unwrap(), b"####### Title");
                }
                other => panic!("expected text, found {:?}", other),
            }
        }
        other => panic!("expected a plain line, found {:?}", other),
    }
}

#[test]
fn heading_without_space_is_plain() {
    let source = "#Title\n";
    let (doc, _) = parse_all(source);
    assert_eq!(doc.len(), 1);
    assert!(matches!(&doc[0], Element::Line(texts) if texts.len() == 1));
}

#[test]
fn bare_hash_is_empty_heading() {
    let (doc, _) = parse_all("#\n");
    assert_eq!(doc.len(), 1);
    match &doc[0] {
        Element::Heading { level, contents } => {
            assert_eq!(*level, 1u8);
            assert!(contents.is_empty());
        }
        other => panic!("expected a heading, found {:?}", other),
    }
}

#[test]
fn indented_heading_is_recognized() {
    let source = "  # T\n";
    let (doc, _) = parse_all(source);
    assert_eq!(doc.len(), 1);
    match &doc[0] {
        Element::Heading { level, contents } => {
            assert_eq!(*level, 1u8);
            assert_eq!(contents.len(), 1);
            match &contents[0] {
                Element::Text(span) => {
                    assert_eq!(span.resolve(source.as_bytes()).unwrap(), b"T");
                }
                other => panic!("expected text, found {:?}", other),
            }
        }
        other => panic!("expected a heading, found {:?}", other),
    }
}

#[test]
fn crlf_and_lf_content_match() {
    let crlf = "LINE 1\r\n";
    let lf = "LINE 1\n";
    let (doc_crlf, _) = parse_all(crlf);
    let (doc_lf, _) = parse_all(lf);
    assert_eq!(doc_crlf, doc_lf);
    match &doc_crlf[0] {
        Element::Line(texts) => match &texts[0] {
            Element::Text(span) => {
                assert_eq!(span.resolve(crlf.as_bytes()).unwrap(), b"LINE 1");
            }
            other => panic!("expected text, found {:?}", other),
        },
        other => panic!("expected a plain line, found {:?}", other),
    }
}

#[test]
fn bare_cr_is_not_a_terminator() {
    let source = "LINE\rMORE\n";
    let (doc, lines) = parse_all(source);
    assert_eq!(lines, 1);
    assert_eq!(doc.len(), 1);
    match &doc[0] {
        Element::Line(texts) => {
            assert_eq!(texts.len(), 1);
            match &texts[0] {
                Element::Text(span) => {
                    assert_eq!(span.resolve(source.as_bytes()).unwrap(), b"LINE\rMORE");
                }
                other => panic!("expected text, found {:?}", other),
            }
        }
        other => panic!("expected a plain line, found {:?}", other),
    }
}

#[test]
fn blank_line_is_surfaced() {
    let (with_blank, _) = parse_all("A\n\nB\n");
    assert_eq!(with_blank.len(), 3);
    assert!(matches!(&with_blank[1], Element::Line(texts) if texts.is_empty()));

    let (without_blank, _) = parse_all("A\nB\n");
    assert_eq!(without_blank.len(), 2);
    assert!(!without_blank.iter().any(|e| matches!(e, Element::Line(t) if t.is_empty())));
}

#[test]
fn whitespace_only_line_is_blank() {
    let (doc, _) = parse_all("\t\t\t \t\n");
    assert_eq!(doc.len(), 1);
    assert!(matches!(&doc[0], Element::Line(texts) if texts.is_empty()));

    let (doc_cr, _) = parse_all("\r\n");
    assert_eq!(doc_cr.len(), 1);
    assert!(matches!(&doc_cr[0], Element::Line(texts) if texts.is_empty()));
}

#[test]
fn line_number_counts_successful_steps() {
    let mut parser = Parser::from_str("A\nB\nC\n");
    assert_eq!(parser.line_number(), 0);
    assert!(parser.parse_line().is_none());
    assert_eq!(parser.line_number(), 1);
    assert!(parser.parse_line().is_none());
    assert_eq!(parser.line_number(), 2);
    assert!(parser.parse_line().is_none());
    assert_eq!(parser.line_number(), 3);
    assert!(matches!(parser.parse_line(), Some(ParseError::EndOfInput)));
    assert_eq!(parser.line_number(), 3);
}

#[test]
fn parse_twice_yields_equal_documents() {
    let source = "# Title\n\nbody text\n###### deep\n";
    let (first, _) = parse_all(source);
    let (second, _) = parse_all(source);
    assert_eq!(first, second);
}

#[test]
fn unterminated_final_line_is_parsed() {
    let source = "tail";
    let (doc, lines) = parse_all(source);
    assert_eq!(lines, 1);
    assert_eq!(doc.len(), 1);
    match &doc[0] {
        Element::Line(texts) => match &texts[0] {
            Element::Text(span) => {
                assert_eq!(span.resolve(source.as_bytes()).unwrap(), b"tail");
            }
            other => panic!("expected text, found {:?}", other),
        },
        other => panic!("expected a plain line, found {:?}", other),
    }
}

#[test]
fn multibyte_text_is_one_run() {
    let source = "h\u{e9}llo\n";
    let (doc, _) = parse_all(source);
    assert_eq!(doc.len(), 1);
    match &doc[0] {
        Element::Line(texts) => {
            assert_eq!(texts.len(), 1);
            match &texts[0] {
                Element::Text(span) => {
                    assert_eq!(span.resolve(source.as_bytes()).unwrap(), "h\u{e9}llo".as_bytes());
                }
                other => panic!("expected text, found {:?}", other),
            }
        }
        other => panic!("expected a plain line, found {:?}", other),
    }
}

#[test]
fn every_parsed_span_resolves() {
    let source = "h\u{e9}ad\u{e9}r text\n# h\u{e9}ading\n\ntail \u{1f600} end\n";
    let (doc, _) = parse_all(source);
    for element in &doc {
        let contents = match element {
            Element::Heading { contents, .. } => contents,
            Element::Line(texts) => texts,
            Element::Text(_) => panic!("text is never a top-level element"),
        };
        for inline in contents {
            match inline {
                Element::Text(span) => {
                    assert!(span.resolve(source.as_bytes()).is_some());
                }
                other => panic!("expected text, found {:?}", other),
            }
        }
    }
}
