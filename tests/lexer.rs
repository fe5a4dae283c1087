use serde_ini::parse::{self, parse_line, Item, Parser, SyntaxError};

#[test]
fn lines_become_items() {
    assert_eq!(parse_line("[sec]"), Ok(Item::Section { name: "sec".into() }));
    assert_eq!(parse_line("[]"), Ok(Item::Section { name: "".into() }));
    assert_eq!(parse_line(";note"), Ok(Item::Comment { text: "note".into() }));
    assert_eq!(parse_line("# hash"), Ok(Item::Comment { text: " hash".into() }));
    assert_eq!(parse_line("  key = a=b  "), Ok(Item::Value { key: "key".into(), value: "a=b".into() }));
    assert_eq!(parse_line("=v"), Ok(Item::Value { key: "".into(), value: "v".into() }));
    assert_eq!(parse_line(""), Ok(Item::Empty));
    assert_eq!(parse_line("   \t"), Ok(Item::Empty));
}

#[test]
fn malformed_lines() {
    assert_eq!(parse_line("[sec"), Err(SyntaxError::SectionNotClosed));
    assert_eq!(parse_line("["), Err(SyntaxError::SectionNotClosed));
    assert_eq!(parse_line("[a]b]"), Err(SyntaxError::SectionName));
    assert_eq!(parse_line("word"), Err(SyntaxError::MissingEquals));
}

#[test]
fn parser_reads_line_by_line() {
    let mut p = Parser::from_str("a=1\r\n[s]\n\nbad");
    assert_eq!(p.next(), Some(Ok(Item::Value { key: "a".into(), value: "1".into() })));
    assert_eq!(p.next(), Some(Ok(Item::Section { name: "s".into() })));
    assert_eq!(p.next(), Some(Ok(Item::Empty)));
    assert_eq!(p.next(), Some(Err(parse::Error::Syntax(SyntaxError::MissingEquals))));
    assert_eq!(p.next(), None);
}

#[test]
fn read_faults_pass_through() {
    let mut p = Parser::new(vec![Ok("k=v".to_string()), Err("disk gone".to_string())]);
    assert_eq!(p.next(), Some(Ok(Item::Value { key: "k".into(), value: "v".into() })));
    let e = p.next().unwrap().unwrap_err();
    assert_eq!(e.message(), "disk gone");
    assert_eq!(parse::Error::Syntax(SyntaxError::SectionName).message(), "INI syntax error: section name contains ']'");
    assert_eq!(p.into_inner().len(), 2);
}

#[test]
fn line_endings() {
    let mut p = Parser::from_str("a=1\r\nb=2\r\n\nc=3\r");
    assert_eq!(p.next(), Some(Ok(Item::Value { key: "a".into(), value: "1".into() })));
    assert_eq!(p.next(), Some(Ok(Item::Value { key: "b".into(), value: "2".into() })));
    assert_eq!(p.next(), Some(Ok(Item::Empty)));
    assert_eq!(p.next(), Some(Ok(Item::Value { key: "c".into(), value: "3".into() })));
    assert_eq!(p.next(), None);
}
