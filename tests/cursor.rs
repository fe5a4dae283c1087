use serde_ini::de::{self, Deserializer, PeekKind};
use serde_ini::parse::Item;
use serde_ini::value::{IntKind, Shape, Value, VariantShape};

fn s(t: &str) -> Value {
    Value::Str(t.to_string())
}

#[test]
fn fault_is_surfaced_once() {
    let mut d = Deserializer::new(vec![
        Ok(Item::Comment { text: "c".into() }),
        Err(de::Error::Custom("broken".into())),
        Ok(Item::Value { key: "a".into(), value: "1".into() }),
    ]);
    assert_eq!(d.peek_kind().unwrap_err(), de::Error::Custom("broken".into()));
    assert_eq!(d.peek_kind().unwrap(), None);
    assert!(d.assert_eof().is_ok());
}

#[test]
fn peek_does_not_consume() {
    let mut d = Deserializer::from_str("[s]\nk = v\n");
    assert_eq!(d.peek_kind().unwrap(), Some(PeekKind::Section));
    assert_eq!(d.peek_section().unwrap(), "s");
    assert_eq!(d.peek_key().unwrap_err(), de::Error::InvalidState);
    assert_eq!(d.next_section().unwrap(), "s");
    assert_eq!(d.peek_kind().unwrap(), Some(PeekKind::Value));
    assert_eq!(d.peek_key().unwrap(), "k");
    assert_eq!(d.next_value().unwrap(), "v");
    assert_eq!(d.next_value().unwrap_err(), de::Error::UnexpectedEof);
}

#[test]
fn header_taken_as_value_is_a_fault() {
    let mut d = Deserializer::from_str("[s]\n");
    assert_eq!(d.next_value().unwrap_err(), de::Error::InvalidState);
    assert!(d.assert_eof().is_ok());
}

#[test]
fn value_read_at_the_end_is_a_fault() {
    let mut d = Deserializer::from_str("; nothing\n");
    assert_eq!(d.next_entry(&Shape::Str).unwrap_err(), de::Error::UnexpectedEof);
}

#[test]
fn syntax_fault_reaches_the_decoder() {
    let err = serde_ini::from_str("a=1\n[broken\nb=2\n", &Shape::Mapping(vec![])).unwrap_err();
    assert_eq!(err, de::Error::Custom("INI syntax error: section missing ']'".into()));
    let err = serde_ini::from_str("novalue\n", &Shape::Mapping(vec![])).unwrap_err();
    assert_eq!(err, de::Error::Custom("INI syntax error: variable assignment missing '='".into()));
}

#[test]
fn char_reads_one_character_or_text() {
    let shape = Shape::Mapping(vec![("c".to_string(), Shape::Char), ("d".to_string(), Shape::Char)]);
    assert_eq!(
        serde_ini::from_str("c=é\nd=long\n", &shape).unwrap(),
        Value::Mapping(vec![(s("c"), Value::Char('é')), (s("d"), s("long"))])
    );
}

#[test]
fn integer_faults_carry_the_parse_message() {
    for (kind, text) in [
        (IntKind::I8, "128"),
        (IntKind::I8, "-129"),
        (IntKind::U16, "-1"),
        (IntKind::I32, ""),
        (IntKind::U64, "1x"),
    ] {
        let shape = Shape::Mapping(vec![("n".to_string(), Shape::Int(kind))]);
        let err = serde_ini::from_str(&format!("n={}\n", text), &shape).unwrap_err();
        assert!(matches!(err, de::Error::Custom(_)), "{:?} {}", kind, text);
    }
    let shape = Shape::Mapping(vec![("n".to_string(), Shape::Int(IntKind::I64))]);
    assert_eq!(
        serde_ini::from_str("n=+17\nm=-9223372036854775808", &shape).unwrap(),
        Value::Mapping(vec![(s("n"), Value::Int(17)), (s("m"), s("-9223372036854775808"))])
    );
}

#[test]
fn variants_that_sections_cannot_hold() {
    let unit = Shape::Sequence(Box::new(Shape::Enum(VariantShape::Unit)));
    assert_eq!(
        serde_ini::from_str("[A]\n", &unit).unwrap_err(),
        de::Error::Custom("unit variant is not supported".into())
    );
    let tuple = Shape::Sequence(Box::new(Shape::Enum(VariantShape::Tuple)));
    assert_eq!(
        serde_ini::from_str("[A]\n", &tuple).unwrap_err(),
        de::Error::Custom("tuple variant is not supported".into())
    );
    let strukt = Shape::Sequence(Box::new(Shape::Enum(VariantShape::Struct(vec![]))));
    assert_eq!(
        serde_ini::from_str("a=1\n", &strukt).unwrap_err(),
        de::Error::Custom("struct variant is not supported".into())
    );
    let text = Shape::Sequence(Box::new(Shape::Str));
    assert_eq!(
        serde_ini::from_str("a=1\n", &text).unwrap_err(),
        de::Error::Custom("expect an enum type".into())
    );
}

#[test]
fn sequence_of_entries_and_sections() {
    let shape = Shape::Sequence(Box::new(Shape::Enum(VariantShape::Newtype(Box::new(Shape::Int(
        IntKind::U8,
    ))))));
    assert_eq!(
        serde_ini::from_str("A=1\nB=2\n", &shape).unwrap(),
        Value::Sequence(vec![
            Value::NewtypeVariant("A".into(), Box::new(Value::Int(1))),
            Value::NewtypeVariant("B".into(), Box::new(Value::Int(2))),
        ])
    );
    let maps = Shape::Sequence(Box::new(Shape::Mapping(vec![])));
    assert_eq!(
        serde_ini::from_str("[x]\na=1\n[y]\n", &maps).unwrap(),
        Value::Sequence(vec![Value::Mapping(vec![(s("a"), s("1"))]), Value::Mapping(vec![])])
    );
}

#[test]
fn unit_variant_from_value() {
    let shape = Shape::Mapping(vec![("mode".to_string(), Shape::Enum(VariantShape::Unit))]);
    assert_eq!(
        serde_ini::from_str("mode=Slow\n", &shape).unwrap(),
        Value::Mapping(vec![(s("mode"), Value::UnitVariant("Slow".into()))])
    );
}

#[test]
fn read_fault_surfaces_where_it_stands() {
    let shape = Shape::Mapping(vec![("a".to_string(), Shape::Int(IntKind::U8))]);
    let lines = vec![Ok("a=1".to_string()), Err("read failed".to_string()), Ok("b=2".to_string())];
    assert_eq!(serde_ini::from_lines(lines, &shape).unwrap_err(), de::Error::Custom("read failed".into()));
    let lines = vec![Ok("a=1".to_string()), Ok("; end".to_string())];
    assert_eq!(
        serde_ini::from_lines(lines, &shape).unwrap(),
        Value::Mapping(vec![(s("a"), Value::Int(1))])
    );
}

#[test]
fn scalar_requested_at_a_header_is_a_fault() {
    let shape = Shape::Mapping(vec![("port".to_string(), Shape::Int(IntKind::U16))]);
    assert_eq!(serde_ini::from_str("[port]\na=1\n", &shape).unwrap_err(), de::Error::InvalidState);
    let shape = Shape::Mapping(vec![("name".to_string(), Shape::Str)]);
    assert_eq!(serde_ini::from_str("[name]\n", &shape).unwrap_err(), de::Error::InvalidState);
    // keys that are not listed take whatever comes
    assert_eq!(
        serde_ini::from_str("[other]\na=1\n", &Shape::Mapping(vec![])).unwrap(),
        Value::Mapping(vec![(s("other"), Value::Mapping(vec![(s("a"), s("1"))]))])
    );
}
