use serde_ini::de::Deserializer;
use serde_ini::parse::Parser;
use serde_ini::value::{IntKind, Shape, Value};

fn model_shape() -> Shape {
    Shape::Mapping(vec![
        ("key1".to_string(), Shape::Str),
        ("key2".to_string(), Shape::Int(IntKind::U32)),
    ])
}

#[test]
fn test_de_basic_ok() {
    let input = "
; Ignored comment
key1=value1
key2=255
";

    let expected = Value::Mapping(vec![
        (Value::Str("key1".into()), Value::Str("value1".into())),
        (Value::Str("key2".into()), Value::Int(255)),
    ]);

    let mut parser = Parser::from_str(input);
    let mut de = Deserializer::from_parser(&mut parser);
    assert_eq!(expected, de.decode(&model_shape()).unwrap());
    assert!(de.assert_eof().is_ok());

    assert_eq!(expected, Deserializer::from_str(input).decode(&model_shape()).unwrap());
}
