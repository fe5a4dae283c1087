use serde_ini::value::{Shape, Value, VariantShape};

const TEST_INPUT: &'static str = "
[Person]
name=Ana
likes=pickles

[Person]
name=Fred
dislikes=Ana
";

fn person(entries: &[(&str, &str)]) -> Value {
    Value::NewtypeVariant(
        "Person".into(),
        Box::new(Value::Mapping(
            entries.iter().map(|(k, v)| (Value::Str(k.to_string()), Value::Str(v.to_string()))).collect(),
        )),
    )
}

fn expected() -> Value {
    Value::Sequence(vec![
        person(&[("name", "Ana"), ("likes", "pickles")]),
        person(&[("name", "Fred"), ("dislikes", "Ana")]),
    ])
}

fn test_model() -> Shape {
    Shape::Sequence(Box::new(Shape::Enum(VariantShape::Newtype(Box::new(Shape::Mapping(vec![]))))))
}

#[test]
fn enum_map_seq_de() {
    assert_eq!(expected(), serde_ini::from_str(TEST_INPUT, &test_model()).unwrap());
}

#[test]
fn enum_map_seq_en() {
    let model = expected();

    assert_eq!(serde_ini::to_string(&model).unwrap_err(), serde_ini::ser::Error::TopLevelMap);
}
