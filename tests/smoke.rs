use serde_ini::de::Deserializer;
use serde_ini::parse::Parser;
use serde_ini::value::{IntKind, Shape, Value};

const TEST_INPUT: &'static str = "
; Ignored comment
key1=value1
key2=255
 key3 = value3

[map1]
key2=256
key1=value2
key3=

# We also treat hash as a comment character.
[map2]
key1=value3
key2=257
key3=
";

fn scalar_fields() -> Vec<(String, Shape)> {
    vec![
        ("key1".to_string(), Shape::Str),
        ("key2".to_string(), Shape::Int(IntKind::U32)),
        ("key3".to_string(), Shape::Str),
    ]
}

fn test_model() -> Shape {
    let mut fields = scalar_fields();
    fields.push(("map1".to_string(), Shape::Optional(Box::new(Shape::Mapping(scalar_fields())))));
    fields.push(("map2".to_string(), Shape::Optional(Box::new(Shape::Mapping(scalar_fields())))));
    Shape::Mapping(fields)
}

fn s(t: &str) -> Value {
    Value::Str(t.to_string())
}

fn expected() -> Value {
    Value::Mapping(vec![
        (s("key1"), s("value1")),
        (s("key2"), Value::Int(255)),
        (s("key3"), s("value3")),
        (
            s("map1"),
            Value::Present(Box::new(Value::Mapping(vec![
                (s("key2"), Value::Int(256)),
                (s("key1"), s("value2")),
                (s("key3"), s("")),
            ]))),
        ),
        (
            s("map2"),
            Value::Present(Box::new(Value::Mapping(vec![
                (s("key1"), s("value3")),
                (s("key2"), Value::Int(257)),
                (s("key3"), s("")),
            ]))),
        ),
    ])
}

#[test]
fn smoke_de() {
    // Parser
    let mut parser = Parser::from_str(TEST_INPUT);
    assert_eq!(expected(), Deserializer::from_parser(&mut parser).decode(&test_model()).unwrap());

    // Deserializer
    assert_eq!(expected(), Deserializer::from_str(TEST_INPUT).decode(&test_model()).unwrap());

    // Static methods
    assert_eq!(expected(), serde_ini::from_str(TEST_INPUT, &test_model()).unwrap());
}

#[test]
fn smoke_en() {
    let model = Value::Mapping(vec![
        (s("key1"), s("value1")),
        (s("key2"), Value::Int(255)),
        (s("key3"), s("value3")),
        (
            s("map1"),
            Value::Present(Box::new(Value::Mapping(vec![
                (s("key1"), s("value2")),
                (s("key2"), Value::Int(256)),
                (s("key3"), s("")),
            ]))),
        ),
        (
            s("map2"),
            Value::Present(Box::new(Value::Mapping(vec![
                (s("key1"), s("value3")),
                (s("key2"), Value::Int(257)),
                (s("key3"), s("")),
            ]))),
        ),
    ]);

    let data = serde_ini::to_string(&model).unwrap();

    assert_eq!(model, serde_ini::from_str(&data, &test_model()).unwrap());
}
