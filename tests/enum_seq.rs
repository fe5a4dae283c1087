use serde_ini::value::{Shape, Value, VariantShape};

const TEST_INPUT: &'static str = "
[Person]
name=Ana

[Person]
name=Box
";

fn person(name: &str) -> Value {
    Value::StructVariant("Person".into(), vec![(Value::Str("name".into()), Value::Str(name.into()))])
}

fn expected() -> Value {
    Value::Sequence(vec![person("Ana"), person("Box")])
}

fn test_model() -> Shape {
    Shape::Sequence(Box::new(Shape::Enum(VariantShape::Struct(vec![("name".to_string(), Shape::Str)]))))
}

#[test]
fn enum_seq_de() {
    assert_eq!(expected(), serde_ini::from_str(TEST_INPUT, &test_model()).unwrap());
}
