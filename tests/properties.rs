use serde_ini::de::{self, Deserializer};
use serde_ini::parse::Item;
use serde_ini::ser;
use serde_ini::value::{IntKind, Shape, Value, VariantShape};

fn s(t: &str) -> Value {
    Value::Str(t.to_string())
}

fn entry(k: &str, v: &str) -> Item {
    Item::Value { key: k.to_string(), value: v.to_string() }
}

fn section(n: &str) -> Item {
    Item::Section { name: n.to_string() }
}

fn doc_shape() -> Shape {
    Shape::Mapping(vec![
        ("count".to_string(), Shape::Int(IntKind::I16)),
        ("letter".to_string(), Shape::Char),
        ("mode".to_string(), Shape::Enum(VariantShape::Unit)),
        ("limit".to_string(), Shape::Optional(Box::new(Shape::Int(IntKind::U64)))),
        (
            "server".to_string(),
            Shape::Mapping(vec![("port".to_string(), Shape::Int(IntKind::U16))]),
        ),
    ])
}

fn doc() -> Value {
    Value::Mapping(vec![
        (s("name"), s("demo")),
        (s("count"), Value::Int(-42)),
        (s("letter"), Value::Char('x')),
        (s("mode"), Value::UnitVariant("Fast".into())),
        (s("limit"), Value::Present(Box::new(Value::Int(18446744073709551615)))),
        (s("server"), Value::Mapping(vec![(s("host"), s("localhost")), (s("port"), Value::Int(8080))])),
        (s("client"), Value::Mapping(vec![(s("user"), s("ana"))])),
    ])
}

#[test]
fn round_trip_through_items() {
    let items = serde_ini::to_items(&doc()).unwrap();
    let input: Vec<Result<Item, de::Error>> = items.into_iter().map(Ok).collect();
    assert_eq!(doc(), serde_ini::from_items(input, &doc_shape()).unwrap());
}

#[test]
fn round_trip_through_text() {
    let text = serde_ini::to_string(&doc()).unwrap();
    assert_eq!(
        text,
        "name=demo\r\ncount=-42\r\nletter=x\r\nmode=Fast\r\nlimit=18446744073709551615\r\n\
         [server]\r\nhost=localhost\r\nport=8080\r\n[client]\r\nuser=ana\r\n"
    );
    assert_eq!(doc(), serde_ini::from_str(&text, &doc_shape()).unwrap());
}

#[test]
fn comments_and_blank_lines_are_transparent() {
    let plain = vec![Ok(entry("a", "1")), Ok(section("S")), Ok(entry("b", "2"))];
    let padded = vec![
        Ok(Item::Comment { text: "top".into() }),
        Ok(entry("a", "1")),
        Ok(Item::Empty),
        Ok(section("S")),
        Ok(Item::Comment { text: "inner".into() }),
        Ok(Item::Empty),
        Ok(entry("b", "2")),
        Ok(Item::Empty),
    ];
    let shape = Shape::Mapping(vec![]);
    let a = serde_ini::from_items(plain, &shape).unwrap();
    let b = serde_ini::from_items(padded, &shape).unwrap();
    assert_eq!(a, b);
    assert_eq!(
        a,
        Value::Mapping(vec![(s("a"), s("1")), (s("S"), Value::Mapping(vec![(s("b"), s("2"))]))])
    );
    let text = serde_ini::from_str("a=1\n;c\n\n[S]\n#c\nb=2\n", &shape).unwrap();
    assert_eq!(a, text);
}

#[test]
fn sequence_from_repeated_sections() {
    let shape = Shape::Sequence(Box::new(Shape::Enum(VariantShape::Struct(vec![(
        "a".to_string(),
        Shape::Str,
    )]))));
    let v = serde_ini::from_str("[P]\na=1\n\n[P]\na=2\n", &shape).unwrap();
    assert_eq!(
        v,
        Value::Sequence(vec![
            Value::StructVariant("P".into(), vec![(s("a"), s("1"))]),
            Value::StructVariant("P".into(), vec![(s("a"), s("2"))]),
        ])
    );
}

#[test]
fn orphan_value_is_refused() {
    let v = Value::Mapping(vec![
        (s("section_field"), Value::Mapping(vec![(s("k"), s("v"))])),
        (s("scalar_field"), s("x")),
    ]);
    assert_eq!(serde_ini::to_items(&v).unwrap_err(), ser::Error::OrphanValue);
    assert_eq!(serde_ini::to_string(&v).unwrap_err(), ser::Error::OrphanValue);
}

#[test]
fn trailing_data_is_refused() {
    let mut d = Deserializer::from_str("key=1\nextra=2\n");
    assert_eq!(d.next_key().unwrap(), Some("key".to_string()));
    assert_eq!(d.next_entry(&Shape::Int(IntKind::U8)).unwrap(), Value::Int(1));
    assert_eq!(d.assert_eof().unwrap_err(), de::Error::InvalidState);
    // the entry is still there
    assert_eq!(d.next_key().unwrap(), Some("extra".to_string()));
}

#[test]
fn numeric_boundary() {
    let shape = Shape::Mapping(vec![("key2".to_string(), Shape::Int(IntKind::U8))]);
    assert_eq!(
        serde_ini::from_str("key2=255", &shape).unwrap(),
        Value::Mapping(vec![(s("key2"), Value::Int(255))])
    );
    match serde_ini::from_str("key2=256", &shape).unwrap_err() {
        de::Error::Custom(m) => assert_eq!(m, "256".parse::<u8>().unwrap_err().to_string()),
        e => panic!("unexpected fault {:?}", e),
    }
}

#[test]
fn section_as_union_end_to_end() {
    let shape = Shape::Sequence(Box::new(Shape::Enum(VariantShape::Struct(vec![(
        "name".to_string(),
        Shape::Str,
    )]))));
    let v = serde_ini::from_str("[Person]\nname=Ana\n\n[Person]\nname=Box\n", &shape).unwrap();
    assert_eq!(
        v,
        Value::Sequence(vec![
            Value::StructVariant("Person".into(), vec![(s("name"), s("Ana"))]),
            Value::StructVariant("Person".into(), vec![(s("name"), s("Box"))]),
        ])
    );
}

#[test]
fn round_trip_of_variant_sections() {
    let person = Shape::Enum(VariantShape::Newtype(Box::new(Shape::Mapping(vec![]))));
    let shape = Shape::Mapping(vec![("Person".to_string(), person)]);
    let v = Value::Mapping(vec![
        (s("id"), s("7")),
        (
            s("Person"),
            Value::NewtypeVariant("Person".into(), Box::new(Value::Mapping(vec![(s("name"), s("Ana"))]))),
        ),
    ]);
    let text = serde_ini::to_string(&v).unwrap();
    assert_eq!(text, "id=7\r\n[Person]\r\nname=Ana\r\n");
    assert_eq!(serde_ini::from_str(&text, &shape).unwrap(), v);
}
