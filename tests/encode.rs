use serde_ini::parse::Item;
use serde_ini::ser::{self, MapSerializer, Serializer, UnsupportedType};
use serde_ini::value::Value;
use serde_ini::write::{LineEnding, Writer};

fn s(t: &str) -> Value {
    Value::Str(t.to_string())
}

fn top(v: Value) -> Value {
    Value::Mapping(vec![(s("k"), v)])
}

fn nested(v: Value) -> Value {
    top(Value::Mapping(vec![(s("n"), v)]))
}

#[test]
fn unsupported_values() {
    let cases = [
        (Value::Bool(true), UnsupportedType::Bool),
        (Value::Bytes(vec![1]), UnsupportedType::Bytes),
        (Value::Nothing, UnsupportedType::Absent),
        (Value::Unit, UnsupportedType::Unit),
        (Value::Sequence(vec![]), UnsupportedType::Sequence),
        (Value::TupleVariant("T".into(), vec![]), UnsupportedType::Sequence),
        (Value::NewtypeVariant("N".into(), Box::new(s("x"))), UnsupportedType::Unit),
    ];
    for (v, t) in cases {
        assert_eq!(serde_ini::to_items(&top(v)).unwrap_err(), ser::Error::UnsupportedType(t));
    }
    assert_eq!(
        serde_ini::to_items(&nested(Value::Mapping(vec![]))).unwrap_err(),
        ser::Error::UnsupportedType(UnsupportedType::Mapping)
    );
    assert_eq!(
        serde_ini::to_items(&nested(Value::Bool(false))).unwrap_err(),
        ser::Error::UnsupportedType(UnsupportedType::Bool)
    );
}

#[test]
fn keys_must_be_text() {
    let v = Value::Mapping(vec![(Value::Int(1), s("x"))]);
    assert_eq!(serde_ini::to_items(&v).unwrap_err(), ser::Error::NonStringKey);
    let v = Value::Mapping(vec![(Value::Char('c'), s("x")), (Value::UnitVariant("u".into()), s("y"))]);
    assert_eq!(
        serde_ini::to_items(&v).unwrap(),
        vec![
            Item::Value { key: "c".into(), value: "x".into() },
            Item::Value { key: "u".into(), value: "y".into() },
        ]
    );
}

#[test]
fn document_must_be_a_map() {
    assert_eq!(serde_ini::to_items(&s("x")).unwrap_err(), ser::Error::TopLevelMap);
    assert_eq!(serde_ini::to_items(&Value::Sequence(vec![])).unwrap_err(), ser::Error::TopLevelMap);
    assert_eq!(
        serde_ini::to_items(&Value::Present(Box::new(Value::Mapping(vec![])))).unwrap(),
        vec![]
    );
}

#[test]
fn value_without_key() {
    let mut m = MapSerializer::new(true);
    let mut out = Vec::new();
    assert_eq!(m.serialize_value(&mut out, &s("x")).unwrap_err(), ser::Error::MapKeyMissing);
    assert!(m.serialize_key(&s("k")).is_ok());
    assert!(m.serialize_value(&mut out, &Value::Int(-3)).is_ok());
    assert!(m.serialize_field(&mut out, "sec", &Value::Mapping(vec![])).is_ok());
    assert_eq!(m.serialize_field(&mut out, "late", &s("x")).unwrap_err(), ser::Error::OrphanValue);
    assert!(m.end().is_ok());
    assert_eq!(
        out,
        vec![Item::Value { key: "k".into(), value: "-3".into() }, Item::Section { name: "sec".into() }]
    );
}

#[test]
fn variants_with_map_payloads_are_sections() {
    let v = Value::Mapping(vec![
        (s("a"), Value::StructVariant("S".into(), vec![(s("x"), s("1"))])),
        (s("b"), Value::NewtypeVariant("N".into(), Box::new(Value::Mapping(vec![(s("y"), s("2"))])))),
    ]);
    assert_eq!(serde_ini::to_string(&v).unwrap(), "[S]\r\nx=1\r\n[N]\r\ny=2\r\n");
}

#[test]
fn writer_renders_each_item() {
    let mut w = Writer::new(String::from(">"), LineEnding::Linefeed);
    w.write(&Item::Section { name: "s".into() });
    w.write(&Item::Value { key: "k".into(), value: "v".into() });
    w.write(&Item::Comment { text: "note".into() });
    w.write(&Item::Empty);
    assert_eq!(w.into_inner(), ">[s]\nk=v\n;note\n\n");
    assert_eq!(LineEnding::default(), LineEnding::CrLf);
    assert_eq!(LineEnding::CrLf.text(), "\r\n");
}

#[test]
fn serializer_writes_nothing_on_a_fault() {
    let mut ser = Serializer::new(Writer::new(String::new(), LineEnding::Linefeed));
    assert!(ser.serialize(&Value::Mapping(vec![(s("n"), Value::Int(7))])).is_ok());
    assert_eq!(ser.serialize(&s("x")).unwrap_err(), ser::Error::TopLevelMap);
    assert_eq!(ser.into_inner().into_inner(), "n=7\n");
}

#[test]
fn faults_leave_the_output_as_it_was() {
    let mut m = MapSerializer::new(true);
    let mut out = Vec::new();
    assert!(m.serialize_field(&mut out, "a", &s("1")).is_ok());
    let bad_section = Value::Mapping(vec![(s("x"), s("1")), (s("y"), Value::Bool(true))]);
    assert_eq!(
        m.serialize_field(&mut out, "sec", &bad_section).unwrap_err(),
        ser::Error::UnsupportedType(UnsupportedType::Bool)
    );
    // the failed section neither wrote its header nor closed the top level
    assert!(m.serialize_field(&mut out, "b", &s("2")).is_ok());
    assert_eq!(
        out,
        vec![Item::Value { key: "a".into(), value: "1".into() }, Item::Value { key: "b".into(), value: "2".into() }]
    );
    assert_eq!(m.serialize_key(&Value::Int(1)).unwrap_err(), ser::Error::NonStringKey);
}
