use serde_ini::error::Error;
use serde_ini::value::{IntKind, Shape, Value};
use serde_ini::{de, ser, UnsupportedType};

#[test]
fn every_width_reads_its_extremes() {
    let cases = [
        (IntKind::I8, "-128", -128i128),
        (IntKind::I8, "127", 127),
        (IntKind::I16, "-32768", -32768),
        (IntKind::I32, "2147483647", 2147483647),
        (IntKind::I64, "-9223372036854775808", -9223372036854775808),
        (IntKind::U8, "+0", 0),
        (IntKind::U16, "65535", 65535),
        (IntKind::U32, "007", 7),
        (IntKind::U64, "18446744073709551615", 18446744073709551615),
    ];
    for (kind, text, n) in cases {
        let shape = Shape::Mapping(vec![("n".to_string(), Shape::Int(kind))]);
        assert_eq!(
            serde_ini::from_str(&format!("n={}", text), &shape).unwrap(),
            Value::Mapping(vec![(Value::Str("n".into()), Value::Int(n))]),
            "{:?} {}",
            kind,
            text
        );
    }
    let shape = Shape::Mapping(vec![("n".to_string(), Shape::Int(IntKind::U8))]);
    assert!(serde_ini::from_str("n=-0", &shape).is_err());
}

#[test]
fn fault_descriptions() {
    assert_eq!(de::Error::UnexpectedEof.message(), "internal consistency error: unexpected EOF");
    assert_eq!(de::Error::InvalidState.message(), "internal consistency error");
    assert_eq!(ser::Error::OrphanValue.message(), "top-level INI values must be serialized before any map sections");
    assert_eq!(
        ser::Error::UnsupportedType(UnsupportedType::Bool).message(),
        "Bool cannot be serialized into INI"
    );
    assert_eq!(Error::from_de(&de::Error::Custom("x".into())), Error::Custom("x".into()));
    assert_eq!(Error::from_ser(&ser::Error::NonStringKey).message(), "INI map keys must be a string type");
}

#[test]
fn unsupported_kinds_keep_their_names() {
    assert_eq!(ser::Error::UnsupportedType(UnsupportedType::Absent).message(), "None cannot be serialized into INI");
    assert_eq!(ser::Error::UnsupportedType(UnsupportedType::Sequence).message(), "Seq cannot be serialized into INI");
    assert_eq!(ser::Error::UnsupportedType(UnsupportedType::Mapping).message(), "Map cannot be serialized into INI");
}
