//! The value model that the engines decode into and encode from, and the
//! requests by which a consumer says what shape it expects.
use vstd::prelude::*;
pub use crate::numeric::IntKind;

verus! {

/// A value as a consumer hands it to the encoder or takes it from the
/// decoder.
#[derive(Debug, PartialEq)]
pub enum Value {
    Bool(bool),
    Int(i128),
    Char(char),
    Str(String),
    Bytes(Vec<u8>),
    /// An absent optional value.
    Nothing,
    /// A present optional value.
    Present(Box<Value>),
    Unit,
    /// A variant without payload, named.
    UnitVariant(String),
    /// A variant with one payload, named.
    NewtypeVariant(String, Box<Value>),
    /// A variant with positional payloads, named.
    TupleVariant(String, Vec<Value>),
    /// A variant with named payloads, named; the names are keys as in a map.
    StructVariant(String, Vec<(Value, Value)>),
    Sequence(Vec<Value>),
    /// Keys and values, in order.
    Mapping(Vec<(Value, Value)>),
}

/// A [`Value`] with its strings seen as character sequences.
pub enum ValueView {
    Bool(bool),
    Int(int),
    Char(char),
    Str(Seq<char>),
    Bytes(Seq<u8>),
    Nothing,
    Present(Box<ValueView>),
    Unit,
    UnitVariant(Seq<char>),
    NewtypeVariant(Seq<char>, Box<ValueView>),
    TupleVariant(Seq<char>, Seq<ValueView>),
    StructVariant(Seq<char>, Seq<(ValueView, ValueView)>),
    Sequence(Seq<ValueView>),
    Mapping(Seq<(ValueView, ValueView)>),
}

pub open spec fn value_view(v: Value) -> ValueView
    decreases v,
{
    match v {
        Value::Bool(b) => ValueView::Bool(b),
        Value::Int(n) => ValueView::Int(n as int),
        Value::Char(c) => ValueView::Char(c),
        Value::Str(s) => ValueView::Str(s@),
        Value::Bytes(b) => ValueView::Bytes(b@),
        Value::Nothing => ValueView::Nothing,
        Value::Present(x) => ValueView::Present(Box::new(value_view(*x))),
        Value::Unit => ValueView::Unit,
        Value::UnitVariant(n) => ValueView::UnitVariant(n@),
        Value::NewtypeVariant(n, x) => ValueView::NewtypeVariant(n@, Box::new(value_view(*x))),
        Value::TupleVariant(n, xs) => ValueView::TupleVariant(n@, values_view(xs@)),
        Value::StructVariant(n, fs) => ValueView::StructVariant(n@, entries_view(fs@)),
        Value::Sequence(xs) => ValueView::Sequence(values_view(xs@)),
        Value::Mapping(es) => ValueView::Mapping(entries_view(es@)),
    }
}

pub open spec fn values_view(s: Seq<Value>) -> Seq<ValueView>
    decreases s,
{
    if s.len() == 0 {
        Seq::empty()
    } else {
        values_view(s.subrange(0, s.len() - 1)).push(value_view(s[s.len() - 1]))
    }
}

pub open spec fn entries_view(s: Seq<(Value, Value)>) -> Seq<(ValueView, ValueView)>
    decreases s,
{
    if s.len() == 0 {
        Seq::empty()
    } else {
        entries_view(s.subrange(0, s.len() - 1)).push(
            (value_view(s[s.len() - 1].0), value_view(s[s.len() - 1].1)),
        )
    }
}

impl View for Value {
    type V = ValueView;

    open spec fn view(&self) -> ValueView {
        value_view(*self)
    }
}

/// What a consumer expects at some place of the document.
#[derive(Debug)]
pub enum Shape {
    /// Whatever comes: an entry's value as text, a section as the map of its
    /// entries.
    Any,
    /// Text, or anything that takes an entry's value as text; no section.
    Str,
    /// A character: text of one character, other text as it is.
    Char,
    /// An integer of a width.
    Int(IntKind),
    /// An optional value; always read as present.
    Optional(Box<Shape>),
    /// A map or a struct: what is expected under each key; other keys are read
    /// as [`Shape::Any`].
    Mapping(Vec<(String, Shape)>),
    /// A sequence, of elements of a shape.
    Sequence(Box<Shape>),
    /// A tagged union whose variants take payloads of this kind.
    Enum(VariantShape),
}

/// The payload that the variants of a tagged union take.
#[derive(Debug)]
pub enum VariantShape {
    Unit,
    Newtype(Box<Shape>),
    Tuple,
    Struct(Vec<(String, Shape)>),
}

/// What is expected under `key`, of a map that expects `fields`.
pub open spec fn field_shape(fields: Seq<(String, Shape)>, key: Seq<char>) -> Shape
    decreases fields.len(),
{
    if fields.len() == 0 {
        Shape::Any
    } else if fields[0].0@ == key {
        fields[0].1
    } else {
        field_shape(fields.drop_first(), key)
    }
}

/// Finds where `key` is listed, if it is.
pub fn lookup_field(fields: &Vec<(String, Shape)>, key: &String) -> (r: Option<usize>)
    ensures
        r matches Some(i) ==> i < fields@.len() && field_shape(fields@, key@) == fields@[i as int].1,
        r is None ==> field_shape(fields@, key@) == Shape::Any,
{
    let mut i: usize = 0;
    assert(fields@.skip(0) =~= fields@);
    while i < fields.len()
        invariant
            i <= fields@.len(),
            field_shape(fields@, key@) == field_shape(fields@.skip(i as int), key@),
        decreases fields@.len() - i,
    {
        assert(fields@.skip(i as int).drop_first() =~= fields@.skip(i as int + 1));
        if fields[i].0 == *key {
            return Some(i);
        }
        i = i + 1;
    }
    None
}

} // verus!
