//! The encoding engine: a value becomes the items of a document.
use vstd::prelude::*;
use crate::numeric::{char_text, decimal_text, int_text};
use crate::parse::{Item, ItemView};
use crate::value::{entries_view, Value, ValueView};
use crate::write::{render_all, LineEnding, Writer};

verus! {

/// A kind of value that INI cannot hold where it was found.
#[derive(Copy, Clone, Debug, PartialEq, Eq)]
pub enum UnsupportedType {
    Bool,
    Bytes,
    /// An absent optional value.
    Absent,
    Unit,
    Sequence,
    /// A map below a section.
    Mapping,
}

/// An encoding fault.
#[derive(Clone, Debug, PartialEq, Eq)]
pub enum Error {
    /// A fault with its description, from outside the engine.
    Custom(String),
    /// A value that INI cannot hold where it was found.
    UnsupportedType(UnsupportedType),
    /// A map key that is not text.
    NonStringKey,
    /// A document that is not a map.
    TopLevelMap,
    /// A top-level scalar after a section was written.
    OrphanValue,
    /// A map value without its key.
    MapKeyMissing,
}

pub enum ErrorView {
    Custom(Seq<char>),
    UnsupportedType(UnsupportedType),
    NonStringKey,
    TopLevelMap,
    OrphanValue,
    MapKeyMissing,
}

impl View for Error {
    type V = ErrorView;

    open spec fn view(&self) -> ErrorView {
        match self {
            Error::Custom(m) => ErrorView::Custom(m@),
            Error::UnsupportedType(t) => ErrorView::UnsupportedType(*t),
            Error::NonStringKey => ErrorView::NonStringKey,
            Error::TopLevelMap => ErrorView::TopLevelMap,
            Error::OrphanValue => ErrorView::OrphanValue,
            Error::MapKeyMissing => ErrorView::MapKeyMissing,
        }
    }
}

pub open spec fn unsupported_text(t: UnsupportedType) -> Seq<char> {
    match t {
        UnsupportedType::Bool => "Bool cannot be serialized into INI"@,
        UnsupportedType::Bytes => "Bytes cannot be serialized into INI"@,
        UnsupportedType::Absent => "None cannot be serialized into INI"@,
        UnsupportedType::Unit => "Unit cannot be serialized into INI"@,
        UnsupportedType::Sequence => "Seq cannot be serialized into INI"@,
        UnsupportedType::Mapping => "Map cannot be serialized into INI"@,
    }
}

pub open spec fn error_text(e: ErrorView) -> Seq<char> {
    match e {
        ErrorView::Custom(m) => m,
        ErrorView::UnsupportedType(t) => unsupported_text(t),
        ErrorView::NonStringKey => "INI map keys must be a string type"@,
        ErrorView::TopLevelMap => "INI can only represent a map or struct type"@,
        ErrorView::OrphanValue => "top-level INI values must be serialized before any map sections"@,
        ErrorView::MapKeyMissing => "serializer consistency error: attempted to serialize map value without key"@,
    }
}

impl UnsupportedType {
    /// A description of the fault.
    pub fn message(&self) -> (r: String)
        ensures
            r@ == unsupported_text(*self),
    {
        match self {
            UnsupportedType::Bool => String::from_str("Bool cannot be serialized into INI"),
            UnsupportedType::Bytes => String::from_str("Bytes cannot be serialized into INI"),
            UnsupportedType::Absent => String::from_str("None cannot be serialized into INI"),
            UnsupportedType::Unit => String::from_str("Unit cannot be serialized into INI"),
            UnsupportedType::Sequence => String::from_str("Seq cannot be serialized into INI"),
            UnsupportedType::Mapping => String::from_str("Map cannot be serialized into INI"),
        }
    }
}

impl Error {
    /// A description of the fault.
    pub fn message(&self) -> (r: String)
        ensures
            r@ == error_text(self@),
    {
        match self {
            Error::Custom(m) => m.clone(),
            Error::UnsupportedType(t) => t.message(),
            Error::NonStringKey => String::from_str("INI map keys must be a string type"),
            Error::TopLevelMap => String::from_str("INI can only represent a map or struct type"),
            Error::OrphanValue => String::from_str(
                "top-level INI values must be serialized before any map sections",
            ),
            Error::MapKeyMissing => String::from_str(
                "serializer consistency error: attempted to serialize map value without key",
            ),
        }
    }
}

pub open spec fn items_view(s: Seq<Item>) -> Seq<ItemView> {
    s.map_values(|i: Item| i@)
}

/// The text of a map key.
pub open spec fn key_text(k: ValueView) -> Result<Seq<char>, ErrorView>
    decreases k,
{
    match k {
        ValueView::Str(s) => Ok(s),
        ValueView::Char(c) => Ok(seq![c]),
        ValueView::UnitVariant(t) => Ok(t),
        ValueView::Present(x) => key_text(*x),
        _ => Err(ErrorView::NonStringKey),
    }
}

/// The text of a value that an entry can hold.
pub open spec fn scalar_text(v: ValueView) -> Option<Seq<char>> {
    match v {
        ValueView::Int(n) => Some(decimal_text(n)),
        ValueView::Char(c) => Some(seq![c]),
        ValueView::Str(s) => Some(s),
        ValueView::UnitVariant(t) => Some(t),
        _ => None,
    }
}

/// The fault for a value that an entry cannot hold and that is no section.
pub open spec fn unsupported(v: ValueView) -> ErrorView {
    match v {
        ValueView::Bool(_) => ErrorView::UnsupportedType(UnsupportedType::Bool),
        ValueView::Bytes(_) => ErrorView::UnsupportedType(UnsupportedType::Bytes),
        ValueView::Nothing => ErrorView::UnsupportedType(UnsupportedType::Absent),
        ValueView::TupleVariant(..) => ErrorView::UnsupportedType(UnsupportedType::Sequence),
        ValueView::Sequence(_) => ErrorView::UnsupportedType(UnsupportedType::Sequence),
        ValueView::Mapping(_) => ErrorView::UnsupportedType(UnsupportedType::Mapping),
        ValueView::StructVariant(..) => ErrorView::UnsupportedType(UnsupportedType::Mapping),
        _ => ErrorView::UnsupportedType(UnsupportedType::Unit),
    }
}

/// The entry that a value below a section becomes.
pub open spec fn nested_item(key: Seq<char>, v: ValueView) -> Result<ItemView, ErrorView>
    decreases v,
{
    match v {
        ValueView::Present(x) => nested_item(key, *x),
        _ => match scalar_text(v) {
            Some(t) => Ok(ItemView::Value { key, value: t }),
            None => Err(unsupported(v)),
        },
    }
}

/// The entries that the keys and values of a section become.
pub open spec fn nested_items(es: Seq<(ValueView, ValueView)>) -> Result<Seq<ItemView>, ErrorView>
    decreases es.len(),
{
    if es.len() == 0 {
        Ok(Seq::empty())
    } else {
        match key_text(es[0].0) {
            Err(e) => Err(e),
            Ok(k) => match nested_item(k, es[0].1) {
                Err(e) => Err(e),
                Ok(item) => match nested_items(es.drop_first()) {
                    Err(e) => Err(e),
                    Ok(rest) => Ok(seq![item] + rest),
                },
            },
        }
    }
}

/// A header named `name` and the entries of a section.
pub open spec fn section_items(name: Seq<char>, es: Seq<(ValueView, ValueView)>) -> Result<
    (Seq<ItemView>, bool),
    ErrorView,
> {
    match nested_items(es) {
        Ok(items) => Ok((seq![ItemView::Section { name }] + items, false)),
        Err(e) => Err(e),
    }
}

/// The items that a value of the top-level map becomes, and whether entries
/// may still follow: a scalar is an entry, allowed only before any section;
/// a map is a section named by the key; a variant whose payload is a map is
/// a section named by the variant.
pub open spec fn top_item(key: Seq<char>, v: ValueView, allow: bool) -> Result<
    (Seq<ItemView>, bool),
    ErrorView,
>
    decreases v,
{
    match v {
        ValueView::Present(x) => top_item(key, *x, allow),
        ValueView::Mapping(es) => section_items(key, es),
        ValueView::StructVariant(name, es) => section_items(name, es),
        ValueView::NewtypeVariant(name, p) => match *p {
            ValueView::Mapping(es) => section_items(name, es),
            _ => Err(ErrorView::UnsupportedType(UnsupportedType::Unit)),
        },
        _ => match scalar_text(v) {
            Some(t) => if allow {
                Ok((seq![ItemView::Value { key, value: t }], allow))
            } else {
                Err(ErrorView::OrphanValue)
            },
            None => Err(unsupported(v)),
        },
    }
}

/// The items that the keys and values of the top-level map become.
pub open spec fn top_items(es: Seq<(ValueView, ValueView)>, allow: bool) -> Result<Seq<ItemView>, ErrorView>
    decreases es.len(),
{
    if es.len() == 0 {
        Ok(Seq::empty())
    } else {
        match key_text(es[0].0) {
            Err(e) => Err(e),
            Ok(k) => match top_item(k, es[0].1, allow) {
                Err(e) => Err(e),
                Ok((items, a)) => match top_items(es.drop_first(), a) {
                    Err(e) => Err(e),
                    Ok(rest) => Ok(items + rest),
                },
            },
        }
    }
}

/// The items that a document becomes: it must be a map.
pub open spec fn encoded(v: ValueView) -> Result<Seq<ItemView>, ErrorView>
    decreases v,
{
    match v {
        ValueView::Present(x) => encoded(*x),
        ValueView::Mapping(es) => top_items(es, true),
        _ => Err(ErrorView::TopLevelMap),
    }
}

pub proof fn lemma_entries_view_index(s: Seq<(Value, Value)>)
    ensures
        entries_view(s).len() == s.len(),
        forall|j: int| 0 <= j < s.len() ==> #[trigger] entries_view(s)[j] == (s[j].0@, s[j].1@),
    decreases s.len(),
{
    if s.len() > 0 {
        lemma_entries_view_index(s.subrange(0, s.len() - 1));
    }
}


/// Adds what was written before to what is written after.
pub open spec fn glued(before: Seq<ItemView>, after: Result<Seq<ItemView>, ErrorView>) -> Result<
    Seq<ItemView>,
    ErrorView,
> {
    match after {
        Ok(rest) => Ok(before + rest),
        Err(e) => Err(e),
    }
}

proof fn lemma_items_push(s: Seq<Item>, i: Item)
    ensures
        items_view(s.push(i)) == items_view(s).push(i@),
{
    assert(items_view(s.push(i)) =~= items_view(s).push(i@));
}

/// The text of a map key.
fn key_string(k: &Value) -> (r: Result<String, Error>)
    ensures
        match key_text(k@) {
            Ok(t) => (r matches Ok(x) && x@ == t),
            Err(e) => (r matches Err(x) && x@ == e),
        },
    decreases k,
{
    match k {
        Value::Str(s) => Ok(s.clone()),
        Value::Char(c) => Ok(char_text(*c)),
        Value::UnitVariant(t) => Ok(t.clone()),
        Value::Present(x) => key_string(x),
        _ => Err(Error::NonStringKey),
    }
}

/// The text of a value that an entry can hold.
fn scalar_string(v: &Value) -> (r: Option<String>)
    ensures
        match scalar_text(v@) {
            Some(t) => (r matches Some(x) && x@ == t),
            None => r is None,
        },
{
    match v {
        Value::Int(n) => Some(int_text(*n)),
        Value::Char(c) => Some(char_text(*c)),
        Value::Str(s) => Some(s.clone()),
        Value::UnitVariant(t) => Some(t.clone()),
        _ => None,
    }
}

fn unsupported_error(v: &Value) -> (r: Error)
    ensures
        r@ == unsupported(v@),
{
    match v {
        Value::Bool(_) => Error::UnsupportedType(UnsupportedType::Bool),
        Value::Bytes(_) => Error::UnsupportedType(UnsupportedType::Bytes),
        Value::Nothing => Error::UnsupportedType(UnsupportedType::Absent),
        Value::TupleVariant(..) => Error::UnsupportedType(UnsupportedType::Sequence),
        Value::Sequence(_) => Error::UnsupportedType(UnsupportedType::Sequence),
        Value::Mapping(_) => Error::UnsupportedType(UnsupportedType::Mapping),
        Value::StructVariant(..) => Error::UnsupportedType(UnsupportedType::Mapping),
        _ => Error::UnsupportedType(UnsupportedType::Unit),
    }
}

/// Writes the value under one key of a map.
struct ValueSerializer {
    key: String,
    top_level: bool,
}

impl ValueSerializer {
    /// Writes an entry; at the top level only while entries are allowed.
    fn serialize_string(&self, out: &mut Vec<Item>, allow_values: bool, s: String) -> (r: Result<(), Error>)
        ensures
            (!self.top_level || allow_values) ==> (r is Ok && items_view(final(out)@) == items_view(
                old(out)@,
            ).push(ItemView::Value { key: self.key@, value: s@ })),
            !(!self.top_level || allow_values) ==> (r matches Err(e) && e@ == ErrorView::OrphanValue
                && final(out)@ == old(out)@),
    {
        if !self.top_level || allow_values {
            let item = Item::Value { key: self.key.clone(), value: s };
            proof {
                lemma_items_push(old(out)@, item);
            }
            out.push(item);
            Ok(())
        } else {
            Err(Error::OrphanValue)
        }
    }

    /// Writes a header named by the key.
    fn serialize_section(&self, out: &mut Vec<Item>)
        ensures
            items_view(final(out)@) == items_view(old(out)@).push(ItemView::Section { name: self.key@ }),
    {
        let item = Item::Section { name: self.key.clone() };
        proof {
            lemma_items_push(old(out)@, item);
        }
        out.push(item);
    }

    /// Writes a value below a section.
    fn serialize_nested(&self, out: &mut Vec<Item>, v: &Value) -> (r: Result<(), Error>)
        ensures
            match nested_item(self.key@, v@) {
                Ok(item) => (r is Ok && items_view(final(out)@) == items_view(old(out)@).push(item)),
                Err(e) => (r matches Err(x) && x@ == e && final(out)@ == old(out)@),
            },
        decreases v,
    {
        match v {
            Value::Present(x) => self.serialize_nested(out, x),
            _ => match scalar_string(v) {
                Some(t) => {
                    let item = Item::Value { key: self.key.clone(), value: t };
                    proof {
                        lemma_items_push(old(out)@, item);
                    }
                    out.push(item);
                    Ok(())
                },
                None => Err(unsupported_error(v)),
            },
        }
    }

    /// Writes a header named `name`, then the keys and values of a section.
    fn serialize_section_entries(out: &mut Vec<Item>, name: &String, es: &Vec<(Value, Value)>) -> (r: Result<(), Error>)
        ensures
            match section_items(name@, entries_view(es@)) {
                Ok((items, _)) => (r is Ok && items_view(final(out)@) == items_view(old(out)@) + items),
                Err(e) => (r matches Err(x) && x@ == e),
            },
    {
        let header = ValueSerializer { key: name.clone(), top_level: true };
        header.serialize_section(out);
        let ghost base: int = old(out)@.len() as int + 1;
        let ghost ev = entries_view(es@);
        proof {
            lemma_entries_view_index(es@);
            assert(ev.skip(0) =~= ev);
            assert(items_view(out@).skip(base) =~= Seq::<ItemView>::empty());
            assert(Seq::<ItemView>::empty() + Seq::<ItemView>::empty() =~= Seq::<ItemView>::empty());
        }
        let mut i: usize = 0;
        while i < es.len()
            invariant
                i <= es@.len(),
                ev == entries_view(es@),
                ev.len() == es@.len(),
                forall|j: int| 0 <= j < es@.len() ==> #[trigger] ev[j] == (es@[j].0@, es@[j].1@),
                base == old(out)@.len() + 1,
                base <= out@.len(),
                items_view(out@).take(base) == items_view(old(out)@).push(ItemView::Section { name: name@ }),
                nested_items(ev) == glued(items_view(out@).skip(base), nested_items(ev.skip(i as int))),
            decreases es@.len() - i,
        {
            assert(ev.skip(i as int).drop_first() =~= ev.skip(i as int + 1));
            assert(ev.skip(i as int)[0] == ev[i as int]);
            let key = match key_string(&es[i].0) {
                Ok(k) => k,
                Err(e) => return Err(e),
            };
            let vs = ValueSerializer { key, top_level: false };
            let ghost before = out@;
            match vs.serialize_nested(out, &es[i].1) {
                Ok(_) => {},
                Err(e) => return Err(e),
            }
            proof {
                let item = nested_item(vs.key@, es@[i as int].1@)->Ok_0;
                assert(items_view(out@) == items_view(before).push(item));
                assert(base <= items_view(before).len());
                assert(items_view(before).push(item).take(base) =~= items_view(before).take(base));
                assert(items_view(out@).take(base) =~= items_view(before).take(base));
                assert(items_view(out@).skip(base) =~= items_view(before).skip(base).push(
                    items_view(out@)[out@.len() - 1],
                ));
                match nested_items(ev.skip(i as int + 1)) {
                    Ok(rest) => {
                        assert(items_view(before).skip(base) + (seq![items_view(out@)[out@.len() - 1]] + rest)
                            =~= items_view(out@).skip(base) + rest);
                    },
                    Err(_) => {},
                }
            }
            i = i + 1;
        }
        proof {
            assert(ev.skip(i as int) =~= Seq::<(ValueView, ValueView)>::empty());
            assert(items_view(out@).skip(base) + Seq::<ItemView>::empty() =~= items_view(out@).skip(base));
            assert(items_view(out@) =~= items_view(out@).take(base) + items_view(out@).skip(base));
            assert(items_view(old(out)@).push(ItemView::Section { name: name@ }) + items_view(out@).skip(
                base,
            ) =~= items_view(old(out)@) + (seq![ItemView::Section { name: name@ }] + items_view(
                out@,
            ).skip(base)));
        }
        Ok(())
    }

    /// Writes a section after what `out` holds, and closes the top level to
    /// entries; nothing changes on a fault.
    fn write_section(out: &mut Vec<Item>, allow_values: &mut bool, name: &String, es: &Vec<(Value, Value)>) -> (r: Result<(), Error>)
        ensures
            match section_items(name@, entries_view(es@)) {
                Ok((items, a)) => (r is Ok && items_view(final(out)@) == items_view(old(out)@) + items
                    && *final(allow_values) == a),
                Err(e) => (r matches Err(x) && x@ == e && final(out)@ == old(out)@
                    && *final(allow_values) == *old(allow_values)),
            },
    {
        let mut sec: Vec<Item> = Vec::new();
        match ValueSerializer::serialize_section_entries(&mut sec, name, es) {
            Ok(_) => {},
            Err(e) => return Err(e),
        }
        let ghost written = sec@;
        assert(items_view(Seq::<Item>::empty()) =~= Seq::<ItemView>::empty());
        assert(Seq::<ItemView>::empty() + items_view(written) =~= items_view(written));
        out.append(&mut sec);
        assert(items_view(out@) =~= items_view(old(out)@) + items_view(written));
        *allow_values = false;
        Ok(())
    }

    /// Writes a value of the top-level map; nothing changes on a fault.
    fn serialize(&self, out: &mut Vec<Item>, allow_values: &mut bool, v: &Value) -> (r: Result<(), Error>)
        requires
            self.top_level,
        ensures
            match top_item(self.key@, v@, *old(allow_values)) {
                Ok((items, a)) => (r is Ok && items_view(final(out)@) == items_view(old(out)@) + items
                    && *final(allow_values) == a),
                Err(e) => (r matches Err(x) && x@ == e && final(out)@ == old(out)@
                    && *final(allow_values) == *old(allow_values)),
            },
        decreases v,
    {
        match v {
            Value::Present(x) => self.serialize(out, allow_values, x),
            Value::Mapping(es) => ValueSerializer::write_section(out, allow_values, &self.key, es),
            Value::StructVariant(name, es) => ValueSerializer::write_section(out, allow_values, name, es),
            Value::NewtypeVariant(name, p) => match &**p {
                Value::Mapping(es) => {
                    proof {
                        reveal_with_fuel(crate::value::value_view, 2);
                    }
                    assert(v@ == ValueView::NewtypeVariant(name@, Box::new(ValueView::Mapping(entries_view(es@)))));
                    ValueSerializer::write_section(out, allow_values, name, es)
                },
                _ => Err(Error::UnsupportedType(UnsupportedType::Unit)),
            },
            _ => match scalar_string(v) {
                Some(t) => {
                    let r = self.serialize_string(out, *allow_values, t);
                    proof {
                        if r is Ok {
                            assert(items_view(out@) =~= items_view(old(out)@) + seq![
                                ItemView::Value { key: self.key@, value: t@ },
                            ]);
                        }
                    }
                    r
                },
                None => Err(unsupported_error(v)),
            },
        }
    }
}


/// Writes the keys and values of a map, a key before each value.
pub struct MapSerializer {
    key: Option<String>,
    top_level: bool,
    allow_values: bool,
}

impl MapSerializer {
    /// The key given for the next value, if any.
    pub closed spec fn pending_key(&self) -> Option<Seq<char>> {
        match self.key {
            Some(k) => Some(k@),
            None => None,
        }
    }

    /// Whether this is the top-level map.
    pub closed spec fn is_top(&self) -> bool {
        self.top_level
    }

    /// Whether a top-level scalar may still be written: none may follow a
    /// section.
    pub closed spec fn allows_values(&self) -> bool {
        self.allow_values
    }

    /// A serializer for the top-level map, or for the map of a section.
    pub fn new(top_level: bool) -> (r: MapSerializer)
        ensures
            r.pending_key() is None,
            r.is_top() == top_level,
            r.allows_values() == top_level,
    {
        MapSerializer { key: None, top_level, allow_values: top_level }
    }

    /// Takes the key for the next value; it must be text.
    pub fn serialize_key(&mut self, key: &Value) -> (r: Result<(), Error>)
        ensures
            final(self).is_top() == old(self).is_top(),
            final(self).allows_values() == old(self).allows_values(),
            match key_text(key@) {
                Ok(t) => (r is Ok && final(self).pending_key() == Some(t)),
                Err(e) => (r matches Err(x) && x@ == e && final(self).pending_key() == old(
                    self,
                ).pending_key()),
            },
    {
        match key_string(key) {
            Ok(k) => {
                self.key = Some(k);
                Ok(())
            },
            Err(e) => Err(e),
        }
    }

    /// Writes the value of the key taken last.
    pub fn serialize_value(&mut self, out: &mut Vec<Item>, value: &Value) -> (r: Result<(), Error>)
        ensures
            final(self).is_top() == old(self).is_top(),
            final(self).pending_key() == old(self).pending_key(),
            match old(self).pending_key() {
                None => (r matches Err(x) && x@ == ErrorView::MapKeyMissing && items_view(final(out)@)
                    == items_view(old(out)@) && final(self).allows_values() == old(self).allows_values()),
                Some(k) => if old(self).is_top() {
                    match top_item(k, value@, old(self).allows_values()) {
                        Ok((items, a)) => (r is Ok && items_view(final(out)@) == items_view(old(out)@)
                            + items && final(self).allows_values() == a),
                        Err(e) => (r matches Err(x) && x@ == e && items_view(final(out)@) == items_view(
                            old(out)@,
                        ) && final(self).allows_values() == old(self).allows_values()),
                    }
                } else {
                    match nested_item(k, value@) {
                        Ok(item) => (r is Ok && items_view(final(out)@) == items_view(old(out)@).push(
                            item,
                        ) && final(self).allows_values() == old(self).allows_values()),
                        Err(e) => (r matches Err(x) && x@ == e && items_view(final(out)@) == items_view(
                            old(out)@,
                        ) && final(self).allows_values() == old(self).allows_values()),
                    }
                },
            },
    {
        match &self.key {
            None => Err(Error::MapKeyMissing),
            Some(k) => {
                let vs = ValueSerializer { key: k.clone(), top_level: self.top_level };
                if self.top_level {
                    vs.serialize(out, &mut self.allow_values, value)
                } else {
                    vs.serialize_nested(out, value)
                }
            },
        }
    }

    /// Writes the value of a struct's field, named `key`.
    pub fn serialize_field(&mut self, out: &mut Vec<Item>, key: &str, value: &Value) -> (r: Result<(), Error>)
        ensures
            final(self).is_top() == old(self).is_top(),
            if old(self).is_top() {
                match top_item(key@, value@, old(self).allows_values()) {
                    Ok((items, a)) => (r is Ok && items_view(final(out)@) == items_view(old(out)@)
                        + items && final(self).allows_values() == a),
                    Err(e) => (r matches Err(x) && x@ == e && items_view(final(out)@) == items_view(
                        old(out)@,
                    ) && final(self).allows_values() == old(self).allows_values()),
                }
            } else {
                match nested_item(key@, value@) {
                    Ok(item) => (r is Ok && items_view(final(out)@) == items_view(old(out)@).push(item)
                        && final(self).allows_values() == old(self).allows_values()),
                    Err(e) => (r matches Err(x) && x@ == e && items_view(final(out)@) == items_view(
                        old(out)@,
                    ) && final(self).allows_values() == old(self).allows_values()),
                }
            },
    {
        let vs = ValueSerializer { key: String::from_str(key), top_level: self.top_level };
        if self.top_level {
            vs.serialize(out, &mut self.allow_values, value)
        } else {
            vs.serialize_nested(out, value)
        }
    }

    /// Ends the map; nothing is left to write.
    pub fn end(self) -> (r: Result<(), Error>)
        ensures
            r is Ok,
    {
        Ok(())
    }
}

/// Encodes a document: its items, or the first fault.
pub fn to_items(v: &Value) -> (r: Result<Vec<Item>, Error>)
    ensures
        match encoded(v@) {
            Ok(items) => (r matches Ok(x) && items_view(x@) == items),
            Err(e) => (r matches Err(x) && x@ == e),
        },
    decreases v,
{
    match v {
        Value::Present(x) => to_items(x),
        Value::Mapping(es) => {
            let mut out: Vec<Item> = Vec::new();
            let mut m = MapSerializer::new(true);
            let ghost ev = entries_view(es@);
            proof {
                lemma_entries_view_index(es@);
                assert(ev.skip(0) =~= ev);
                assert(items_view(out@) =~= Seq::<ItemView>::empty());
                assert(Seq::<ItemView>::empty() + Seq::<ItemView>::empty() =~= Seq::<ItemView>::empty());
            }
            let mut i: usize = 0;
            while i < es.len()
                invariant
                    i <= es@.len(),
                    v@ == ValueView::Mapping(ev),
                    ev == entries_view(es@),
                    ev.len() == es@.len(),
                    forall|j: int| 0 <= j < es@.len() ==> #[trigger] ev[j] == (es@[j].0@, es@[j].1@),
                    m.is_top(),
                    top_items(ev, true) == glued(items_view(out@), top_items(ev.skip(i as int), m.allows_values())),
                decreases es@.len() - i,
            {
                assert(ev.skip(i as int).drop_first() =~= ev.skip(i as int + 1));
                assert(ev.skip(i as int)[0] == ev[i as int]);
                let ghost allow = m.allows_values();
                let ghost before = out@;
                match m.serialize_key(&es[i].0) {
                    Ok(_) => {},
                    Err(e) => return Err(e),
                }
                match m.serialize_value(&mut out, &es[i].1) {
                    Ok(_) => {},
                    Err(e) => return Err(e),
                }
                proof {
                    let k = key_text(es@[i as int].0@)->Ok_0;
                    let (items, a) = top_item(k, es@[i as int].1@, allow)->Ok_0;
                    match top_items(ev.skip(i as int + 1), a) {
                        Ok(rest) => {
                            assert(items_view(before) + (items + rest) =~= items_view(out@) + rest);
                        },
                        Err(_) => {},
                    }
                }
                i = i + 1;
            }
            proof {
                assert(ev.skip(i as int) =~= Seq::<(ValueView, ValueView)>::empty());
                assert(items_view(out@) + Seq::<ItemView>::empty() =~= items_view(out@));
            }
            match m.end() {
                Ok(_) => Ok(out),
                Err(e) => Err(e),
            }
        },
        _ => Err(Error::TopLevelMap),
    }
}

/// Encodes documents as text through a writer.
pub struct Serializer {
    writer: Writer,
}

impl Serializer {
    /// The writer with what was written so far.
    pub closed spec fn writer(&self) -> Writer {
        self.writer
    }

    pub fn new(writer: Writer) -> (r: Serializer)
        ensures
            r.writer() == writer,
    {
        Serializer { writer }
    }

    /// The writer, with what was written.
    pub fn into_inner(self) -> (r: Writer)
        ensures
            r == self.writer(),
    {
        self.writer
    }

    /// Encodes a document and writes its lines; nothing is written on a fault.
    pub fn serialize(&mut self, v: &Value) -> (r: Result<(), Error>)
        ensures
            final(self).writer().ending() == old(self).writer().ending(),
            match encoded(v@) {
                Ok(items) => (r is Ok && final(self).writer().text() == old(self).writer().text()
                    + render_all(items, old(self).writer().ending())),
                Err(e) => (r matches Err(x) && x@ == e && final(self).writer().text() == old(
                    self,
                ).writer().text()),
            },
    {
        let items = match to_items(v) {
            Ok(items) => items,
            Err(e) => return Err(e),
        };
        let ghost iv = items_view(items@);
        let ghost t0 = self.writer.text();
        let ghost e = self.writer.ending();
        assert(iv.take(0) =~= Seq::<ItemView>::empty());
        assert(t0 + Seq::<char>::empty() =~= t0);
        let mut i: usize = 0;
        while i < items.len()
            invariant
                i <= items@.len(),
                iv == items_view(items@),
                self.writer.ending() == e,
                self.writer.text() == t0 + render_all(iv.take(i as int), e),
            decreases items@.len() - i,
        {
            self.writer.write(&items[i]);
            assert(iv.take(i as int + 1).drop_last() =~= iv.take(i as int));
            assert(iv[i as int] == items@[i as int]@);
            assert(self.writer.text() =~= t0 + render_all(iv.take(i as int + 1), e));
            i = i + 1;
        }
        assert(iv.take(i as int) =~= iv);
        Ok(())
    }
}

/// Encodes a document as text, each line ended by `\r\n`.
pub fn to_string(v: &Value) -> (r: Result<String, Error>)
    ensures
        match encoded(v@) {
            Ok(items) => (r matches Ok(x) && x@ == render_all(items, LineEnding::CrLf)),
            Err(e) => (r matches Err(x) && x@ == e),
        },
{
    let mut ser = Serializer::new(Writer::new(String::new(), LineEnding::CrLf));
    match ser.serialize(v) {
        Ok(_) => {},
        Err(e) => return Err(e),
    }
    let out = ser.into_inner().into_inner();
    assert(Seq::<char>::empty() + render_all(encoded(v@)->Ok_0, LineEnding::CrLf) =~= render_all(
        encoded(v@)->Ok_0,
        LineEnding::CrLf,
    ));
    Ok(out)
}

} // verus!
