//! What holds of the engines together.
use vstd::prelude::*;
use crate::de::{
    after_take, body, decoded, entry_of, peeked_section, section_body, section_of, token_of, tokens,
    top_map, top_of, value_of, ErrorView, Stream, Token,
};
use crate::numeric::{in_range, lemma_int_text_round_trip};
use crate::parse::ItemView;
use crate::ser::{encoded, nested_item, nested_items, scalar_text, section_items, top_item, top_items};
use crate::value::{field_shape, Shape, ValueView, VariantShape};

verus! {

/// A value that an entry holds and that reads back as itself in `shape`.
pub open spec fn fits_scalar(shape: Shape, x: ValueView) -> bool
    decreases shape,
{
    match shape {
        Shape::Any => x is Str,
        Shape::Str => x is Str,
        Shape::Char => x is Char || (x matches ValueView::Str(t) && t.len() != 1),
        Shape::Int(k) => x matches ValueView::Int(n) && in_range(k, n),
        Shape::Enum(_) => x is UnitVariant,
        Shape::Optional(s) => x matches ValueView::Present(y) && fits_scalar(*s, *y),
        _ => false,
    }
}

/// The text of an entry that holds `x`.
pub open spec fn entry_text(x: ValueView) -> Seq<char>
    decreases x,
{
    match x {
        ValueView::Present(y) => entry_text(*y),
        _ => scalar_text(x)->Some_0,
    }
}

/// Keys and values of a section, each key text and each value fitting what
/// `fields` expects under it.
pub open spec fn fits_body(fields: Seq<(String, Shape)>, es: Seq<(ValueView, ValueView)>) -> bool
    decreases es.len(),
{
    es.len() == 0 || (es[0].0 matches ValueView::Str(k) && fits_scalar(field_shape(fields, k), es[0].1)
        && fits_body(fields, es.drop_first()))
}

/// A value under key `key` of the top-level map that is a section and reads
/// back as itself in `shape`: a map, possibly optional, or a variant named
/// like its key whose payload is a map.
pub open spec fn fits_section(shape: Shape, key: Seq<char>, x: ValueView) -> bool
    decreases shape,
{
    match shape {
        Shape::Optional(s) => x matches ValueView::Present(y) && fits_section(*s, key, *y),
        Shape::Mapping(f) => x matches ValueView::Mapping(b) && fits_body(f@, b),
        Shape::Any => x matches ValueView::Mapping(b) && fits_body(Seq::empty(), b),
        Shape::Enum(VariantShape::Newtype(p)) => match (*p, x) {
            (Shape::Mapping(f), ValueView::NewtypeVariant(n, y)) => n == key && (*y matches ValueView::Mapping(
                b,
            ) && fits_body(f@, b)),
            _ => false,
        },
        Shape::Enum(VariantShape::Struct(f)) => x matches ValueView::StructVariant(n, b) && (n == key
            && fits_body(f@, b)),
        _ => false,
    }
}

/// Keys and values of the top-level map that read back as themselves: scalars
/// first (while `allow`), then sections.
pub open spec fn fits_top(fields: Seq<(String, Shape)>, es: Seq<(ValueView, ValueView)>, allow: bool) -> bool
    decreases es.len(),
{
    es.len() == 0 || (es[0].0 matches ValueView::Str(k) && ({
        ||| allow && fits_scalar(field_shape(fields, k), es[0].1) && fits_top(fields, es.drop_first(), true)
        ||| fits_section(field_shape(fields, k), k, es[0].1) && fits_top(fields, es.drop_first(), false)
    }))
}

/// A document that encodes, and a request under which it decodes as itself.
pub open spec fn fits_document(shape: Shape, v: ValueView) -> bool {
    shape matches Shape::Mapping(fields) && v matches ValueView::Mapping(es) && fits_top(fields@, es, true)
}

/// Items as a decoder's input, free of faults.
pub open spec fn item_stream(items: Seq<ItemView>) -> Seq<Result<ItemView, ErrorView>> {
    items.map_values(|i: ItemView| Ok::<ItemView, ErrorView>(i))
}

/// Headers and entries as the decoder sees them.
pub open spec fn toks(items: Seq<ItemView>) -> Stream {
    items.map_values(|i: ItemView| Ok::<Token, ErrorView>(token_of(i)))
}

pub open spec fn is_header_or_entry(i: ItemView) -> bool {
    i is Section || i is Value
}

/// A stream that a section's entries do not run into.
pub open spec fn starts_section(s: Stream) -> bool {
    s.len() == 0 || s[0] matches Ok(Token::Header { .. })
}

proof fn lemma_tokens_of_items(items: Seq<ItemView>)
    requires
        forall|j: int| 0 <= j < items.len() ==> is_header_or_entry(#[trigger] items[j]),
    ensures
        tokens(item_stream(items)) == toks(items),
    decreases items.len(),
{
    if items.len() > 0 {
        let rest = items.drop_first();
        assert forall|j: int| 0 <= j < rest.len() implies is_header_or_entry(#[trigger] rest[j]) by {
            assert(rest[j] == items[j + 1]);
        }
        lemma_tokens_of_items(rest);
        assert(item_stream(items).drop_first() =~= item_stream(rest));
        assert(toks(items) =~= seq![Ok::<Token, ErrorView>(token_of(items[0]))] + toks(rest));
    }
}

proof fn lemma_toks_add(a: Seq<ItemView>, b: Seq<ItemView>)
    ensures
        toks(a + b) == toks(a) + toks(b),
{
    assert(toks(a + b) =~= toks(a) + toks(b));
}

/// A scalar that fits is one entry, whose text reads back as the scalar.
proof fn lemma_scalar(shape: Shape, k: Seq<char>, x: ValueView)
    requires
        fits_scalar(shape, x),
    ensures
        nested_item(k, x) == Ok::<ItemView, crate::ser::ErrorView>(ItemView::Value { key: k, value: entry_text(x) }),
        top_item(k, x, true) == Ok::<(Seq<ItemView>, bool), crate::ser::ErrorView>(
            (seq![ItemView::Value { key: k, value: entry_text(x) }], true),
        ),
        value_of(shape, entry_text(x)) == Ok::<ValueView, ErrorView>(x),
    decreases shape,
{
    match shape {
        Shape::Optional(s) => {
            lemma_scalar(*s, k, *x->Present_0);
        },
        Shape::Int(kind) => {
            lemma_int_text_round_trip(kind, x->Int_0);
        },
        _ => {},
    }
}

/// A section's keys and values that fit are entries that read back as them,
/// up to the next header.
proof fn lemma_body(fields: Seq<(String, Shape)>, es: Seq<(ValueView, ValueView)>, rest: Stream)
    requires
        fits_body(fields, es),
        starts_section(rest),
    ensures
        nested_items(es) matches Ok(items) && (forall|j: int| 0 <= j < items.len() ==> (#[trigger] items[j]) is Value)
            && body(fields, toks(items) + rest) == Ok::<(Seq<(ValueView, ValueView)>, Stream), ErrorView>((es, rest)),
    decreases es.len(),
{
    if es.len() == 0 {
        assert(toks(Seq::<ItemView>::empty()) + rest =~= rest);
        assert(es =~= Seq::<(ValueView, ValueView)>::empty());
    } else {
        let k = es[0].0->Str_0;
        let x = es[0].1;
        lemma_scalar(field_shape(fields, k), k, x);
        lemma_body(fields, es.drop_first(), rest);
        let tail = nested_items(es.drop_first())->Ok_0;
        let item = ItemView::Value { key: k, value: entry_text(x) };
        let items = seq![item] + tail;
        assert(nested_items(es) == Ok::<Seq<ItemView>, crate::ser::ErrorView>(items));
        assert forall|j: int| 0 <= j < items.len() implies (#[trigger] items[j]) is Value by {
            if j > 0 {
                assert(items[j] == tail[j - 1]);
            }
        }
        let s = toks(items) + rest;
        assert(s.drop_first() =~= toks(tail) + rest);
        assert(s[0] == Ok::<Token, ErrorView>(Token::Entry { key: k, value: entry_text(x) }));
        assert(value_of(field_shape(fields, k), entry_text(x)) == Ok::<ValueView, ErrorView>(x));
        assert(body(fields, s.drop_first()) == Ok::<(Seq<(ValueView, ValueView)>, Stream), ErrorView>((es.drop_first(), rest)));
        assert(seq![(ValueView::Str(k), x)] + es.drop_first() =~= es);
    }
}

/// A header and the entries of a map that fits: they read back as the map,
/// up to the next header.
proof fn lemma_section_body(f: Seq<(String, Shape)>, k: Seq<char>, b: Seq<(ValueView, ValueView)>, rest: Stream)
    requires
        fits_body(f, b),
        starts_section(rest),
    ensures
        section_items(k, b) matches Ok((sec, a)) && !a && sec.len() > 0 && sec[0] == (ItemView::Section { name: k })
            && (forall|j: int| 1 <= j < sec.len() ==> (#[trigger] sec[j]) is Value)
            && peeked_section(toks(sec) + rest) == Ok::<Seq<char>, ErrorView>(k)
            && section_body(f, toks(sec) + rest) == Ok::<(Seq<(ValueView, ValueView)>, Stream), ErrorView>((b, rest)),
{
    lemma_body(f, b, rest);
    let body_items = nested_items(b)->Ok_0;
    let sec = seq![ItemView::Section { name: k }] + body_items;
    assert forall|j: int| 1 <= j < sec.len() implies (#[trigger] sec[j]) is Value by {
        assert(sec[j] == body_items[j - 1]);
    }
    lemma_toks_add(seq![ItemView::Section { name: k }], body_items);
    let s = toks(sec) + rest;
    assert(s[0] == Ok::<Token, ErrorView>(Token::Header { name: k }));
    assert(after_take(s) =~= toks(body_items) + rest);
}

/// A section that fits is a header and entries that read back as it, up to
/// the next header, and closes the top level to entries.
proof fn lemma_section(shape: Shape, k: Seq<char>, x: ValueView, rest: Stream, allow: bool)
    requires
        fits_section(shape, k, x),
        starts_section(rest),
    ensures
        top_item(k, x, allow) matches Ok((sec, a)) && !a && sec.len() > 0 && sec[0] == (ItemView::Section { name: k })
            && (forall|j: int| 1 <= j < sec.len() ==> (#[trigger] sec[j]) is Value)
            && section_of(shape, toks(sec) + rest) == Ok::<(ValueView, Stream), ErrorView>((x, rest)),
    decreases shape,
{
    match shape {
        Shape::Optional(s) => {
            let y = *x->Present_0;
            lemma_section(*s, k, y, rest, allow);
            assert(top_item(k, x, allow) == top_item(k, y, allow));
            let sec = top_item(k, y, allow)->Ok_0.0;
            assert(section_of(*s, toks(sec) + rest) == Ok::<(ValueView, Stream), ErrorView>((y, rest)));
            assert(x == ValueView::Present(Box::new(y)));
        },
        Shape::Mapping(f) => {
            lemma_section_body(f@, k, x->Mapping_0, rest);
        },
        Shape::Any => {
            lemma_section_body(Seq::empty(), k, x->Mapping_0, rest);
        },
        Shape::Enum(VariantShape::Newtype(p)) => {
            let f = (*p)->Mapping_0;
            let b = (*x->NewtypeVariant_1)->Mapping_0;
            lemma_section_body(f@, k, b, rest);
            let sec = section_items(k, b)->Ok_0.0;
            assert(top_item(k, x, allow) == section_items(k, b));
            assert(section_of(*p, toks(sec) + rest) == Ok::<(ValueView, Stream), ErrorView>((ValueView::Mapping(b), rest)));
            assert(x == ValueView::NewtypeVariant(k, Box::new(ValueView::Mapping(b))));
        },
        Shape::Enum(VariantShape::Struct(f)) => {
            lemma_section_body(f@, k, x->StructVariant_1, rest);
            assert(top_item(k, x, allow) == section_items(k, x->StructVariant_1));
        },
        _ => {},
    }
}

/// A top-level map that fits is items that read back as it, to the end.
proof fn lemma_top(fields: Seq<(String, Shape)>, es: Seq<(ValueView, ValueView)>, allow: bool)
    requires
        fits_top(fields, es, allow),
    ensures
        top_items(es, allow) matches Ok(items)
            && (forall|j: int| 0 <= j < items.len() ==> is_header_or_entry(#[trigger] items[j]))
            && (!allow ==> starts_section(toks(items)))
            && top_map(fields, toks(items)) == Ok::<(Seq<(ValueView, ValueView)>, Stream), ErrorView>(
                (es, Seq::empty()),
            ),
    decreases es.len(),
{
    if es.len() == 0 {
        assert(toks(Seq::<ItemView>::empty()) =~= Seq::<Result<Token, ErrorView>>::empty());
        assert(es =~= Seq::<(ValueView, ValueView)>::empty());
    } else {
        let k = es[0].0->Str_0;
        let x = es[0].1;
        let shape = field_shape(fields, k);
        if allow && fits_scalar(shape, x) && fits_top(fields, es.drop_first(), true) {
            lemma_scalar(shape, k, x);
            lemma_top(fields, es.drop_first(), true);
            let tail = top_items(es.drop_first(), true)->Ok_0;
            let item = ItemView::Value { key: k, value: entry_text(x) };
            let items = seq![item] + tail;
            assert(top_items(es, allow) == Ok::<Seq<ItemView>, crate::ser::ErrorView>(items));
            assert forall|j: int| 0 <= j < items.len() implies is_header_or_entry(#[trigger] items[j]) by {
                if j > 0 {
                    assert(items[j] == tail[j - 1]);
                }
            }
            let s = toks(items);
            assert(s.drop_first() =~= toks(tail));
            assert(entry_of(shape, s) == Ok::<(ValueView, Stream), ErrorView>((x, toks(tail))));
            assert(seq![(ValueView::Str(k), x)] + es.drop_first() =~= es);
        } else {
            lemma_top(fields, es.drop_first(), false);
            let tail = top_items(es.drop_first(), false)->Ok_0;
            lemma_section(shape, k, x, toks(tail), allow);
            let sec = top_item(k, x, allow)->Ok_0.0;
            let items = sec + tail;
            assert(top_items(es, allow) == Ok::<Seq<ItemView>, crate::ser::ErrorView>(items));
            assert forall|j: int| 0 <= j < items.len() implies is_header_or_entry(#[trigger] items[j]) by {
                if j == 0 {
                } else if j < sec.len() {
                    assert(items[j] == sec[j]);
                } else {
                    assert(items[j] == tail[j - sec.len()]);
                }
            }
            let s = toks(items);
            lemma_toks_add(sec, tail);
            assert(s[0] == Ok::<Token, ErrorView>(Token::Header { name: k }));
            assert(entry_of(shape, s) == Ok::<(ValueView, Stream), ErrorView>((x, toks(tail))));
            assert(seq![(ValueView::Str(k), x)] + es.drop_first() =~= es);
        }
    }
}

/// Round trip: a document whose top level is a map, whose scalars come
/// before its sections (maps, optional maps, or variants named like their key
/// whose payload is a map) and whose values INI can hold, encodes without fault,
/// and its items decode as the document again in a request that it fits.
pub proof fn lemma_round_trip(shape: Shape, v: ValueView)
    requires
        fits_document(shape, v),
    ensures
        encoded(v) matches Ok(items) && decoded(shape, tokens(item_stream(items))) == Ok::<ValueView, ErrorView>(v),
{
    let fields = shape->Mapping_0;
    let es = v->Mapping_0;
    lemma_top(fields@, es, true);
    let items = top_items(es, true)->Ok_0;
    lemma_tokens_of_items(items);
}

/// Whether an item is a comment or a blank line.
pub open spec fn is_filler(r: Result<ItemView, ErrorView>) -> bool {
    r matches Ok(i) && (i is Comment || i is Empty)
}

/// A sequence of items and faults without its comments and blank lines.
pub open spec fn without_fillers(s: Seq<Result<ItemView, ErrorView>>) -> Seq<Result<ItemView, ErrorView>>
    decreases s.len(),
{
    if s.len() == 0 {
        s
    } else if is_filler(s[0]) {
        without_fillers(s.drop_first())
    } else {
        seq![s[0]] + without_fillers(s.drop_first())
    }
}

proof fn lemma_tokens_without_fillers(s: Seq<Result<ItemView, ErrorView>>)
    ensures
        tokens(s) == tokens(without_fillers(s)),
    decreases s.len(),
{
    if s.len() > 0 {
        lemma_tokens_without_fillers(s.drop_first());
        if !is_filler(s[0]) {
            let w = seq![s[0]] + without_fillers(s.drop_first());
            assert(w.drop_first() =~= without_fillers(s.drop_first()));
        }
    }
}

/// Comments and blank lines are transparent: two inputs that differ only in
/// their comments and blank lines, wherever they stand, decode alike in any
/// request.
pub proof fn lemma_fillers_transparent(
    shape: Shape,
    a: Seq<Result<ItemView, ErrorView>>,
    b: Seq<Result<ItemView, ErrorView>>,
)
    requires
        without_fillers(a) == without_fillers(b),
    ensures
        tokens(a) == tokens(b),
        decoded(shape, tokens(a)) == decoded(shape, tokens(b)),
{
    lemma_tokens_without_fillers(a);
    lemma_tokens_without_fillers(b);
}

/// Orphan values are refused: in a top-level map, a scalar right after a
/// section that encodes is a fault, and the document does not encode.
pub proof fn lemma_orphan_value(
    k1: Seq<char>,
    b: Seq<(ValueView, ValueView)>,
    k2: Seq<char>,
    x: ValueView,
    rest: Seq<(ValueView, ValueView)>,
)
    requires
        nested_items(b) is Ok,
        scalar_text(x) is Some,
    ensures
        encoded(ValueView::Mapping(seq![(ValueView::Str(k1), ValueView::Mapping(b)), (ValueView::Str(k2), x)] + rest))
            == Err::<Seq<ItemView>, crate::ser::ErrorView>(crate::ser::ErrorView::OrphanValue),
{
    let es = seq![(ValueView::Str(k1), ValueView::Mapping(b)), (ValueView::Str(k2), x)] + rest;
    assert(es[0] == (ValueView::Str(k1), ValueView::Mapping(b)));
    assert(es.drop_first()[0] == (ValueView::Str(k2), x));
    assert(top_item(k1, ValueView::Mapping(b), true) is Ok);
    let a = top_item(k1, ValueView::Mapping(b), true)->Ok_0.1;
    assert(!a);
    assert(top_item(k2, x, false) == Err::<(Seq<ItemView>, bool), crate::ser::ErrorView>(crate::ser::ErrorView::OrphanValue));
    assert(top_items(es.drop_first(), false) == Err::<Seq<ItemView>, crate::ser::ErrorView>(crate::ser::ErrorView::OrphanValue));
}

/// Nothing is left over: a document decodes only where reading it in the
/// request consumes every item.
pub proof fn lemma_no_trailing_items(shape: Shape, s: Stream)
    ensures
        decoded(shape, s) is Ok ==> (top_of(shape, s) matches Ok((v, t)) && t.len() == 0),
        top_of(shape, s) matches Ok((v, t)) ==> (t.len() > 0 ==> decoded(shape, s) is Err),
{
}

} // verus!
