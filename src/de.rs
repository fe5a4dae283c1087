//! The decoding engine: a one-item lookahead cursor over the items of a
//! document, and the reading of those items in the shape a consumer asks for.
use vstd::prelude::*;
use crate::numeric::{int_fault, int_value, parse_int};
use crate::parse::{self, Item, ItemView, Parser};
use crate::value::{field_shape, lookup_field, Shape, Value, ValueView, VariantShape, entries_view};

verus! {

/// A decoding fault.
#[derive(Clone, Debug, PartialEq, Eq)]
pub enum Error {
    /// A fault with its description: from the lexer, from reading a number,
    /// or a request that INI cannot answer.
    Custom(String),
    /// The items ended where one more was needed.
    UnexpectedEof,
    /// The next item is not of the kind that was needed, or is left over.
    InvalidState,
}

pub enum ErrorView {
    Custom(Seq<char>),
    UnexpectedEof,
    InvalidState,
}

impl View for Error {
    type V = ErrorView;

    open spec fn view(&self) -> ErrorView {
        match self {
            Error::Custom(m) => ErrorView::Custom(m@),
            Error::UnexpectedEof => ErrorView::UnexpectedEof,
            Error::InvalidState => ErrorView::InvalidState,
        }
    }
}

pub open spec fn error_text(e: ErrorView) -> Seq<char> {
    match e {
        ErrorView::Custom(m) => m,
        ErrorView::UnexpectedEof => "internal consistency error: unexpected EOF"@,
        ErrorView::InvalidState => "internal consistency error"@,
    }
}

impl Error {
    /// A copy of the fault.
    pub fn copy(&self) -> (r: Error)
        ensures
            r@ == self@,
    {
        match self {
            Error::Custom(m) => Error::Custom(m.clone()),
            Error::UnexpectedEof => Error::UnexpectedEof,
            Error::InvalidState => Error::InvalidState,
        }
    }

    /// A description of the fault.
    pub fn message(&self) -> (r: String)
        ensures
            r@ == error_text(self@),
    {
        match self {
            Error::Custom(m) => m.clone(),
            Error::UnexpectedEof => String::from_str("internal consistency error: unexpected EOF"),
            Error::InvalidState => String::from_str("internal consistency error"),
        }
    }
}

/// An item that decoding looks at: comments and blank lines are never seen.
pub enum Token {
    Entry { key: Seq<char>, value: Seq<char> },
    Header { name: Seq<char> },
}

/// What is left to decode: tokens, and at most one fault, which is last.
pub type Stream = Seq<Result<Token, ErrorView>>;

pub open spec fn input_view(r: Result<Item, Error>) -> Result<ItemView, ErrorView> {
    match r {
        Ok(item) => Ok(item@),
        Err(e) => Err(e@),
    }
}

pub open spec fn inputs_view(s: Seq<Result<Item, Error>>) -> Seq<Result<ItemView, ErrorView>> {
    s.map_values(|r: Result<Item, Error>| input_view(r))
}

/// The stream that a sequence of items and faults gives: comments and blank
/// lines dropped, and nothing after the first fault.
pub open spec fn tokens(s: Seq<Result<ItemView, ErrorView>>) -> Stream
    decreases s.len(),
{
    if s.len() == 0 {
        Seq::empty()
    } else {
        match s[0] {
            Err(e) => seq![Err(e)],
            Ok(ItemView::Section { name }) => seq![Ok(Token::Header { name })] + tokens(s.drop_first()),
            Ok(ItemView::Value { key, value }) => seq![Ok(Token::Entry { key, value })] + tokens(
                s.drop_first(),
            ),
            Ok(_) => tokens(s.drop_first()),
        }
    }
}

/// Which kind of item comes next.
#[derive(Copy, Clone, Debug, PartialEq, Eq)]
pub enum PeekKind {
    Value,
    Section,
}

/// What a look at the next item finds.
pub open spec fn peeked(s: Stream) -> Result<Option<PeekKind>, ErrorView> {
    if s.len() == 0 {
        Ok(None)
    } else {
        match s[0] {
            Ok(Token::Entry { .. }) => Ok(Some(PeekKind::Value)),
            Ok(Token::Header { .. }) => Ok(Some(PeekKind::Section)),
            Err(e) => Err(e),
        }
    }
}

/// What is left after a look at the next item: a fault is surfaced once.
pub open spec fn after_peek(s: Stream) -> Stream {
    if s.len() > 0 && s[0] is Err {
        Seq::empty()
    } else {
        s
    }
}

/// What is left once the next item is taken.
pub open spec fn after_take(s: Stream) -> Stream {
    if s.len() == 0 || s[0] is Err {
        Seq::empty()
    } else {
        s.drop_first()
    }
}

/// The key of the next item, without taking it.
pub open spec fn peeked_key(s: Stream) -> Result<Seq<char>, ErrorView> {
    if s.len() == 0 {
        Err(ErrorView::UnexpectedEof)
    } else {
        match s[0] {
            Ok(Token::Entry { key, .. }) => Ok(key),
            Ok(Token::Header { .. }) => Err(ErrorView::InvalidState),
            Err(e) => Err(e),
        }
    }
}

/// The name of the next section header, without taking it.
pub open spec fn peeked_section(s: Stream) -> Result<Seq<char>, ErrorView> {
    if s.len() == 0 {
        Err(ErrorView::UnexpectedEof)
    } else {
        match s[0] {
            Ok(Token::Header { name }) => Ok(name),
            Ok(Token::Entry { .. }) => Err(ErrorView::InvalidState),
            Err(e) => Err(e),
        }
    }
}

/// The value of the next item, which is taken whatever it is.
pub open spec fn taken_value(s: Stream) -> Result<Seq<char>, ErrorView> {
    if s.len() == 0 {
        Err(ErrorView::UnexpectedEof)
    } else {
        match s[0] {
            Ok(Token::Entry { value, .. }) => Ok(value),
            Ok(Token::Header { .. }) => Err(ErrorView::InvalidState),
            Err(e) => Err(e),
        }
    }
}

/// The name of the next section header, which is taken whatever it is.
pub open spec fn taken_section(s: Stream) -> Result<Seq<char>, ErrorView> {
    peeked_section(s)
}

/// Whether nothing is left.
pub open spec fn eof_check(s: Stream) -> Result<(), ErrorView> {
    if s.len() == 0 {
        Ok(())
    } else {
        match s[0] {
            Ok(_) => Err(ErrorView::InvalidState),
            Err(e) => Err(e),
        }
    }
}

pub open spec fn token_of(item: ItemView) -> Token {
    match item {
        ItemView::Value { key, value } => Token::Entry { key, value },
        ItemView::Section { name } => Token::Header { name },
        _ => Token::Header { name: Seq::empty() },
    }
}

/// What the cursor holds ahead of the items not read yet.
enum Next {
    Init,
    Eof,
    Ready(Result<Item, Error>),
}

/// The cursor: a one-item lookahead over a sequence of items and faults that
/// skips comments and blank lines, and surfaces a fault once.
pub struct Deserializer {
    input: Vec<Result<Item, Error>>,
    pos: usize,
    next: Next,
}

impl View for Deserializer {
    type V = Stream;

    closed spec fn view(&self) -> Stream {
        let rest = tokens(inputs_view(self.input@.skip(self.pos as int)));
        match self.next {
            Next::Init => rest,
            Next::Eof => Seq::empty(),
            Next::Ready(Err(e)) => seq![Err(e@)],
            Next::Ready(Ok(item)) => seq![Ok(token_of(item@))] + rest,
        }
    }
}

impl Deserializer {
    pub closed spec fn wf(&self) -> bool {
        &&& self.pos <= self.input@.len()
        &&& self.next matches Next::Ready(Ok(item)) ==> (item is Section || item is Value)
    }

    /// A cursor over items and faults, in order.
    pub fn new(input: Vec<Result<Item, Error>>) -> (r: Deserializer)
        ensures
            r.wf(),
            r@ == tokens(inputs_view(input@)),
    {
        let r = Deserializer { input, pos: 0, next: Next::Init };
        assert(r.input@.skip(0) =~= r.input@);
        r
    }

    /// A cursor over the items of a text; a malformed line becomes a fault
    /// with the lexer's description.
    pub fn from_str(s: &str) -> (r: Deserializer)
        ensures
            r.wf(),
            r@ == tokens(lexed_lines(parse::lines_of(s@))),
    {
        let mut p = Parser::from_str(s);
        let ghost p0 = p;
        let r = Deserializer::from_parser(&mut p);
        assert(p0.remaining().map_values(
            |l: Result<Seq<char>, Seq<char>>| lexed_fault(parse::lex_line(l)),
        ) =~= lexed_lines(parse::lines_of(s@)));
        r
    }

    /// A cursor over all the items that a lexer has left.
    pub fn from_parser(p: &mut Parser) -> (r: Deserializer)
        requires
            old(p).wf(),
        ensures
            r.wf(),
            r@ == tokens(
                old(p).remaining().map_values(
                    |l: Result<Seq<char>, Seq<char>>| lexed_fault(parse::lex_line(l)),
                ),
            ),
    {
        let ghost lines = p.remaining();
        let mut input: Vec<Result<Item, Error>> = Vec::new();
        let ghost target = lines.map_values(
            |l: Result<Seq<char>, Seq<char>>| lexed_fault(parse::lex_line(l)),
        );
        loop
            invariant
                p.wf(),
                lines.len() == input@.len() + p.remaining().len(),
                p.remaining() == lines.skip(input@.len() as int),
                target == lines.map_values(
                    |l: Result<Seq<char>, Seq<char>>| lexed_fault(parse::lex_line(l)),
                ),
                forall|k: int| 0 <= k < input@.len() ==> #[trigger] input_view(input@[k]) == target[k],
            ensures
                lines.len() == input@.len(),
                forall|k: int| 0 <= k < input@.len() ==> #[trigger] input_view(input@[k]) == target[k],
            decreases p.remaining().len(),
        {
            let ghost before = p.remaining();
            match p.next() {
                None => break,
                Some(Ok(item)) => {
                    input.push(Ok(item));
                },
                Some(Err(e)) => {
                    input.push(Err(Error::Custom(e.message())));
                },
            }
            assert(before.drop_first() =~= lines.skip(input@.len() as int));
        }
        assert(inputs_view(input@) =~= target);
        Deserializer::new(input)
    }

    /// Fills the lookahead, skipping comments and blank lines.
    fn populate(&mut self)
        requires
            old(self).wf(),
        ensures
            final(self).wf(),
            final(self)@ == old(self)@,
            !(final(self).next is Init),
    {
        loop
            invariant
                self.wf(),
                self@ == old(self)@,
            ensures
                !(self.next is Init),
            decreases self.input@.len() - self.pos, if self.next is Init { 1int } else { 0int },
        {
            match self.next {
                Next::Init => {},
                _ => break,
            }
            if self.pos >= self.input.len() {
                self.next = Next::Eof;
            } else {
                let ghost src = inputs_view(self.input@.skip(self.pos as int));
                assert(inputs_view(self.input@.skip(self.pos as int + 1)) =~= src.drop_first());
                let item = match &self.input[self.pos] {
                    Ok(i) => Ok(i.copy()),
                    Err(e) => Err(e.copy()),
                };
                self.pos = self.pos + 1;
                match item {
                    Ok(Item::Comment { .. }) => {},
                    Ok(Item::Empty) => {},
                    other => {
                        self.next = Next::Ready(other);
                    },
                }
            }
        }
    }

    /// Takes the lookahead, leaving the cursor to refill; a fault or the end
    /// leaves it at the end.
    fn next_item(&mut self) -> (r: Result<Item, Error>)
        requires
            old(self).wf(),
            !(old(self).next is Init),
        ensures
            final(self).wf(),
            final(self)@ == after_take(old(self)@),
            old(self)@.len() == 0 ==> (r matches Err(e) && e@ == ErrorView::UnexpectedEof),
            old(self)@.len() > 0 ==> match old(self)@[0] {
                Ok(t) => (r matches Ok(item) && (item is Section || item is Value) && token_of(item@) == t),
                Err(e) => (r matches Err(x) && x@ == e),
            },
    {
        let mut taken = match self.next {
            Next::Ready(Ok(_)) => Next::Init,
            _ => Next::Eof,
        };
        std::mem::swap(&mut self.next, &mut taken);
        match taken {
            Next::Ready(v) => v,
            _ => Err(Error::UnexpectedEof),
        }
    }

    /// Looks at which kind of item comes next.
    pub fn peek_kind(&mut self) -> (r: Result<Option<PeekKind>, Error>)
        requires
            old(self).wf(),
        ensures
            final(self).wf(),
            final(self)@ == after_peek(old(self)@),
            match r {
                Ok(k) => peeked(old(self)@) == Ok::<Option<PeekKind>, ErrorView>(k),
                Err(e) => peeked(old(self)@) == Err::<Option<PeekKind>, ErrorView>(e@),
            },
    {
        self.populate();
        let mut taken = Next::Eof;
        std::mem::swap(&mut self.next, &mut taken);
        match taken {
            Next::Ready(Ok(item)) => {
                let k = match &item {
                    Item::Value { .. } => PeekKind::Value,
                    _ => PeekKind::Section,
                };
                self.next = Next::Ready(Ok(item));
                Ok(Some(k))
            },
            Next::Ready(Err(e)) => Err(e),
            _ => Ok(None),
        }
    }

    /// The key of the next entry, which stays next.
    pub fn peek_key(&mut self) -> (r: Result<String, Error>)
        requires
            old(self).wf(),
        ensures
            final(self).wf(),
            final(self)@ == after_peek(old(self)@),
            match r {
                Ok(k) => peeked_key(old(self)@) == Ok::<Seq<char>, ErrorView>(k@),
                Err(e) => peeked_key(old(self)@) == Err::<Seq<char>, ErrorView>(e@),
            },
    {
        self.populate();
        let mut taken = Next::Eof;
        std::mem::swap(&mut self.next, &mut taken);
        match taken {
            Next::Ready(Ok(item)) => {
                let r = match &item {
                    Item::Value { key, .. } => Ok(key.clone()),
                    _ => Err(Error::InvalidState),
                };
                self.next = Next::Ready(Ok(item));
                r
            },
            Next::Ready(Err(e)) => Err(e),
            _ => Err(Error::UnexpectedEof),
        }
    }

    /// The name of the next section header, which stays next.
    pub fn peek_section(&mut self) -> (r: Result<String, Error>)
        requires
            old(self).wf(),
        ensures
            final(self).wf(),
            final(self)@ == after_peek(old(self)@),
            match r {
                Ok(k) => peeked_section(old(self)@) == Ok::<Seq<char>, ErrorView>(k@),
                Err(e) => peeked_section(old(self)@) == Err::<Seq<char>, ErrorView>(e@),
            },
    {
        self.populate();
        let mut taken = Next::Eof;
        std::mem::swap(&mut self.next, &mut taken);
        match taken {
            Next::Ready(Ok(item)) => {
                let r = match &item {
                    Item::Section { name } => Ok(name.clone()),
                    _ => Err(Error::InvalidState),
                };
                self.next = Next::Ready(Ok(item));
                r
            },
            Next::Ready(Err(e)) => Err(e),
            _ => Err(Error::UnexpectedEof),
        }
    }

    /// Takes the next item and gives its value; a header is taken too, and is
    /// a fault.
    pub fn next_value(&mut self) -> (r: Result<String, Error>)
        requires
            old(self).wf(),
        ensures
            final(self).wf(),
            final(self)@ == after_take(old(self)@),
            match r {
                Ok(v) => taken_value(old(self)@) == Ok::<Seq<char>, ErrorView>(v@),
                Err(e) => taken_value(old(self)@) == Err::<Seq<char>, ErrorView>(e@),
            },
    {
        self.populate();
        match self.next_item() {
            Ok(Item::Value { value, .. }) => Ok(value),
            Ok(_) => Err(Error::InvalidState),
            Err(e) => Err(e),
        }
    }

    /// Takes the next item and gives its section name; an entry is taken too,
    /// and is a fault.
    pub fn next_section(&mut self) -> (r: Result<String, Error>)
        requires
            old(self).wf(),
        ensures
            final(self).wf(),
            final(self)@ == after_take(old(self)@),
            match r {
                Ok(v) => taken_section(old(self)@) == Ok::<Seq<char>, ErrorView>(v@),
                Err(e) => taken_section(old(self)@) == Err::<Seq<char>, ErrorView>(e@),
            },
    {
        self.populate();
        match self.next_item() {
            Ok(Item::Section { name }) => Ok(name),
            Ok(_) => Err(Error::InvalidState),
            Err(e) => Err(e),
        }
    }

    /// Faults unless every item was read.
    pub fn assert_eof(&mut self) -> (r: Result<(), Error>)
        requires
            old(self).wf(),
        ensures
            final(self).wf(),
            final(self)@ == after_peek(old(self)@),
            match r {
                Ok(_) => eof_check(old(self)@) == Ok::<(), ErrorView>(()),
                Err(e) => eof_check(old(self)@) == Err::<(), ErrorView>(e@),
            },
    {
        match self.peek_kind() {
            Ok(None) => Ok(()),
            Ok(Some(_)) => Err(Error::InvalidState),
            Err(e) => Err(e),
        }
    }
}

/// A lexer's fault as a decoding fault.
pub open spec fn lexed_fault(r: Result<ItemView, Seq<char>>) -> Result<ItemView, ErrorView> {
    match r {
        Ok(item) => Ok(item),
        Err(m) => Err(ErrorView::Custom(m)),
    }
}

/// The items that the lines of a text give.
pub open spec fn lexed_lines(lines: Seq<Seq<char>>) -> Seq<Result<ItemView, ErrorView>> {
    lines.map_values(|l: Seq<char>| lexed_fault(parse::lex_line(Ok::<Seq<char>, Seq<char>>(l))))
}


/// A decoding outcome, with its strings seen as character sequences.
pub open spec fn outcome(r: Result<Value, Error>) -> Result<ValueView, ErrorView> {
    match r {
        Ok(v) => Ok(v@),
        Err(e) => Err(e@),
    }
}

/// What an entry's value text is read as, in the shape the consumer asks for.
pub open spec fn value_of(shape: Shape, t: Seq<char>) -> Result<ValueView, ErrorView>
    decreases shape,
{
    match shape {
        Shape::Char => if t.len() == 1 {
            Ok(ValueView::Char(t[0]))
        } else {
            Ok(ValueView::Str(t))
        },
        Shape::Int(k) => match int_value(k, t) {
            Some(n) => Ok(ValueView::Int(n)),
            None => Err(ErrorView::Custom(int_fault(k, t))),
        },
        Shape::Enum(_) => Ok(ValueView::UnitVariant(t)),
        Shape::Optional(x) => match value_of(*x, t) {
            Ok(v) => Ok(ValueView::Present(Box::new(v))),
            Err(e) => Err(e),
        },
        _ => Ok(ValueView::Str(t)),
    }
}

/// The key of an entry, or the name of a header.
pub open spec fn key_of(t: Token) -> Seq<char> {
    match t {
        Token::Entry { key, .. } => key,
        Token::Header { name } => name,
    }
}

/// Reading the entries that follow a header, up to the next header or the
/// end, as a map.
pub open spec fn body(fields: Seq<(String, Shape)>, s: Stream) -> Result<
    (Seq<(ValueView, ValueView)>, Stream),
    ErrorView,
>
    decreases s.len(),
{
    if s.len() == 0 {
        Ok((Seq::empty(), s))
    } else {
        match s[0] {
            Err(e) => Err(e),
            Ok(Token::Header { .. }) => Ok((Seq::empty(), s)),
            Ok(Token::Entry { key, value }) => match value_of(field_shape(fields, key), value) {
                Err(e) => Err(e),
                Ok(v) => match body(fields, s.drop_first()) {
                    Err(e) => Err(e),
                    Ok((rest, t)) => Ok((seq![(ValueView::Str(key), v)] + rest, t)),
                },
            },
        }
    }
}

/// Taking a header, then reading its entries as a map.
pub open spec fn section_body(fields: Seq<(String, Shape)>, s: Stream) -> Result<
    (Seq<(ValueView, ValueView)>, Stream),
    ErrorView,
> {
    match taken_section(s) {
        Err(e) => Err(e),
        Ok(_) => body(fields, after_take(s)),
    }
}

/// Reading a section, its header next, in the shape the consumer asks for:
/// a tagged union is named by the header, a scalar is a fault, anything else
/// is the map of its entries.
pub open spec fn section_of(shape: Shape, s: Stream) -> Result<(ValueView, Stream), ErrorView>
    decreases shape,
{
    match shape {
        Shape::Optional(x) => match section_of(*x, s) {
            Ok((v, t)) => Ok((ValueView::Present(Box::new(v)), t)),
            Err(e) => Err(e),
        },
        Shape::Enum(vs) => match peeked_section(s) {
            Err(e) => Err(e),
            Ok(name) => match vs {
                VariantShape::Unit => Err(ErrorView::Custom("unit variant is not supported"@)),
                VariantShape::Tuple => Err(ErrorView::Custom("tuple variant is not supported"@)),
                VariantShape::Newtype(p) => match section_of(*p, s) {
                    Ok((v, t)) => Ok((ValueView::NewtypeVariant(name, Box::new(v)), t)),
                    Err(e) => Err(e),
                },
                VariantShape::Struct(fields) => match section_body(fields@, s) {
                    Ok((b, t)) => Ok((ValueView::StructVariant(name, b), t)),
                    Err(e) => Err(e),
                },
            },
        },
        Shape::Mapping(fields) => match section_body(fields@, s) {
            Ok((b, t)) => Ok((ValueView::Mapping(b), t)),
            Err(e) => Err(e),
        },
        Shape::Str | Shape::Char | Shape::Int(_) => match peeked(s) {
            Err(e) => Err(e),
            Ok(_) => Err(ErrorView::InvalidState),
        },
        _ => match section_body(Seq::empty(), s) {
            Ok((b, t)) => Ok((ValueView::Mapping(b), t)),
            Err(e) => Err(e),
        },
    }
}

/// Reading the value that belongs to the next key of the top-level map.
pub open spec fn entry_of(shape: Shape, s: Stream) -> Result<(ValueView, Stream), ErrorView> {
    if s.len() == 0 {
        Err(ErrorView::UnexpectedEof)
    } else {
        match s[0] {
            Err(e) => Err(e),
            Ok(Token::Entry { value, .. }) => match value_of(shape, value) {
                Ok(v) => Ok((v, s.drop_first())),
                Err(e) => Err(e),
            },
            Ok(Token::Header { .. }) => section_of(shape, s),
        }
    }
}

/// Reading one element of the top-level sequence: an entry is a variant
/// named by its key, a section one named by its header.
pub open spec fn element_of(shape: Shape, s: Stream) -> Result<(Option<ValueView>, Stream), ErrorView> {
    if s.len() == 0 {
        Ok((None, s))
    } else {
        match s[0] {
            Err(e) => Err(e),
            Ok(Token::Header { .. }) => match section_of(shape, s) {
                Ok((v, t)) => Ok((Some(v), t)),
                Err(e) => Err(e),
            },
            Ok(Token::Entry { key, value }) => match shape {
                Shape::Enum(VariantShape::Newtype(p)) => match value_of(*p, value) {
                    Ok(v) => Ok((Some(ValueView::NewtypeVariant(key, Box::new(v))), s.drop_first())),
                    Err(e) => Err(e),
                },
                Shape::Enum(VariantShape::Unit) => Err(ErrorView::Custom("unit variant is not supported"@)),
                Shape::Enum(VariantShape::Tuple) => Err(ErrorView::Custom("tuple variant is not supported"@)),
                Shape::Enum(VariantShape::Struct(_)) => Err(ErrorView::Custom("struct variant is not supported"@)),
                _ => Err(ErrorView::Custom("expect an enum type"@)),
            },
        }
    }
}

/// Reading the whole stream as a sequence.
pub open spec fn elements(shape: Shape, s: Stream) -> Result<(Seq<ValueView>, Stream), ErrorView>
    decreases s.len(),
{
    match element_of(shape, s) {
        Err(e) => Err(e),
        Ok((None, t)) => Ok((Seq::empty(), t)),
        Ok((Some(v), t)) => if t.len() < s.len() {
            match elements(shape, t) {
                Ok((vs, u)) => Ok((seq![v] + vs, u)),
                Err(e) => Err(e),
            }
        } else {
            Err(ErrorView::InvalidState)
        },
    }
}

/// Reading the whole stream as the top-level map: entries keyed by their
/// keys, sections by their headers.
pub open spec fn top_map(fields: Seq<(String, Shape)>, s: Stream) -> Result<
    (Seq<(ValueView, ValueView)>, Stream),
    ErrorView,
>
    decreases s.len(),
{
    if s.len() == 0 {
        Ok((Seq::empty(), s))
    } else {
        match s[0] {
            Err(e) => Err(e),
            Ok(tok) => match entry_of(field_shape(fields, key_of(tok)), s) {
                Err(e) => Err(e),
                Ok((v, t)) => if t.len() < s.len() {
                    match top_map(fields, t) {
                        Ok((es, u)) => Ok((seq![(ValueView::Str(key_of(tok)), v)] + es, u)),
                        Err(e) => Err(e),
                    }
                } else {
                    Err(ErrorView::InvalidState)
                },
            },
        }
    }
}

/// Reading a whole document in the shape the consumer asks for: a sequence,
/// or else a map.
pub open spec fn top_of(shape: Shape, s: Stream) -> Result<(ValueView, Stream), ErrorView>
    decreases shape,
{
    match shape {
        Shape::Optional(x) => match top_of(*x, s) {
            Ok((v, t)) => Ok((ValueView::Present(Box::new(v)), t)),
            Err(e) => Err(e),
        },
        Shape::Sequence(e) => match elements(*e, s) {
            Ok((vs, t)) => Ok((ValueView::Sequence(vs), t)),
            Err(x) => Err(x),
        },
        Shape::Mapping(fields) => match top_map(fields@, s) {
            Ok((es, t)) => Ok((ValueView::Mapping(es), t)),
            Err(e) => Err(e),
        },
        _ => match top_map(Seq::empty(), s) {
            Ok((es, t)) => Ok((ValueView::Mapping(es), t)),
            Err(e) => Err(e),
        },
    }
}

/// Decoding a document: reading it whole, then finding nothing left.
pub open spec fn decoded(shape: Shape, s: Stream) -> Result<ValueView, ErrorView> {
    match top_of(shape, s) {
        Err(e) => Err(e),
        Ok((v, t)) => match eof_check(t) {
            Ok(_) => Ok(v),
            Err(e) => Err(e),
        },
    }
}

/// Reading the entries of a section leaves no more than there was.
pub proof fn lemma_body_len(fields: Seq<(String, Shape)>, s: Stream)
    ensures
        body(fields, s) matches Ok((b, t)) ==> t.len() <= s.len(),
    decreases s.len(),
{
    if s.len() > 0 {
        lemma_body_len(fields, s.drop_first());
    }
}

/// Reading a section takes at least its header.
pub proof fn lemma_section_len(shape: Shape, s: Stream)
    ensures
        section_of(shape, s) matches Ok((v, t)) ==> t.len() < s.len(),
    decreases shape,
{
    match shape {
        Shape::Optional(x) => lemma_section_len(*x, s),
        Shape::Enum(VariantShape::Newtype(p)) => lemma_section_len(*p, s),
        Shape::Enum(VariantShape::Struct(fields)) => lemma_body_len(fields@, after_take(s)),
        Shape::Mapping(fields) => lemma_body_len(fields@, after_take(s)),
        _ => lemma_body_len(Seq::empty(), after_take(s)),
    }
}

/// Reading a value of the top-level map, or an element of the top-level
/// sequence, takes at least one item.
pub proof fn lemma_entry_len(shape: Shape, s: Stream)
    ensures
        entry_of(shape, s) matches Ok((v, t)) ==> t.len() < s.len(),
        element_of(shape, s) matches Ok((Some(v), t)) ==> t.len() < s.len(),
{
    lemma_section_len(shape, s);
}

/// Reads an entry's value text in the shape the consumer asks for.
pub fn value_from_text(shape: &Shape, text: String) -> (r: Result<Value, Error>)
    ensures
        outcome(r) == value_of(*shape, text@),
    decreases shape,
{
    match shape {
        Shape::Char => {
            if text.as_str().unicode_len() == 1 {
                Ok(Value::Char(text.as_str().get_char(0)))
            } else {
                Ok(Value::Str(text))
            }
        },
        Shape::Int(k) => match parse_int(*k, text.as_str()) {
            Ok(n) => Ok(Value::Int(n)),
            Err(m) => Err(Error::Custom(m)),
        },
        Shape::Enum(_) => Ok(Value::UnitVariant(text)),
        Shape::Optional(x) => match value_from_text(x, text) {
            Ok(v) => Ok(Value::Present(Box::new(v))),
            Err(e) => Err(e),
        },
        _ => Ok(Value::Str(text)),
    }
}


/// Adds what was read before to what is read after.
pub open spec fn glue<A>(before: Seq<A>, after: Result<(Seq<A>, Stream), ErrorView>) -> Result<
    (Seq<A>, Stream),
    ErrorView,
> {
    match after {
        Ok((rest, t)) => Ok((before + rest, t)),
        Err(e) => Err(e),
    }
}

proof fn lemma_entries_push(s: Seq<(Value, Value)>, x: (Value, Value))
    ensures
        entries_view(s.push(x)) == entries_view(s).push((x.0@, x.1@)),
{
    assert(s.push(x).subrange(0, s.len() as int) =~= s);
}

proof fn lemma_values_push(s: Seq<Value>, x: Value)
    ensures
        crate::value::values_view(s.push(x)) == crate::value::values_view(s).push(x@),
{
    assert(s.push(x).subrange(0, s.len() as int) =~= s);
}

impl Deserializer {
    /// Reads the entries up to the next header or the end as a map.
    fn decode_body(&mut self, fields: &Vec<(String, Shape)>) -> (r: Result<Vec<(Value, Value)>, Error>)
        requires
            old(self).wf(),
        ensures
            final(self).wf(),
            match body(fields@, old(self)@) {
                Ok((b, t)) => (r matches Ok(v) && entries_view(v@) == b && final(self)@ == t),
                Err(e) => (r matches Err(x) && x@ == e),
            },
    {
        let mut acc: Vec<(Value, Value)> = Vec::new();
        let ghost s0 = self@;
        loop
            invariant
                self.wf(),
                s0 == old(self)@,
                body(fields@, s0) == glue(entries_view(acc@), body(fields@, self@)),
            decreases self@.len(),
        {
            let ghost s = self@;
            match self.peek_kind() {
                Err(e) => return Err(e),
                Ok(None) => {
                    assert(entries_view(acc@) + Seq::empty() =~= entries_view(acc@));
                    return Ok(acc);
                },
                Ok(Some(PeekKind::Section)) => {
                    assert(entries_view(acc@) + Seq::empty() =~= entries_view(acc@));
                    return Ok(acc);
                },
                Ok(Some(PeekKind::Value)) => {},
            }
            let key = match self.peek_key() {
                Ok(k) => k,
                Err(e) => return Err(e),
            };
            let text = match self.next_value() {
                Ok(t) => t,
                Err(e) => return Err(e),
            };
            let v = match lookup_field(fields, &key) {
                Some(i) => value_from_text(&fields[i].1, text),
                None => value_from_text(&Shape::Any, text),
            };
            match v {
                Err(e) => return Err(e),
                Ok(v) => {
                    proof {
                        lemma_entries_push(acc@, (Value::Str(key), v));
                        match body(fields@, s.drop_first()) {
                            Ok((rest, t)) => {
                                assert(entries_view(acc@) + (seq![(ValueView::Str(key@), v@)] + rest)
                                    =~= entries_view(acc@).push((ValueView::Str(key@), v@)) + rest);
                            },
                            Err(_) => {},
                        }
                    }
                    acc.push((Value::Str(key), v));
                },
            }
        }
    }

    /// Reads a section, its header next, in the shape the consumer asks for:
    /// a tagged union is named by the header, a scalar is a fault, anything
    /// else is the map of its entries.
    pub fn decode_section(&mut self, shape: &Shape) -> (r: Result<Value, Error>)
        requires
            old(self).wf(),
        ensures
            final(self).wf(),
            match section_of(*shape, old(self)@) {
                Ok((v, t)) => (r matches Ok(x) && x@ == v && final(self)@ == t),
                Err(e) => (r matches Err(x) && x@ == e),
            },
        decreases shape,
    {
        match shape {
            Shape::Optional(x) => match self.decode_section(x) {
                Ok(v) => Ok(Value::Present(Box::new(v))),
                Err(e) => Err(e),
            },
            Shape::Enum(vs) => {
                let name = match self.peek_section() {
                    Ok(n) => n,
                    Err(e) => return Err(e),
                };
                match vs {
                    VariantShape::Unit => Err(Error::Custom(String::from_str("unit variant is not supported"))),
                    VariantShape::Tuple => Err(Error::Custom(String::from_str("tuple variant is not supported"))),
                    VariantShape::Newtype(p) => match self.decode_section(p) {
                        Ok(v) => Ok(Value::NewtypeVariant(name, Box::new(v))),
                        Err(e) => Err(e),
                    },
                    VariantShape::Struct(fields) => {
                        match self.next_section() {
                            Ok(_) => {},
                            Err(e) => return Err(e),
                        }
                        match self.decode_body(fields) {
                            Ok(b) => Ok(Value::StructVariant(name, b)),
                            Err(e) => Err(e),
                        }
                    },
                }
            },
            Shape::Mapping(fields) => {
                match self.next_section() {
                    Ok(_) => {},
                    Err(e) => return Err(e),
                }
                match self.decode_body(fields) {
                    Ok(b) => Ok(Value::Mapping(b)),
                    Err(e) => Err(e),
                }
            },
            Shape::Str | Shape::Char | Shape::Int(_) => match self.peek_kind() {
                Err(e) => Err(e),
                Ok(_) => Err(Error::InvalidState),
            },
            _ => {
                match self.next_section() {
                    Ok(_) => {},
                    Err(e) => return Err(e),
                }
                let none: Vec<(String, Shape)> = Vec::new();
                assert(none@ =~= Seq::<(String, Shape)>::empty());
                match self.decode_body(&none) {
                    Ok(b) => Ok(Value::Mapping(b)),
                    Err(e) => Err(e),
                }
            },
        }
    }

    /// The key of the next entry of the top-level map: an entry's key or a
    /// section's name; `None` at the end.
    pub fn next_key(&mut self) -> (r: Result<Option<String>, Error>)
        requires
            old(self).wf(),
        ensures
            final(self).wf(),
            final(self)@ == after_peek(old(self)@),
            old(self)@.len() == 0 ==> r matches Ok(None),
            old(self)@.len() > 0 ==> match old(self)@[0] {
                Ok(t) => (r matches Ok(Some(k)) && k@ == key_of(t)),
                Err(e) => (r matches Err(x) && x@ == e),
            },
    {
        match self.peek_kind() {
            Err(e) => Err(e),
            Ok(None) => Ok(None),
            Ok(Some(PeekKind::Value)) => match self.peek_key() {
                Ok(k) => Ok(Some(k)),
                Err(e) => Err(e),
            },
            Ok(Some(PeekKind::Section)) => match self.peek_section() {
                Ok(k) => Ok(Some(k)),
                Err(e) => Err(e),
            },
        }
    }

    /// Reads the value that belongs to the next key of the top-level map, in
    /// the shape the consumer asks for.
    pub fn next_entry(&mut self, shape: &Shape) -> (r: Result<Value, Error>)
        requires
            old(self).wf(),
        ensures
            final(self).wf(),
            match entry_of(*shape, old(self)@) {
                Ok((v, t)) => (r matches Ok(x) && x@ == v && final(self)@ == t),
                Err(e) => (r matches Err(x) && x@ == e),
            },
    {
        match self.peek_kind() {
            Err(e) => Err(e),
            Ok(None) => Err(Error::UnexpectedEof),
            Ok(Some(PeekKind::Value)) => match self.next_value() {
                Ok(t) => value_from_text(shape, t),
                Err(e) => Err(e),
            },
            Ok(Some(PeekKind::Section)) => self.decode_section(shape),
        }
    }

    /// Reads the whole stream as the top-level map.
    fn decode_top_map(&mut self, fields: &Vec<(String, Shape)>) -> (r: Result<Vec<(Value, Value)>, Error>)
        requires
            old(self).wf(),
        ensures
            final(self).wf(),
            match top_map(fields@, old(self)@) {
                Ok((b, t)) => (r matches Ok(v) && entries_view(v@) == b && final(self)@ == t),
                Err(e) => (r matches Err(x) && x@ == e),
            },
    {
        let mut acc: Vec<(Value, Value)> = Vec::new();
        let ghost s0 = self@;
        loop
            invariant
                self.wf(),
                s0 == old(self)@,
                top_map(fields@, s0) == glue(entries_view(acc@), top_map(fields@, self@)),
            decreases self@.len(),
        {
            let ghost s = self@;
            let key = match self.next_key() {
                Err(e) => return Err(e),
                Ok(None) => {
                    assert(entries_view(acc@) + Seq::empty() =~= entries_view(acc@));
                    return Ok(acc);
                },
                Ok(Some(k)) => k,
            };
            let ghost shape = field_shape(fields@, key@);
            let v = match lookup_field(fields, &key) {
                Some(i) => self.next_entry(&fields[i].1),
                None => self.next_entry(&Shape::Any),
            };
            match v {
                Err(e) => return Err(e),
                Ok(v) => {
                    proof {
                        lemma_entry_len(shape, s);
                        lemma_entries_push(acc@, (Value::Str(key), v));
                        match top_map(fields@, self@) {
                            Ok((rest, t)) => {
                                assert(entries_view(acc@) + (seq![(ValueView::Str(key@), v@)] + rest)
                                    =~= entries_view(acc@).push((ValueView::Str(key@), v@)) + rest);
                            },
                            Err(_) => {},
                        }
                    }
                    acc.push((Value::Str(key), v));
                },
            }
        }
    }

    /// Reads the whole stream as the top-level sequence.
    fn decode_elements(&mut self, shape: &Shape) -> (r: Result<Vec<Value>, Error>)
        requires
            old(self).wf(),
        ensures
            final(self).wf(),
            match elements(*shape, old(self)@) {
                Ok((b, t)) => (r matches Ok(v) && crate::value::values_view(v@) == b && final(self)@ == t),
                Err(e) => (r matches Err(x) && x@ == e),
            },
    {
        let mut acc: Vec<Value> = Vec::new();
        let ghost s0 = self@;
        loop
            invariant
                self.wf(),
                s0 == old(self)@,
                elements(*shape, s0) == glue(crate::value::values_view(acc@), elements(*shape, self@)),
            decreases self@.len(),
        {
            let ghost s = self@;
            proof {
                lemma_entry_len(*shape, s);
            }
            match self.next_element(shape) {
                Err(e) => return Err(e),
                Ok(None) => {
                    assert(crate::value::values_view(acc@) + Seq::empty() =~= crate::value::values_view(acc@));
                    return Ok(acc);
                },
                Ok(Some(v)) => {
                    proof {
                        lemma_values_push(acc@, v);
                        match elements(*shape, self@) {
                            Ok((rest, t)) => {
                                assert(crate::value::values_view(acc@) + (seq![v@] + rest)
                                    =~= crate::value::values_view(acc@).push(v@) + rest);
                            },
                            Err(_) => {},
                        }
                    }
                    acc.push(v);
                },
            }
        }
    }

    /// Reads a whole document in the shape the consumer asks for; what is
    /// left stays in the cursor.
    pub fn decode(&mut self, shape: &Shape) -> (r: Result<Value, Error>)
        requires
            old(self).wf(),
        ensures
            final(self).wf(),
            match top_of(*shape, old(self)@) {
                Ok((v, t)) => (r matches Ok(x) && x@ == v && final(self)@ == t),
                Err(e) => (r matches Err(x) && x@ == e),
            },
        decreases shape,
    {
        match shape {
            Shape::Optional(x) => match self.decode(x) {
                Ok(v) => Ok(Value::Present(Box::new(v))),
                Err(e) => Err(e),
            },
            Shape::Sequence(e) => match self.decode_elements(e) {
                Ok(vs) => Ok(Value::Sequence(vs)),
                Err(x) => Err(x),
            },
            Shape::Mapping(fields) => match self.decode_top_map(fields) {
                Ok(es) => Ok(Value::Mapping(es)),
                Err(e) => Err(e),
            },
            _ => {
                let none: Vec<(String, Shape)> = Vec::new();
                assert(none@ =~= Seq::<(String, Shape)>::empty());
                match self.decode_top_map(&none) {
                    Ok(es) => Ok(Value::Mapping(es)),
                    Err(e) => Err(e),
                }
            },
        }
    }

    /// Reads the next element of the top-level sequence, in the shape the
    /// consumer asks for; `None` at the end.
    pub fn next_element(&mut self, shape: &Shape) -> (r: Result<Option<Value>, Error>)
        requires
            old(self).wf(),
        ensures
            final(self).wf(),
            match element_of(*shape, old(self)@) {
                Ok((None, t)) => (r matches Ok(None) && final(self)@ == t),
                Ok((Some(v), t)) => (r matches Ok(Some(x)) && x@ == v && final(self)@ == t),
                Err(e) => (r matches Err(x) && x@ == e),
            },
    {
        match self.peek_kind() {
            Err(e) => Err(e),
            Ok(None) => Ok(None),
            Ok(Some(PeekKind::Section)) => match self.decode_section(shape) {
                Ok(v) => Ok(Some(v)),
                Err(e) => Err(e),
            },
            Ok(Some(PeekKind::Value)) => match shape {
                Shape::Enum(VariantShape::Newtype(p)) => {
                    let key = match self.peek_key() {
                        Ok(k) => k,
                        Err(e) => return Err(e),
                    };
                    let text = match self.next_value() {
                        Ok(t) => t,
                        Err(e) => return Err(e),
                    };
                    match value_from_text(p, text) {
                        Ok(v) => Ok(Some(Value::NewtypeVariant(key, Box::new(v)))),
                        Err(e) => Err(e),
                    }
                },
                Shape::Enum(VariantShape::Unit) => Err(Error::Custom(String::from_str("unit variant is not supported"))),
                Shape::Enum(VariantShape::Tuple) => Err(Error::Custom(String::from_str("tuple variant is not supported"))),
                Shape::Enum(VariantShape::Struct(_)) => Err(Error::Custom(String::from_str("struct variant is not supported"))),
                _ => Err(Error::Custom(String::from_str("expect an enum type"))),
            },
        }
    }
}


/// Decodes a document given as items and faults, in the shape the consumer
/// asks for; a fault unless every item is read.
pub fn from_items(input: Vec<Result<Item, Error>>, shape: &Shape) -> (r: Result<Value, Error>)
    ensures
        outcome(r) == decoded(*shape, tokens(inputs_view(input@))),
{
    let mut d = Deserializer::new(input);
    let v = match d.decode(shape) {
        Ok(v) => v,
        Err(e) => return Err(e),
    };
    match d.assert_eof() {
        Ok(_) => Ok(v),
        Err(e) => Err(e),
    }
}

/// Decodes a document from lines that a source handed over, each a line of
/// text or the description of a fault in reading it; a fault unless every
/// item is read.
pub fn from_lines(lines: Vec<Result<String, String>>, shape: &Shape) -> (r: Result<Value, Error>)
    ensures
        outcome(r) == decoded(
            *shape,
            tokens(
                lines@.map_values(
                    |l: Result<String, String>| lexed_fault(parse::lex_line(parse::line_view(l))),
                ),
            ),
        ),
{
    let ghost lv = lines@;
    let mut p = Parser::new(lines);
    let ghost p0 = p;
    let mut d = Deserializer::from_parser(&mut p);
    assert(p0.remaining().map_values(
        |l: Result<Seq<char>, Seq<char>>| lexed_fault(parse::lex_line(l)),
    ) =~= lv.map_values(
        |l: Result<String, String>| lexed_fault(parse::lex_line(parse::line_view(l))),
    ));
    let v = match d.decode(shape) {
        Ok(v) => v,
        Err(e) => return Err(e),
    };
    match d.assert_eof() {
        Ok(_) => Ok(v),
        Err(e) => Err(e),
    }
}

/// Decodes INI text in the shape the consumer asks for; a fault unless every
/// item is read.
pub fn from_str(s: &str, shape: &Shape) -> (r: Result<Value, Error>)
    ensures
        outcome(r) == decoded(*shape, tokens(lexed_lines(parse::lines_of(s@)))),
{
    let mut d = Deserializer::from_str(s);
    let v = match d.decode(shape) {
        Ok(v) => v,
        Err(e) => return Err(e),
    };
    match d.assert_eof() {
        Ok(_) => Ok(v),
        Err(e) => Err(e),
    }
}

} // verus!
