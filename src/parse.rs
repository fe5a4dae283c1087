//! The lexer: one line of text becomes one [`Item`].
use vstd::prelude::*;

verus! {

/// One line of INI text.
#[derive(Clone, Debug, PartialEq, Eq)]
pub enum Item {
    /// A blank line.
    Empty,
    /// A `[name]` header.
    Section { name: String },
    /// A `key=value` assignment.
    Value { key: String, value: String },
    /// A `;` or `#` line; the text after the marker.
    Comment { text: String },
}

/// An [`Item`] with its strings seen as character sequences.
pub enum ItemView {
    Empty,
    Section { name: Seq<char> },
    Value { key: Seq<char>, value: Seq<char> },
    Comment { text: Seq<char> },
}

impl View for Item {
    type V = ItemView;

    open spec fn view(&self) -> ItemView {
        match self {
            Item::Empty => ItemView::Empty,
            Item::Section { name } => ItemView::Section { name: name@ },
            Item::Value { key, value } => ItemView::Value { key: key@, value: value@ },
            Item::Comment { text } => ItemView::Comment { text: text@ },
        }
    }
}

impl Item {
    /// A copy of the item.
    pub fn copy(&self) -> (r: Item)
        ensures
            r@ == self@,
    {
        match self {
            Item::Empty => Item::Empty,
            Item::Section { name } => Item::Section { name: name.clone() },
            Item::Value { key, value } => Item::Value { key: key.clone(), value: value.clone() },
            Item::Comment { text } => Item::Comment { text: text.clone() },
        }
    }
}

/// What is wrong with a line that is no item.
#[derive(Copy, Clone, Debug, PartialEq, Eq, PartialOrd, Ord)]
pub enum SyntaxError {
    /// A line that starts with `[` does not end with `]`.
    SectionNotClosed,
    /// A section name holds a `]`.
    SectionName,
    /// A line that is neither blank, a comment nor a header has no `=`.
    MissingEquals,
}

pub open spec fn syntax_message(e: SyntaxError) -> Seq<char> {
    match e {
        SyntaxError::SectionNotClosed => "section missing ']'"@,
        SyntaxError::SectionName => "section name contains ']'"@,
        SyntaxError::MissingEquals => "variable assignment missing '='"@,
    }
}

impl SyntaxError {
    /// A description of the fault.
    pub fn message(&self) -> (r: String)
        ensures
            r@ == syntax_message(*self),
    {
        match self {
            SyntaxError::SectionNotClosed => String::from_str("section missing ']'"),
            SyntaxError::SectionName => String::from_str("section name contains ']'"),
            SyntaxError::MissingEquals => String::from_str("variable assignment missing '='"),
        }
    }
}

/// A fault of the lexer: one of the line source, or of a line's syntax.
#[derive(Clone, Debug, PartialEq, Eq)]
pub enum Error {
    /// The line source failed; its description.
    Inner(String),
    /// A line is malformed.
    Syntax(SyntaxError),
}

pub open spec fn error_message(e: Error) -> Seq<char> {
    match e {
        Error::Inner(m) => m@,
        Error::Syntax(s) => "INI syntax error: "@ + syntax_message(s),
    }
}

impl Error {
    /// A description of the fault.
    pub fn message(&self) -> (r: String)
        ensures
            r@ == error_message(*self),
    {
        match self {
            Error::Inner(m) => m.clone(),
            Error::Syntax(s) => {
                let prefix = String::from_str("INI syntax error: ");
                let m = s.message();
                prefix.concat(m.as_str())
            },
        }
    }
}

/// Whether a character has Unicode's White_Space property.
pub open spec fn is_white_space(c: char) -> bool {
    ||| '\u{9}' <= c <= '\u{d}'
    ||| c == ' '
    ||| c == '\u{85}'
    ||| c == '\u{a0}'
    ||| c == '\u{1680}'
    ||| '\u{2000}' <= c <= '\u{200a}'
    ||| c == '\u{2028}'
    ||| c == '\u{2029}'
    ||| c == '\u{202f}'
    ||| c == '\u{205f}'
    ||| c == '\u{3000}'
}

/// A string without the whitespace at its start.
pub open spec fn trim_start(s: Seq<char>) -> Seq<char>
    decreases s.len(),
{
    if s.len() > 0 && is_white_space(s[0]) {
        trim_start(s.drop_first())
    } else {
        s
    }
}

/// A string without the whitespace at its end.
pub open spec fn trim_end(s: Seq<char>) -> Seq<char>
    decreases s.len(),
{
    if s.len() > 0 && is_white_space(s.last()) {
        trim_end(s.drop_last())
    } else {
        s
    }
}

/// A string without the whitespace at either end.
pub open spec fn trimmed(s: Seq<char>) -> Seq<char> {
    trim_end(trim_start(s))
}

/// Relies on `str::trim`, which drops the leading and trailing characters
/// that have the White_Space property.
#[verifier::external_body]
fn trim_text(s: &str) -> (r: &str)
    ensures
        r@ == trimmed(s@),
{
    s.trim()
}

/// The position of the first `c` in `s`, if any.
#[verifier::opaque]
pub open spec fn first_index(s: Seq<char>, c: char) -> Option<int> {
    if exists|i: int| 0 <= i < s.len() && s[i] == c {
        Some(choose|i: int| 0 <= i < s.len() && s[i] == c && forall|j: int| 0 <= j < i ==> s[j] != c)
    } else {
        None
    }
}

/// The item that one line of text stands for, or what is wrong with it.
pub open spec fn line_item(l: Seq<char>) -> Result<ItemView, SyntaxError> {
    if l.len() > 0 && l[0] == '[' {
        if l.last() == ']' {
            let inner = l.subrange(1, l.len() - 1);
            if inner.contains(']') {
                Err(SyntaxError::SectionName)
            } else {
                Ok(ItemView::Section { name: inner })
            }
        } else {
            Err(SyntaxError::SectionNotClosed)
        }
    } else if l.len() > 0 && (l[0] == ';' || l[0] == '#') {
        Ok(ItemView::Comment { text: l.drop_first() })
    } else {
        match first_index(l, '=') {
            Some(i) => Ok(
                ItemView::Value {
                    key: trimmed(l.subrange(0, i)),
                    value: trimmed(l.subrange(i + 1, l.len() as int)),
                },
            ),
            None => if trimmed(l).len() == 0 {
                Ok(ItemView::Empty)
            } else {
                Err(SyntaxError::MissingEquals)
            },
        }
    }
}

/// Finds the first `c` in `s`.
fn find_char(s: &str, c: char) -> (r: Option<usize>)
    ensures
        r matches Some(i) ==> i < s@.len() && s@[i as int] == c && first_index(s@, c) == Some(i as int),
        r is None ==> first_index(s@, c) is None && forall|j: int| 0 <= j < s@.len() ==> s@[j] != c,
{
    reveal(first_index);
    let n = s.unicode_len();
    let mut i: usize = 0;
    while i < n
        invariant
            n == s@.len(),
            i <= n,
            forall|j: int| 0 <= j < i ==> s@[j] != c,
        decreases n - i,
    {
        if s.get_char(i) == c {
            reveal(first_index);
            assert(0 <= i < s@.len() && s@[i as int] == c && forall|j: int| 0 <= j < i ==> s@[j] != c);
            assert(exists|k: int| 0 <= k < s@.len() && s@[k] == c);
            assert(exists|k: int| 0 <= k < s@.len() && s@[k] == c && forall|j: int| 0 <= j < k ==> s@[j] != c);
            let ghost k = choose|k: int| 0 <= k < s@.len() && s@[k] == c && forall|j: int| 0 <= j < k ==> s@[j] != c;
            assert(0 <= k < s@.len() && s@[k] == c && forall|j: int| 0 <= j < k ==> s@[j] != c);
            assert(k == i) by {
                if k < i {
                    assert(s@[k] != c);
                } else if k > i {
                    assert(s@[i as int] != c);
                }
            }
            return Some(i);
        }
        i = i + 1;
    }
    assert(!exists|k: int| 0 <= k < s@.len() && s@[k] == c);
    None
}

/// Reads one line of text as an item.
pub fn parse_line(line: &str) -> (r: Result<Item, SyntaxError>)
    ensures
        match r {
            Ok(item) => line_item(line@) == Ok::<ItemView, SyntaxError>(item@),
            Err(e) => line_item(line@) == Err::<ItemView, SyntaxError>(e),
        },
{
    let n = line.unicode_len();
    if n > 0 && line.get_char(0) == '[' {
        if line.get_char(n - 1) == ']' {
            let inner = line.substring_char(1, n - 1);
            match find_char(inner, ']') {
                Some(i) => {
                    assert(inner@.contains(']')) by {
                        assert(inner@[i as int] == ']');
                    }
                    Err(SyntaxError::SectionName)
                },
                None => {
                    assert(!inner@.contains(']'));
                    Ok(Item::Section { name: String::from_str(inner) })
                },
            }
        } else {
            Err(SyntaxError::SectionNotClosed)
        }
    } else if n > 0 && (line.get_char(0) == ';' || line.get_char(0) == '#') {
        let text = line.substring_char(1, n);
        assert(text@ == line@.drop_first());
        Ok(Item::Comment { text: String::from_str(text) })
    } else {
        match find_char(line, '=') {
            Some(i) => {
                let key = trim_text(line.substring_char(0, i));
                let value = trim_text(line.substring_char(i + 1, n));
                Ok(Item::Value { key: String::from_str(key), value: String::from_str(value) })
            },
            None => {
                let t = trim_text(line);
                if t.unicode_len() == 0 {
                    Ok(Item::Empty)
                } else {
                    Err(SyntaxError::MissingEquals)
                }
            },
        }
    }
}


/// A line without the `\r` of a `\r\n` ending.
pub open spec fn without_cr(l: Seq<char>) -> Seq<char> {
    if l.len() > 0 && l.last() == '\r' {
        l.drop_last()
    } else {
        l
    }
}

/// The lines of `s`, the line begun so far being `cur`: each ends at a `\n`,
/// or a `\r\n`, or at the end of the text, where an empty line is none.
pub open spec fn lines_from(s: Seq<char>, cur: Seq<char>) -> Seq<Seq<char>>
    decreases s.len(),
{
    if s.len() == 0 {
        if cur.len() == 0 {
            Seq::empty()
        } else {
            seq![cur]
        }
    } else if s[0] == '\n' {
        seq![without_cr(cur)] + lines_from(s.drop_first(), Seq::empty())
    } else {
        lines_from(s.drop_first(), cur.push(s[0]))
    }
}

/// The lines of a text, without their line endings.
pub open spec fn lines_of(s: Seq<char>) -> Seq<Seq<char>> {
    lines_from(s, Seq::empty())
}

/// Relies on `str::lines`: lines end at `\n` or `\r\n`, which they do not
/// keep; a last line may have no ending, and a bare `\r` stays in its line.
#[verifier::external_body]
fn split_lines(s: &str) -> (r: Vec<String>)
    ensures
        r@.len() == lines_of(s@).len(),
        forall|i: int| 0 <= i < r@.len() ==> #[trigger] r@[i]@ == lines_of(s@)[i],
{
    s.lines().map(String::from).collect()
}

/// A line as the line source handed it: its text, or the description of a
/// read fault.
pub open spec fn line_view(l: Result<String, String>) -> Result<Seq<char>, Seq<char>> {
    match l {
        Ok(t) => Ok(t@),
        Err(m) => Err(m@),
    }
}

/// What the lexer makes of one line from the source: an item, or the
/// description of its fault.
pub open spec fn lex_line(l: Result<Seq<char>, Seq<char>>) -> Result<ItemView, Seq<char>> {
    match l {
        Ok(t) => match line_item(t) {
            Ok(item) => Ok(item),
            Err(e) => Err("INI syntax error: "@ + syntax_message(e)),
        },
        Err(m) => Err(m),
    }
}

/// The lexer's output as items or fault descriptions.
pub open spec fn lexed(r: Result<Item, Error>) -> Result<ItemView, Seq<char>> {
    match r {
        Ok(item) => Ok(item@),
        Err(e) => Err(error_message(e)),
    }
}

/// The lexer: reads lines from a source, one item per line.
pub struct Parser {
    input: Vec<Result<String, String>>,
    pos: usize,
}

impl Parser {
    /// The lines that the lexer was made over.
    pub closed spec fn source(&self) -> Seq<Result<String, String>> {
        self.input@
    }

    /// The lines not read yet.
    pub closed spec fn remaining(&self) -> Seq<Result<Seq<char>, Seq<char>>> {
        self.input@.skip(self.pos as int).map_values(|l: Result<String, String>| line_view(l))
    }

    pub closed spec fn wf(&self) -> bool {
        self.pos <= self.input@.len()
    }

    /// A lexer over lines that a source handed over: each is a line of text,
    /// or the description of a fault in reading it.
    pub fn new(input: Vec<Result<String, String>>) -> (r: Parser)
        ensures
            r.wf(),
            r.source() == input@,
            r.remaining() == input@.map_values(|l: Result<String, String>| line_view(l)),
    {
        let r = Parser { input, pos: 0 };
        assert(r.input@.skip(0) =~= r.input@);
        r
    }

    /// The lines that the lexer was made over.
    pub fn into_inner(self) -> (r: Vec<Result<String, String>>)
        ensures
            r@ == self.source(),
    {
        self.input
    }

    /// A lexer over the lines of a text.
    pub fn from_str(s: &str) -> (r: Parser)
        ensures
            r.wf(),
            r.remaining() == lines_of(s@).map_values(|l: Seq<char>| Ok::<Seq<char>, Seq<char>>(l)),
    {
        let lines = split_lines(s);
        let mut input: Vec<Result<String, String>> = Vec::new();
        let mut i: usize = 0;
        while i < lines.len()
            invariant
                i <= lines@.len(),
                lines@.len() == lines_of(s@).len(),
                forall|k: int| 0 <= k < lines@.len() ==> #[trigger] lines@[k]@ == lines_of(s@)[k],
                input@.len() == i,
                forall|k: int| 0 <= k < i ==> #[trigger] line_view(input@[k]) == Ok::<Seq<char>, Seq<char>>(lines_of(s@)[k]),
            decreases lines@.len() - i,
        {
            input.push(Ok(lines[i].clone()));
            i = i + 1;
        }
        let r = Parser::new(input);
        assert(r.remaining() =~= lines_of(s@).map_values(|l: Seq<char>| Ok::<Seq<char>, Seq<char>>(l)));
        r
    }

    /// Reads the next line as an item; `None` once every line was read.
    pub fn next(&mut self) -> (r: Option<Result<Item, Error>>)
        requires
            old(self).wf(),
        ensures
            final(self).wf(),
            old(self).remaining().len() == 0 ==> r is None && final(self).remaining() == old(self).remaining(),
            final(self).source() == old(self).source(),
            old(self).remaining().len() > 0 ==> {
                &&& r matches Some(x) && lexed(x) == lex_line(old(self).remaining()[0])
                &&& final(self).remaining() == old(self).remaining().drop_first()
                &&& match old(self).remaining()[0] {
                    Err(m) => (r matches Some(Err(Error::Inner(t))) && t@ == m),
                    Ok(l) => match line_item(l) {
                        Ok(item) => (r matches Some(Ok(i)) && i@ == item),
                        Err(e) => r == Some(Err::<Item, Error>(Error::Syntax(e))),
                    },
                }
            },
    {
        if self.pos >= self.input.len() {
            return None;
        }
        let ghost before = self.remaining();
        let out = match &self.input[self.pos] {
            Ok(line) => match parse_line(line.as_str()) {
                Ok(item) => Ok(item),
                Err(e) => Err(Error::Syntax(e)),
            },
            Err(m) => Err(Error::Inner(m.clone())),
        };
        self.pos = self.pos + 1;
        assert(self.remaining() =~= before.drop_first());
        Some(out)
    }
}

} // verus!
