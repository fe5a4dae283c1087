//! Rendering items as lines of text.
use vstd::prelude::*;
use crate::parse::{Item, ItemView};

verus! {

/// The text that ends each line.
#[derive(Copy, Clone, Debug, PartialEq, Eq, PartialOrd, Ord, Hash)]
pub enum LineEnding {
    /// `\n`
    Linefeed,
    /// `\r\n`
    CrLf,
}

impl Default for LineEnding {
    fn default() -> (r: LineEnding)
        ensures
            r == LineEnding::CrLf,
    {
        LineEnding::CrLf
    }
}

pub open spec fn ending_text(e: LineEnding) -> Seq<char> {
    match e {
        LineEnding::Linefeed => "\n"@,
        LineEnding::CrLf => "\r\n"@,
    }
}

impl LineEnding {
    /// The line ending's text.
    pub fn text(&self) -> (r: &'static str)
        ensures
            r@ == ending_text(*self),
    {
        match self {
            LineEnding::Linefeed => "\n",
            LineEnding::CrLf => "\r\n",
        }
    }
}

/// One item as a line of text, with its line ending.
pub open spec fn render(item: ItemView, e: LineEnding) -> Seq<char> {
    match item {
        ItemView::Section { name } => "["@ + name + "]"@ + ending_text(e),
        ItemView::Value { key, value } => key + "="@ + value + ending_text(e),
        ItemView::Comment { text } => ";"@ + text + ending_text(e),
        ItemView::Empty => ending_text(e),
    }
}

/// Items as lines of text, in order.
pub open spec fn render_all(items: Seq<ItemView>, e: LineEnding) -> Seq<char>
    decreases items.len(),
{
    if items.len() == 0 {
        Seq::empty()
    } else {
        render_all(items.drop_last(), e) + render(items.last(), e)
    }
}

/// Writes items as lines of text after what its buffer holds.
#[derive(Debug)]
pub struct Writer {
    write: String,
    line_ending: LineEnding,
}

impl Writer {
    /// The text written so far, with what the buffer held first.
    pub closed spec fn text(&self) -> Seq<char> {
        self.write@
    }

    pub closed spec fn ending(&self) -> LineEnding {
        self.line_ending
    }

    /// A writer that adds to `write` and ends lines with `line_ending`.
    pub fn new(write: String, line_ending: LineEnding) -> (r: Writer)
        ensures
            r.text() == write@,
            r.ending() == line_ending,
    {
        Writer { write, line_ending }
    }

    /// The text written.
    pub fn into_inner(self) -> (r: String)
        ensures
            r@ == self.text(),
    {
        self.write
    }

    /// Writes one item as a line.
    pub fn write(&mut self, item: &Item)
        ensures
            final(self).text() == old(self).text() + render(item@, old(self).ending()),
            final(self).ending() == old(self).ending(),
    {
        let end = self.line_ending.text();
        match item {
            Item::Section { name } => {
                self.write.append("[");
                self.write.append(name.as_str());
                self.write.append("]");
            },
            Item::Value { key, value } => {
                self.write.append(key.as_str());
                self.write.append("=");
                self.write.append(value.as_str());
            },
            Item::Comment { text } => {
                self.write.append(";");
                self.write.append(text.as_str());
            },
            Item::Empty => {},
        }
        self.write.append(end);
        assert(self.write@ =~= old(self).text() + render(item@, old(self).ending()));
    }
}

} // verus!
