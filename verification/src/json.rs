//! JSON text: how values are laid out, and how strings are escaped.

use vstd::prelude::*;

use crate::text::{blanks, digit, join};
#[allow(unused_imports)]
use crate::text::{blanks_text, decimal_text, digit_char, joined, texts};

verus! {

/// Where white space goes inside a JSON array or object.
#[derive(Clone, Copy, Debug, PartialEq, Eq, Structural)]
pub enum Layout {
    /// No white space at all.
    Tight,
    /// On one line, a blank behind every comma and colon.
    Spaced,
    /// Every entry on a line of its own, indented by so many blanks; the
    /// closing bracket is indented by two fewer.
    Lines(usize),
}

/// A JSON value as it is written: every array and object has its layout, and
/// strings and numbers are held as the characters that are output.
pub ghost enum Doc {
    Null,
    Bool(bool),
    /// A number, by its text.
    Num(Seq<char>),
    /// A string, by what stands between its quotes.
    Str(Seq<char>),
    Arr(Layout, Seq<Doc>),
    /// The members in order: what stands between the quotes of the name, and the value.
    Obj(Layout, Seq<(Seq<char>, Doc)>),
}

/// The members of an object, in order: the text of each name and its value.
pub type Members = Seq<(Seq<char>, Doc)>;

/// A number that is not negative.
pub open spec fn number_doc(n: int) -> Doc {
    Doc::Num(decimal_text(n as nat))
}

/// A string where there is one, else null.
pub open spec fn opt_str_doc(s: Option<Seq<char>>) -> Doc {
    match s {
        Some(s) => Doc::Str(s),
        None => Doc::Null,
    }
}

/// A line break and `n` blanks.
pub open spec fn line_text(n: int) -> Seq<char> {
    seq!['\n'] + blanks_text(if n < 0 { 0 } else { n as nat })
}

/// The white space between an opening bracket and the first entry.
pub open spec fn lead_text(layout: Layout) -> Seq<char> {
    match layout {
        Layout::Tight => Seq::empty(),
        Layout::Spaced => Seq::empty(),
        Layout::Lines(n) => line_text(n as int),
    }
}

/// The white space between a comma and the next entry.
pub open spec fn gap_text(layout: Layout) -> Seq<char> {
    match layout {
        Layout::Tight => Seq::empty(),
        Layout::Spaced => seq![' '],
        Layout::Lines(n) => line_text(n as int),
    }
}

/// The white space between the last entry and the closing bracket.
pub open spec fn tail_text(layout: Layout) -> Seq<char> {
    match layout {
        Layout::Tight => Seq::empty(),
        Layout::Spaced => Seq::empty(),
        Layout::Lines(n) => line_text(n - 2),
    }
}

/// The white space between a colon and the value behind it.
pub open spec fn colon_gap_text(layout: Layout) -> Seq<char> {
    match layout {
        Layout::Tight => Seq::empty(),
        Layout::Spaced => seq![' '],
        Layout::Lines(_) => seq![' '],
    }
}

/// A comma and the white space behind it.
pub open spec fn comma_text(layout: Layout) -> Seq<char> {
    seq![','] + gap_text(layout)
}

/// The parts between brackets; nothing stands between the brackets where there is no part.
pub open spec fn framed(
    open: char,
    close: char,
    layout: Layout,
    parts: Seq<Seq<char>>,
) -> Seq<char> {
    if parts.len() == 0 {
        seq![open, close]
    } else {
        seq![open] + lead_text(layout) + joined(parts, comma_text(layout)) + tail_text(layout)
            + seq![close]
    }
}

/// `s` between quotes.
pub open spec fn quoted_text(s: Seq<char>) -> Seq<char> {
    seq!['"'] + s + seq!['"']
}

/// One member of an object.
pub open spec fn member_text(name: Seq<char>, value: Seq<char>, layout: Layout) -> Seq<char> {
    quoted_text(name) + seq![':'] + colon_gap_text(layout) + value
}

/// The text of a value.
pub open spec fn render(doc: Doc) -> Seq<char>
    decreases doc,
{
    match doc {
        Doc::Null => "null"@,
        Doc::Bool(b) => if b {
            "true"@
        } else {
            "false"@
        },
        Doc::Num(n) => n,
        Doc::Str(s) => quoted_text(s),
        Doc::Arr(layout, items) => framed('[', ']', layout, rendered_items(items)),
        Doc::Obj(layout, members) => framed('{', '}', layout, rendered_members(layout, members)),
    }
}

/// The texts of the items of an array.
pub open spec fn rendered_items(items: Seq<Doc>) -> Seq<Seq<char>>
    decreases items,
{
    if items.len() == 0 {
        Seq::empty()
    } else {
        rendered_items(items.drop_last()).push(render(items.last()))
    }
}

/// The texts of the members of an object.
pub open spec fn rendered_members(layout: Layout, members: Seq<(Seq<char>, Doc)>) -> Seq<Seq<char>>
    decreases members,
{
    if members.len() == 0 {
        Seq::empty()
    } else {
        rendered_members(layout, members.drop_last()).push(
            member_text(members.last().0, render(members.last().1), layout),
        )
    }
}

/// Writes a line break and `n` blanks.
fn line(n: usize) -> (res: String)
    ensures
        res@ == line_text(n as int),
{
    let indent = blanks(n);
    let mut res = String::new();
    res.push('\n');
    res.append(indent.as_str());
    assert(res@ =~= line_text(n as int));
    res
}

fn lead(layout: Layout) -> (res: String)
    ensures
        res@ == lead_text(layout),
{
    match layout {
        Layout::Tight => String::new(),
        Layout::Spaced => String::new(),
        Layout::Lines(n) => line(n),
    }
}

fn comma(layout: Layout) -> (res: String)
    ensures
        res@ == comma_text(layout),
{
    let mut res = String::new();
    res.push(',');
    match layout {
        Layout::Tight => {},
        Layout::Spaced => {
            res.push(' ');
        },
        Layout::Lines(n) => {
            let gap = line(n);
            res.append(gap.as_str());
        },
    }
    assert(res@ =~= comma_text(layout));
    res
}

fn tail(layout: Layout) -> (res: String)
    ensures
        res@ == tail_text(layout),
{
    match layout {
        Layout::Tight => String::new(),
        Layout::Spaced => String::new(),
        Layout::Lines(n) => if n < 2 {
            line(0)
        } else {
            line(n - 2)
        },
    }
}

fn framed_string(open: char, close: char, layout: Layout, parts: &Vec<String>) -> (res: String)
    ensures
        res@ == framed(open, close, layout, texts(parts@)),
{
    let mut res = String::new();
    res.push(open);
    if parts.len() > 0 {
        let lead = lead(layout);
        let comma = comma(layout);
        let body = join(parts, comma.as_str());
        let tail = tail(layout);
        assert(res@ =~= seq![open]);
        res.append(lead.as_str());
        res.append(body.as_str());
        res.append(tail.as_str());
    }
    res.push(close);
    assert(res@ =~= framed(open, close, layout, texts(parts@)));
    res
}

/// Writes an array from the texts of its items.
pub fn array(layout: Layout, items: &Vec<String>) -> (res: String)
    ensures
        res@ == framed('[', ']', layout, texts(items@)),
{
    framed_string('[', ']', layout, items)
}

/// Writes an object from the texts of its members.
pub fn object(layout: Layout, members: &Vec<String>) -> (res: String)
    ensures
        res@ == framed('{', '}', layout, texts(members@)),
{
    framed_string('{', '}', layout, members)
}

/// Writes `s` between quotes, as it is.
pub fn quoted(s: &str) -> (res: String)
    ensures
        res@ == quoted_text(s@),
{
    let mut res = String::new();
    res.push('"');
    res.append(s);
    res.push('"');
    assert(res@ =~= quoted_text(s@));
    res
}

/// Writes one member of an object.
pub fn member(name: &str, value: &str, layout: Layout) -> (res: String)
    ensures
        res@ == member_text(name@, value@, layout),
{
    let mut res = quoted(name);
    res.push(':');
    match layout {
        Layout::Tight => {},
        _ => {
            res.push(' ');
        },
    }
    res.append(value);
    assert(res@ =~= member_text(name@, value@, layout));
    res
}

/// What stands for `c` inside a JSON string.
pub open spec fn escaped_char(c: char) -> Seq<char> {
    if c == '\\' {
        seq!['\\', '\\']
    } else if c == '"' {
        seq!['\\', '"']
    } else if c == '\n' {
        seq!['\\', 'n']
    } else if c == '\r' {
        seq!['\\', 'r']
    } else if c == '\t' {
        seq!['\\', 't']
    } else if (c as int) < 0x20 {
        seq!['\\', 'u', '0', '0', digit_char((c as int) / 16), digit_char((c as int) % 16)]
    } else {
        seq![c]
    }
}

/// What stands for `s` inside a JSON string.
pub open spec fn escaped(s: Seq<char>) -> Seq<char>
    decreases s.len(),
{
    if s.len() == 0 {
        Seq::empty()
    } else {
        escaped(s.drop_last()) + escaped_char(s.last())
    }
}

/// Appends what stands for `c` inside a JSON string.
fn push_escaped(out: &mut String, c: char)
    ensures
        final(out)@ == old(out)@ + escaped_char(c),
{
    match c {
        '\\' => {
            out.push('\\');
            out.push('\\');
        },
        '"' => {
            out.push('\\');
            out.push('"');
        },
        '\n' => {
            out.push('\\');
            out.push('n');
        },
        '\r' => {
            out.push('\\');
            out.push('r');
        },
        '\t' => {
            out.push('\\');
            out.push('t');
        },
        _ => {
            let code: u32 = c as u32;
            if code < 0x20 {
                out.push('\\');
                out.push('u');
                out.push('0');
                out.push('0');
                out.push(digit((code / 16) as u64));
                out.push(digit((code % 16) as u64));
            } else {
                out.push(c);
            }
        },
    }
    assert(out@ =~= old(out)@ + escaped_char(c));
}

/// Escapes a string for use between the quotes of a JSON string: backslash,
/// quote, line feed, carriage return and tab by their short forms, every other
/// control character as `\u` and four hexadecimal digits.
pub fn jstr(s: &str) -> (out: String)
    ensures
        out@ == escaped(s@),
{
    let mut out = String::new();
    for c in it: s.chars()
        invariant
            it.seq() == s@,
            out@ == escaped(s@.take(it.index() as int)),
    {
        proof {
            let i = it.index() as int;
            assert(s@.take(i + 1).drop_last() =~= s@.take(i));
            assert(s@.take(i + 1).last() == c);
        }
        push_escaped(&mut out, c);
    }
    assert(s@.take(s@.len() as int) =~= s@);
    out
}

} // verus!
