//! What a text means as JSON.
//!
//! Which texts spell which values, with white space allowed around every value,
//! comma, colon and bracket.

use vstd::prelude::*;

verus! {

/// A JSON value. A number is held by its text; an object is the list of its members.
pub ghost enum Json {
    Null,
    Bool(bool),
    Num(Seq<char>),
    Str(Seq<char>),
    Arr(Seq<Json>),
    Obj(Seq<(Seq<char>, Json)>),
}

/// White space of JSON alone.
pub open spec fn is_blank(s: Seq<char>) -> bool {
    forall|i: int|
        0 <= i < s.len() ==> (#[trigger] s[i]) == ' ' || s[i] == '\t' || s[i] == '\n' || s[i]
            == '\r'
}

/// `s` is `body` with white space around it.
pub open spec fn is_padded(
    s: Seq<char>,
    front: Seq<char>,
    body: Seq<char>,
    back: Seq<char>,
) -> bool {
    is_blank(front) && is_blank(back) && s == front + body + back
}

/// The value of a hexadecimal digit.
pub open spec fn hex_value(c: char) -> Option<int> {
    if '0' <= c <= '9' {
        Some(c as int - '0' as int)
    } else if 'a' <= c <= 'f' {
        Some(c as int - 'a' as int + 10)
    } else if 'A' <= c <= 'F' {
        Some(c as int - 'A' as int + 10)
    } else {
        None
    }
}

/// The code unit that the four characters from `at` on spell.
pub open spec fn code_unit(s: Seq<char>, at: int) -> Option<int> {
    if at + 4 > s.len() {
        None
    } else {
        match (
            hex_value(s[at]),
            hex_value(s[at + 1]),
            hex_value(s[at + 2]),
            hex_value(s[at + 3]),
        ) {
            (Some(a), Some(b), Some(c), Some(d)) => Some(((a * 16 + b) * 16 + c) * 16 + d),
            _ => None,
        }
    }
}

/// The character that a backslash and `c` stand for.
pub open spec fn short_escape(c: char) -> Option<char> {
    if c == '"' || c == '\\' || c == '/' {
        Some(c)
    } else if c == 'b' {
        Some('\u{8}')
    } else if c == 'f' {
        Some('\u{c}')
    } else if c == 'n' {
        Some('\n')
    } else if c == 'r' {
        Some('\r')
    } else if c == 't' {
        Some('\t')
    } else {
        None
    }
}

/// The first character that the characters between two quotes stand for, and how
/// many of them stand for it. Quotes, control characters and lone surrogates
/// stand for nothing.
pub open spec fn first_char(s: Seq<char>) -> Option<(char, int)> {
    if s.len() == 0 || s[0] == '"' || (s[0] as int) < 0x20 {
        None
    } else if s[0] != '\\' {
        Some((s[0], 1))
    } else if s.len() < 2 {
        None
    } else if s[1] != 'u' {
        match short_escape(s[1]) {
            Some(c) => Some((c, 2)),
            None => None,
        }
    } else {
        match code_unit(s, 2) {
            None => None,
            Some(unit) => if unit < 0xd800 || unit >= 0xe000 {
                Some((unit as char, 6))
            } else if unit >= 0xdc00 || s.len() < 12 || s[6] != '\\' || s[7] != 'u' {
                None
            } else {
                match code_unit(s, 8) {
                    None => None,
                    Some(low) => if 0xdc00 <= low < 0xe000 {
                        Some(
                            ((0x10000 + (unit - 0xd800) * 0x400 + (low - 0xdc00)) as char, 12),
                        )
                    } else {
                        None
                    },
                }
            },
        }
    }
}

/// The string that the characters between two quotes stand for, where they stand
/// for one.
#[verifier::opaque]
pub open spec fn unescaped(s: Seq<char>) -> Option<Seq<char>>
    decreases s.len(),
{
    if s.len() == 0 {
        Some(Seq::empty())
    } else {
        match first_char(s) {
            Some((c, n)) => match unescaped(s.skip(n)) {
                Some(rest) => Some(seq![c] + rest),
                None => None,
            },
            None => None,
        }
    }
}

/// Decimal digits alone, and at least one.
pub open spec fn is_digits(s: Seq<char>) -> bool {
    &&& s.len() > 0
    &&& forall|i: int| 0 <= i < s.len() ==> '0' <= #[trigger] s[i] <= '9'
}

/// A number is made of an optional minus, digits without a leading zero, an
/// optional fraction and an optional exponent; `a`, `b` and `c` are where the
/// second, third and fourth of these begin.
pub open spec fn is_number_split(s: Seq<char>, a: int, b: int, c: int) -> bool {
    &&& 0 <= a <= b <= c <= s.len()
    &&& a == 0 || (a == 1 && s[0] == '-')
    &&& is_digits(s.subrange(a, b))
    &&& b - a > 1 ==> s[a] != '0'
    &&& b == c || (s[b] == '.' && is_digits(s.subrange(b + 1, c)))
    &&& c == s.len() || ((s[c] == 'e' || s[c] == 'E') && (is_digits(s.skip(c + 1)) || (c + 1
        < s.len() && (s[c + 1] == '+' || s[c + 1] == '-') && is_digits(s.skip(c + 2)))))
}

/// The text of a number.
pub open spec fn is_number(s: Seq<char>) -> bool {
    exists|a: int, b: int, c: int| is_number_split(s, a, b, c)
}

/// `body` is a string between quotes that stands for `t`.
pub open spec fn spells_string(body: Seq<char>, t: Seq<char>) -> bool {
    &&& body.len() >= 2
    &&& body[0] == '"'
    &&& body.last() == '"'
    &&& unescaped(body.subrange(1, body.len() - 1)) == Some(t)
}

/// `s` is a string between quotes that stands for `t`, with white space around it.
pub open spec fn reads_as_string(s: Seq<char>, t: Seq<char>) -> bool {
    exists|front: Seq<char>, body: Seq<char>, back: Seq<char>| #[trigger]
        is_padded(s, front, body, back) && spells_string(body, t)
}

/// The character `k` of `s` is `c`.
pub open spec fn has_at(s: Seq<char>, k: int, c: char) -> bool {
    0 <= k < s.len() && s[k] == c
}

/// What stands between the first and the last character of `s`, which are `open` and `close`.
pub open spec fn is_bracketed(s: Seq<char>, open: char, close: char) -> bool {
    s.len() >= 2 && s[0] == open && s.last() == close
}

/// `s` is a JSON text whose value is `j`.
pub open spec fn reads_as(s: Seq<char>, j: Json) -> bool
    decreases j, 1nat,
{
    exists|front: Seq<char>, body: Seq<char>, back: Seq<char>| #[trigger]
        is_padded(s, front, body, back) && spells(body, j)
}

/// `body` spells `j`, without white space around it.
pub open spec fn spells(body: Seq<char>, j: Json) -> bool
    decreases j, 0nat,
{
    match j {
        Json::Null => body == "null"@,
        Json::Bool(b) => if b {
            body == "true"@
        } else {
            body == "false"@
        },
        Json::Num(n) => body == n && is_number(n),
        Json::Str(t) => spells_string(body, t),
        Json::Arr(items) => {
            let inner = body.subrange(1, body.len() - 1);
            &&& is_bracketed(body, '[', ']')
            &&& if items.len() == 0 {
                is_blank(inner)
            } else {
                reads_as_items(inner, items)
            }
        },
        Json::Obj(members) => {
            let inner = body.subrange(1, body.len() - 1);
            &&& is_bracketed(body, '{', '}')
            &&& if members.len() == 0 {
                is_blank(inner)
            } else {
                reads_as_members(inner, members)
            }
        },
    }
}

/// `s` is a list of JSON texts with commas between them, whose values are `items`.
pub open spec fn reads_as_items(s: Seq<char>, items: Seq<Json>) -> bool
    decreases items, 2nat,
{
    if items.len() == 0 {
        false
    } else if items.len() == 1 {
        reads_as(s, items.last())
    } else {
        exists|k: int| #[trigger]
            has_at(s, k, ',') && reads_as_items(s.take(k), items.drop_last()) && reads_as(
                s.skip(k + 1),
                items.last(),
            )
    }
}

/// `s` is a name, a colon and a JSON text whose value is `value`.
pub open spec fn reads_as_member(s: Seq<char>, name: Seq<char>, value: Json) -> bool
    decreases value, 2nat,
{
    exists|k: int| #[trigger]
        has_at(s, k, ':') && reads_as_string(s.take(k), name) && reads_as(s.skip(k + 1), value)
}

/// `s` is a list of members with commas between them.
pub open spec fn reads_as_members(s: Seq<char>, members: Seq<(Seq<char>, Json)>) -> bool
    decreases members, 3nat,
{
    if members.len() == 0 {
        false
    } else if members.len() == 1 {
        reads_as_member(s, members.last().0, members.last().1)
    } else {
        exists|k: int| #[trigger]
            has_at(s, k, ',') && reads_as_members(s.take(k), members.drop_last())
                && reads_as_member(s.skip(k + 1), members.last().0, members.last().1)
    }
}

} // verus!
