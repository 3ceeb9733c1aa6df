//! A text means at most one thing as JSON.
//!
//! A text is scanned from the front. Outside of strings and brackets, a comma
//! separates items and a colon separates a name from its value, and neither can
//! stand anywhere else there, so that there is one way to take a text apart.

use vstd::prelude::*;

#[allow(unused_imports)]
use crate::grammar::{
    first_char, has_at, is_blank, is_bracketed, is_digits, is_number, is_number_split, is_padded,
    reads_as, reads_as_items, reads_as_member, reads_as_members, reads_as_string, spells,
    spells_string, unescaped, Json,
};

verus! {

/// Where a scan is: outside of strings, inside of one, or behind a backslash in one.
pub ghost enum Mode {
    Outside,
    Inside,
    Escape,
}

/// How many brackets are open, and where the scan is.
pub type Place = (int, Mode);

/// The place that is outside of everything.
pub open spec fn top() -> Place {
    (0, Mode::Outside)
}

/// The place behind a character.
pub open spec fn scan_char(place: Place, c: char) -> Place {
    match place.1 {
        Mode::Escape => (place.0, Mode::Inside),
        Mode::Inside => if c == '"' {
            (place.0, Mode::Outside)
        } else if c == '\\' {
            (place.0, Mode::Escape)
        } else {
            place
        },
        Mode::Outside => if c == '"' {
            (place.0, Mode::Inside)
        } else if c == '[' || c == '{' {
            (place.0 + 1, Mode::Outside)
        } else if c == ']' || c == '}' {
            (place.0 - 1, Mode::Outside)
        } else {
            place
        },
    }
}

/// The place behind a text.
pub open spec fn scanned(place: Place, s: Seq<char>) -> Place
    decreases s.len(),
{
    if s.len() == 0 {
        place
    } else {
        scan_char(scanned(place, s.drop_last()), s.last())
    }
}

/// The place in front of the character `i` of a text.
pub open spec fn place_at(s: Seq<char>, i: int) -> Place {
    scanned(top(), s.take(i))
}

/// A text that closes what it opens, and nothing else.
pub open spec fn is_tame(s: Seq<char>) -> bool {
    &&& scanned(top(), s) == top()
    &&& forall|i: int| 0 <= i <= s.len() ==> (#[trigger] place_at(s, i)).0 >= 0
}

/// A text without the character `c` outside of strings and brackets.
pub open spec fn is_free_of(s: Seq<char>, c: char) -> bool {
    forall|i: int| 0 <= i < s.len() && #[trigger] place_at(s, i) == top() ==> s[i] != c
}

/// A text that neither separates items nor a name from its value.
pub open spec fn is_whole(s: Seq<char>) -> bool {
    is_tame(s) && is_free_of(s, ',') && is_free_of(s, ':')
}

proof fn lemma_scan_next(place: Place, s: Seq<char>, i: int)
    requires
        0 <= i < s.len(),
    ensures
        scanned(place, s.take(i + 1)) == scan_char(scanned(place, s.take(i)), s[i]),
{
    assert(s.take(i + 1).drop_last() =~= s.take(i));
}

proof fn lemma_scan_concat(place: Place, a: Seq<char>, b: Seq<char>)
    ensures
        scanned(place, a + b) == scanned(scanned(place, a), b),
    decreases b.len(),
{
    if b.len() == 0 {
        assert(a + b =~= a);
    } else {
        lemma_scan_concat(place, a, b.drop_last());
        assert((a + b).drop_last() =~= a + b.drop_last());
    }
}

proof fn lemma_scan_shifted(depth: int, mode: Mode, s: Seq<char>)
    ensures
        scanned((depth, mode), s).0 == depth + scanned((0, mode), s).0,
        scanned((depth, mode), s).1 == scanned((0, mode), s).1,
    decreases s.len(),
{
    if s.len() > 0 {
        lemma_scan_shifted(depth, mode, s.drop_last());
    }
}

proof fn lemma_place_in_concat(a: Seq<char>, b: Seq<char>, i: int)
    requires
        scanned(top(), a) == top(),
        0 <= i <= (a + b).len(),
    ensures
        i <= a.len() ==> place_at(a + b, i) == place_at(a, i),
        i >= a.len() ==> place_at(a + b, i) == place_at(b, i - a.len()),
{
    if i <= a.len() {
        assert((a + b).take(i) =~= a.take(i));
    }
    if i >= a.len() {
        lemma_scan_concat(top(), a, b.take(i - a.len()));
        assert((a + b).take(i) =~= a + b.take(i - a.len()));
    }
}

proof fn lemma_tame_concat(a: Seq<char>, b: Seq<char>)
    requires
        is_tame(a),
        is_tame(b),
    ensures
        is_tame(a + b),
        forall|c: char| is_free_of(a, c) && is_free_of(b, c) ==> #[trigger] is_free_of(a + b, c),
{
    let s = a + b;
    lemma_scan_concat(top(), a, b);
    assert forall|i: int| 0 <= i <= s.len() implies (#[trigger] place_at(s, i)).0 >= 0 by {
        lemma_place_in_concat(a, b, i);
        if i <= a.len() {
            assert(place_at(a, i).0 >= 0);
        } else {
            assert(place_at(b, i - a.len()).0 >= 0);
        }
    }
    assert forall|c: char| is_free_of(a, c) && is_free_of(b, c) implies #[trigger] is_free_of(
        s,
        c,
    ) by {
        assert forall|i: int| 0 <= i < s.len() && #[trigger] place_at(s, i) == top() implies s[i]
            != c by {
            lemma_place_in_concat(a, b, i);
            if i < a.len() {
                assert(place_at(a, i) == top());
            } else {
                assert(place_at(b, i - a.len()) == top());
            }
        }
    }
}

/// A text without quotes and brackets.
pub open spec fn has_no_marks(s: Seq<char>) -> bool {
    forall|i: int|
        0 <= i < s.len() ==> (#[trigger] s[i]) != '"' && s[i] != '[' && s[i] != ']' && s[i] != '{'
            && s[i] != '}'
}

proof fn lemma_unmarked_scan(s: Seq<char>)
    requires
        has_no_marks(s),
    ensures
        scanned(top(), s) == top(),
    decreases s.len(),
{
    if s.len() > 0 {
        assert(has_no_marks(s.drop_last())) by {
            assert forall|i: int| 0 <= i < s.drop_last().len() implies (
            #[trigger] s.drop_last()[i]) == s[i] by {}
        }
        lemma_unmarked_scan(s.drop_last());
        assert(s.last() == s[s.len() - 1]);
    }
}

proof fn lemma_unmarked_is_tame(s: Seq<char>)
    requires
        has_no_marks(s),
    ensures
        is_tame(s),
        forall|c: char|
            (forall|i: int| 0 <= i < s.len() ==> #[trigger] s[i] != c) ==> #[trigger] is_free_of(
                s,
                c,
            ),
{
    lemma_unmarked_scan(s);
    assert forall|i: int| 0 <= i <= s.len() implies (#[trigger] place_at(s, i)).0 >= 0 by {
        assert(has_no_marks(s.take(i))) by {
            assert forall|j: int| 0 <= j < i implies (#[trigger] s.take(i)[j]) == s[j] by {}
        }
        lemma_unmarked_scan(s.take(i));
    }
}

proof fn lemma_bracketed_is_whole(inner: Seq<char>, open: char, close: char)
    requires
        is_tame(inner),
        open == '[' && close == ']' || open == '{' && close == '}',
    ensures
        is_whole(seq![open] + inner + seq![close]),
{
    let s = seq![open] + inner + seq![close];
    let n = inner.len() as int;
    assert forall|i: int| 1 <= i <= n + 1 implies (#[trigger] place_at(s, i)).0 >= 1 && place_at(
        s,
        i,
    ).1 == place_at(inner, i - 1).1 by {
        assert(s.take(i) =~= seq![open] + inner.take(i - 1));
        lemma_scan_concat(top(), seq![open], inner.take(i - 1));
        assert(seq![open].drop_last() =~= Seq::empty());
        reveal_with_fuel(scanned, 2);
        assert(scanned(top(), seq![open]) == (1int, Mode::Outside));
        lemma_scan_shifted(1, Mode::Outside, inner.take(i - 1));
        assert(place_at(inner, i - 1).0 >= 0);
    }
    lemma_scan_next(top(), s, n + 1);
    assert(s.take(n + 2) =~= s);
    assert(s.take(n + 1) =~= seq![open] + inner);
    lemma_scan_concat(top(), seq![open], inner);
    lemma_scan_shifted(1, Mode::Outside, inner);
    assert(seq![open].drop_last() =~= Seq::empty());
    assert(scanned(top(), seq![open]) == (1int, Mode::Outside)) by {
        reveal_with_fuel(scanned, 2);
    }
    assert(scanned(top(), s.take(n + 1)) == (1int, Mode::Outside));
    assert(s[n + 1] == close);
    assert(scanned(top(), s) == top());
    assert(place_at(s, n + 2) == top());
    assert(s.take(0) =~= Seq::empty());
    assert(place_at(s, 0) == top());
    assert(is_tame(s));
    assert forall|i: int| 0 <= i < s.len() && #[trigger] place_at(s, i) == top() implies s[i] != ','
        && s[i] != ':' by {
        if i >= 1 {
            assert(place_at(s, i).0 >= 1);
        }
        assert(s[0] == open);
    }
}

/// How many characters stand for the first character of a string.
pub open spec fn first_len(s: Seq<char>) -> int {
    match first_char(s) {
        Some((c, n)) => n,
        None => 0,
    }
}

proof fn lemma_scan_first_char(s: Seq<char>, depth: int)
    requires
        first_char(s) is Some,
    ensures
        0 < first_len(s) <= s.len(),
        scanned((depth, Mode::Inside), s.take(first_len(s))) == (depth, Mode::Inside),
        forall|i: int|
            0 <= i <= first_len(s) ==> (#[trigger] scanned(
                (depth, Mode::Inside),
                s.take(i),
            )).1 != Mode::Outside,
{
    let start = (depth, Mode::Inside);
    let n = first_len(s);
    assert(s.take(0) =~= Seq::empty());
    assert(scanned(start, s.take(0)) == start);
    lemma_scan_next(start, s, 0);
    if n > 1 {
        lemma_scan_next(start, s, 1);
    }
    if n > 2 {
        lemma_scan_next(start, s, 2);
        lemma_scan_next(start, s, 3);
        lemma_scan_next(start, s, 4);
        lemma_scan_next(start, s, 5);
    }
    if n > 6 {
        lemma_scan_next(start, s, 6);
        lemma_scan_next(start, s, 7);
        lemma_scan_next(start, s, 8);
        lemma_scan_next(start, s, 9);
        lemma_scan_next(start, s, 10);
        lemma_scan_next(start, s, 11);
    }
}

proof fn lemma_scan_inside(s: Seq<char>)
    requires
        unescaped(s) is Some,
    ensures
        scanned((0, Mode::Inside), s) == (0int, Mode::Inside),
        forall|i: int|
            0 <= i <= s.len() ==> (#[trigger] scanned((0, Mode::Inside), s.take(i))).1
                != Mode::Outside,
    decreases s.len(),
{
    reveal(unescaped);
    let start = (0int, Mode::Inside);
    if s.len() > 0 {
        let n = first_len(s);
        lemma_scan_first_char(s, 0);
        let rest = s.skip(n);
        lemma_scan_inside(rest);
        lemma_scan_concat(start, s.take(n), rest);
        assert(s.take(n) + rest =~= s);
        assert forall|i: int| 0 <= i <= s.len() implies (#[trigger] scanned(start, s.take(i))).1
            != Mode::Outside by {
            if i > n {
                assert(s.take(i) =~= s.take(n) + rest.take(i - n));
                lemma_scan_concat(start, s.take(n), rest.take(i - n));
            }
        }
    } else {
        assert forall|i: int| 0 <= i <= s.len() implies (#[trigger] scanned(start, s.take(i))).1
            != Mode::Outside by {
            assert(s.take(i) =~= s);
        }
    }
}

proof fn lemma_inside_depth(s: Seq<char>)
    requires
        forall|i: int|
            0 <= i <= s.len() ==> (#[trigger] scanned((0, Mode::Inside), s.take(i))).1
                != Mode::Outside,
    ensures
        forall|i: int|
            0 <= i <= s.len() ==> (#[trigger] scanned((0, Mode::Inside), s.take(i))).0 == 0,
{
    let start = (0int, Mode::Inside);
    assert forall|i: int| 0 <= i <= s.len() implies (#[trigger] scanned(start, s.take(i))).0
        == 0 by {
        lemma_inside_depth_at(s, i);
    }
}

proof fn lemma_inside_depth_at(s: Seq<char>, i: int)
    requires
        0 <= i <= s.len(),
        forall|i: int|
            0 <= i <= s.len() ==> (#[trigger] scanned((0, Mode::Inside), s.take(i))).1
                != Mode::Outside,
    ensures
        scanned((0, Mode::Inside), s.take(i)).0 == 0,
    decreases i,
{
    let start = (0int, Mode::Inside);
    if i == 0 {
        assert(s.take(0) =~= Seq::empty());
    } else {
        lemma_inside_depth_at(s, i - 1);
        lemma_scan_next(start, s, i - 1);
        assert(scanned(start, s.take(i - 1)).1 != Mode::Outside);
    }
}

proof fn lemma_string_is_whole(body: Seq<char>, t: Seq<char>)
    requires
        spells_string(body, t),
    ensures
        is_whole(body),
{
    let n = body.len() as int;
    let inner = body.subrange(1, n - 1);
    let start = (0int, Mode::Inside);
    lemma_scan_inside(inner);
    lemma_inside_depth(inner);
    assert(body.take(0) =~= Seq::empty());
    lemma_scan_next(top(), body, 0);
    assert(place_at(body, 1) == start);
    assert forall|i: int| 1 <= i <= n - 1 implies (#[trigger] place_at(body, i)).0 == 0 && place_at(
        body,
        i,
    ).1 != Mode::Outside by {
        assert(body.take(i) =~= body.take(1) + inner.take(i - 1));
        lemma_scan_concat(top(), body.take(1), inner.take(i - 1));
        assert(scanned(start, inner.take(i - 1)).0 == 0);
    }
    assert(inner.take(n - 2) =~= inner);
    assert(body.take(n - 1) =~= body.take(1) + inner);
    lemma_scan_concat(top(), body.take(1), inner);
    lemma_scan_next(top(), body, n - 1);
    assert(body.take(n) =~= body);
    assert(scanned(top(), body) == top());
    assert(place_at(body, n) == top());
    assert(place_at(body, 0) == top());
    assert forall|i: int| 0 <= i <= n implies (#[trigger] place_at(body, i)).0 >= 0 by {
        if 1 <= i <= n - 1 {
            assert(place_at(body, i).0 == 0);
        }
    }
    assert forall|i: int| 0 <= i < n && #[trigger] place_at(body, i) == top() implies body[i] != ','
        && body[i] != ':' by {
        if i >= 1 {
            assert(place_at(body, i).1 != Mode::Outside);
        }
    }
}

/// White space of JSON.
pub open spec fn is_blank_char(c: char) -> bool {
    c == ' ' || c == '\t' || c == '\n' || c == '\r'
}

/// A text that is not empty and has no white space at its ends.
pub open spec fn has_firm_ends(s: Seq<char>) -> bool {
    s.len() > 0 && !is_blank_char(s[0]) && !is_blank_char(s.last())
}

proof fn lemma_padded_is_whole(s: Seq<char>, front: Seq<char>, body: Seq<char>, back: Seq<char>)
    requires
        is_padded(s, front, body, back),
        is_whole(body),
        has_firm_ends(body),
    ensures
        is_whole(s),
        !is_blank(s),
{
    lemma_unmarked_is_tame(front);
    lemma_unmarked_is_tame(back);
    assert(is_free_of(front, ',') && is_free_of(front, ':'));
    assert(is_free_of(back, ',') && is_free_of(back, ':'));
    lemma_tame_concat(front, body);
    lemma_tame_concat(front + body, back);
    assert(s[front.len() as int] == body[0]);
}

proof fn lemma_number_chars(n: Seq<char>)
    requires
        is_number(n),
    ensures
        n.len() > 0,
        n[0] == '-' || '0' <= n[0] <= '9',
        forall|i: int|
            0 <= i < n.len() ==> '0' <= (#[trigger] n[i]) <= '9' || n[i] == '-' || n[i] == '+'
                || n[i] == '.' || n[i] == 'e' || n[i] == 'E',
{
    let (a, b, c) = choose|a: int, b: int, c: int| is_number_split(n, a, b, c);
    let whole = n.subrange(a, b);
    assert('0' <= whole[0] <= '9');
    assert(n[a] == whole[0]);
    assert forall|i: int| 0 <= i < n.len() implies '0' <= (#[trigger] n[i]) <= '9' || n[i] == '-'
        || n[i] == '+' || n[i] == '.' || n[i] == 'e' || n[i] == 'E' by {
        if i < a {
        } else if i < b {
            assert(whole[i - a] == n[i]);
        } else if i < c {
            if i > b {
                assert(n.subrange(b + 1, c)[i - b - 1] == n[i]);
            }
        } else if i > c {
            if is_digits(n.skip(c + 1)) {
                assert(n.skip(c + 1)[i - c - 1] == n[i]);
            } else if i > c + 1 {
                assert(n.skip(c + 2)[i - c - 2] == n[i]);
            }
        }
    }
}

proof fn lemma_plain_is_whole(s: Seq<char>)
    requires
        has_no_marks(s),
        forall|i: int| 0 <= i < s.len() ==> (#[trigger] s[i]) != ',' && s[i] != ':',
    ensures
        is_whole(s),
{
    lemma_unmarked_is_tame(s);
}

proof fn lemma_bracketed_body(body: Seq<char>, open: char, close: char)
    requires
        is_bracketed(body, open, close),
        is_tame(body.subrange(1, body.len() - 1)),
        open == '[' && close == ']' || open == '{' && close == '}',
    ensures
        is_whole(body),
        has_firm_ends(body),
{
    let inner = body.subrange(1, body.len() - 1);
    lemma_bracketed_is_whole(inner, open, close);
    assert(body =~= seq![open] + inner + seq![close]);
}

proof fn lemma_separator_is_tame(c: char)
    requires
        c == ',' || c == ':',
    ensures
        is_tame(seq![c]),
        forall|d: char| d != c ==> #[trigger] is_free_of(seq![c], d),
{
    lemma_unmarked_is_tame(seq![c]);
}

proof fn lemma_separated_is_tame(s: Seq<char>, k: int, c: char)
    requires
        has_at(s, k, c),
        c == ',' || c == ':',
        is_tame(s.take(k)),
        is_tame(s.skip(k + 1)),
    ensures
        is_tame(s),
        !is_blank(s),
        forall|d: char|
            d != c && is_free_of(s.take(k), d) && is_free_of(s.skip(k + 1), d)
                ==> #[trigger] is_free_of(s, d),
{
    lemma_separator_is_tame(c);
    lemma_tame_concat(s.take(k), seq![c]);
    lemma_tame_concat(s.take(k) + seq![c], s.skip(k + 1));
    assert(s =~= s.take(k) + seq![c] + s.skip(k + 1));
    assert(s[k] == c);
}

proof fn lemma_value_is_whole(s: Seq<char>, j: Json)
    requires
        reads_as(s, j),
    ensures
        is_whole(s),
        !is_blank(s),
    decreases j, 1nat,
{
    let (front, body, back) = choose|front: Seq<char>, body: Seq<char>, back: Seq<char>| #[trigger]
        is_padded(s, front, body, back) && spells(body, j);
    lemma_spelled_is_whole(body, j);
    lemma_padded_is_whole(s, front, body, back);
}

proof fn lemma_spelled_is_whole(body: Seq<char>, j: Json)
    requires
        spells(body, j),
    ensures
        is_whole(body),
        has_firm_ends(body),
    decreases j, 0nat,
{
    match j {
        Json::Null => {
            reveal_strlit("null");
            lemma_plain_is_whole(body);
        },
        Json::Bool(b) => {
            reveal_strlit("true");
            reveal_strlit("false");
            lemma_plain_is_whole(body);
        },
        Json::Num(n) => {
            lemma_number_chars(n);
            lemma_plain_is_whole(body);
        },
        Json::Str(t) => {
            lemma_string_is_whole(body, t);
        },
        Json::Arr(items) => {
            let inner = body.subrange(1, body.len() - 1);
            if items.len() == 0 {
                lemma_unmarked_is_tame(inner);
            } else {
                lemma_items_are_tame(inner, items);
            }
            lemma_bracketed_body(body, '[', ']');
        },
        Json::Obj(members) => {
            let inner = body.subrange(1, body.len() - 1);
            if members.len() == 0 {
                lemma_unmarked_is_tame(inner);
            } else {
                lemma_members_are_tame(inner, members);
            }
            lemma_bracketed_body(body, '{', '}');
        },
    }
}

proof fn lemma_items_are_tame(s: Seq<char>, items: Seq<Json>)
    requires
        reads_as_items(s, items),
    ensures
        is_tame(s),
        !is_blank(s),
    decreases items, 2nat,
{
    if items.len() == 1 {
        lemma_value_is_whole(s, items.last());
    } else {
        let k = choose|k: int| #[trigger]
            has_at(s, k, ',') && reads_as_items(s.take(k), items.drop_last()) && reads_as(
                s.skip(k + 1),
                items.last(),
            );
        lemma_items_are_tame(s.take(k), items.drop_last());
        lemma_value_is_whole(s.skip(k + 1), items.last());
        lemma_separated_is_tame(s, k, ',');
    }
}

proof fn lemma_name_is_whole(s: Seq<char>, t: Seq<char>)
    requires
        reads_as_string(s, t),
    ensures
        is_whole(s),
{
    let (front, body, back) = choose|front: Seq<char>, body: Seq<char>, back: Seq<char>| #[trigger]
        is_padded(s, front, body, back) && spells_string(body, t);
    lemma_string_is_whole(body, t);
    lemma_padded_is_whole(s, front, body, back);
}

proof fn lemma_member_is_tame(s: Seq<char>, name: Seq<char>, value: Json)
    requires
        reads_as_member(s, name, value),
    ensures
        is_tame(s),
        is_free_of(s, ','),
        !is_blank(s),
    decreases value, 2nat,
{
    let k = choose|k: int| #[trigger]
        has_at(s, k, ':') && reads_as_string(s.take(k), name) && reads_as(s.skip(k + 1), value);
    lemma_name_is_whole(s.take(k), name);
    lemma_value_is_whole(s.skip(k + 1), value);
    lemma_separated_is_tame(s, k, ':');
}

proof fn lemma_members_are_tame(s: Seq<char>, members: Seq<(Seq<char>, Json)>)
    requires
        reads_as_members(s, members),
    ensures
        is_tame(s),
        !is_blank(s),
    decreases members, 3nat,
{
    if members.len() == 1 {
        lemma_member_is_tame(s, members.last().0, members.last().1);
    } else {
        let k = choose|k: int| #[trigger]
            has_at(s, k, ',') && reads_as_members(s.take(k), members.drop_last())
                && reads_as_member(s.skip(k + 1), members.last().0, members.last().1);
        lemma_members_are_tame(s.take(k), members.drop_last());
        lemma_member_is_tame(s.skip(k + 1), members.last().0, members.last().1);
        lemma_separated_is_tame(s, k, ',');
    }
}

proof fn lemma_not_free_behind(s: Seq<char>, k: int, m: int, c: char)
    requires
        0 <= k < m < s.len(),
        c == ',' || c == ':',
        s[k] == c,
        s[m] == c,
        scanned(top(), s.take(k)) == top(),
        scanned(top(), s.take(m)) == top(),
    ensures
        !is_free_of(s.skip(k + 1), c),
        !is_free_of(s.take(m), c),
{
    let rest = s.skip(k + 1);
    lemma_scan_next(top(), s, k);
    assert(s.take(m) =~= s.take(k + 1) + rest.take(m - k - 1));
    lemma_scan_concat(top(), s.take(k + 1), rest.take(m - k - 1));
    assert(place_at(rest, m - k - 1) == top());
    assert(rest[m - k - 1] == c);
    assert(s.take(m).take(k) =~= s.take(k));
    assert(place_at(s.take(m), k) == top());
    assert(s.take(m)[k] == c);
}

proof fn lemma_same_body(
    s: Seq<char>,
    front: Seq<char>,
    body: Seq<char>,
    back: Seq<char>,
    other_front: Seq<char>,
    other: Seq<char>,
    other_back: Seq<char>,
)
    requires
        is_padded(s, front, body, back),
        is_padded(s, other_front, other, other_back),
        has_firm_ends(body),
        has_firm_ends(other),
    ensures
        body == other,
{
    let a = front.len() as int;
    let b = other_front.len() as int;
    assert(s[a] == body[0]);
    assert(s[b] == other[0]);
    if a < b {
        assert(s[a] == other_front[a]);
    }
    if b < a {
        assert(s[b] == front[b]);
    }
    assert(a == b);
    assert(s.len() == front.len() + body.len() + back.len());
    assert(s.len() == other_front.len() + other.len() + other_back.len());
    let end = a + body.len();
    let other_end = b + other.len();
    assert(s[end - 1] == body.last());
    assert(s[other_end - 1] == other.last());
    if end < other_end {
        assert(s[other_end - 1] == back[other_end - 1 - end]);
    }
    if other_end < end {
        assert(s[end - 1] == other_back[end - 1 - other_end]);
    }
    assert(body =~= s.subrange(a, end));
    assert(other =~= s.subrange(a, end));
}

/// A text means at most one thing: there are no two values that it reads as.
pub proof fn law_text_means_one_value(s: Seq<char>, one: Json, other: Json)
    requires
        reads_as(s, one),
        reads_as(s, other),
    ensures
        one == other,
    decreases one, 1nat,
{
    let (front, body, back) = choose|front: Seq<char>, body: Seq<char>, back: Seq<char>| #[trigger]
        is_padded(s, front, body, back) && spells(body, one);
    let (other_front, other_body, other_back) =
        choose|front: Seq<char>, body: Seq<char>, back: Seq<char>| #[trigger]
        is_padded(s, front, body, back) && spells(body, other);
    lemma_spelled_is_whole(body, one);
    lemma_spelled_is_whole(other_body, other);
    lemma_same_body(s, front, body, back, other_front, other_body, other_back);
    lemma_spells_one_value(body, one, other);
}

proof fn lemma_spells_one_value(body: Seq<char>, one: Json, other: Json)
    requires
        spells(body, one),
        spells(body, other),
    ensures
        one == other,
    decreases one, 0nat,
{
    reveal_strlit("null");
    reveal_strlit("true");
    reveal_strlit("false");
    if let Json::Num(n) = one {
        lemma_number_chars(n);
    }
    if let Json::Num(n) = other {
        lemma_number_chars(n);
    }
    match (one, other) {
        (Json::Arr(items), Json::Arr(others)) => {
            let inner = body.subrange(1, body.len() - 1);
            if items.len() > 0 {
                lemma_items_are_tame(inner, items);
            }
            if others.len() > 0 {
                lemma_items_are_tame(inner, others);
            }
            if items.len() > 0 && others.len() > 0 {
                lemma_same_items(inner, items, others);
            }
            assert(items =~= others);
        },
        (Json::Obj(members), Json::Obj(others)) => {
            let inner = body.subrange(1, body.len() - 1);
            if members.len() > 0 {
                lemma_members_are_tame(inner, members);
            }
            if others.len() > 0 {
                lemma_members_are_tame(inner, others);
            }
            if members.len() > 0 && others.len() > 0 {
                lemma_same_members(inner, members, others);
            }
            assert(members =~= others);
        },
        _ => {},
    }
}

proof fn lemma_same_items(s: Seq<char>, items: Seq<Json>, others: Seq<Json>)
    requires
        reads_as_items(s, items),
        reads_as_items(s, others),
    ensures
        items == others,
    decreases items, 2nat,
{
    let k = choose|k: int| #[trigger]
        has_at(s, k, ',') && reads_as_items(s.take(k), items.drop_last()) && reads_as(
            s.skip(k + 1),
            items.last(),
        );
    let m = choose|m: int| #[trigger]
        has_at(s, m, ',') && reads_as_items(s.take(m), others.drop_last()) && reads_as(
            s.skip(m + 1),
            others.last(),
        );
    if items.len() == 1 {
        lemma_value_is_whole(s, items.last());
    } else {
        lemma_items_are_tame(s.take(k), items.drop_last());
        lemma_value_is_whole(s.skip(k + 1), items.last());
        assert(place_at(s, k) == top());
    }
    if others.len() == 1 {
        lemma_value_is_whole(s, others.last());
    } else {
        lemma_items_are_tame(s.take(m), others.drop_last());
        lemma_value_is_whole(s.skip(m + 1), others.last());
        assert(place_at(s, m) == top());
    }
    if items.len() > 1 && others.len() > 1 {
        if k < m {
            lemma_not_free_behind(s, k, m, ',');
        }
        if m < k {
            lemma_not_free_behind(s, m, k, ',');
        }
        lemma_same_items(s.take(k), items.drop_last(), others.drop_last());
        law_text_means_one_value(s.skip(k + 1), items.last(), others.last());
        assert(items =~= items.drop_last().push(items.last()));
        assert(others =~= others.drop_last().push(others.last()));
    } else {
        assert(items.len() == 1 && others.len() == 1);
        law_text_means_one_value(s, items.last(), others.last());
        assert(items =~= others);
    }
}

proof fn lemma_same_name(s: Seq<char>, one: Seq<char>, other: Seq<char>)
    requires
        reads_as_string(s, one),
        reads_as_string(s, other),
    ensures
        one == other,
{
    let (front, body, back) = choose|front: Seq<char>, body: Seq<char>, back: Seq<char>| #[trigger]
        is_padded(s, front, body, back) && spells_string(body, one);
    let (other_front, other_body, other_back) =
        choose|front: Seq<char>, body: Seq<char>, back: Seq<char>| #[trigger]
        is_padded(s, front, body, back) && spells_string(body, other);
    lemma_same_body(s, front, body, back, other_front, other_body, other_back);
}

proof fn lemma_same_member(
    s: Seq<char>,
    one: (Seq<char>, Json),
    other: (Seq<char>, Json),
)
    requires
        reads_as_member(s, one.0, one.1),
        reads_as_member(s, other.0, other.1),
    ensures
        one == other,
    decreases one.1, 2nat,
{
    let k = choose|k: int| #[trigger]
        has_at(s, k, ':') && reads_as_string(s.take(k), one.0) && reads_as(s.skip(k + 1), one.1);
    let m = choose|m: int| #[trigger]
        has_at(s, m, ':') && reads_as_string(s.take(m), other.0) && reads_as(
            s.skip(m + 1),
            other.1,
        );
    lemma_name_is_whole(s.take(k), one.0);
    lemma_name_is_whole(s.take(m), other.0);
    if k < m {
        lemma_not_free_behind(s, k, m, ':');
    }
    if m < k {
        lemma_not_free_behind(s, m, k, ':');
    }
    lemma_same_name(s.take(k), one.0, other.0);
    law_text_means_one_value(s.skip(k + 1), one.1, other.1);
}

proof fn lemma_same_members(
    s: Seq<char>,
    members: Seq<(Seq<char>, Json)>,
    others: Seq<(Seq<char>, Json)>,
)
    requires
        reads_as_members(s, members),
        reads_as_members(s, others),
    ensures
        members == others,
    decreases members, 3nat,
{
    let k = choose|k: int| #[trigger]
        has_at(s, k, ',') && reads_as_members(s.take(k), members.drop_last()) && reads_as_member(
            s.skip(k + 1),
            members.last().0,
            members.last().1,
        );
    let m = choose|m: int| #[trigger]
        has_at(s, m, ',') && reads_as_members(s.take(m), others.drop_last()) && reads_as_member(
            s.skip(m + 1),
            others.last().0,
            others.last().1,
        );
    if members.len() == 1 {
        lemma_member_is_tame(s, members.last().0, members.last().1);
    } else {
        lemma_members_are_tame(s.take(k), members.drop_last());
        lemma_member_is_tame(s.skip(k + 1), members.last().0, members.last().1);
        assert(place_at(s, k) == top());
    }
    if others.len() == 1 {
        lemma_member_is_tame(s, others.last().0, others.last().1);
    } else {
        lemma_members_are_tame(s.take(m), others.drop_last());
        lemma_member_is_tame(s.skip(m + 1), others.last().0, others.last().1);
        assert(place_at(s, m) == top());
    }
    if members.len() > 1 && others.len() > 1 {
        if k < m {
            lemma_not_free_behind(s, k, m, ',');
        }
        if m < k {
            lemma_not_free_behind(s, m, k, ',');
        }
        lemma_same_members(s.take(k), members.drop_last(), others.drop_last());
        lemma_same_member(s.skip(k + 1), members.last(), others.last());
        assert(members =~= members.drop_last().push(members.last()));
        assert(others =~= others.drop_last().push(others.last()));
    } else {
        assert(members.len() == 1 && others.len() == 1);
        lemma_same_member(s, members.last(), others.last());
        assert(members =~= others);
    }
}

} // verus!
