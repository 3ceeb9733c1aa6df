//! What is written is JSON.

use vstd::prelude::*;

#[allow(unused_imports)]
use crate::grammar::{
    code_unit, first_char, has_at, hex_value, is_blank, is_digits, is_number, is_number_split,
    is_padded, reads_as, reads_as_items, reads_as_member, reads_as_members, reads_as_string, spells,
    spells_string, unescaped, Json,
};
#[allow(unused_imports)]
use crate::json::{
    colon_gap_text, comma_text, escaped, escaped_char, framed, gap_text, lead_text, member_text,
    quoted_text, render, rendered_items, rendered_members, tail_text, Doc, Layout, Members,
};
#[allow(unused_imports)]
use crate::text::{decimal_text, digit_char, joined, signed_text};

verus! {

proof fn lemma_escaped_front(s: Seq<char>)
    requires
        s.len() > 0,
    ensures
        escaped(s) == escaped_char(s[0]) + escaped(s.skip(1)),
    decreases s.len(),
{
    if s.len() == 1 {
        assert(s.drop_last() =~= Seq::empty());
        assert(s.skip(1) =~= Seq::empty());
        assert(escaped(s) =~= escaped_char(s[0]) + escaped(s.skip(1)));
    } else {
        lemma_escaped_front(s.drop_last());
        assert(s.drop_last().skip(1) =~= s.skip(1).drop_last());
        assert(escaped(s) =~= escaped_char(s[0]) + escaped(s.skip(1)));
    }
}

proof fn lemma_first_char_of_escaped(c: char, rest: Seq<char>)
    ensures
        first_char(escaped_char(c) + rest) == Some((c, escaped_char(c).len() as int)),
{
    let s = escaped_char(c) + rest;
    if c != '\\' && c != '"' && c != '\n' && c != '\r' && c != '\t' && (c as int) < 0x20 {
        let high = (c as int) / 16;
        let low = (c as int) % 16;
        assert(hex_value(digit_char(high)) == Some(high));
        assert(hex_value(digit_char(low)) == Some(low));
        assert(code_unit(s, 2) == Some(c as int));
        assert((c as int) as char == c);
    }
}

/// Escaping loses nothing: read as the inside of a JSON string, the escaped form
/// of a string is that string again.
pub proof fn law_escaping_is_undone(s: Seq<char>)
    ensures
        unescaped(escaped(s)) == Some(s),
    decreases s.len(),
{
    if s.len() == 0 {
        reveal(unescaped);
        assert(s =~= Seq::empty());
    } else {
        reveal(unescaped);
        let first = escaped_char(s[0]);
        let rest = escaped(s.skip(1));
        lemma_escaped_front(s);
        lemma_first_char_of_escaped(s[0], rest);
        law_escaping_is_undone(s.skip(1));
        assert((first + rest).skip(first.len() as int) =~= rest);
        assert(seq![s[0]] + s.skip(1) =~= s);
    }
}

/// A text without quotes, backslashes and control characters.
pub open spec fn is_plain(s: Seq<char>) -> bool {
    forall|i: int|
        0 <= i < s.len() ==> (#[trigger] s[i]) != '"' && s[i] != '\\' && (s[i] as int) >= 0x20
}

/// A plain text is its own escaped form, and so it stands for itself inside a JSON string.
pub proof fn law_plain_text_stands_for_itself(s: Seq<char>)
    requires
        is_plain(s),
    ensures
        escaped(s) == s,
        unescaped(s) == Some(s),
    decreases s.len(),
{
    law_escaping_is_undone(s);
    if s.len() > 0 {
        law_plain_text_stands_for_itself(s.drop_last());
        assert(s.drop_last().push(s.last()) =~= s);
    }
    assert(escaped(s) =~= s);
}

proof fn lemma_decimal_digits(n: nat)
    ensures
        is_digits(decimal_text(n)),
        n > 0 ==> decimal_text(n)[0] != '0',
        n == 0 ==> decimal_text(n).len() == 1,
    decreases n,
{
    if n >= 10 {
        lemma_decimal_digits(n / 10);
        let front = decimal_text(n / 10);
        let text = decimal_text(n);
        assert forall|i: int| 0 <= i < text.len() implies '0' <= #[trigger] text[i] <= '9' by {
            if i < front.len() {
                assert(text[i] == front[i]);
            }
        }
    }
}

/// A number in base ten is a JSON number, with or without a sign.
pub proof fn law_decimals_are_numbers(n: int)
    ensures
        is_number(signed_text(n)),
        n >= 0 ==> is_number(decimal_text(n as nat)),
{
    let s = signed_text(n);
    let len = s.len() as int;
    if n < 0 {
        lemma_decimal_digits((-n) as nat);
        assert(s.subrange(1, len) =~= decimal_text((-n) as nat));
        assert(is_number_split(s, 1, len, len));
    } else {
        lemma_decimal_digits(n as nat);
        assert(s.subrange(0, len) =~= decimal_text(n as nat));
        assert(is_number_split(s, 0, len, len));
    }
}

/// A value whose strings and numbers are written as JSON allows.
pub open spec fn is_legal(doc: Doc) -> bool
    decreases doc,
{
    match doc {
        Doc::Null => true,
        Doc::Bool(b) => true,
        Doc::Num(n) => is_number(n),
        Doc::Str(s) => unescaped(s) is Some,
        Doc::Arr(layout, items) => are_legal(items),
        Doc::Obj(layout, members) => are_legal_members(members),
    }
}

/// Values whose strings and numbers are written as JSON allows.
pub open spec fn are_legal(items: Seq<Doc>) -> bool
    decreases items,
{
    items.len() == 0 || (are_legal(items.drop_last()) && is_legal(items.last()))
}

/// Members whose names and values are written as JSON allows.
pub open spec fn are_legal_members(members: Members) -> bool
    decreases members,
{
    members.len() == 0 || (are_legal_members(members.drop_last()) && unescaped(members.last().0)
        is Some && is_legal(members.last().1))
}

/// The JSON value that is written.
pub open spec fn value_of(doc: Doc) -> Json
    decreases doc,
{
    match doc {
        Doc::Null => Json::Null,
        Doc::Bool(b) => Json::Bool(b),
        Doc::Num(n) => Json::Num(n),
        Doc::Str(s) => Json::Str(unescaped(s)->0),
        Doc::Arr(layout, items) => Json::Arr(values_of(items)),
        Doc::Obj(layout, members) => Json::Obj(member_values(members)),
    }
}

/// The JSON values that are written.
pub open spec fn values_of(items: Seq<Doc>) -> Seq<Json>
    decreases items,
{
    if items.len() == 0 {
        Seq::empty()
    } else {
        values_of(items.drop_last()).push(value_of(items.last()))
    }
}

/// The members that are written: their names, and their values.
pub open spec fn member_values(members: Members) -> Seq<(Seq<char>, Json)>
    decreases members,
{
    if members.len() == 0 {
        Seq::empty()
    } else {
        member_values(members.drop_last()).push(
            (unescaped(members.last().0)->0, value_of(members.last().1)),
        )
    }
}

proof fn lemma_values_len(items: Seq<Doc>)
    ensures
        values_of(items).len() == items.len(),
        rendered_items(items).len() == items.len(),
    decreases items.len(),
{
    if items.len() > 0 {
        lemma_values_len(items.drop_last());
    }
}

proof fn lemma_member_values_len(layout: Layout, members: Members)
    ensures
        member_values(members).len() == members.len(),
        rendered_members(layout, members).len() == members.len(),
    decreases members.len(),
{
    if members.len() > 0 {
        lemma_member_values_len(layout, members.drop_last());
    }
}

/// White space around a JSON text changes nothing.
pub proof fn law_padding_changes_nothing(s: Seq<char>, j: Json, front: Seq<char>, back: Seq<char>)
    requires
        reads_as(s, j),
        is_blank(front),
        is_blank(back),
    ensures
        reads_as(front + s + back, j),
{
    let (f, body, b) = choose|f: Seq<char>, body: Seq<char>, b: Seq<char>| #[trigger]
        is_padded(s, f, body, b) && spells(body, j);
    assert(front + s + back =~= (front + f) + body + (b + back));
    assert(is_padded(front + s + back, front + f, body, b + back));
}

proof fn lemma_spelled(body: Seq<char>, j: Json)
    requires
        spells(body, j),
    ensures
        reads_as(body, j),
{
    assert(body =~= Seq::<char>::empty() + body + Seq::<char>::empty());
    assert(is_padded(body, Seq::empty(), body, Seq::empty()));
}

proof fn lemma_pad_items(s: Seq<char>, items: Seq<Json>, front: Seq<char>, back: Seq<char>)
    requires
        reads_as_items(s, items),
        is_blank(front),
        is_blank(back),
    ensures
        reads_as_items(front + s + back, items),
    decreases items.len(),
{
    let t = front + s + back;
    if items.len() == 1 {
        law_padding_changes_nothing(s, items.last(), front, back);
    } else {
        let k = choose|k: int| #[trigger]
            has_at(s, k, ',') && reads_as_items(s.take(k), items.drop_last()) && reads_as(
                s.skip(k + 1),
                items.last(),
            );
        let none = Seq::<char>::empty();
        lemma_pad_items(s.take(k), items.drop_last(), front, none);
        law_padding_changes_nothing(s.skip(k + 1), items.last(), none, back);
        let n = front.len() + k;
        assert(t.take(n) =~= front + s.take(k) + none);
        assert(t.skip(n + 1) =~= none + s.skip(k + 1) + back);
        assert(has_at(t, n, ','));
    }
}

proof fn lemma_pad_member(
    s: Seq<char>,
    name: Seq<char>,
    value: Json,
    front: Seq<char>,
    back: Seq<char>,
)
    requires
        reads_as_member(s, name, value),
        is_blank(front),
        is_blank(back),
    ensures
        reads_as_member(front + s + back, name, value),
{
    let t = front + s + back;
    let k = choose|k: int| #[trigger]
        has_at(s, k, ':') && reads_as_string(s.take(k), name) && reads_as(s.skip(k + 1), value);
    let none = Seq::<char>::empty();
    let (f, body, b) = choose|f: Seq<char>, body: Seq<char>, b: Seq<char>| #[trigger]
        is_padded(s.take(k), f, body, b) && spells_string(body, name);
    law_padding_changes_nothing(s.skip(k + 1), value, none, back);
    let n = front.len() + k;
    assert(t.take(n) =~= front + s.take(k));
    assert(front + (f + body + b) =~= (front + f) + body + b);
    assert(is_padded(t.take(n), front + f, body, b));
    assert(t.skip(n + 1) =~= none + s.skip(k + 1) + back);
    assert(has_at(t, n, ':'));
}

proof fn lemma_pad_members(
    s: Seq<char>,
    members: Seq<(Seq<char>, Json)>,
    front: Seq<char>,
    back: Seq<char>,
)
    requires
        reads_as_members(s, members),
        is_blank(front),
        is_blank(back),
    ensures
        reads_as_members(front + s + back, members),
    decreases members.len(),
{
    let t = front + s + back;
    if members.len() == 1 {
        lemma_pad_member(s, members.last().0, members.last().1, front, back);
    } else {
        let k = choose|k: int| #[trigger]
            has_at(s, k, ',') && reads_as_members(s.take(k), members.drop_last())
                && reads_as_member(s.skip(k + 1), members.last().0, members.last().1);
        let none = Seq::<char>::empty();
        lemma_pad_members(s.take(k), members.drop_last(), front, none);
        lemma_pad_member(s.skip(k + 1), members.last().0, members.last().1, none, back);
        let n = front.len() + k;
        assert(t.take(n) =~= front + s.take(k) + none);
        assert(t.skip(n + 1) =~= none + s.skip(k + 1) + back);
        assert(has_at(t, n, ','));
    }
}

proof fn lemma_layout_is_blank(layout: Layout)
    ensures
        is_blank(lead_text(layout)),
        is_blank(gap_text(layout)),
        is_blank(tail_text(layout)),
        is_blank(colon_gap_text(layout)),
{
}

proof fn lemma_quoted_spells(raw: Seq<char>)
    requires
        unescaped(raw) is Some,
    ensures
        spells_string(quoted_text(raw), unescaped(raw)->0),
{
    let body = quoted_text(raw);
    assert(body.subrange(1, body.len() - 1) =~= raw);
}

/// What is written for a value whose strings and numbers are legal is a JSON
/// text, and it reads as that value.
pub proof fn law_rendered_reads_back(doc: Doc)
    requires
        is_legal(doc),
    ensures
        spells(render(doc), value_of(doc)),
        reads_as(render(doc), value_of(doc)),
    decreases doc,
{
    let text = render(doc);
    match doc {
        Doc::Null => {},
        Doc::Bool(b) => {},
        Doc::Num(n) => {},
        Doc::Str(s) => {
            lemma_quoted_spells(s);
        },
        Doc::Arr(layout, items) => {
            lemma_values_len(items);
            let parts = rendered_items(items);
            let inner = text.subrange(1, text.len() - 1);
            if items.len() == 0 {
                assert(is_blank(inner));
            } else {
                lemma_items_read_back(layout, items);
                lemma_layout_is_blank(layout);
                let list = joined(parts, comma_text(layout));
                assert(inner =~= lead_text(layout) + list + tail_text(layout));
                lemma_pad_items(list, values_of(items), lead_text(layout), tail_text(layout));
            }
        },
        Doc::Obj(layout, members) => {
            lemma_member_values_len(layout, members);
            let parts = rendered_members(layout, members);
            let inner = text.subrange(1, text.len() - 1);
            if members.len() == 0 {
                assert(is_blank(inner));
            } else {
                lemma_members_read_back(layout, members);
                lemma_layout_is_blank(layout);
                let list = joined(parts, comma_text(layout));
                assert(inner =~= lead_text(layout) + list + tail_text(layout));
                lemma_pad_members(
                    list,
                    member_values(members),
                    lead_text(layout),
                    tail_text(layout),
                );
            }
        },
    }
    lemma_spelled(text, value_of(doc));
}

proof fn lemma_items_read_back(layout: Layout, items: Seq<Doc>)
    requires
        items.len() > 0,
        are_legal(items),
    ensures
        reads_as_items(joined(rendered_items(items), comma_text(layout)), values_of(items)),
    decreases items,
{
    let last = items.last();
    let rest = items.drop_last();
    let parts = rendered_items(items);
    let values = values_of(items);
    lemma_values_len(items);
    lemma_values_len(rest);
    law_rendered_reads_back(last);
    assert(parts.drop_last() =~= rendered_items(rest));
    assert(values.drop_last() =~= values_of(rest));
    if items.len() > 1 {
        lemma_items_read_back(layout, rest);
        lemma_layout_is_blank(layout);
        let front = joined(rendered_items(rest), comma_text(layout));
        let s = joined(parts, comma_text(layout));
        let none = Seq::<char>::empty();
        law_padding_changes_nothing(render(last), value_of(last), gap_text(layout), none);
        let k = front.len() as int;
        assert(s =~= front + comma_text(layout) + render(last));
        assert(s.take(k) =~= front);
        assert(s.skip(k + 1) =~= gap_text(layout) + render(last) + none);
        assert(has_at(s, k, ','));
    }
}

proof fn lemma_member_reads_back(layout: Layout, name: Seq<char>, value: Doc)
    requires
        unescaped(name) is Some,
        is_legal(value),
        reads_as(render(value), value_of(value)),
    ensures
        reads_as_member(
            member_text(name, render(value), layout),
            unescaped(name)->0,
            value_of(value),
        ),
{
    let s = member_text(name, render(value), layout);
    let none = Seq::<char>::empty();
    let gap = colon_gap_text(layout);
    lemma_layout_is_blank(layout);
    lemma_quoted_spells(name);
    law_padding_changes_nothing(render(value), value_of(value), gap, none);
    let k = quoted_text(name).len() as int;
    assert(s.take(k) =~= none + quoted_text(name) + none);
    assert(is_padded(s.take(k), none, quoted_text(name), none));
    assert(s.skip(k + 1) =~= gap + render(value) + none);
    assert(has_at(s, k, ':'));
}

proof fn lemma_members_read_back(layout: Layout, members: Members)
    requires
        members.len() > 0,
        are_legal_members(members),
    ensures
        reads_as_members(
            joined(rendered_members(layout, members), comma_text(layout)),
            member_values(members),
        ),
    decreases members,
{
    let last = members.last();
    let rest = members.drop_last();
    let parts = rendered_members(layout, members);
    let values = member_values(members);
    lemma_member_values_len(layout, members);
    lemma_member_values_len(layout, rest);
    law_rendered_reads_back(last.1);
    lemma_member_reads_back(layout, last.0, last.1);
    assert(parts.drop_last() =~= rendered_members(layout, rest));
    assert(values.drop_last() =~= member_values(rest));
    if members.len() > 1 {
        lemma_members_read_back(layout, rest);
        lemma_layout_is_blank(layout);
        let front = joined(rendered_members(layout, rest), comma_text(layout));
        let s = joined(parts, comma_text(layout));
        let text = member_text(last.0, render(last.1), layout);
        let none = Seq::<char>::empty();
        lemma_pad_member(
            text,
            unescaped(last.0)->0,
            value_of(last.1),
            gap_text(layout),
            none,
        );
        let k = front.len() as int;
        assert(s =~= front + comma_text(layout) + text);
        assert(s.take(k) =~= front);
        assert(s.skip(k + 1) =~= gap_text(layout) + text + none);
        assert(has_at(s, k, ','));
    }
}

/// Strings are escaped character by character.
pub proof fn law_escaping_of_parts(a: Seq<char>, b: Seq<char>)
    ensures
        escaped(a + b) == escaped(a) + escaped(b),
        escaped(Seq::empty()).len() == 0,
    decreases b.len(),
{
    if b.len() == 0 {
        assert(a + b =~= a);
        assert(escaped(a) + escaped(b) =~= escaped(a));
    } else {
        law_escaping_of_parts(a, b.drop_last());
        assert((a + b).drop_last() =~= a + b.drop_last());
        assert(escaped(a + b) =~= escaped(a) + escaped(b));
    }
}

/// What is written for each single character: a backslash and itself for a quote and a
/// backslash, a backslash and a letter for a line feed, a carriage return and a tab, a
/// code of four digits for the other control characters, and itself for all the rest.
pub proof fn law_escaped_characters(c: char)
    ensures
        c == '"' || c == '\\' ==> escaped(seq![c]) == seq!['\\', c],
        c == '\n' ==> escaped(seq![c]) == seq!['\\', 'n'],
        c == '\r' ==> escaped(seq![c]) == seq!['\\', 'r'],
        c == '\t' ==> escaped(seq![c]) == seq!['\\', 't'],
        (c as int) < 0x20 && c != '\n' && c != '\r' && c != '\t' ==> {
            let code = escaped(seq![c]);
            &&& code.len() == 6
            &&& code[0] == '\\'
            &&& code[1] == 'u'
            &&& code_unit(code, 2) == Some(c as int)
            &&& forall|i: int| 2 <= i < 6 ==> !('A' <= #[trigger] code[i] <= 'F')
        },
        (c as int) >= 0x20 && c != '"' && c != '\\' ==> escaped(seq![c]) == seq![c],
{
    assert(seq![c].drop_last() =~= Seq::empty());
    reveal_with_fuel(escaped, 2);
    let code = escaped(seq![c]);
    assert(code =~= escaped_char(c));
    if (c as int) < 0x20 && c != '\n' && c != '\r' && c != '\t' {
        let high = (c as int) / 16;
        let low = (c as int) % 16;
        assert(hex_value(digit_char(high)) == Some(high));
        assert(hex_value(digit_char(low)) == Some(low));
        assert(code_unit(code, 2) == Some(c as int));
    }
}

/// The value that a document stands for has the same shape: the same truth value, the
/// same number, the string that its text stands for, and the values of its items and
/// members in the same order.
pub proof fn law_values_are_those_laid_out(doc: Doc)
    ensures
        doc is Null ==> value_of(doc) == Json::Null,
        doc matches Doc::Bool(b) ==> value_of(doc) == Json::Bool(b),
        doc matches Doc::Num(n) ==> value_of(doc) == Json::Num(n),
        doc matches Doc::Str(s) ==> unescaped(s) is Some ==> value_of(doc) == Json::Str(
            unescaped(s)->0,
        ),
        doc matches Doc::Arr(_, items) ==> {
            &&& value_of(doc) is Arr
            &&& value_of(doc)->Arr_0.len() == items.len()
            &&& forall|i: int|
                0 <= i < items.len() ==> #[trigger] value_of(doc)->Arr_0[i] == value_of(items[i])
        },
        doc matches Doc::Obj(_, members) ==> {
            &&& value_of(doc) is Obj
            &&& value_of(doc)->Obj_0.len() == members.len()
            &&& forall|i: int|
                0 <= i < members.len() ==> #[trigger] value_of(doc)->Obj_0[i] == (
                    unescaped(members[i].0)->0,
                    value_of(members[i].1),
                )
        },
{
    if let Doc::Arr(_, items) = doc {
        lemma_item_values(items);
    }
    if let Doc::Obj(_, members) = doc {
        lemma_all_member_values(members);
    }
}

proof fn lemma_item_values(items: Seq<Doc>)
    ensures
        values_of(items).len() == items.len(),
        forall|i: int|
            0 <= i < items.len() ==> #[trigger] values_of(items)[i] == value_of(items[i]),
    decreases items.len(),
{
    if items.len() > 0 {
        let rest = items.drop_last();
        lemma_item_values(rest);
        assert forall|i: int| 0 <= i < items.len() implies #[trigger] values_of(items)[i]
            == value_of(items[i]) by {
            if i < rest.len() {
                assert(values_of(rest)[i] == value_of(rest[i]));
            }
        }
    }
}

proof fn lemma_all_member_values(members: Members)
    ensures
        member_values(members).len() == members.len(),
        forall|i: int|
            0 <= i < members.len() ==> #[trigger] member_values(members)[i] == (
                unescaped(members[i].0)->0,
                value_of(members[i].1),
            ),
    decreases members.len(),
{
    if members.len() > 0 {
        let rest = members.drop_last();
        lemma_all_member_values(rest);
        assert forall|i: int| 0 <= i < members.len() implies #[trigger] member_values(members)[i]
            == (unescaped(members[i].0)->0, value_of(members[i].1)) by {
            if i < rest.len() {
                assert(member_values(rest)[i] == (
                    unescaped(rest[i].0)->0,
                    value_of(rest[i].1),
                ));
            }
        }
    }
}

/// White space is put where the layout says: none at all, one blank behind a comma, or
/// every entry on a line of its own with the given indentation and the closing bracket
/// two blanks further out. Except in the tight layout, a blank stands behind a colon.
pub proof fn law_white_space(n: usize, name: Seq<char>, value: Seq<char>)
    ensures
        lead_text(Layout::Tight).len() == 0,
        comma_text(Layout::Tight) == seq![','],
        tail_text(Layout::Tight).len() == 0,
        member_text(name, value, Layout::Tight) == seq!['"'] + name + seq!['"', ':'] + value,
        lead_text(Layout::Spaced).len() == 0,
        comma_text(Layout::Spaced) == seq![',', ' '],
        tail_text(Layout::Spaced).len() == 0,
        member_text(name, value, Layout::Spaced) == seq!['"'] + name + seq!['"', ':', ' '] + value,
        lead_text(Layout::Lines(n)) == seq!['\n'] + Seq::new(n as nat, |i: int| ' '),
        comma_text(Layout::Lines(n)) == seq![',', '\n'] + Seq::new(n as nat, |i: int| ' '),
        n >= 2 ==> tail_text(Layout::Lines(n)) == seq!['\n'] + Seq::new(
            (n - 2) as nat,
            |i: int| ' ',
        ),
        member_text(name, value, Layout::Lines(n)) == member_text(name, value, Layout::Spaced),
{
    assert(member_text(name, value, Layout::Tight) =~= seq!['"'] + name + seq!['"', ':'] + value);
    assert(member_text(name, value, Layout::Spaced) =~= seq!['"'] + name + seq!['"', ':', ' ']
        + value);
    assert(comma_text(Layout::Tight) =~= seq![',']);
    assert(comma_text(Layout::Spaced) =~= seq![',', ' ']);
    assert(lead_text(Layout::Lines(n)) =~= seq!['\n'] + Seq::new(n as nat, |i: int| ' '));
    assert(comma_text(Layout::Lines(n)) =~= seq![',', '\n'] + Seq::new(n as nat, |i: int| ' '));
    if n >= 2 {
        assert(tail_text(Layout::Lines(n)) =~= seq!['\n'] + Seq::new(
            (n - 2) as nat,
            |i: int| ' ',
        ));
    }
}

/// An empty list is two brackets and nothing between them. The text of any other list
/// is its entries with commas between them, between brackets, with the white space of
/// its layout at both ends.
pub proof fn law_brackets(open: char, close: char, layout: Layout, parts: Seq<Seq<char>>)
    ensures
        parts.len() == 0 ==> framed(open, close, layout, parts) == seq![open, close],
        parts.len() > 0 ==> {
            let s = framed(open, close, layout, parts);
            let lead = lead_text(layout);
            let tail = tail_text(layout);
            &&& s.len() == lead.len() + joined(parts, comma_text(layout)).len() + tail.len() + 2
            &&& s[0] == open
            &&& s.last() == close
            &&& s.subrange(1, 1int + lead.len()) == lead
            &&& s.subrange(1int + lead.len(), s.len() - 1 - tail.len()) == joined(
                parts,
                comma_text(layout),
            )
            &&& s.subrange(s.len() - 1 - tail.len(), s.len() - 1) == tail
        },
{
    let s = framed(open, close, layout, parts);
    let lead = lead_text(layout);
    let tail = tail_text(layout);
    if parts.len() > 0 {
        assert(s.subrange(1, 1int + lead.len()) =~= lead);
        assert(s.subrange(1int + lead.len(), s.len() - 1 - tail.len()) =~= joined(
            parts,
            comma_text(layout),
        ));
        assert(s.subrange(s.len() - 1 - tail.len(), s.len() - 1) =~= tail);
    }
}

proof fn lemma_rendered_each(items: Seq<Doc>)
    ensures
        rendered_items(items).len() == items.len(),
        forall|i: int|
            0 <= i < items.len() ==> #[trigger] rendered_items(items)[i] == render(items[i]),
    decreases items.len(),
{
    if items.len() > 0 {
        let rest = items.drop_last();
        lemma_rendered_each(rest);
        assert forall|i: int| 0 <= i < items.len() implies #[trigger] rendered_items(items)[i]
            == render(items[i]) by {
            if i < rest.len() {
                assert(rendered_items(rest)[i] == render(rest[i]));
            }
        }
    }
}

proof fn lemma_rendered_each_member(layout: Layout, members: Members)
    ensures
        rendered_members(layout, members).len() == members.len(),
        forall|i: int|
            0 <= i < members.len() ==> #[trigger] rendered_members(layout, members)[i]
                == member_text(members[i].0, render(members[i].1), layout),
    decreases members.len(),
{
    if members.len() > 0 {
        let rest = members.drop_last();
        lemma_rendered_each_member(layout, rest);
        assert forall|i: int| 0 <= i < members.len() implies #[trigger] rendered_members(
            layout,
            members,
        )[i] == member_text(members[i].0, render(members[i].1), layout) by {
            if i < rest.len() {
                assert(rendered_members(layout, rest)[i] == member_text(
                    rest[i].0,
                    render(rest[i].1),
                    layout,
                ));
            }
        }
    }
}

/// How a document is written: a word, a number by its text, a string between quotes,
/// and a list between its brackets, every item and every member of it in the layout of
/// the list and nothing else.
pub proof fn law_rendering(doc: Doc)
    ensures
        doc is Null ==> render(doc) == "null"@,
        doc == Doc::Bool(true) ==> render(doc) == "true"@,
        doc == Doc::Bool(false) ==> render(doc) == "false"@,
        doc matches Doc::Num(n) ==> render(doc) == n,
        doc matches Doc::Str(s) ==> render(doc) == seq!['"'] + s + seq!['"'] && quoted_text(s)
            == render(doc),
        doc matches Doc::Arr(layout, items) ==> {
            let parts = Seq::new(items.len(), |i: int| render(items[i]));
            render(doc) == framed('[', ']', layout, parts)
        },
        doc matches Doc::Obj(layout, members) ==> {
            let parts = Seq::new(
                members.len(),
                |i: int| member_text(members[i].0, render(members[i].1), layout),
            );
            render(doc) == framed('{', '}', layout, parts)
        },
{
    if let Doc::Arr(layout, items) = doc {
        lemma_rendered_each(items);
        assert(rendered_items(items) =~= Seq::new(items.len(), |i: int| render(items[i])));
    }
    if let Doc::Obj(layout, members) = doc {
        lemma_rendered_each_member(layout, members);
        assert(rendered_members(layout, members) =~= Seq::new(
            members.len(),
            |i: int| member_text(members[i].0, render(members[i].1), layout),
        ));
    }
}

} // verus!
