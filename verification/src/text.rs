//! Small pieces of text: digits, decimal numbers, runs of blanks, joined lists.

use vstd::prelude::*;

verus! {

/// `String::push`: appends one character at the end.
pub assume_specification[ String::push ](s: &mut String, c: char)
    ensures
        final(s)@ == old(s)@.push(c),
;

/// The lower-case hexadecimal digit of `d`, for `d` below sixteen.
pub open spec fn digit_char(d: int) -> char {
    if d == 0 {
        '0'
    } else if d == 1 {
        '1'
    } else if d == 2 {
        '2'
    } else if d == 3 {
        '3'
    } else if d == 4 {
        '4'
    } else if d == 5 {
        '5'
    } else if d == 6 {
        '6'
    } else if d == 7 {
        '7'
    } else if d == 8 {
        '8'
    } else if d == 9 {
        '9'
    } else if d == 10 {
        'a'
    } else if d == 11 {
        'b'
    } else if d == 12 {
        'c'
    } else if d == 13 {
        'd'
    } else if d == 14 {
        'e'
    } else {
        'f'
    }
}

/// Returns the digit that stands for `d`.
pub fn digit(d: u64) -> (c: char)
    requires
        d < 16,
    ensures
        c == digit_char(d as int),
{
    match d {
        0 => '0',
        1 => '1',
        2 => '2',
        3 => '3',
        4 => '4',
        5 => '5',
        6 => '6',
        7 => '7',
        8 => '8',
        9 => '9',
        10 => 'a',
        11 => 'b',
        12 => 'c',
        13 => 'd',
        14 => 'e',
        _ => 'f',
    }
}

/// `n` written in base ten, without leading zeros.
pub open spec fn decimal_text(n: nat) -> Seq<char>
    decreases n,
{
    if n < 10 {
        seq![digit_char(n as int)]
    } else {
        decimal_text(n / 10).push(digit_char((n % 10) as int))
    }
}

/// `n` written in base ten, with a sign in front where it is negative.
pub open spec fn signed_text(n: int) -> Seq<char> {
    if n < 0 {
        seq!['-'] + decimal_text((-n) as nat)
    } else {
        decimal_text(n as nat)
    }
}

/// Writes `n` in base ten.
pub fn decimal(n: u64) -> (res: String)
    ensures
        res@ == decimal_text(n as nat),
    decreases n,
{
    if n < 10 {
        let mut res = String::new();
        res.push(digit(n));
        assert(res@ =~= seq![digit_char(n as int)]);
        res
    } else {
        let mut res = decimal(n / 10);
        res.push(digit(n % 10));
        res
    }
}

/// Writes `n` in base ten, with its sign.
pub fn signed_decimal(n: i32) -> (res: String)
    ensures
        res@ == signed_text(n as int),
{
    if n < 0 {
        let magnitude: i64 = -(n as i64);
        let digits = decimal(magnitude as u64);
        let mut res = String::new();
        res.push('-');
        res.append(digits.as_str());
        assert(res@ =~= seq!['-'] + decimal_text((-n) as nat));
        res
    } else {
        decimal(n as u64)
    }
}

/// The parts one after the other, with `sep` between each two of them.
pub open spec fn joined(parts: Seq<Seq<char>>, sep: Seq<char>) -> Seq<char>
    decreases parts.len(),
{
    if parts.len() == 0 {
        Seq::empty()
    } else if parts.len() == 1 {
        parts[0]
    } else {
        joined(parts.drop_last(), sep) + sep + parts.last()
    }
}

/// The parts one after the other.
pub open spec fn concatenated(parts: Seq<Seq<char>>) -> Seq<char> {
    joined(parts, Seq::empty())
}

/// What the strings hold, in order.
pub open spec fn texts(parts: Seq<String>) -> Seq<Seq<char>> {
    Seq::new(parts.len(), |i: int| parts[i]@)
}

/// Writes the parts one after the other, with `sep` between each two of them.
pub fn join(parts: &Vec<String>, sep: &str) -> (res: String)
    ensures
        res@ == joined(texts(parts@), sep@),
{
    let mut res = String::new();
    let mut i: usize = 0;
    while i < parts.len()
        invariant
            i <= parts.len(),
            res@ == joined(texts(parts@).take(i as int), sep@),
        decreases parts.len() - i,
    {
        let ghost before = texts(parts@).take(i as int);
        let ghost after = texts(parts@).take(i + 1);
        if i > 0 {
            res.append(sep);
        }
        res.append(parts[i].as_str());
        proof {
            assert(after.drop_last() =~= before);
            assert(after.last() == parts@[i as int]@);
            if i == 0 {
                assert(res@ =~= after[0]);
            }
        }
        i += 1;
    }
    assert(texts(parts@).take(i as int) =~= texts(parts@));
    res
}

/// A run of `n` blanks.
pub open spec fn blanks_text(n: nat) -> Seq<char> {
    Seq::new(n, |i: int| ' ')
}

/// Writes a run of `n` blanks.
pub fn blanks(n: usize) -> (res: String)
    ensures
        res@ == blanks_text(n as nat),
{
    let mut res = String::new();
    let mut i: usize = 0;
    while i < n
        invariant
            i <= n,
            res@ == blanks_text(i as nat),
        decreases n - i,
    {
        res.push(' ');
        i += 1;
        assert(res@ =~= blanks_text(i as nat));
    }
    res
}

/// The number that a list of decimal digits stands for.
pub open spec fn decimal_value(s: Seq<char>) -> int
    decreases s.len(),
{
    if s.len() == 0 {
        0
    } else {
        decimal_value(s.drop_last()) * 10 + (s.last() as int - '0' as int)
    }
}

/// The decimal text of a number stands for that number, so that different
/// numbers have different texts.
pub proof fn law_decimal_reads_back(n: nat)
    ensures
        decimal_value(decimal_text(n)) == n,
    decreases n,
{
    reveal_with_fuel(decimal_value, 2);
    if n < 10 {
        assert(decimal_text(n).drop_last() =~= Seq::empty());
    } else {
        law_decimal_reads_back(n / 10);
        assert(decimal_text(n).drop_last() =~= decimal_text(n / 10));
    }
}

/// The decimal text of a number is made of decimal digits alone and begins with a zero
/// only where it is nothing else, so that there is no other way to write the number.
pub proof fn law_decimal_is_canonical(n: nat)
    ensures
        decimal_text(n).len() > 0,
        decimal_text(n)[0] == '0' ==> decimal_text(n).len() == 1,
        forall|i: int| 0 <= i < decimal_text(n).len() ==> '0' <= #[trigger] decimal_text(n)[i]
            <= '9',
    decreases n,
{
    if n >= 10 {
        law_decimal_is_canonical(n / 10);
        law_decimal_reads_back(n / 10);
        if decimal_text(n / 10)[0] == '0' {
            assert(decimal_text(n / 10).drop_last() =~= Seq::empty());
            reveal_with_fuel(decimal_value, 2);
            assert(decimal_value(decimal_text(n / 10)) == 0);
        }
    }
}

/// A number with a sign is a minus and its magnitude where it is negative, and the
/// number alone where it is not.
pub proof fn law_signed_decimal_reads_back(n: int)
    ensures
        n >= 0 ==> decimal_value(signed_text(n)) == n && signed_text(n) == decimal_text(n as nat),
        n < 0 ==> signed_text(n)[0] == '-' && signed_text(n).skip(1) == decimal_text((-n) as nat)
            && decimal_value(signed_text(n).skip(1)) == -n,
{
    if n >= 0 {
        law_decimal_reads_back(n as nat);
    } else {
        law_decimal_reads_back((-n) as nat);
        assert(signed_text(n).skip(1) =~= decimal_text((-n) as nat));
    }
}

/// A single part is joined to itself, and two lists that are joined one after the
/// other are joined with one separator between them. Nothing is joined to nothing.
pub proof fn law_joining(a: Seq<Seq<char>>, b: Seq<Seq<char>>, part: Seq<char>, sep: Seq<char>)
    ensures
        joined(Seq::empty(), sep).len() == 0,
        joined(seq![part], sep) == part,
        a.len() > 0 && b.len() > 0 ==> joined(a + b, sep) == joined(a, sep) + sep + joined(b, sep),
    decreases b.len(),
{
    if a.len() > 0 && b.len() > 0 {
        assert((a + b).drop_last() =~= a + b.drop_last());
        if b.len() == 1 {
            assert(b.drop_last() =~= Seq::empty());
            assert(a + b.drop_last() =~= a);
        } else {
            law_joining(a, b.drop_last(), part, sep);
            assert(joined(a + b, sep) =~= joined(a, sep) + sep + joined(b, sep));
        }
    }
}

/// A run of blanks has the length that is asked for, and holds blanks alone.
pub proof fn law_blanks(n: nat)
    ensures
        blanks_text(n).len() == n,
        forall|i: int| 0 <= i < n ==> #[trigger] blanks_text(n)[i] == ' ',
{
}

/// Digits below ten are decimal, and those above are the letters from `a` on.
pub proof fn law_digits(d: int)
    requires
        0 <= d < 16,
    ensures
        d < 10 ==> digit_char(d) as int == '0' as int + d,
        d >= 10 ==> digit_char(d) as int == 'a' as int + d - 10,
{
}

/// Strings are read one by one, as they are.
pub proof fn law_texts(parts: Seq<String>, i: int)
    requires
        0 <= i < parts.len(),
    ensures
        texts(parts).len() == parts.len(),
        texts(parts)[i] == parts[i]@,
{
}

/// Lists of parts that stand one after the other are one text after the other.
pub proof fn law_concatenation(a: Seq<Seq<char>>, b: Seq<Seq<char>>, part: Seq<char>)
    ensures
        concatenated(Seq::empty()).len() == 0,
        concatenated(seq![part]) == part,
        concatenated(a + b) == concatenated(a) + concatenated(b),
{
    law_joining(a, b, part, Seq::empty());
    if a.len() == 0 {
        assert(a + b =~= b);
        assert(concatenated(a) + concatenated(b) =~= concatenated(b));
    } else if b.len() == 0 {
        assert(a + b =~= a);
        assert(concatenated(a) + concatenated(b) =~= concatenated(a));
    } else {
        assert(concatenated(a) + Seq::<char>::empty() + concatenated(b) =~= concatenated(a)
            + concatenated(b));
    }
}

} // verus!
