//! Writing text piece by piece.
//!
//! An object is handed to a writer line by line, and the first piece that cannot
//! be written is the last one that is tried.

use vstd::prelude::*;

#[allow(unused_imports)]
use crate::json::{comma_text, framed, lead_text, tail_text, Layout};
#[allow(unused_imports)]
use crate::text::{concatenated, joined, texts};

verus! {

/// The line for the member `i` of an object.
pub open spec fn member_line(parts: Seq<Seq<char>>, i: int) -> Seq<char> {
    "  "@ + parts[i] + if i + 1 < parts.len() {
        ",\n"@
    } else {
        "\n"@
    }
}

/// The lines of an object, from the texts of its members.
pub open spec fn object_lines(parts: Seq<Seq<char>>) -> Seq<Seq<char>> {
    seq!["{\n"@] + Seq::new(parts.len(), |i: int| member_line(parts, i)) + seq!["}\n"@]
}

/// Returns the lines of an object, from the texts of its members.
pub fn lines_of(parts: &Vec<String>) -> (res: Vec<String>)
    ensures
        texts(res@) == object_lines(texts(parts@)),
{
    let ghost all = texts(parts@);
    let mut res: Vec<String> = Vec::new();
    res.push("{\n".to_owned());
    let mut i: usize = 0;
    while i < parts.len()
        invariant
            i <= parts.len(),
            all == texts(parts@),
            res@.len() == i + 1,
            res@[0]@ == "{\n"@,
            forall|j: int| 0 < j <= i ==> (#[trigger] res@[j])@ == member_line(all, j - 1),
        decreases parts.len() - i,
    {
        let mut line = "  ".to_owned();
        line.append(parts[i].as_str());
        if i < parts.len() - 1 {
            line.append(",\n");
        } else {
            line.append("\n");
        }
        assert(line@ == member_line(all, i as int));
        res.push(line);
        i += 1;
    }
    res.push("}\n".to_owned());
    assert(texts(res@) =~= object_lines(all));
    res
}

proof fn lemma_concatenated_push(pieces: Seq<Seq<char>>, piece: Seq<char>)
    ensures
        concatenated(pieces.push(piece)) == concatenated(pieces) + piece,
{
    let all = pieces.push(piece);
    assert(all.drop_last() =~= pieces);
    assert(concatenated(all) =~= concatenated(pieces) + piece);
}

proof fn lemma_first_lines(parts: Seq<Seq<char>>, k: int)
    requires
        0 < k <= parts.len(),
    ensures
        concatenated(object_lines(parts).take(k + 1)) == "{\n  "@ + joined(
            parts.take(k),
            ",\n  "@,
        ) + if k < parts.len() {
            ",\n"@
        } else {
            "\n"@
        },
    decreases k,
{
    reveal_strlit("{\n");
    reveal_strlit("  ");
    reveal_strlit("{\n  ");
    reveal_strlit(",\n");
    reveal_strlit(",\n  ");
    let lines = object_lines(parts);
    assert(lines.take(k + 1) =~= lines.take(k).push(member_line(parts, k - 1)));
    lemma_concatenated_push(lines.take(k), member_line(parts, k - 1));
    let end = if k < parts.len() {
        ",\n"@
    } else {
        "\n"@
    };
    if k == 1 {
        assert(lines.take(1) =~= seq!["{\n"@]);
        assert(concatenated(lines.take(1)) =~= "{\n"@);
        assert(parts.take(1)[0] == parts[0]);
        assert("{\n"@ + "  "@ =~= "{\n  "@);
        assert("{\n"@ + ("  "@ + parts[0] + end) =~= ("{\n"@ + "  "@) + parts[0] + end);
    } else {
        lemma_first_lines(parts, k - 1);
        let front = joined(parts.take(k - 1), ",\n  "@);
        assert(parts.take(k).drop_last() =~= parts.take(k - 1));
        assert(",\n"@ + "  "@ =~= ",\n  "@);
        assert(("{\n  "@ + front + ",\n"@) + ("  "@ + parts[k - 1] + end) =~= "{\n  "@ + (front + (
        ",\n"@ + "  "@) + parts[k - 1]) + end);
    }
}

/// The lines of an object, one after the other, are the object and a line break.
pub proof fn law_lines_make_up_the_object(parts: Seq<Seq<char>>)
    requires
        parts.len() > 0,
    ensures
        concatenated(object_lines(parts)) == framed('{', '}', Layout::Lines(2), parts).push('\n'),
{
    reveal_strlit("{\n  ");
    reveal_strlit(",\n  ");
    reveal_strlit("\n");
    reveal_strlit("}\n");
    let lines = object_lines(parts);
    let n = parts.len() as int;
    lemma_first_lines(parts, n);
    assert(lines =~= lines.take(n + 1).push("}\n"@));
    lemma_concatenated_push(lines.take(n + 1), "}\n"@);
    assert(parts.take(n) =~= parts);
    assert(seq!['{'] + lead_text(Layout::Lines(2)) =~= "{\n  "@);
    assert(comma_text(Layout::Lines(2)) =~= ",\n  "@);
    assert(tail_text(Layout::Lines(2)) =~= "\n"@);
    assert(seq!['}'].push('\n') =~= "}\n"@);
    assert(concatenated(lines) =~= framed('{', '}', Layout::Lines(2), parts).push('\n'));
}

/// A step of writing pieces.
#[derive(Clone, Copy, Debug, PartialEq, Eq, Structural)]
pub enum WriteStep {
    /// Write the piece with this number.
    Write { index: usize, count: usize },
    /// All pieces are written.
    Done,
    /// The piece with this number could not be written.
    Failed { index: usize },
}

/// The step at which the pieces in front of `index` are written.
pub open spec fn write_step(index: int, count: usize) -> WriteStep {
    if index < count {
        WriteStep::Write { index: index as usize, count }
    } else {
        WriteStep::Done
    }
}

/// The step behind `step`, where its piece was written or not.
pub open spec fn next_write_step(step: WriteStep, written: bool) -> WriteStep {
    match step {
        WriteStep::Write { index, count } => if written {
            write_step(index + 1, count)
        } else {
            WriteStep::Failed { index }
        },
        _ => step,
    }
}

/// Returns the first step of writing `count` pieces.
pub fn write_first(count: usize) -> (res: WriteStep)
    ensures
        res == write_step(0, count),
{
    if count > 0 {
        WriteStep::Write { index: 0, count }
    } else {
        WriteStep::Done
    }
}

/// Returns the step behind `step`, from whether its piece was written.
pub fn write_next(step: WriteStep, written: bool) -> (res: WriteStep)
    ensures
        res == next_write_step(step, written),
{
    match step {
        WriteStep::Write { index, count } => {
            if !written {
                WriteStep::Failed { index }
            } else if index < count && index + 1 < count {
                WriteStep::Write { index: index + 1, count }
            } else {
                WriteStep::Done
            }
        },
        _ => step,
    }
}

/// What a writer has received after the first `n` steps, and the step that is next.
/// `bad` is the number of the piece that cannot be written, where there is one.
pub open spec fn write_run(pieces: Seq<Seq<char>>, bad: Option<int>, n: nat) -> (
    Seq<char>,
    WriteStep,
)
    decreases n,
{
    if n == 0 {
        (Seq::empty(), write_step(0, pieces.len() as usize))
    } else {
        let (received, step) = write_run(pieces, bad, (n - 1) as nat);
        match step {
            WriteStep::Write { index, .. } => if bad == Some(index as int) {
                (received, next_write_step(step, false))
            } else {
                (received + pieces[index as int], next_write_step(step, true))
            },
            _ => (received, step),
        }
    }
}

proof fn lemma_concatenated_prefix(pieces: Seq<Seq<char>>, k: int)
    requires
        0 <= k <= pieces.len(),
    ensures
        concatenated(pieces.take(k)).is_prefix_of(concatenated(pieces)),
    decreases pieces.len() - k,
{
    let front = concatenated(pieces.take(k));
    let all = concatenated(pieces);
    if k < pieces.len() {
        lemma_concatenated_prefix(pieces, k + 1);
        lemma_concatenated_push(pieces.take(k), pieces[k]);
        assert(pieces.take(k + 1) =~= pieces.take(k).push(pieces[k]));
        let next = concatenated(pieces.take(k + 1));
        assert forall|i: int| 0 <= i < front.len() implies front[i] == all[i] by {
            assert(next[i] == front[i]);
            assert(next[i] == all.subrange(0, next.len() as int)[i]);
        }
        assert(front =~= all.subrange(0, front.len() as int));
    } else {
        assert(pieces.take(k) =~= pieces);
        assert(all =~= all.subrange(0, all.len() as int));
    }
}

/// Pieces are written in order, each of them once. A piece that cannot be written
/// ends the writing at once: the writer has received the pieces in front of it and
/// receives nothing more. Where every piece can be written, it receives all of them.
pub proof fn law_writing_stops_at_a_failure(pieces: Seq<Seq<char>>, bad: Option<int>, n: nat)
    requires
        pieces.len() <= usize::MAX,
        bad matches Some(k) ==> 0 <= k < pieces.len(),
    ensures
        bad matches Some(k) ==> n > k ==> write_run(pieces, bad, n) == (
            concatenated(pieces.take(k)),
            WriteStep::Failed { index: k as usize },
        ),
        bad matches Some(k) ==> concatenated(pieces.take(k)).is_prefix_of(concatenated(pieces)),
        bad matches Some(k) ==> n <= k ==> write_run(pieces, bad, n) == (
            concatenated(pieces.take(n as int)),
            write_step(n as int, pieces.len() as usize),
        ),
        bad is None && n <= pieces.len() ==> write_run(pieces, bad, n) == (
            concatenated(pieces.take(n as int)),
            write_step(n as int, pieces.len() as usize),
        ),
        bad is None && n >= pieces.len() ==> write_run(pieces, bad, n) == (
            concatenated(pieces),
            WriteStep::Done,
        ),
    decreases n,
{
    if let Some(k) = bad {
        lemma_concatenated_prefix(pieces, k);
    }
    assert(pieces.take(pieces.len() as int) =~= pieces);
    if n == 0 {
        assert(concatenated(pieces.take(0)) =~= Seq::empty());
    } else {
        let before = (n - 1) as nat;
        law_writing_stops_at_a_failure(pieces, bad, before);
        if before < pieces.len() {
            lemma_concatenated_push(pieces.take(before as int), pieces[before as int]);
            assert(pieces.take(n as int) =~= pieces.take(before as int).push(
                pieces[before as int],
            ));
        }
    }
}

/// The pieces of an object are its opening bracket, a line for each of its members,
/// indented by two blanks and with a comma behind all but the last, and its closing
/// bracket.
pub proof fn law_pieces_of_an_object(parts: Seq<Seq<char>>, i: int)
    requires
        0 <= i < parts.len(),
    ensures
        object_lines(parts).len() == parts.len() + 2,
        object_lines(parts)[0] == "{\n"@,
        object_lines(parts).last() == "}\n"@,
        i < parts.len() - 1 ==> object_lines(parts)[i + 1] == "  "@ + parts[i] + ",\n"@,
        i == parts.len() - 1 ==> object_lines(parts)[i + 1] == "  "@ + parts[i] + "\n"@,
{
}

} // verus!
