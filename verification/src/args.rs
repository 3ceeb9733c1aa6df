//! The arguments of a compiled function, in the order of their numbers.

use vstd::prelude::*;

use crate::model::{Value, ValueDef};

verus! {

/// An argument: its number, and the text of the value that holds it.
pub type Arg = (usize, Seq<char>);

/// The arguments among the values of a function, in the order of the values.
pub open spec fn args_of(values: Seq<(Value, ValueDef)>) -> Seq<Arg>
    decreases values.len(),
{
    if values.len() == 0 {
        Seq::empty()
    } else {
        let before = args_of(values.drop_last());
        match values.last().1 {
            ValueDef::Param(number) => before.push((number, values.last().0.text@)),
            _ => before,
        }
    }
}

/// `args` with `arg` put behind all the leading ones, up to the last one whose
/// number is not greater.
pub open spec fn inserted(args: Seq<Arg>, arg: Arg) -> Seq<Arg>
    decreases args.len(),
{
    if args.len() == 0 || args.last().0 <= arg.0 {
        args.push(arg)
    } else {
        inserted(args.drop_last(), arg).push(args.last())
    }
}

/// The arguments by number; those with the same number stay in their order.
pub open spec fn by_number(args: Seq<Arg>) -> Seq<Arg>
    decreases args.len(),
{
    if args.len() == 0 {
        Seq::empty()
    } else {
        inserted(by_number(args.drop_last()), args.last())
    }
}

/// No argument stands behind one with a greater number.
pub open spec fn is_by_number(args: Seq<Arg>) -> bool {
    forall|i: int, j: int|
        0 <= i < j < args.len() ==> (#[trigger] args[i]).0 <= (#[trigger] args[j]).0
}

/// Whether an argument has the given number.
pub open spec fn numbered(number: usize) -> spec_fn(Arg) -> bool {
    |arg: Arg| arg.0 == number
}

/// What a list of numbered strings holds.
pub open spec fn args_view(args: Seq<(usize, String)>) -> Seq<Arg> {
    Seq::new(args.len(), |i: int| (args[i].0, args[i].1@))
}

/// Where an argument is put.
proof fn lemma_inserted_at(args: Seq<Arg>, arg: Arg, at: int)
    requires
        0 <= at <= args.len(),
        at > 0 ==> args[at - 1].0 <= arg.0,
        forall|j: int| at <= j < args.len() ==> (#[trigger] args[j]).0 > arg.0,
    ensures
        inserted(args, arg) == args.insert(at, arg),
    decreases args.len(),
{
    if at == args.len() {
        assert(args.insert(at, arg) =~= args.push(arg));
    } else {
        lemma_inserted_at(args.drop_last(), arg, at);
        assert(args.insert(at, arg) =~= args.drop_last().insert(at, arg).push(args.last()));
    }
}

/// Returns the arguments of a function, in the order of their numbers.
pub fn sorted_args(values: &Vec<(Value, ValueDef)>) -> (res: Vec<(usize, String)>)
    ensures
        args_view(res@) == by_number(args_of(values@)),
{
    let mut res: Vec<(usize, String)> = Vec::new();
    let mut i: usize = 0;
    assert(args_view(res@) =~= by_number(args_of(values@.take(0))));
    while i < values.len()
        invariant
            i <= values.len(),
            args_view(res@) == by_number(args_of(values@.take(i as int))),
        decreases values.len() - i,
    {
        assert(values@.take(i + 1).drop_last() =~= values@.take(i as int));
        let entry = &values[i];
        if let ValueDef::Param(number) = &entry.1 {
            let ghost before = args_of(values@.take(i as int));
            let ghost arg = (*number, entry.0.text@);
            let mut at: usize = res.len();
            while at > 0 && res[at - 1].0 > *number
                invariant
                    at <= res.len(),
                    forall|j: int| at <= j < res.len() ==> (#[trigger] res@[j]).0 > *number,
                decreases at,
            {
                at -= 1;
            }
            let ghost old_res = res@;
            proof {
                assert(forall|j: int|
                    0 <= j < old_res.len() ==> (#[trigger] args_view(old_res)[j]).0 == old_res[j].0);
                lemma_inserted_at(args_view(old_res), arg, at as int);
                assert(before.push(arg).drop_last() =~= before);
            }
            res.insert(at, (*number, entry.0.text.clone()));
            assert(args_view(res@) =~= args_view(old_res).insert(at as int, arg));
        }
        i += 1;
    }
    assert(values@.take(i as int) =~= values@);
    res
}

proof fn lemma_inserted_is_by_number(args: Seq<Arg>, arg: Arg)
    requires
        is_by_number(args),
    ensures
        is_by_number(inserted(args, arg)),
        inserted(args, arg).len() == args.len() + 1,
        forall|i: int|
            0 <= i < inserted(args, arg).len() ==> (#[trigger] inserted(args, arg)[i]).0 <= arg.0
                || exists|j: int|
                0 <= j < args.len() && inserted(args, arg)[i].0 == (#[trigger] args[j]).0,
    decreases args.len(),
{
    if args.len() == 0 {
    } else if args.last().0 <= arg.0 {
        assert(forall|i: int| 0 <= i < args.len() ==> (#[trigger] args[i]).0 <= args.last().0);
    } else {
        let rest = args.drop_last();
        lemma_inserted_is_by_number(rest, arg);
        let front = inserted(rest, arg);
        assert forall|i: int| 0 <= i < front.len() implies (#[trigger] front[i]).0
            <= args.last().0 by {
            if front[i].0 > arg.0 {
                let j = choose|j: int| 0 <= j < rest.len() && front[i].0 == (#[trigger] rest[j]).0;
                assert(args[j].0 <= args[args.len() - 1].0);
            }
        }
        assert forall|i: int| 0 <= i < inserted(args, arg).len() implies (#[trigger] inserted(
            args,
            arg,
        )[i]).0 <= arg.0 || exists|j: int|
            0 <= j < args.len() && inserted(args, arg)[i].0 == (#[trigger] args[j]).0 by {
            if i < front.len() {
                if front[i].0 > arg.0 {
                    let j = choose|j: int|
                        0 <= j < rest.len() && front[i].0 == (#[trigger] rest[j]).0;
                    assert(args[j].0 == front[i].0);
                }
            } else {
                assert(args[args.len() - 1].0 == inserted(args, arg)[i].0);
            }
        }
    }
}

proof fn lemma_filter_push(args: Seq<Arg>, arg: Arg, pred: spec_fn(Arg) -> bool)
    ensures
        args.push(arg).filter(pred) == if pred(arg) {
            args.filter(pred).push(arg)
        } else {
            args.filter(pred)
        },
{
    reveal(Seq::filter);
    assert(args.push(arg).drop_last() =~= args);
}

proof fn lemma_inserted_keeps_order(args: Seq<Arg>, arg: Arg, number: usize)
    ensures
        inserted(args, arg).filter(numbered(number)) == args.push(arg).filter(numbered(number)),
    decreases args.len(),
{
    if args.len() > 0 && args.last().0 > arg.0 {
        let rest = args.drop_last();
        let same = numbered(number);
        lemma_inserted_keeps_order(rest, arg, number);
        lemma_filter_push(inserted(rest, arg), args.last(), same);
        lemma_filter_push(rest, arg, same);
        lemma_filter_push(rest, args.last(), same);
        lemma_filter_push(args, arg, same);
        assert(rest.push(args.last()) =~= args);
    }
}

/// The arguments of a function are listed by number: none stands behind one
/// with a greater number.
pub proof fn law_arguments_are_sorted(args: Seq<Arg>)
    ensures
        is_by_number(by_number(args)),
        by_number(args).len() == args.len(),
    decreases args.len(),
{
    if args.len() > 0 {
        law_arguments_are_sorted(args.drop_last());
        lemma_inserted_is_by_number(by_number(args.drop_last()), args.last());
    }
}

/// Sorting neither loses nor adds an argument, and arguments with the same
/// number stay in their order.
pub proof fn law_sorting_is_stable(args: Seq<Arg>, number: usize)
    ensures
        by_number(args).filter(numbered(number)) == args.filter(numbered(number)),
    decreases args.len(),
{
    if args.len() > 0 {
        let rest = args.drop_last();
        law_sorting_is_stable(rest, number);
        lemma_inserted_keeps_order(by_number(rest), args.last(), number);
        lemma_filter_push(by_number(rest), args.last(), numbered(number));
        lemma_filter_push(rest, args.last(), numbered(number));
        assert(rest.push(args.last()) =~= args);
    }
}

/// The values that hold the argument with the given number.
pub open spec fn holding(number: usize) -> spec_fn((Value, ValueDef)) -> bool {
    |entry: (Value, ValueDef)| entry.1 == ValueDef::Param(number)
}

/// The values that hold an argument.
pub open spec fn holding_any() -> spec_fn((Value, ValueDef)) -> bool {
    |entry: (Value, ValueDef)| entry.1 is Param
}

proof fn lemma_filter_last(
    values: Seq<(Value, ValueDef)>,
    pred: spec_fn((Value, ValueDef)) -> bool,
)
    requires
        values.len() > 0,
    ensures
        values.filter(pred) == if pred(values.last()) {
            values.drop_last().filter(pred).push(values.last())
        } else {
            values.drop_last().filter(pred)
        },
{
    reveal(Seq::filter);
}

proof fn lemma_collected(values: Seq<(Value, ValueDef)>, number: usize)
    ensures
        args_of(values).len() == values.filter(holding_any()).len(),
        args_of(values).filter(numbered(number)).len() == values.filter(holding(number)).len(),
        forall|k: int|
            0 <= k < values.filter(holding(number)).len() ==> args_of(values).filter(
                numbered(number),
            )[k] == (number, (#[trigger] values.filter(holding(number))[k]).0.text@),
    decreases values.len(),
{
    reveal(Seq::filter);
    if values.len() > 0 {
        let rest = values.drop_last();
        lemma_collected(rest, number);
        lemma_filter_last(values, holding(number));
        lemma_filter_last(values, holding_any());
        if let ValueDef::Param(found) = values.last().1 {
            lemma_filter_push(
                args_of(rest),
                (found, values.last().0.text@),
                numbered(number),
            );
        }
    }
}

/// The arguments of a function are all the values that are defined as one. For every
/// number, those with that number are exactly the values that are defined as the
/// argument with that number, in the order of the values, and they all stand behind
/// the arguments with smaller numbers.
pub proof fn law_every_argument_is_listed(values: Seq<(Value, ValueDef)>, number: usize)
    ensures
        is_by_number(by_number(args_of(values))),
        by_number(args_of(values)).len() == values.filter(holding_any()).len(),
        by_number(args_of(values)).filter(numbered(number)).len() == values.filter(
            holding(number),
        ).len(),
        forall|k: int|
            0 <= k < values.filter(holding(number)).len() ==> by_number(args_of(values)).filter(
                numbered(number),
            )[k] == (number, (#[trigger] values.filter(holding(number))[k]).0.text@),
{
    law_arguments_are_sorted(args_of(values));
    law_sorting_is_stable(args_of(values), number);
    lemma_collected(values, number);
}

/// Every value that is defined as an argument is listed, with its number.
pub proof fn law_argument_is_listed(values: Seq<(Value, ValueDef)>, i: int)
    requires
        0 <= i < values.len(),
        values[i].1 is Param,
    ensures
        by_number(args_of(values)).contains((values[i].1->Param_0, values[i].0.text@)),
{
    broadcast use vstd::seq_lib::group_seq_properties;

    let number = values[i].1->Param_0;
    let found = values.filter(holding(number));
    law_every_argument_is_listed(values, number);
    values.lemma_filter_contains(holding(number), i);
    assert(found.contains(values[i]));
    let k = found.index_of(values[i]);
    assert(found[k] == values[i]);
    let all = by_number(args_of(values));
    let same = all.filter(numbered(number));
    assert(same[k] == (number, values[i].0.text@));
    all.lemma_filter_contains_rev(numbered(number), same[k]);
}

/// A list of numbered strings is read entry by entry, as it is.
pub proof fn law_listed_arguments(args: Seq<(usize, String)>, i: int)
    requires
        0 <= i < args.len(),
    ensures
        args_view(args).len() == args.len(),
        args_view(args)[i] == (args[i].0, args[i].1@),
{
}

} // verus!
