//! Which number a branch has, from where the module mentions it.

use vstd::prelude::*;

#[allow(unused_imports)]
use crate::branches::{
    branch_id, law_number_belongs_to_one_branch, law_registering_keeps_numbers, registered, Ends,
};
#[allow(unused_imports)]
use crate::content::{has_member, number};
#[allow(unused_imports)]
use crate::dae::{current_ends, known_after_unknowns};
#[allow(unused_imports)]
use crate::function::known_after_params;
#[allow(unused_imports)]
use crate::json::Doc;
#[allow(unused_imports)]
use crate::laws::{
    is_branch_current, is_numbered_by, law_branch_numbers_are_consistent, member_doc,
    params_are_numbered_by,
};
#[allow(unused_imports)]
use crate::model::{BranchKind, CompiledModule, CurrentKind, ParamKind, SimUnknownKind, Value};
#[allow(unused_imports)]
use crate::module::{
    all_branches, known_after_probes, known_before_dae, known_before_eval, known_before_init,
    known_before_setup, module_doc,
};
#[allow(unused_imports)]
use crate::params::param_doc;
#[allow(unused_imports)]
use crate::text::{decimal_text, law_decimal_reads_back};

verus! {

/// The names of the ends of what a current goes through. The second one is empty for
/// ground and for a terminal.
pub open spec fn written_ends(kind: CurrentKind) -> Ends {
    match kind {
        CurrentKind::Branch(branch) => match branch.kind {
            BranchKind::Nodes(hi, lo) => (hi.name@, lo.name@),
            BranchKind::NodeGnd(hi) => (hi.name@, Seq::empty()),
            BranchKind::PortFlow(port) => (port.name@, Seq::empty()),
        },
        CurrentKind::Unnamed { hi, lo: Some(lo) } => (hi.name@, lo.name@),
        CurrentKind::Unnamed { hi, lo: None } => (hi.name@, Seq::empty()),
        CurrentKind::Port(port) => (port.name@, Seq::empty()),
    }
}

/// The branches whose current is one of the first `n` unknowns.
pub open spec fn probed(unknowns: Seq<SimUnknownKind>, n: int) -> Seq<Ends>
    decreases n,
{
    if n <= 0 {
        Seq::empty()
    } else {
        let before = probed(unknowns, n - 1);
        match unknowns[n - 1] {
            SimUnknownKind::Current(CurrentKind::Port(_)) => before,
            SimUnknownKind::Current(current) => before.push(written_ends(current)),
            _ => before,
        }
    }
}

/// The branches whose current is one of the first `n` arguments of a function.
pub open spec fn passed(params: Seq<(ParamKind, Value)>, n: int) -> Seq<Ends>
    decreases n,
{
    if n <= 0 {
        Seq::empty()
    } else {
        let before = passed(params, n - 1);
        match params[n - 1].0 {
            ParamKind::Current(CurrentKind::Port(_)) => before,
            ParamKind::Current(current) => before.push(written_ends(current)),
            _ => before,
        }
    }
}

/// The branches and terminals whose current is one of the first `n` unknowns.
pub open spec fn solved(unknowns: Seq<SimUnknownKind>, n: int) -> Seq<Ends>
    decreases n,
{
    if n <= 0 {
        Seq::empty()
    } else {
        let before = solved(unknowns, n - 1);
        match unknowns[n - 1] {
            SimUnknownKind::Current(current) => before.push(written_ends(current)),
            _ => before,
        }
    }
}

/// The branches that a module mentions, in the order in which they get a number: those
/// of the unknowns, those of the arguments of the evaluation, of the setup of an
/// instance and of the setup of the model, and last the terminals of the unknowns.
pub open spec fn mentions(module: CompiledModule) -> Seq<Ends> {
    let unknowns = module.dae_system.unknowns@;
    probed(unknowns, unknowns.len() as int) + passed(
        module.intern.params@,
        module.intern.params@.len() as int,
    ) + passed(
        module.init.intern.params@,
        module.init.intern.params@.len() as int,
    ) + passed(
        module.model_param_intern.params@,
        module.model_param_intern.params@.len() as int,
    ) + solved(unknowns, unknowns.len() as int)
}

spec fn enrolled(known: Seq<Ends>, keys: Seq<Ends>) -> Seq<Ends>
    decreases keys.len(),
{
    if keys.len() == 0 {
        known
    } else {
        registered(enrolled(known, keys.drop_last()), keys.last())
    }
}

proof fn lemma_enrolled_concat(known: Seq<Ends>, a: Seq<Ends>, b: Seq<Ends>)
    ensures
        enrolled(known, a + b) == enrolled(enrolled(known, a), b),
    decreases b.len(),
{
    if b.len() == 0 {
        assert(a + b =~= a);
    } else {
        lemma_enrolled_concat(known, a, b.drop_last());
        assert((a + b).drop_last() =~= a + b.drop_last());
    }
}

proof fn lemma_enrolled_push(known: Seq<Ends>, keys: Seq<Ends>, key: Ends)
    ensures
        enrolled(known, keys.push(key)) == registered(enrolled(known, keys), key),
{
    assert(keys.push(key).drop_last() =~= keys);
}

proof fn lemma_probed(unknowns: Seq<SimUnknownKind>, n: int, known: Seq<Ends>)
    ensures
        known_after_probes(unknowns, n, known) == enrolled(known, probed(unknowns, n)),
    decreases n,
{
    if n > 0 {
        lemma_probed(unknowns, n - 1, known);
        if let SimUnknownKind::Current(current) = unknowns[n - 1] {
            lemma_enrolled_push(known, probed(unknowns, n - 1), written_ends(current));
            assert(written_ends(current) == current_ends(current));
        }
    }
}

proof fn lemma_passed(params: Seq<(ParamKind, Value)>, n: int, known: Seq<Ends>)
    ensures
        known_after_params(params, n, known) == enrolled(known, passed(params, n)),
    decreases n,
{
    if n > 0 {
        lemma_passed(params, n - 1, known);
        if let ParamKind::Current(current) = params[n - 1].0 {
            lemma_enrolled_push(known, passed(params, n - 1), written_ends(current));
            assert(written_ends(current) == current_ends(current));
        }
    }
}

proof fn lemma_solved(unknowns: Seq<SimUnknownKind>, n: int, known: Seq<Ends>)
    ensures
        known_after_unknowns(unknowns, n, known) == enrolled(known, solved(unknowns, n)),
    decreases n,
{
    if n > 0 {
        lemma_solved(unknowns, n - 1, known);
        if let SimUnknownKind::Current(current) = unknowns[n - 1] {
            lemma_enrolled_push(known, solved(unknowns, n - 1), written_ends(current));
            assert(written_ends(current) == current_ends(current));
        }
    }
}

proof fn lemma_all_enrolled(module: CompiledModule)
    ensures
        all_branches(module) == enrolled(Seq::empty(), mentions(module)),
{
    let unknowns = module.dae_system.unknowns@;
    let none = Seq::<Ends>::empty();
    let a = probed(unknowns, unknowns.len() as int);
    let b = passed(module.intern.params@, module.intern.params@.len() as int);
    let c = passed(module.init.intern.params@, module.init.intern.params@.len() as int);
    let d = passed(
        module.model_param_intern.params@,
        module.model_param_intern.params@.len() as int,
    );
    let e = solved(unknowns, unknowns.len() as int);
    lemma_probed(unknowns, unknowns.len() as int, none);
    lemma_passed(
        module.intern.params@,
        module.intern.params@.len() as int,
        known_before_eval(module),
    );
    lemma_passed(
        module.init.intern.params@,
        module.init.intern.params@.len() as int,
        known_before_init(module),
    );
    lemma_passed(
        module.model_param_intern.params@,
        module.model_param_intern.params@.len() as int,
        known_before_setup(module),
    );
    lemma_solved(unknowns, unknowns.len() as int, known_before_dae(module));
    lemma_enrolled_concat(none, a, b);
    lemma_enrolled_concat(none, a + b, c);
    lemma_enrolled_concat(none, a + b + c, d);
    lemma_enrolled_concat(none, a + b + c + d, e);
}

proof fn lemma_enrolled_elements(keys: Seq<Ends>)
    ensures
        enrolled(Seq::empty(), keys).no_duplicates(),
        forall|key: Ends|
            enrolled(Seq::empty(), keys).contains(key) <==> #[trigger] keys.contains(key),
    decreases keys.len(),
{
    let all = enrolled(Seq::<Ends>::empty(), keys);
    if keys.len() > 0 {
        let rest = keys.drop_last();
        let before = enrolled(Seq::<Ends>::empty(), rest);
        lemma_enrolled_elements(rest);
        law_registering_keeps_numbers(before, keys.last());
        assert forall|key: Ends| all.contains(key) <==> #[trigger] keys.contains(key) by {
            if all.contains(key) {
                let i = all.index_of(key);
                assert(all[i] == key);
                if i < before.len() {
                    assert(before[i] == key);
                    assert(rest.contains(key));
                    let j = rest.index_of(key);
                    assert(keys[j] == key);
                } else {
                    assert(keys[keys.len() - 1] == key);
                }
            }
            if keys.contains(key) {
                let j = keys.index_of(key);
                assert(keys[j] == key);
                if j < rest.len() {
                    assert(rest[j] == key);
                    assert(rest.contains(key));
                    assert(before.contains(key));
                    let i = before.index_of(key);
                    assert(all[i] == key);
                }
            }
        }
    } else {
        assert forall|key: Ends| all.contains(key) <==> #[trigger] keys.contains(key) by {}
    }
}

proof fn lemma_enrolled_grows(keys: Seq<Ends>, n: int)
    requires
        0 <= n <= keys.len(),
    ensures
        enrolled(Seq::empty(), keys.take(n)).len() <= enrolled(Seq::empty(), keys).len(),
        forall|i: int|
            0 <= i < enrolled(Seq::empty(), keys.take(n)).len() ==> #[trigger] enrolled(
                Seq::empty(),
                keys.take(n),
            )[i] == enrolled(Seq::empty(), keys)[i],
    decreases keys.len(),
{
    if n < keys.len() {
        let rest = keys.drop_last();
        lemma_enrolled_grows(rest, n);
        assert(rest.take(n) =~= keys.take(n));
    } else {
        assert(keys.take(n) =~= keys);
    }
}

/// The branches of a module that have a number are those that it mentions, each of
/// them once, and they are numbered from zero in the order in which they are first
/// mentioned.
pub proof fn law_numbers_follow_first_mentions(module: CompiledModule)
    ensures
        all_branches(module).no_duplicates(),
        forall|key: Ends|
            all_branches(module).contains(key) <==> #[trigger] mentions(module).contains(key),
        forall|i: int, j: int|
            0 <= i < j < mentions(module).len() && !mentions(module).take(j).contains(
                mentions(module)[j],
            ) ==> all_branches(module).index_of(#[trigger] mentions(module)[i])
                < all_branches(module).index_of(#[trigger] mentions(module)[j]),
{
    let keys = mentions(module);
    let all = all_branches(module);
    lemma_all_enrolled(module);
    lemma_enrolled_elements(keys);
    assert forall|i: int, j: int|
        0 <= i < j < keys.len() && !keys.take(j).contains(keys[j]) implies all.index_of(
        #[trigger] keys[i],
    ) < all.index_of(#[trigger] keys[j]) by {
        let early = enrolled(Seq::<Ends>::empty(), keys.take(j));
        lemma_enrolled_elements(keys.take(j));
        lemma_enrolled_grows(keys, j);
        lemma_enrolled_grows(keys, j + 1);
        lemma_enrolled_push(Seq::empty(), keys.take(j), keys[j]);
        assert(keys.take(j + 1) =~= keys.take(j).push(keys[j]));
        assert(keys.take(j)[i] == keys[i]);
        assert(keys.take(j).contains(keys[i]));
        let p = early.index_of(keys[i]);
        assert(early.contains(keys[i]));
        assert(early[p] == keys[i]);
        assert(all[p] == keys[i]);
        assert(all.contains(keys[i]));
        assert(all[all.index_of(keys[i])] == keys[i]);
        let later = enrolled(Seq::<Ends>::empty(), keys.take(j + 1));
        assert(later[early.len() as int] == keys[j]);
        assert(all[early.len() as int] == keys[j]);
        assert(all.contains(keys[j]));
        assert(all[all.index_of(keys[j])] == keys[j]);
    }
}

/// The place of a branch in the list of all branches of a module.
pub open spec fn place_of(module: CompiledModule, kind: CurrentKind) -> int {
    all_branches(module).index_of(written_ends(kind))
}

proof fn lemma_numbered_place(known: Seq<Ends>, key: Ends, all: Seq<Ends>)
    requires
        is_numbered_by(known, key, all),
    ensures
        registered(known, key).index_of(key) == all.index_of(key),
        0 <= all.index_of(key) < all.len(),
        all[all.index_of(key)] == key,
{
    law_number_belongs_to_one_branch(all, key, key);
}

/// The member of the description of an argument that holds the number of its branch.
pub open spec fn number_member(kind: CurrentKind) -> int {
    if kind is Branch {
        2
    } else {
        1
    }
}

proof fn lemma_written_param(
    params: Seq<(ParamKind, Value)>,
    known: Seq<Ends>,
    all: Seq<Ends>,
    doc: Doc,
    i: int,
)
    requires
        params_are_numbered_by(params, known, all),
        0 <= i < params.len(),
        params[i].0 is Current,
        !(params[i].0->Current_0 is Port),
        doc == param_doc(
            params[i].0,
            i as u32,
            known_after_params(params, i, known),
        ),
    ensures
        has_member(
            doc,
            number_member(params[i].0->Current_0),
            "branch_id"@,
            number(all.index_of(written_ends(params[i].0->Current_0))),
        ),
{
    let current = params[i].0->Current_0;
    assert(is_branch_current(current));
    assert(written_ends(current) == current_ends(current));
    lemma_numbered_place(known_after_params(params, i, known), current_ends(current), all);
}

/// Where the argument `i` of the function in the member `section` of a module is
/// described.
pub open spec fn described_argument(
    module: CompiledModule,
    strings: Seq<Seq<char>>,
    section: int,
    i: int,
) -> Doc {
    member_doc(member_doc(member_doc(module_doc(module, strings), section), 2), i)
}

/// Where the unknown `i` of a module is named.
pub open spec fn named_unknown(module: CompiledModule, strings: Seq<Seq<char>>, i: int) -> Doc {
    member_doc(member_doc(member_doc(module_doc(module, strings), 8), 0), i)
}

/// All currents through the arguments of a function are described with the places of
/// their branches in the list of all branches.
pub open spec fn describes_places(
    module: CompiledModule,
    strings: Seq<Seq<char>>,
    section: int,
    params: Seq<(ParamKind, Value)>,
) -> bool {
    forall|i: int|
        0 <= i < params.len() && (#[trigger] params[i]).0 is Current && !(params[i].0->Current_0
            is Port) ==> has_member(
            described_argument(module, strings, section, i),
            number_member(params[i].0->Current_0),
            "branch_id"@,
            number(place_of(module, params[i].0->Current_0)),
        )
}

/// The number that is written for a current is the place of its branch in the list of
/// all branches, in the name of an unknown and in the description of an argument of
/// any of the three functions alike.
pub proof fn law_written_numbers_are_places(module: CompiledModule, strings: Seq<Seq<char>>)
    ensures
        describes_places(module, strings, 5, module.intern.params@),
        describes_places(module, strings, 6, module.init.intern.params@),
        describes_places(module, strings, 7, module.model_param_intern.params@),
        forall|i: int|
            0 <= i < module.dae_system.unknowns@.len() && (
            #[trigger] module.dae_system.unknowns@[i]) is Current ==> named_unknown(
                module,
                strings,
                i,
            ) == Doc::Str(
                "br[Branch(BranchId("@ + decimal_text(
                    place_of(module, module.dae_system.unknowns@[i]->Current_0) as nat,
                ) + "))]"@,
            ),
        forall|i: int|
            0 <= i < module.dae_system.unknowns@.len() && (
            #[trigger] module.dae_system.unknowns@[i]) is Current ==> {
                let place = place_of(module, module.dae_system.unknowns@[i]->Current_0);
                &&& 0 <= place < all_branches(module).len()
                &&& all_branches(module)[place] == written_ends(
                    module.dae_system.unknowns@[i]->Current_0,
                )
            },
{
    let all = all_branches(module);
    law_branch_numbers_are_consistent(module);
    let a = module.intern.params@;
    assert forall|i: int|
        0 <= i < a.len() && (#[trigger] a[i]).0 is Current && !(a[i].0->Current_0
            is Port) implies has_member(
        described_argument(module, strings, 5, i),
        number_member(a[i].0->Current_0),
        "branch_id"@,
        number(place_of(module, a[i].0->Current_0)),
    ) by {
        lemma_written_param(
            a,
            known_before_eval(module),
            all,
            described_argument(module, strings, 5, i),
            i,
        );
    }
    let b = module.init.intern.params@;
    assert forall|i: int|
        0 <= i < b.len() && (#[trigger] b[i]).0 is Current && !(b[i].0->Current_0
            is Port) implies has_member(
        described_argument(module, strings, 6, i),
        number_member(b[i].0->Current_0),
        "branch_id"@,
        number(place_of(module, b[i].0->Current_0)),
    ) by {
        lemma_written_param(
            b,
            known_before_init(module),
            all,
            described_argument(module, strings, 6, i),
            i,
        );
    }
    let c = module.model_param_intern.params@;
    assert forall|i: int|
        0 <= i < c.len() && (#[trigger] c[i]).0 is Current && !(c[i].0->Current_0
            is Port) implies has_member(
        described_argument(module, strings, 7, i),
        number_member(c[i].0->Current_0),
        "branch_id"@,
        number(place_of(module, c[i].0->Current_0)),
    ) by {
        lemma_written_param(
            c,
            known_before_setup(module),
            all,
            described_argument(module, strings, 7, i),
            i,
        );
    }
    let unknowns = module.dae_system.unknowns@;
    let known = known_before_dae(module);
    assert forall|i: int|
        0 <= i < unknowns.len() && (#[trigger] unknowns[i]) is Current implies named_unknown(
        module,
        strings,
        i,
    ) == Doc::Str(
        "br[Branch(BranchId("@ + decimal_text(
            place_of(module, unknowns[i]->Current_0) as nat,
        ) + "))]"@,
    ) && 0 <= place_of(module, unknowns[i]->Current_0) < all.len() && all[place_of(
        module,
        unknowns[i]->Current_0,
    )] == written_ends(unknowns[i]->Current_0) by {
        let current = unknowns[i]->Current_0;
        assert(written_ends(current) == current_ends(current));
        lemma_numbered_place(known_after_unknowns(unknowns, i, known), current_ends(current), all);
    }
}

proof fn lemma_framed_apart(front: Seq<char>, a: Seq<char>, b: Seq<char>, back: Seq<char>)
    requires
        front + a + back == front + b + back,
    ensures
        a == b,
{
    let s = front + a + back;
    let t = front + b + back;
    assert(s.len() == t.len());
    assert forall|i: int| 0 <= i < a.len() implies a[i] == b[i] by {
        assert(s[front.len() + i] == a[i]);
        assert(t[front.len() + i] == b[i]);
    }
    assert(a =~= b);
}

/// Two unknowns that are currents have the same name if and only if they go through
/// the same ends.
pub proof fn law_names_tell_branches_apart(
    module: CompiledModule,
    strings: Seq<Seq<char>>,
    i: int,
    j: int,
)
    requires
        0 <= i < module.dae_system.unknowns@.len(),
        0 <= j < module.dae_system.unknowns@.len(),
        module.dae_system.unknowns@[i] is Current,
        module.dae_system.unknowns@[j] is Current,
    ensures
        named_unknown(module, strings, i) == named_unknown(module, strings, j) <==> written_ends(
            module.dae_system.unknowns@[i]->Current_0,
        ) == written_ends(module.dae_system.unknowns@[j]->Current_0),
{
    law_written_numbers_are_places(module, strings);
    let unknowns = module.dae_system.unknowns@;
    let p = place_of(module, unknowns[i]->Current_0);
    let q = place_of(module, unknowns[j]->Current_0);
    law_decimal_reads_back(p as nat);
    law_decimal_reads_back(q as nat);
    if named_unknown(module, strings, i) == named_unknown(module, strings, j) {
        lemma_framed_apart(
            "br[Branch(BranchId("@,
            decimal_text(p as nat),
            decimal_text(q as nat),
            "))]"@,
        );
    }
}

} // verus!
