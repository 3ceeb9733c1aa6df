//! What holds of the output as a whole.

use vstd::prelude::*;

#[allow(unused_imports)]
use crate::branches::{
    branch_ends, branch_id, ends, law_number_belongs_to_one_branch, law_number_is_kept,
    law_registering_keeps_numbers, opt_name, registered, Ends,
};
#[allow(unused_imports)]
use crate::dae::{
    current_ends, known_after_unknowns, residual_doc, residuals_doc, sim_node_text, unknown_member,
    unknowns_doc,
};
#[allow(unused_imports)]
use crate::dump::{dump_run, law_dump_prints_one_array, piece_texts, steps_of_dump};
#[allow(unused_imports)]
use crate::function::{float_doc, is_finite, is_infinite, is_negative, known_after_params};
#[allow(unused_imports)]
use crate::grammar::{has_at, is_padded, reads_as, reads_as_items, spells, Json};
#[allow(unused_imports)]
use crate::json::{number_doc, Doc, Layout};
#[allow(unused_imports)]
use crate::legal::{law_module_is_json, module_texts_legal};
#[allow(unused_imports)]
use crate::mna::{mna_node_doc, mna_nodes_doc, mna_residual_doc, mna_residuals_doc};
#[allow(unused_imports)]
use crate::model::{
    CompiledModule, CurrentKind, DaeSystem, FloatConst, Node, ParamKind, SimUnknownKind, Value,
};
#[allow(unused_imports)]
use crate::module::{
    all_branches, known_after_probes, known_before_dae, known_before_eval, known_before_init,
    known_before_setup, law_pieces_make_up_the_text, module_doc, module_pieces, module_text,
    nodes_doc,
};
#[allow(unused_imports)]
use crate::params::known_after_current;
#[allow(unused_imports)]
use crate::text::{decimal_text, joined};
#[allow(unused_imports)]
use crate::unambiguous::law_text_means_one_value;
#[allow(unused_imports)]
use crate::wellformed::value_of;

verus! {

/// The texts that are written for modules, in order. The strings that were
/// interned by the time a module is written stand beside it.
pub open spec fn module_texts(
    modules: Seq<CompiledModule>,
    strings: Seq<Seq<Seq<char>>>,
) -> Seq<Seq<char>> {
    Seq::new(modules.len(), |i: int| module_text(modules[i], strings[i]))
}

/// The pieces in which modules are handed to a writer, in order.
pub open spec fn modules_in_pieces(
    modules: Seq<CompiledModule>,
    strings: Seq<Seq<Seq<char>>>,
) -> Seq<Seq<Seq<char>>> {
    Seq::new(modules.len(), |i: int| module_pieces(modules[i], strings[i]))
}

/// The values that modules are laid out as, in order.
pub open spec fn module_values(
    modules: Seq<CompiledModule>,
    strings: Seq<Seq<Seq<char>>>,
) -> Seq<Json> {
    Seq::new(modules.len(), |i: int| value_of(module_doc(modules[i], strings[i])))
}

proof fn lemma_joined_modules(modules: Seq<CompiledModule>, strings: Seq<Seq<Seq<char>>>)
    requires
        modules.len() > 0,
        forall|i: int| 0 <= i < modules.len() ==> module_texts_legal(#[trigger] modules[i]),
    ensures
        reads_as_items(
            joined(module_texts(modules, strings), seq![',']),
            module_values(modules, strings),
        ),
    decreases modules.len(),
{
    let last = modules[modules.len() - 1];
    let rest = modules.drop_last();
    let parts = module_texts(modules, strings);
    let values = module_values(modules, strings);
    law_module_is_json(last, strings[modules.len() - 1]);
    assert(parts.drop_last() =~= module_texts(rest, strings));
    assert(values.drop_last() =~= module_values(rest, strings));
    if modules.len() > 1 {
        assert forall|i: int| 0 <= i < rest.len() implies module_texts_legal(
            #[trigger] rest[i],
        ) by {
            assert(rest[i] == modules[i]);
        }
        lemma_joined_modules(rest, strings);
        let front = joined(module_texts(rest, strings), seq![',']);
        let s = joined(parts, seq![',']);
        let k = front.len() as int;
        assert(s =~= front + seq![','] + parts.last());
        assert(s.take(k) =~= front);
        assert(s.skip(k + 1) =~= parts.last());
        assert(has_at(s, k, ','));
    }
}

proof fn lemma_printed_modules_read(
    modules: Seq<CompiledModule>,
    strings: Seq<Seq<Seq<char>>>,
)
    requires
        modules.len() == strings.len(),
        forall|i: int| 0 <= i < modules.len() ==> module_texts_legal(#[trigger] modules[i]),
    ensures
        reads_as(
            dump_run(modules_in_pieces(modules, strings), steps_of_dump(modules.len())).0,
            Json::Arr(module_values(modules, strings)),
        ),
{
    let list = joined(module_texts(modules, strings), seq![',']);
    let body = seq!['['] + list + seq![']'];
    let j = Json::Arr(module_values(modules, strings));
    let pieces = modules_in_pieces(modules, strings);
    law_dump_prints_one_array(pieces);
    assert forall|i: int| 0 <= i < modules.len() implies piece_texts(pieces)[i]
        == #[trigger] module_texts(modules, strings)[i] by {
        law_pieces_make_up_the_text(modules[i], strings[i]);
    }
    assert(piece_texts(pieces) =~= module_texts(modules, strings));
    assert(body.subrange(1, body.len() - 1) =~= list);
    if modules.len() > 0 {
        lemma_joined_modules(modules, strings);
    }
    let none = Seq::<char>::empty();
    let s = seq!['['] + list + seq![']', '\n'];
    assert(spells(body, j));
    assert(s =~= none + body + seq!['\n']);
    assert(is_padded(s, none, body, seq!['\n']));
}

/// What a run prints that writes the modules of a source is one JSON array, which
/// reads as the list of the modules and as nothing else.
pub proof fn law_printed_modules_are_json(
    modules: Seq<CompiledModule>,
    strings: Seq<Seq<Seq<char>>>,
)
    requires
        modules.len() == strings.len(),
        forall|i: int| 0 <= i < modules.len() ==> module_texts_legal(#[trigger] modules[i]),
    ensures
        reads_as(
            dump_run(modules_in_pieces(modules, strings), steps_of_dump(modules.len())).0,
            Json::Arr(module_values(modules, strings)),
        ),
        forall|j: Json| #[trigger]
            reads_as(
                dump_run(modules_in_pieces(modules, strings), steps_of_dump(modules.len())).0,
                j,
            ) ==> j == Json::Arr(module_values(modules, strings)),
{
    let text = dump_run(modules_in_pieces(modules, strings), steps_of_dump(modules.len())).0;
    let value = Json::Arr(module_values(modules, strings));
    lemma_printed_modules_read(modules, strings);
    assert forall|j: Json| #[trigger] reads_as(text, j) implies j == value by {
        law_text_means_one_value(text, j, value);
    }
}

proof fn lemma_current_keeps(kind: CurrentKind, known: Seq<Ends>)
    requires
        known.no_duplicates(),
    ensures
        known_after_current(kind, known).no_duplicates(),
        known.is_prefix_of(known_after_current(kind, known)),
{
    match kind {
        CurrentKind::Branch(branch) => {
            law_registering_keeps_numbers(known, branch_ends(branch));
        },
        CurrentKind::Unnamed { hi, lo } => {
            law_registering_keeps_numbers(known, ends(hi.name@, opt_name(lo)));
        },
        CurrentKind::Port(port) => {},
    }
}

proof fn lemma_prefix_trans(a: Seq<Ends>, b: Seq<Ends>, c: Seq<Ends>)
    requires
        a.is_prefix_of(b),
        b.is_prefix_of(c),
    ensures
        a.is_prefix_of(c),
{
    assert(a =~= c.subrange(0, a.len() as int)) by {
        assert forall|i: int| 0 <= i < a.len() implies a[i] == c[i] by {
            assert(a[i] == b.subrange(0, a.len() as int)[i]);
            assert(b[i] == c.subrange(0, b.len() as int)[i]);
        }
    }
}

proof fn lemma_params_keep(params: Seq<(ParamKind, Value)>, n: int, m: int, known: Seq<Ends>)
    requires
        known.no_duplicates(),
        0 <= n <= m,
    ensures
        known_after_params(params, m, known).no_duplicates(),
        known_after_params(params, n, known).is_prefix_of(known_after_params(params, m, known)),
    decreases m,
{
    if m > n {
        lemma_params_keep(params, n, m - 1, known);
        let before = known_after_params(params, m - 1, known);
        if let ParamKind::Current(current) = params[m - 1].0 {
            lemma_current_keeps(current, before);
            lemma_prefix_trans(
                known_after_params(params, n, known),
                before,
                known_after_params(params, m, known),
            );
        }
    } else if m > 0 {
        lemma_params_keep(params, n - 1, m - 1, known);
        let before = known_after_params(params, m - 1, known);
        if let ParamKind::Current(current) = params[m - 1].0 {
            lemma_current_keeps(current, before);
        }
    }
}

proof fn lemma_unknowns_keep(unknowns: Seq<SimUnknownKind>, n: int, m: int, known: Seq<Ends>)
    requires
        known.no_duplicates(),
        0 <= n <= m,
    ensures
        known_after_unknowns(unknowns, m, known).no_duplicates(),
        known_after_unknowns(unknowns, n, known).is_prefix_of(
            known_after_unknowns(unknowns, m, known),
        ),
    decreases m,
{
    if m > n {
        lemma_unknowns_keep(unknowns, n, m - 1, known);
        let before = known_after_unknowns(unknowns, m - 1, known);
        if let SimUnknownKind::Current(current) = unknowns[m - 1] {
            law_registering_keeps_numbers(before, current_ends(current));
            lemma_prefix_trans(
                known_after_unknowns(unknowns, n, known),
                before,
                known_after_unknowns(unknowns, m, known),
            );
        }
    } else if m > 0 {
        lemma_unknowns_keep(unknowns, n - 1, m - 1, known);
        let before = known_after_unknowns(unknowns, m - 1, known);
        if let SimUnknownKind::Current(current) = unknowns[m - 1] {
            law_registering_keeps_numbers(before, current_ends(current));
        }
    }
}

proof fn lemma_probes_keep(unknowns: Seq<SimUnknownKind>, m: int, known: Seq<Ends>)
    requires
        known.no_duplicates(),
    ensures
        known_after_probes(unknowns, m, known).no_duplicates(),
    decreases m,
{
    if m > 0 {
        lemma_probes_keep(unknowns, m - 1, known);
        if let SimUnknownKind::Current(current) = unknowns[m - 1] {
            lemma_current_keeps(current, known_after_probes(unknowns, m - 1, known));
        }
    }
}

/// No branch of a module has two numbers, and every section of the output
/// continues the numbering of the section in front of it.
pub proof fn law_sections_share_one_numbering(module: CompiledModule)
    ensures
        all_branches(module).no_duplicates(),
        known_before_eval(module).no_duplicates(),
        known_before_init(module).no_duplicates(),
        known_before_setup(module).no_duplicates(),
        known_before_dae(module).no_duplicates(),
        known_before_eval(module).is_prefix_of(known_before_init(module)),
        known_before_init(module).is_prefix_of(known_before_setup(module)),
        known_before_setup(module).is_prefix_of(known_before_dae(module)),
        known_before_dae(module).is_prefix_of(all_branches(module)),
        known_before_init(module).is_prefix_of(all_branches(module)),
        known_before_setup(module).is_prefix_of(all_branches(module)),
{
    let unknowns = module.dae_system.unknowns@;
    lemma_probes_keep(unknowns, unknowns.len() as int, Seq::empty());
    lemma_params_keep(
        module.intern.params@,
        0,
        module.intern.params@.len() as int,
        known_before_eval(module),
    );
    lemma_params_keep(
        module.init.intern.params@,
        0,
        module.init.intern.params@.len() as int,
        known_before_init(module),
    );
    lemma_params_keep(
        module.model_param_intern.params@,
        0,
        module.model_param_intern.params@.len() as int,
        known_before_setup(module),
    );
    lemma_unknowns_keep(unknowns, 0, unknowns.len() as int, known_before_dae(module));
    lemma_prefix_trans(
        known_before_setup(module),
        known_before_dae(module),
        all_branches(module),
    );
    lemma_prefix_trans(
        known_before_init(module),
        known_before_setup(module),
        all_branches(module),
    );
}

/// A current through a branch, as opposed to one into a terminal.
pub open spec fn is_branch_current(kind: CurrentKind) -> bool {
    !(kind is Port)
}

proof fn lemma_registered_in(known: Seq<Ends>, all: Seq<Ends>, key: Ends)
    requires
        known.no_duplicates(),
        registered(known, key).is_prefix_of(all),
    ensures
        all.contains(key),
{
    law_registering_keeps_numbers(known, key);
    let now = registered(known, key);
    let i = now.index_of(key);
    assert(now[i] == key);
    assert(all[i] == key);
}

/// The number that a branch gets in a place where `known` have one is its number
/// in the list of all branches, and it is in that list.
pub open spec fn is_numbered_by(known: Seq<Ends>, key: Ends, all: Seq<Ends>) -> bool {
    branch_id(known, key) == branch_id(all, key) && all.contains(key)
}

/// Every branch that an argument of a function stands for has its number in the
/// list of all branches.
pub open spec fn params_are_numbered_by(
    params: Seq<(ParamKind, Value)>,
    known: Seq<Ends>,
    all: Seq<Ends>,
) -> bool {
    forall|i: int|
        0 <= i < params.len() && (#[trigger] params[i]).0 is Current && is_branch_current(
            params[i].0->Current_0,
        ) ==> is_numbered_by(
            known_after_params(params, i, known),
            current_ends(params[i].0->Current_0),
            all,
        )
}

/// Every branch whose current is an unknown has its number in the list of all branches.
pub open spec fn unknowns_are_numbered_by(
    unknowns: Seq<SimUnknownKind>,
    known: Seq<Ends>,
    all: Seq<Ends>,
) -> bool {
    forall|i: int|
        0 <= i < unknowns.len() && (#[trigger] unknowns[i]) is Current ==> is_numbered_by(
            known_after_unknowns(unknowns, i, known),
            current_ends(unknowns[i]->Current_0),
            all,
        )
}

proof fn lemma_params_numbered(
    params: Seq<(ParamKind, Value)>,
    known: Seq<Ends>,
    all: Seq<Ends>,
)
    requires
        known.no_duplicates(),
        all.no_duplicates(),
        known_after_params(params, params.len() as int, known).is_prefix_of(all),
    ensures
        params_are_numbered_by(params, known, all),
{
    let n = params.len() as int;
    assert forall|i: int|
        0 <= i < n && (#[trigger] params[i]).0 is Current && is_branch_current(
            params[i].0->Current_0,
        ) implies is_numbered_by(
        known_after_params(params, i, known),
        current_ends(params[i].0->Current_0),
        all,
    ) by {
        let before = known_after_params(params, i, known);
        let key = current_ends(params[i].0->Current_0);
        lemma_params_keep(params, i, i, known);
        lemma_params_keep(params, i + 1, n, known);
        lemma_prefix_trans(
            known_after_params(params, i + 1, known),
            known_after_params(params, n, known),
            all,
        );
        law_number_is_kept(before, all, key);
        lemma_registered_in(before, all, key);
    }
}

/// Wherever a branch is mentioned, it has the same number: for an argument of
/// any of the three functions, and for an unknown of the equation system, that
/// number is the place of the branch in the list of all branches. Every branch that
/// is mentioned is in that list, and of the branches in the list two have the same
/// number only if they have the same ends.
pub proof fn law_branch_numbers_are_consistent(module: CompiledModule)
    ensures
        params_are_numbered_by(
            module.intern.params@,
            known_before_eval(module),
            all_branches(module),
        ),
        params_are_numbered_by(
            module.init.intern.params@,
            known_before_init(module),
            all_branches(module),
        ),
        params_are_numbered_by(
            module.model_param_intern.params@,
            known_before_setup(module),
            all_branches(module),
        ),
        unknowns_are_numbered_by(
            module.dae_system.unknowns@,
            known_before_dae(module),
            all_branches(module),
        ),
        forall|one: Ends, other: Ends|
            all_branches(module).contains(one) && all_branches(module).contains(other) && (
            #[trigger] branch_id(all_branches(module), one)) == (#[trigger] branch_id(
                all_branches(module),
                other,
            )) ==> one == other,
{
    let all = all_branches(module);
    law_sections_share_one_numbering(module);
    lemma_params_numbered(module.intern.params@, known_before_eval(module), all);
    lemma_params_numbered(module.init.intern.params@, known_before_init(module), all);
    lemma_params_numbered(module.model_param_intern.params@, known_before_setup(module), all);
    let unknowns = module.dae_system.unknowns@;
    let known = known_before_dae(module);
    assert forall|i: int|
        0 <= i < unknowns.len() && (#[trigger] unknowns[i]) is Current implies is_numbered_by(
        known_after_unknowns(unknowns, i, known),
        current_ends(unknowns[i]->Current_0),
        all,
    ) by {
        let before = known_after_unknowns(unknowns, i, known);
        let key = current_ends(unknowns[i]->Current_0);
        lemma_unknowns_keep(unknowns, i, i, known);
        lemma_unknowns_keep(unknowns, i + 1, unknowns.len() as int, known);
        law_number_is_kept(before, all, key);
        lemma_registered_in(before, all, key);
    }
    assert forall|one: Ends, other: Ends|
        all.contains(one) && all.contains(other) && (#[trigger] branch_id(all, one)) == (
        #[trigger] branch_id(all, other)) implies one == other by {
        law_number_belongs_to_one_branch(all, one, other);
    }
}

/// The two views of the equation system agree: entry `i` of the positional nodes
/// is the unknown that the other view calls `sim_node` and `i`, and entry `i` of
/// the positional residuals is the residual under that name.
pub proof fn law_views_agree_on_positions(dae: DaeSystem, known: Seq<Ends>, i: int)
    ensures
        0 <= i < dae.unknowns@.len() ==> {
            &&& mna_nodes_doc(dae.unknowns@)->Arr_1.len() == dae.unknowns@.len()
            &&& mna_nodes_doc(dae.unknowns@)->Arr_1[i] == mna_node_doc(i, dae.unknowns@[i])
            &&& unknowns_doc(dae.unknowns@, known)->Obj_1.len() == dae.unknowns@.len()
            &&& unknowns_doc(dae.unknowns@, known)->Obj_1[i] == unknown_member(
                dae.unknowns@,
                i,
                known,
            )
            &&& unknown_member(dae.unknowns@, i, known).0 == sim_node_text(i)
        },
        0 <= i < dae.residual@.len() ==> {
            &&& mna_residuals_doc(dae.residual@)->Arr_1.len() == dae.residual@.len()
            &&& mna_residuals_doc(dae.residual@)->Arr_1[i] == mna_residual_doc(
                i,
                dae.residual@[i],
            )
            &&& residuals_doc(dae.residual@)->Obj_1.len() == dae.residual@.len()
            &&& residuals_doc(dae.residual@)->Obj_1[i] == (
                sim_node_text(i),
                residual_doc(dae.residual@[i]),
            )
        },
{
}

/// An unknown is the potential of a node.
pub open spec fn is_potential_of(kind: SimUnknownKind, node: Node) -> bool {
    kind matches SimUnknownKind::KirchoffLaw(law) && law.name@ == node.name@
}

/// The unknowns of a module begin with the potentials of its terminals.
pub open spec fn terminals_come_first(module: CompiledModule) -> bool {
    &&& module.info.ports@.len() <= module.dae_system.unknowns@.len()
    &&& forall|i: int|
        0 <= i < module.info.ports@.len() ==> is_potential_of(
            #[trigger] module.dae_system.unknowns@[i],
            module.info.ports@[i],
        )
}

/// Where the unknowns begin with the terminals, the first entries of the
/// positional nodes, as many as there are terminals, are the terminals in order.
pub proof fn law_first_nodes_are_terminals(module: CompiledModule, i: int)
    requires
        terminals_come_first(module),
        0 <= i < module.info.ports@.len(),
    ensures
        mna_nodes_doc(module.dae_system.unknowns@)->Arr_1[i] == Doc::Obj(
            Layout::Spaced,
            seq![
                ("idx"@, number_doc(i)),
                ("name"@, nodes_doc(module.info.ports@)->Arr_1[i]),
                ("kind"@, Doc::Str("voltage"@)),
            ],
        ),
{
    assert(is_potential_of(module.dae_system.unknowns@[i], module.info.ports@[i]));
    assert(mna_node_doc(i, module.dae_system.unknowns@[i])->Obj_1 =~= seq![
        ("idx"@, number_doc(i)),
        ("name"@, nodes_doc(module.info.ports@)->Arr_1[i]),
        ("kind"@, Doc::Str("voltage"@)),
    ]);
}

/// The names of the members of an object, in order.
pub open spec fn member_names(doc: Doc) -> Seq<Seq<char>> {
    Seq::new(doc->Obj_1.len(), |i: int| doc->Obj_1[i].0)
}

/// The member `k` of an object.
pub open spec fn member_doc(doc: Doc, k: int) -> Doc {
    doc->Obj_1[k].1
}

/// Every module is written with the same schema, whatever it holds and however
/// far it was optimised: the module, its three functions and the two views of its
/// equation system have the same members in the same order, under the same version.
pub proof fn law_schema_is_fixed(module: CompiledModule, strings: Seq<Seq<char>>)
    ensures
        member_names(module_doc(module, strings)) == seq![
            "schema_version"@,
            "name"@,
            "ports"@,
            "port_nodes"@,
            "internal_nodes"@,
            "eval_fn"@,
            "init_fn"@,
            "setup_fn"@,
            "dae"@,
            "mna"@,
        ],
        member_doc(module_doc(module, strings), 0) == Doc::Num(decimal_text(1)),
        forall|k: int|
            5 <= k < 8 ==> #[trigger] member_names(member_doc(module_doc(module, strings), k))
                == seq![
                "name"@,
                "args"@,
                "params"@,
                "constants"@,
                "call_decls"@,
                "blocks"@,
                "cache_mapping"@,
            ],
        member_names(member_doc(module_doc(module, strings), 8)) == seq![
            "unknowns"@,
            "residual"@,
            "jacobian"@,
            "num_resistive"@,
            "num_reactive"@,
        ],
        member_names(member_doc(module_doc(module, strings), 9)) == seq![
            "num_nodes"@,
            "num_terminals"@,
            "nodes"@,
            "residuals"@,
            "jacobian_entries"@,
            "num_noise_sources"@,
            "num_jacobian_entries"@,
            "num_resistive_jacobian_entries"@,
            "num_reactive_jacobian_entries"@,
        ],
{
}

/// A constant is written as a number if and only if it is finite. The two
/// infinities and not-a-number have three different strings.
pub proof fn law_only_finite_constants_are_numbers(one: FloatConst, other: FloatConst)
    ensures
        float_doc(one) is Num <==> is_finite(one.bits),
        !is_finite(one.bits) && !is_finite(other.bits) ==> (float_doc(one) == float_doc(other)
            <==> {
            &&& is_infinite(one.bits) == is_infinite(other.bits)
            &&& is_infinite(one.bits) ==> is_negative(one.bits) == is_negative(other.bits)
        }),
{
    reveal_strlit("__inf__");
    reveal_strlit("__neginf__");
    reveal_strlit("__nan__");
    assert("__inf__"@[2] != "__nan__"@[2]);
    assert("__inf__"@.len() != "__neginf__"@.len());
    assert("__nan__"@.len() != "__neginf__"@.len());
}

} // verus!
