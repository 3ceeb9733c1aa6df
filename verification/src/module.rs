//! A compiled module as JSON.

use lasso::Rodeo;
use vstd::prelude::*;

use crate::branches::{branch_hi_lo, BranchReg};
#[allow(unused_imports)]
use crate::branches::{branch_ends, ends, opt_name, Ends};
use crate::builder::{ArrayWriter, ObjectWriter};
use crate::dae::emit_dae_json;
#[allow(unused_imports)]
use crate::dae::{
    current_ends, dae_doc, known_after_dae, known_after_unknowns, lemma_unknowns_add_branches,
};
use crate::function::emit_function_json;
#[allow(unused_imports)]
use crate::function::{
    function_doc, known_after_function, known_after_params, lemma_params_add_branches,
    literal_known, literals_known,
};
use crate::json::{jstr, object, Layout};
#[allow(unused_imports)]
use crate::json::{escaped, number_doc, render, rendered_members, Doc};
use crate::literals::literal_count;
#[allow(unused_imports)]
use crate::literals::interned;
use crate::mna::emit_mna_json;
#[allow(unused_imports)]
use crate::mna::mna_doc;
use crate::model::{
    CompiledModule, Const, CurrentKind, Function, HirInterner, Node, ParamKind, SimUnknownKind,
    ValueDef,
};
#[allow(unused_imports)]
use crate::params::known_after_current;
#[allow(unused_imports)]
use crate::text::{concatenated, texts};
use crate::write::lines_of;
#[allow(unused_imports)]
use crate::write::{law_lines_make_up_the_object, object_lines};

verus! {

/// The version of the schema of the output.
pub const SCHEMA_VERSION: u64 = 1;

/// A list of nodes.
pub open spec fn nodes_doc(nodes: Seq<Node>) -> Doc {
    Doc::Arr(Layout::Spaced, Seq::new(nodes.len(), |i: int| Doc::Str(nodes[i].name@)))
}

/// The branches that have a number once one unknown has been looked at before
/// anything is written. A current into a terminal gets no number here.
pub open spec fn known_after_probe(kind: SimUnknownKind, known: Seq<Ends>) -> Seq<Ends> {
    match kind {
        SimUnknownKind::Current(current) => known_after_current(current, known),
        _ => known,
    }
}

/// The branches that have a number once the first `n` unknowns have been looked at.
pub open spec fn known_after_probes(
    unknowns: Seq<SimUnknownKind>,
    n: int,
    known: Seq<Ends>,
) -> Seq<Ends>
    decreases n,
{
    if n <= 0 {
        known
    } else {
        known_after_probe(unknowns[n - 1], known_after_probes(unknowns, n - 1, known))
    }
}

/// The branches that have a number before the evaluation function is written.
pub open spec fn known_before_eval(module: CompiledModule) -> Seq<Ends> {
    let unknowns = module.dae_system.unknowns@;
    known_after_probes(unknowns, unknowns.len() as int, Seq::empty())
}

/// The branches that have a number before the function that sets up an instance is written.
pub open spec fn known_before_init(module: CompiledModule) -> Seq<Ends> {
    known_after_function(module.intern, known_before_eval(module))
}

/// The branches that have a number before the function that sets up the model is written.
pub open spec fn known_before_setup(module: CompiledModule) -> Seq<Ends> {
    known_after_function(module.init.intern, known_before_init(module))
}

/// The branches that have a number before the equation system is written.
pub open spec fn known_before_dae(module: CompiledModule) -> Seq<Ends> {
    known_after_function(module.model_param_intern, known_before_setup(module))
}

/// All branches of a module that get a number, in the order of their numbers.
pub open spec fn all_branches(module: CompiledModule) -> Seq<Ends> {
    known_after_dae(module.dae_system, known_before_dae(module))
}

/// A compiled module.
pub open spec fn module_doc(module: CompiledModule, strings: Seq<Seq<char>>) -> Doc {
    Doc::Obj(
        Layout::Lines(2),
        seq![
            ("schema_version"@, number_doc(SCHEMA_VERSION as int)),
            ("name"@, Doc::Str(escaped(module.info.name@))),
            ("ports"@, nodes_doc(module.info.ports@)),
            ("port_nodes"@, nodes_doc(module.info.ports@)),
            ("internal_nodes"@, nodes_doc(module.info.internal_nodes@)),
            (
                "eval_fn"@,
                function_doc(
                    ""@,
                    module.eval,
                    module.intern,
                    strings,
                    Seq::empty(),
                    known_before_eval(module),
                ),
            ),
            (
                "init_fn"@,
                function_doc(
                    "_init"@,
                    module.init.func,
                    module.init.intern,
                    strings,
                    module.init.cached_vals@,
                    known_before_init(module),
                ),
            ),
            (
                "setup_fn"@,
                function_doc(
                    "_setup"@,
                    module.model_param_setup,
                    module.model_param_intern,
                    strings,
                    Seq::empty(),
                    known_before_setup(module),
                ),
            ),
            ("dae"@, dae_doc(module.dae_system, known_before_dae(module))),
            ("mna"@, mna_doc(module.info, module.dae_system)),
        ],
    )
}

/// The text that is written for a compiled module: one JSON object and a line break.
pub open spec fn module_text(module: CompiledModule, strings: Seq<Seq<char>>) -> Seq<char> {
    render(module_doc(module, strings)).push('\n')
}

/// The texts of the members of a compiled module.
pub open spec fn module_member_texts(module: CompiledModule, strings: Seq<Seq<char>>) -> Seq<
    Seq<char>,
> {
    rendered_members(Layout::Lines(2), module_doc(module, strings)->Obj_1)
}

/// The pieces in which a compiled module is handed to a writer.
pub open spec fn module_pieces(module: CompiledModule, strings: Seq<Seq<char>>) -> Seq<Seq<char>> {
    object_lines(module_member_texts(module, strings))
}

/// The pieces of a module, one after the other, are the text of the module.
pub proof fn law_pieces_make_up_the_text(module: CompiledModule, strings: Seq<Seq<char>>)
    ensures
        concatenated(module_pieces(module, strings)) == module_text(module, strings),
{
    law_lines_make_up_the_object(module_member_texts(module, strings));
}

/// Every string literal of a module is one of the interned strings.
pub open spec fn module_literals_known(module: CompiledModule, strings: Seq<Seq<char>>) -> bool {
    &&& literals_known(module.eval, strings)
    &&& literals_known(module.init.func, strings)
    &&& literals_known(module.model_param_setup, strings)
}

/// A module that can be written: its literals are interned, and its branches
/// can be counted in thirty-two bits.
pub open spec fn writable(module: CompiledModule, strings: Seq<Seq<char>>) -> bool {
    &&& module_literals_known(module, strings)
    &&& all_branches(module).len() <= u32::MAX
}

/// Looking at more unknowns never takes a branch out of the list.
pub proof fn lemma_probes_add_branches(
    unknowns: Seq<SimUnknownKind>,
    n: int,
    m: int,
    known: Seq<Ends>,
)
    requires
        n <= m,
    ensures
        known_after_probes(unknowns, n, known).len() <= known_after_probes(
            unknowns,
            m,
            known,
        ).len(),
    decreases m - n,
{
    if 0 < m && n < m {
        lemma_probes_add_branches(unknowns, n, m - 1, known);
    }
}

/// The list of branches only grows from section to section.
proof fn lemma_sections_add_branches(module: CompiledModule)
    ensures
        known_before_eval(module).len() <= known_before_init(module).len(),
        known_before_init(module).len() <= known_before_setup(module).len(),
        known_before_setup(module).len() <= known_before_dae(module).len(),
        known_before_dae(module).len() <= all_branches(module).len(),
{
    lemma_params_add_branches(
        module.intern.params@,
        0,
        module.intern.params@.len() as int,
        known_before_eval(module),
    );
    lemma_params_add_branches(
        module.init.intern.params@,
        0,
        module.init.intern.params@.len() as int,
        known_before_init(module),
    );
    lemma_params_add_branches(
        module.model_param_intern.params@,
        0,
        module.model_param_intern.params@.len() as int,
        known_before_setup(module),
    );
    lemma_unknowns_add_branches(
        module.dae_system.unknowns@,
        0,
        module.dae_system.unknowns@.len() as int,
        known_before_dae(module),
    );
}

/// Writes a list of nodes.
fn nodes_array(nodes: &Vec<Node>) -> (res: String)
    ensures
        res@ == render(nodes_doc(nodes@)),
{
    let mut out = ArrayWriter::new(Layout::Spaced);
    let mut i: usize = 0;
    while i < nodes.len()
        invariant
            i <= nodes.len(),
            out.wf(),
            out.layout() == Layout::Spaced,
            out@.len() == i,
            forall|j: int| 0 <= j < i ==> #[trigger] out@[j] == Doc::Str(nodes@[j].name@),
        decreases nodes.len() - i,
    {
        out.put_str(nodes[i].name.as_str());
        i += 1;
    }
    out.finish(Ghost(nodes_doc(nodes@)))
}

/// Gives a number to every branch whose current is an unknown.
fn number_probes(unknowns: &Vec<SimUnknownKind>, branches: &mut BranchReg)
    requires
        old(branches).wf(),
        known_after_probes(unknowns@, unknowns@.len() as int, old(branches)@).len() <= u32::MAX,
    ensures
        final(branches).wf(),
        final(branches)@ == known_after_probes(
            unknowns@,
            unknowns@.len() as int,
            old(branches)@,
        ),
{
    let mut i: usize = 0;
    while i < unknowns.len()
        invariant
            i <= unknowns.len(),
            branches.wf(),
            branches@ == known_after_probes(unknowns@, i as int, old(branches)@),
            known_after_probes(unknowns@, unknowns@.len() as int, old(branches)@).len()
                <= u32::MAX,
        decreases unknowns.len() - i,
    {
        proof {
            lemma_probes_add_branches(unknowns@, i + 1, unknowns@.len() as int, old(branches)@);
        }
        match &unknowns[i] {
            SimUnknownKind::Current(CurrentKind::Branch(branch)) => {
                branches.named_id(branch);
            },
            SimUnknownKind::Current(CurrentKind::Unnamed { hi, lo }) => {
                branches.unnamed_id(hi, lo.as_ref());
            },
            _ => {},
        }
        i += 1;
    }
}

/// Writes the members of a compiled module.
///
/// Branches get their numbers in this order: the unknowns of the equation
/// system first, then the arguments of the evaluation function, of the instance
/// setup and of the model setup, and last the currents into terminals.
fn module_parts(module: &CompiledModule, literals: &Rodeo) -> (res: Vec<String>)
    requires
        writable(*module, interned(*literals)),
    ensures
        texts(res@) == module_member_texts(*module, interned(*literals)),
{
    let ghost strings = interned(*literals);
    proof {
        lemma_sections_add_branches(*module);
    }
    let mut branches = BranchReg::new();
    number_probes(&module.dae_system.unknowns, &mut branches);

    let mut out = ObjectWriter::new(Layout::Lines(2));
    let name = jstr(module.info.name.as_str());
    let ports = nodes_array(&module.info.ports);
    let internal_nodes = nodes_array(&module.info.internal_nodes);
    out.put_number("schema_version", SCHEMA_VERSION);
    out.put_str("name", name.as_str());
    out.put("ports", ports.as_str(), Ghost(nodes_doc(module.info.ports@)));
    out.put("port_nodes", ports.as_str(), Ghost(nodes_doc(module.info.ports@)));
    out.put(
        "internal_nodes",
        internal_nodes.as_str(),
        Ghost(nodes_doc(module.info.internal_nodes@)),
    );

    let ghost doc = function_doc(
        ""@,
        module.eval,
        module.intern,
        strings,
        Seq::empty(),
        branches@,
    );
    let text = emit_function_json(
        "",
        &module.eval,
        &module.intern,
        literals,
        None,
        &mut branches,
    );
    out.put("eval_fn", text.as_str(), Ghost(doc));

    let ghost doc = function_doc(
        "_init"@,
        module.init.func,
        module.init.intern,
        strings,
        module.init.cached_vals@,
        branches@,
    );
    let text = emit_function_json(
        "_init",
        &module.init.func,
        &module.init.intern,
        literals,
        Some(&module.init.cached_vals),
        &mut branches,
    );
    out.put("init_fn", text.as_str(), Ghost(doc));

    let ghost doc = function_doc(
        "_setup"@,
        module.model_param_setup,
        module.model_param_intern,
        strings,
        Seq::empty(),
        branches@,
    );
    let text = emit_function_json(
        "_setup",
        &module.model_param_setup,
        &module.model_param_intern,
        literals,
        None,
        &mut branches,
    );
    out.put("setup_fn", text.as_str(), Ghost(doc));

    let ghost doc = dae_doc(module.dae_system, branches@);
    let text = emit_dae_json(&module.dae_system, &mut branches);
    out.put("dae", text.as_str(), Ghost(doc));

    let text = emit_mna_json(&module.info, &module.dae_system);
    out.put("mna", text.as_str(), Ghost(mna_doc(module.info, module.dae_system)));

    out.into_parts(Ghost(module_doc(*module, strings)->Obj_1))
}

/// Writes a compiled module as one JSON object and a line break.
pub fn write_json(module: &CompiledModule, literals: &Rodeo) -> (res: String)
    requires
        writable(*module, interned(*literals)),
    ensures
        res@ == module_text(*module, interned(*literals)),
{
    let parts = module_parts(module, literals);
    let mut res = object(Layout::Lines(2), &parts);
    res.push('\n');
    res
}

/// Returns the pieces in which a compiled module is handed to a writer: one line
/// for the opening bracket, one piece for each member, and one line for the closing
/// bracket.
pub fn json_pieces(module: &CompiledModule, literals: &Rodeo) -> (res: Vec<String>)
    requires
        writable(*module, interned(*literals)),
    ensures
        texts(res@) == module_pieces(*module, interned(*literals)),
{
    let parts = module_parts(module, literals);
    lines_of(&parts)
}

/// Whether every string literal of a function is one of the interned strings.
fn check_literals(func: &Function, literals: &Rodeo) -> (res: bool)
    ensures
        res == literals_known(*func, interned(*literals)),
{
    let count = literal_count(literals);
    let mut i: usize = 0;
    while i < func.values.len()
        invariant
            i <= func.values.len(),
            count == interned(*literals).len(),
            forall|j: int|
                0 <= j < i ==> literal_known(
                    #[trigger] func.values@[j].1,
                    interned(*literals),
                ),
        decreases func.values.len() - i,
    {
        if let ValueDef::Const(Const::Str(number)) = &func.values[i].1 {
            if *number >= count {
                assert(!literal_known(func.values@[i as int].1, interned(*literals)));
                return false;
            }
        }
        i += 1;
    }
    true
}

/// Gives the branch of a probed current a number, if that can be done.
fn note_current(kind: &CurrentKind, branches: &mut BranchReg) -> (res: bool)
    requires
        old(branches).wf(),
        old(branches)@.len() <= u32::MAX,
    ensures
        final(branches).wf(),
        res == (known_after_current(*kind, old(branches)@).len() <= u32::MAX),
        res ==> final(branches)@ == known_after_current(*kind, old(branches)@),
{
    match kind {
        CurrentKind::Branch(branch) => {
            let (hi, lo) = branch_hi_lo(branch);
            let lo = match lo {
                Some(lo) => lo,
                None => String::new(),
            };
            assert((hi@, lo@) == branch_ends(*branch));
            let admitted = branches.admits(&hi, &lo);
            if admitted {
                branches.named_id(branch);
            }
            admitted
        },
        CurrentKind::Unnamed { hi, lo } => {
            let lo_name = match lo {
                Some(lo) => lo.name.clone(),
                None => String::new(),
            };
            assert((hi.name@, lo_name@) == ends(hi.name@, opt_name(*lo)));
            let admitted = branches.admits(&hi.name, &lo_name);
            if admitted {
                branches.unnamed_id(hi, lo.as_ref());
            }
            admitted
        },
        CurrentKind::Port(_) => true,
    }
}

/// Gives every branch whose current is an unknown a number, if that can be done.
fn note_probes(unknowns: &Vec<SimUnknownKind>, branches: &mut BranchReg) -> (res: bool)
    requires
        old(branches).wf(),
        old(branches)@.len() <= u32::MAX,
    ensures
        final(branches).wf(),
        res == (known_after_probes(unknowns@, unknowns@.len() as int, old(branches)@).len()
            <= u32::MAX),
        res ==> final(branches)@ == known_after_probes(
            unknowns@,
            unknowns@.len() as int,
            old(branches)@,
        ),
{
    let mut i: usize = 0;
    while i < unknowns.len()
        invariant
            i <= unknowns.len(),
            branches.wf(),
            branches@.len() <= u32::MAX,
            branches@ == known_after_probes(unknowns@, i as int, old(branches)@),
        decreases unknowns.len() - i,
    {
        proof {
            lemma_probes_add_branches(unknowns@, i + 1, unknowns@.len() as int, old(branches)@);
        }
        if let SimUnknownKind::Current(current) = &unknowns[i] {
            if !note_current(current, branches) {
                return false;
            }
        }
        i += 1;
    }
    true
}

/// Gives every branch that an argument stands for a number, if that can be done.
fn note_params(intern: &HirInterner, branches: &mut BranchReg) -> (res: bool)
    requires
        old(branches).wf(),
        old(branches)@.len() <= u32::MAX,
    ensures
        final(branches).wf(),
        res == (known_after_function(*intern, old(branches)@).len() <= u32::MAX),
        res ==> final(branches)@ == known_after_function(*intern, old(branches)@),
{
    let params = &intern.params;
    let mut i: usize = 0;
    while i < params.len()
        invariant
            i <= params.len(),
            branches.wf(),
            branches@.len() <= u32::MAX,
            branches@ == known_after_params(params@, i as int, old(branches)@),
            *params == intern.params,
        decreases params.len() - i,
    {
        proof {
            lemma_params_add_branches(params@, i + 1, params@.len() as int, old(branches)@);
        }
        if let ParamKind::Current(current) = &params[i].0 {
            if !note_current(current, branches) {
                return false;
            }
        }
        i += 1;
    }
    true
}

/// Whether every unknown that is a current can get a number.
fn note_unknowns(unknowns: &Vec<SimUnknownKind>, branches: &mut BranchReg) -> (res: bool)
    requires
        old(branches).wf(),
        old(branches)@.len() <= u32::MAX,
    ensures
        res == (known_after_unknowns(unknowns@, unknowns@.len() as int, old(branches)@).len()
            <= u32::MAX),
{
    let mut i: usize = 0;
    while i < unknowns.len()
        invariant
            i <= unknowns.len(),
            branches.wf(),
            branches@.len() <= u32::MAX,
            branches@ == known_after_unknowns(unknowns@, i as int, old(branches)@),
        decreases unknowns.len() - i,
    {
        proof {
            lemma_unknowns_add_branches(
                unknowns@,
                i + 1,
                unknowns@.len() as int,
                old(branches)@,
            );
        }
        if let SimUnknownKind::Current(current) = &unknowns[i] {
            match current {
                CurrentKind::Port(port) => {
                    let none = String::new();
                    assert((port.name@, none@) == current_ends(*current));
                    if !branches.admits(&port.name, &none) {
                        return false;
                    }
                    branches.unnamed_id(port, None);
                },
                _ => {
                    if !note_current(current, branches) {
                        return false;
                    }
                },
            }
        }
        i += 1;
    }
    true
}

/// Whether a compiled module can be written.
fn can_write(module: &CompiledModule, literals: &Rodeo) -> (res: bool)
    ensures
        res == writable(*module, interned(*literals)),
{
    if !check_literals(&module.eval, literals) || !check_literals(&module.init.func, literals)
        || !check_literals(&module.model_param_setup, literals) {
        return false;
    }
    proof {
        lemma_sections_add_branches(*module);
    }
    let mut branches = BranchReg::new();
    note_probes(&module.dae_system.unknowns, &mut branches) && note_params(
        &module.intern,
        &mut branches,
    ) && note_params(&module.init.intern, &mut branches) && note_params(
        &module.model_param_intern,
        &mut branches,
    ) && note_unknowns(&module.dae_system.unknowns, &mut branches)
}

/// Writes a compiled module, unless one of its string literals is not among the
/// interned strings or it has more branches than can be numbered.
pub fn try_write_json(module: &CompiledModule, literals: &Rodeo) -> (res: Option<String>)
    ensures
        res is Some <==> writable(*module, interned(*literals)),
        res matches Some(text) ==> text@ == module_text(*module, interned(*literals)),
{
    if can_write(module, literals) {
        Some(write_json(module, literals))
    } else {
        None
    }
}

/// Returns the pieces in which a compiled module is handed to a writer, unless one
/// of its string literals is not among the interned strings or it has more branches
/// than can be numbered.
pub fn try_json_pieces(module: &CompiledModule, literals: &Rodeo) -> (res: Option<Vec<String>>)
    ensures
        res is Some <==> writable(*module, interned(*literals)),
        res matches Some(pieces) ==> texts(pieces@) == module_pieces(
            *module,
            interned(*literals),
        ),
{
    if can_write(module, literals) {
        Some(json_pieces(module, literals))
    } else {
        None
    }
}

/// A module can be written if and only if every string literal of its three functions
/// has been interned and its branches can be counted in thirty-two bits. Nothing else
/// stands in the way.
pub proof fn law_what_can_be_written(module: CompiledModule, strings: Seq<Seq<char>>)
    ensures
        writable(module, strings) <==> {
            &&& forall|i: int|
                0 <= i < module.eval.values@.len() ==> (
                #[trigger] module.eval.values@[i].1 matches ValueDef::Const(Const::Str(number))
                    ==> number < strings.len())
            &&& forall|i: int|
                0 <= i < module.init.func.values@.len() ==> (
                #[trigger] module.init.func.values@[i].1 matches ValueDef::Const(Const::Str(number))
                    ==> number < strings.len())
            &&& forall|i: int|
                0 <= i < module.model_param_setup.values@.len() ==> (
                #[trigger] module.model_param_setup.values@[i].1 matches ValueDef::Const(
                    Const::Str(number),
                ) ==> number < strings.len())
            &&& all_branches(module).len() < 0x1_0000_0000
        },
{
}

} // verus!
