//! What stands where in the output, in terms of the module that is written.
//!
//! Every object is described member by member and every array item by item, over
//! all modules: what each entry is called, and what it is for the data it stands for.

use vstd::prelude::*;

#[allow(unused_imports)]
use crate::args::{args_of, by_number};
#[allow(unused_imports)]
use crate::branches::{registered, Ends};
#[allow(unused_imports)]
use crate::dae::{dae_doc, known_after_unknowns, unknown_text};
#[allow(unused_imports)]
use crate::function::{
    blocks_doc, bool_member, bool_members, constants_doc, float_doc, float_member, float_members,
    function_doc, inst_doc, int_member, int_members, known_after_params, str_member, str_members,
};
#[allow(unused_imports)]
use crate::json::{escaped, Doc, Layout};
#[allow(unused_imports)]
use crate::mna::mna_doc;
#[allow(unused_imports)]
use crate::model::{
    Block, BlockLayout, Branch, BranchKind, CacheSlot, CallBackKind, CompiledModule, Const,
    CurrentKind, DaeSystem, FloatConst, Function, HirInterner, Inst, InstructionData, ModuleInfo,
    Node, ParamKind, ResidualNatureKind, SimUnknownKind, Value, ValueDef,
};
#[allow(unused_imports)]
use crate::module::{
    known_before_dae, known_before_eval, known_before_init, known_before_setup, module_doc,
};
#[allow(unused_imports)]
use crate::numbering::written_ends;
#[allow(unused_imports)]
use crate::params::{callback_text, current_doc, param_doc};
#[allow(unused_imports)]
use crate::text::{decimal_text, signed_text};

verus! {

/// An object with `count` members, in the given layout.
pub open spec fn is_object(doc: Doc, layout: Layout, count: int) -> bool {
    doc matches Doc::Obj(found, members) && found == layout && members.len() == count
}

/// The member `k` of an object has the given name and value.
pub open spec fn has_member(doc: Doc, k: int, name: Seq<char>, value: Doc) -> bool {
    doc matches Doc::Obj(_, members) && 0 <= k < members.len() && members[k] == (name, value)
}

/// An array with `count` items, in the given layout.
pub open spec fn is_array(doc: Doc, layout: Layout, count: int) -> bool {
    doc matches Doc::Arr(found, items) && found == layout && items.len() == count
}

/// The item `k` of an array is the given value.
pub open spec fn has_item(doc: Doc, k: int, value: Doc) -> bool {
    doc matches Doc::Arr(_, items) && 0 <= k < items.len() && items[k] == value
}

/// A number in base ten.
pub open spec fn number(n: int) -> Doc {
    Doc::Num(decimal_text(n as nat))
}

/// The name of a node as it is, or null.
pub open spec fn raw_or_null(node: Option<Node>) -> Doc {
    match node {
        Some(node) => Doc::Str(node.name@),
        None => Doc::Null,
    }
}

/// The escaped name of a node, or null.
pub open spec fn escaped_or_null(node: Option<Node>) -> Doc {
    match node {
        Some(node) => Doc::Str(escaped(node.name@)),
        None => Doc::Null,
    }
}

/// The first end of a named branch.
pub open spec fn upper_end(branch: Branch) -> Node {
    match branch.kind {
        BranchKind::Nodes(hi, lo) => hi,
        BranchKind::NodeGnd(hi) => hi,
        BranchKind::PortFlow(port) => port,
    }
}

/// The second end of a named branch, which only a branch between two nodes has.
pub open spec fn lower_end(branch: Branch) -> Option<Node> {
    match branch.kind {
        BranchKind::Nodes(hi, lo) => Some(lo),
        _ => None,
    }
}

/// The number that a current through a branch is written with, where `known` have
/// a number: the place of its ends in the list once they are in it.
pub open spec fn written_number(kind: CurrentKind, known: Seq<Ends>) -> Doc {
    number(registered(known, written_ends(kind)).index_of(written_ends(kind)))
}

/// A probed current is described by its kind and by what it goes through: a named
/// branch by its name, its number and the names of its ends, an unnamed one by its
/// number and the names of its ends, and a terminal by its name. Where the second
/// end is ground, it is null.
pub proof fn law_current_description(kind: CurrentKind, known: Seq<Ends>)
    ensures
        kind matches CurrentKind::Branch(branch) ==> {
            let doc = current_doc(kind, known);
            &&& is_object(doc, Layout::Tight, 5)
            &&& has_member(doc, 0, "tag"@, Doc::Str("CurrentBranch"@))
            &&& has_member(doc, 1, "branch"@, Doc::Str(escaped(branch.name@)))
            &&& has_member(doc, 2, "branch_id"@, written_number(kind, known))
            &&& has_member(doc, 3, "hi"@, Doc::Str(upper_end(branch).name@))
            &&& has_member(doc, 4, "lo"@, raw_or_null(lower_end(branch)))
        },
        kind matches CurrentKind::Unnamed { hi, lo } ==> {
            let doc = current_doc(kind, known);
            &&& is_object(doc, Layout::Tight, 4)
            &&& has_member(doc, 0, "tag"@, Doc::Str("CurrentUnnamed"@))
            &&& has_member(doc, 1, "branch_id"@, written_number(kind, known))
            &&& has_member(doc, 2, "hi"@, Doc::Str(escaped(hi.name@)))
            &&& has_member(doc, 3, "lo"@, escaped_or_null(lo))
        },
        kind matches CurrentKind::Port(port) ==> {
            let doc = current_doc(kind, known);
            &&& is_object(doc, Layout::Tight, 2)
            &&& has_member(doc, 0, "tag"@, Doc::Str("CurrentPort"@))
            &&& has_member(doc, 1, "port"@, Doc::Str(escaped(port.name@)))
        },
{
}

/// A description that is made of a tag and one more entry.
pub open spec fn is_tagged(doc: Doc, tag: Seq<char>, name: Seq<char>, value: Doc) -> bool {
    &&& is_object(doc, Layout::Tight, 2)
    &&& has_member(doc, 0, "tag"@, Doc::Str(tag))
    &&& has_member(doc, 1, name, value)
}

/// A description that is made of a tag, a name, and the place of the argument.
pub open spec fn is_placed(
    doc: Doc,
    tag: Seq<char>,
    label: Seq<char>,
    name: Seq<char>,
    place: Seq<char>,
    idx: u32,
) -> bool {
    &&& is_object(doc, Layout::Tight, 3)
    &&& has_member(doc, 0, "tag"@, Doc::Str(tag))
    &&& has_member(doc, 1, label, Doc::Str(escaped(name)))
    &&& has_member(doc, 2, place, number(idx as int))
}

/// A description that is a tag alone.
pub open spec fn is_tag(doc: Doc, tag: Seq<char>) -> bool {
    is_object(doc, Layout::Tight, 1) && has_member(doc, 0, "tag"@, Doc::Str(tag))
}

/// What each kind of argument is described by.
pub proof fn law_argument_description(kind: ParamKind, idx: u32, known: Seq<Ends>)
    ensures
        kind matches ParamKind::Voltage { hi, lo } ==> {
            let doc = param_doc(kind, idx, known);
            &&& is_object(doc, Layout::Tight, 5)
            &&& has_member(doc, 0, "tag"@, Doc::Str("Voltage"@))
            &&& has_member(doc, 1, "hi"@, Doc::Str(hi.name@))
            &&& has_member(doc, 2, "lo"@, raw_or_null(lo))
            &&& has_member(doc, 3, "hi_node"@, Doc::Str(hi.name@))
            &&& has_member(doc, 4, "lo_node"@, raw_or_null(lo))
        },
        kind matches ParamKind::Current(current) ==> param_doc(kind, idx, known) == current_doc(
            current,
            known,
        ),
        kind matches ParamKind::Param(param) ==> is_placed(
            param_doc(kind, idx, known),
            "Param"@,
            "name"@,
            param.name@,
            "param_id"@,
            idx,
        ),
        kind matches ParamKind::ParamGiven { param } ==> is_placed(
            param_doc(kind, idx, known),
            "ParamGiven"@,
            "name"@,
            param.name@,
            "param_id"@,
            idx,
        ),
        kind matches ParamKind::HiddenState(var) ==> is_placed(
            param_doc(kind, idx, known),
            "HiddenState"@,
            "var"@,
            var.name@,
            "var_id"@,
            idx,
        ),
        kind is Temperature ==> is_tag(param_doc(kind, idx, known), "Temperature"@),
        kind is Abstime ==> is_tag(param_doc(kind, idx, known), "Abstime"@),
        kind is EnableLim ==> is_tag(param_doc(kind, idx, known), "EnableLim"@),
        kind is EnableIntegration ==> is_tag(param_doc(kind, idx, known), "EnableIntegration"@),
        kind matches ParamKind::ParamSysFun(fun) ==> is_tagged(
            param_doc(kind, idx, known),
            "ParamSysFun"@,
            "name"@,
            Doc::Str(fun.text@),
        ),
        kind matches ParamKind::PortConnected { port } ==> is_tagged(
            param_doc(kind, idx, known),
            "PortConnected"@,
            "port"@,
            Doc::Str(escaped(port.name@)),
        ),
        kind matches ParamKind::PrevState(state) ==> is_tagged(
            param_doc(kind, idx, known),
            "PrevState"@,
            "index"@,
            number(state as int),
        ),
        kind matches ParamKind::NewState(state) ==> is_tagged(
            param_doc(kind, idx, known),
            "NewState"@,
            "index"@,
            number(state as int),
        ),
        kind matches ParamKind::ImplicitUnknown(eq) ==> is_tagged(
            param_doc(kind, idx, known),
            "ImplicitUnknown"@,
            "id"@,
            number(eq.index as int),
        ),
{
}

/// What each called function is called: a derivative by a node and a hint to collapse
/// nodes name the nodes, and the others have a fixed name.
pub proof fn law_callback_names(kind: CallBackKind)
    ensures
        kind matches CallBackKind::NodeDerivative(node) ==> callback_text(kind) == "ddx_"@
            + node.name@,
        kind matches CallBackKind::CollapseHint(hi, Some(lo)) ==> callback_text(kind)
            == "collapse_"@ + hi.name@ + "_Some("@ + lo.name@ + ")"@,
        kind matches CallBackKind::CollapseHint(hi, None) ==> callback_text(kind) == "collapse_"@
            + hi.name@ + "_None"@,
        kind is TimeDerivative ==> callback_text(kind) == "ddt"@,
        kind is Derivative ==> callback_text(kind) == "ddx_param"@,
        kind is SimParam ==> callback_text(kind) == "simparam"@,
        kind is SimParamOpt ==> callback_text(kind) == "SimParamOpt"@,
        kind is SimParamStr ==> callback_text(kind) == "simparam_str"@,
        kind is Analysis ==> callback_text(kind) == "Analysis"@,
        kind is StoreLimit ==> callback_text(kind) == "StoreLimit"@,
        kind is LimDiscontinuity ==> callback_text(kind) == "LimDiscontinuity"@,
        kind is BuiltinLimit ==> callback_text(kind) == "BuiltinLimit"@,
        kind is WhiteNoise || kind is NoiseTable ==> callback_text(kind) == "WhiteNoise"@,
        kind is FlickerNoise ==> callback_text(kind) == "FlickerNoise"@,
        kind is Print ==> callback_text(kind) == "Print"@,
        kind is ParamInfo || kind is SetRetFlag ==> callback_text(kind) == "set_Invalid"@,
{
}

/// An instruction begins with its first result, or null where it has none, and its
/// opcode, and goes on with all that it refers to, in order.
pub proof fn law_instruction_content(inst: Inst)
    ensures
        has_member(
            inst_doc(inst),
            0,
            "result"@,
            if inst.results@.len() > 0 {
                Doc::Str(inst.results@[0].text@)
            } else {
                Doc::Null
            },
        ),
        inst.data matches InstructionData::Unary { opcode, arg } ==> {
            let doc = inst_doc(inst);
            &&& is_object(doc, Layout::Spaced, 3)
            &&& has_member(doc, 1, "opcode"@, Doc::Str(opcode.text@))
            &&& doc->Obj_1[2].0 == "operands"@
            &&& is_array(doc->Obj_1[2].1, Layout::Spaced, 1)
            &&& has_item(doc->Obj_1[2].1, 0, Doc::Str(arg.text@))
        },
        inst.data matches InstructionData::Binary { opcode, lhs, rhs } ==> {
            let doc = inst_doc(inst);
            &&& is_object(doc, Layout::Spaced, 3)
            &&& has_member(doc, 1, "opcode"@, Doc::Str(opcode.text@))
            &&& doc->Obj_1[2].0 == "operands"@
            &&& is_array(doc->Obj_1[2].1, Layout::Spaced, 2)
            &&& has_item(doc->Obj_1[2].1, 0, Doc::Str(lhs.text@))
            &&& has_item(doc->Obj_1[2].1, 1, Doc::Str(rhs.text@))
        },
        inst.data matches InstructionData::Branch { cond, then_dst, else_dst } ==> {
            let doc = inst_doc(inst);
            &&& is_object(doc, Layout::Spaced, 5)
            &&& has_member(doc, 1, "opcode"@, Doc::Str("br"@))
            &&& has_member(doc, 2, "condition"@, Doc::Str(cond.text@))
            &&& has_member(doc, 3, "true_block"@, Doc::Str(then_dst.text@))
            &&& has_member(doc, 4, "false_block"@, Doc::Str(else_dst.text@))
        },
        inst.data matches InstructionData::Jump { destination } ==> {
            let doc = inst_doc(inst);
            &&& is_object(doc, Layout::Spaced, 3)
            &&& has_member(doc, 1, "opcode"@, Doc::Str("jmp"@))
            &&& doc->Obj_1[2].0 == "targets"@
            &&& is_array(doc->Obj_1[2].1, Layout::Spaced, 1)
            &&& has_item(doc->Obj_1[2].1, 0, Doc::Str(destination.text@))
        },
        inst.data is Exit ==> {
            let doc = inst_doc(inst);
            &&& is_object(doc, Layout::Spaced, 3)
            &&& has_member(doc, 1, "opcode"@, Doc::Str("exit"@))
            &&& doc->Obj_1[2].0 == "operands"@
            &&& is_array(doc->Obj_1[2].1, Layout::Spaced, 0)
        },
        inst.data matches InstructionData::PhiNode(edges) ==> {
            let doc = inst_doc(inst);
            &&& is_object(doc, Layout::Spaced, 3)
            &&& has_member(doc, 1, "opcode"@, Doc::Str("phi"@))
            &&& doc->Obj_1[2].0 == "phi_edges"@
            &&& is_array(doc->Obj_1[2].1, Layout::Spaced, edges@.len() as int)
            &&& forall|i: int|
                0 <= i < edges@.len() ==> is_edge(
                    #[trigger] doc->Obj_1[2].1->Arr_1[i],
                    edges@[i],
                )
        },
        inst.data matches InstructionData::Call { func_ref, args } ==> {
            let doc = inst_doc(inst);
            &&& is_object(doc, Layout::Spaced, 4)
            &&& has_member(doc, 1, "opcode"@, Doc::Str("call"@))
            &&& has_member(doc, 2, "call_target"@, Doc::Str(func_ref.text@))
            &&& doc->Obj_1[3].0 == "operands"@
            &&& is_array(doc->Obj_1[3].1, Layout::Spaced, args@.len() as int)
            &&& forall|i: int|
                0 <= i < args@.len() ==> #[trigger] doc->Obj_1[3].1->Arr_1[i] == Doc::Str(
                    args@[i].text@,
                )
        },
{
}

/// An incoming edge is its value and the block that it comes from.
pub open spec fn is_edge(doc: Doc, edge: (Block, Value)) -> bool {
    &&& is_object(doc, Layout::Spaced, 2)
    &&& has_member(doc, 0, "value"@, Doc::Str(edge.1.text@))
    &&& has_member(doc, 1, "block"@, Doc::Str(edge.0.text@))
}

/// Every block of a function is written, in order, with its label and every one of
/// its instructions, in order.
pub proof fn law_block_content(func: Function)
    ensures
        is_array(blocks_doc(func), Layout::Lines(6), func.layout@.len() as int),
        forall|i: int|
            0 <= i < func.layout@.len() ==> is_block(
                #[trigger] blocks_doc(func)->Arr_1[i],
                func.layout@[i],
            ),
{
}

/// A block is its label and its instructions.
pub open spec fn is_block(doc: Doc, block: BlockLayout) -> bool {
    &&& is_object(doc, Layout::Spaced, 2)
    &&& has_member(doc, 0, "label"@, Doc::Str(block.block.text@))
    &&& doc->Obj_1[1].0 == "insts"@
    &&& is_array(doc->Obj_1[1].1, Layout::Lines(8), block.insts@.len() as int)
    &&& forall|j: int|
        0 <= j < block.insts@.len() ==> #[trigger] doc->Obj_1[1].1->Arr_1[j] == inst_doc(
            block.insts@[j],
        )
}

/// A floating-point constant is written by its text, except for the two infinities
/// and for what is not a number; which of these it is, its bits decide alone.
pub proof fn law_float_content(value: FloatConst)
    ensures
        value.bits < 0x7ff0_0000_0000_0000 || 0x8000_0000_0000_0000 <= value.bits
            < 0xfff0_0000_0000_0000 ==> float_doc(value) == Doc::Num(value.text@),
        value.bits == 0x7ff0_0000_0000_0000 ==> float_doc(value) == Doc::Str("__inf__"@),
        value.bits == 0xfff0_0000_0000_0000 ==> float_doc(value) == Doc::Str("__neginf__"@),
        0x7ff0_0000_0000_0000 < value.bits < 0x8000_0000_0000_0000 || value.bits
            > 0xfff0_0000_0000_0000 ==> float_doc(value) == Doc::Str("__nan__"@),
{
}

/// The values that are floating-point constants.
pub open spec fn floats() -> spec_fn((Value, ValueDef)) -> bool {
    |entry: (Value, ValueDef)| entry.1 is Const && entry.1->Const_0 is Float
}

/// The values that are integer constants.
pub open spec fn ints() -> spec_fn((Value, ValueDef)) -> bool {
    |entry: (Value, ValueDef)| entry.1 is Const && entry.1->Const_0 is Int
}

/// The values that are truth values.
pub open spec fn bools() -> spec_fn((Value, ValueDef)) -> bool {
    |entry: (Value, ValueDef)| entry.1 is Const && entry.1->Const_0 is Bool
}

/// The values that are string literals.
pub open spec fn strs() -> spec_fn((Value, ValueDef)) -> bool {
    |entry: (Value, ValueDef)| entry.1 is Const && entry.1->Const_0 is Str
}

proof fn lemma_filter_values(
    values: Seq<(Value, ValueDef)>,
    pred: spec_fn((Value, ValueDef)) -> bool,
)
    requires
        values.len() > 0,
    ensures
        values.filter(pred) == if pred(values.last()) {
            values.drop_last().filter(pred).push(values.last())
        } else {
            values.drop_last().filter(pred)
        },
{
    reveal(Seq::filter);
}

proof fn lemma_floats(values: Seq<(Value, ValueDef)>)
    ensures
        float_members(values).len() == values.filter(floats()).len(),
        forall|i: int|
            0 <= i < values.filter(floats()).len() ==> float_member(
                #[trigger] values.filter(floats())[i],
            ) == Some(float_members(values)[i]),
    decreases values.len(),
{
    if values.len() > 0 {
        lemma_floats(values.drop_last());
        lemma_filter_values(values, floats());
    } else {
        reveal(Seq::filter);
    }
}

proof fn lemma_ints(values: Seq<(Value, ValueDef)>)
    ensures
        int_members(values).len() == values.filter(ints()).len(),
        forall|i: int|
            0 <= i < values.filter(ints()).len() ==> int_member(
                #[trigger] values.filter(ints())[i],
            ) == Some(int_members(values)[i]),
    decreases values.len(),
{
    if values.len() > 0 {
        lemma_ints(values.drop_last());
        lemma_filter_values(values, ints());
    } else {
        reveal(Seq::filter);
    }
}

proof fn lemma_bools(values: Seq<(Value, ValueDef)>)
    ensures
        bool_members(values).len() == values.filter(bools()).len(),
        forall|i: int|
            0 <= i < values.filter(bools()).len() ==> bool_member(
                #[trigger] values.filter(bools())[i],
            ) == Some(bool_members(values)[i]),
    decreases values.len(),
{
    if values.len() > 0 {
        lemma_bools(values.drop_last());
        lemma_filter_values(values, bools());
    } else {
        reveal(Seq::filter);
    }
}

proof fn lemma_strs(values: Seq<(Value, ValueDef)>, strings: Seq<Seq<char>>)
    ensures
        str_members(values, strings).len() == values.filter(strs()).len(),
        forall|i: int|
            0 <= i < values.filter(strs()).len() ==> str_member(
                #[trigger] values.filter(strs())[i],
                strings,
            ) == Some(str_members(values, strings)[i]),
    decreases values.len(),
{
    if values.len() > 0 {
        lemma_strs(values.drop_last(), strings);
        lemma_filter_values(values, strs());
    } else {
        reveal(Seq::filter);
    }
}

/// The value under which a constant is written, and what is written for it.
pub open spec fn is_constant(
    member: (Seq<char>, Doc),
    entry: (Value, ValueDef),
    strings: Seq<Seq<char>>,
) -> bool {
    &&& member.0 == entry.0.text@
    &&& entry.1 is Const
    &&& match entry.1->Const_0 {
        Const::Float(value) => member.1 == float_doc(value),
        Const::Int(value) => member.1 == Doc::Num(signed_text(value as int)),
        Const::Bool(value) => member.1 == Doc::Bool(value),
        Const::Str(number) => member.1 == Doc::Str(escaped(strings[number as int])),
    }
}

/// All the constants of a function are written, and nothing else: first those that
/// are floating-point numbers, then the integers, the truth values and the strings,
/// and among each of these in the order of the values.
pub proof fn law_constants_content(func: Function, strings: Seq<Seq<char>>)
    ensures
        ({
            let doc = constants_doc(func, strings);
            let f = func.values@.filter(floats());
            let i = func.values@.filter(ints());
            let b = func.values@.filter(bools());
            let s = func.values@.filter(strs());
            let order = f + i + b + s;
            &&& is_object(doc, Layout::Lines(6), order.len() as int)
            &&& forall|k: int|
                0 <= k < order.len() ==> is_constant(
                    #[trigger] doc->Obj_1[k],
                    order[k],
                    strings,
                )
        }),
{
    let values = func.values@;
    let f = values.filter(floats());
    let i = values.filter(ints());
    let b = values.filter(bools());
    let s = values.filter(strs());
    let order = f + i + b + s;
    let members = constants_doc(func, strings)->Obj_1;
    lemma_floats(values);
    lemma_ints(values);
    lemma_bools(values);
    lemma_strs(values, strings);
    assert forall|k: int| 0 <= k < order.len() implies is_constant(
        #[trigger] members[k],
        order[k],
        strings,
    ) by {
        if k < f.len() {
            assert(order[k] == f[k]);
            assert(float_member(f[k]) == Some(members[k]));
        } else if k < f.len() + i.len() {
            let j = k - f.len();
            assert(order[k] == i[j]);
            assert(int_member(i[j]) == Some(members[k]));
        } else if k < f.len() + i.len() + b.len() {
            let j = k - f.len() - i.len();
            assert(order[k] == b[j]);
            assert(bool_member(b[j]) == Some(members[k]));
        } else {
            let j = k - f.len() - i.len() - b.len();
            assert(order[k] == s[j]);
            assert(str_member(s[j], strings) == Some(members[k]));
        }
    }
}

/// What a compiled function is written as.
pub open spec fn is_function(
    doc: Doc,
    name: Seq<char>,
    func: Function,
    intern: HirInterner,
    strings: Seq<Seq<char>>,
    mapping: Seq<(Value, CacheSlot)>,
    known: Seq<Ends>,
) -> bool {
    let args = by_number(args_of(func.values@));
    &&& is_object(doc, Layout::Lines(4), 7)
    &&& has_member(doc, 0, "name"@, Doc::Str(name))
    &&& doc->Obj_1[1].0 == "args"@
    &&& is_array(doc->Obj_1[1].1, Layout::Spaced, args.len() as int)
    &&& forall|i: int|
        0 <= i < args.len() ==> #[trigger] doc->Obj_1[1].1->Arr_1[i] == Doc::Str(args[i].1)
    &&& doc->Obj_1[2].0 == "params"@
    &&& is_object(doc->Obj_1[2].1, Layout::Lines(6), intern.params@.len() as int)
    &&& forall|i: int|
        0 <= i < intern.params@.len() ==> #[trigger] doc->Obj_1[2].1->Obj_1[i] == (
            intern.params@[i].1.text@,
            param_doc(
                intern.params@[i].0,
                i as u32,
                known_after_params(intern.params@, i, known),
            ),
        )
    &&& has_member(doc, 3, "constants"@, constants_doc(func, strings))
    &&& doc->Obj_1[4].0 == "call_decls"@
    &&& is_array(doc->Obj_1[4].1, Layout::Lines(6), intern.callbacks@.len() as int)
    &&& forall|i: int|
        0 <= i < intern.callbacks@.len() ==> is_declaration(
            #[trigger] doc->Obj_1[4].1->Arr_1[i],
            i,
            intern.callbacks@[i],
        )
    &&& has_member(doc, 5, "blocks"@, blocks_doc(func))
    &&& doc->Obj_1[6].0 == "cache_mapping"@
    &&& is_array(doc->Obj_1[6].1, Layout::Lines(6), mapping.len() as int)
    &&& forall|i: int|
        0 <= i < mapping.len() ==> is_cached(#[trigger] doc->Obj_1[6].1->Arr_1[i], mapping[i])
}

/// The declaration of a called function: the name it is called by, from its place
/// in the list, and what it is.
pub open spec fn is_declaration(doc: Doc, index: int, kind: CallBackKind) -> bool {
    &&& is_object(doc, Layout::Spaced, 2)
    &&& has_member(doc, 0, "name"@, Doc::Str("inst"@ + decimal_text(index as nat)))
    &&& has_member(doc, 1, "raw"@, Doc::Str("fn %"@ + callback_text(kind)))
}

/// A cached value and its slot.
pub open spec fn is_cached(doc: Doc, entry: (Value, CacheSlot)) -> bool {
    &&& is_object(doc, Layout::Spaced, 2)
    &&& has_member(doc, 0, "init_value"@, Doc::Str(entry.0.text@))
    &&& has_member(doc, 1, "cslot"@, Doc::Str(entry.1.text@))
}

/// A compiled function is written with its name, all its arguments by number, what
/// each of them stands for under the value that holds it, its constants, every
/// function that it calls, its blocks, and every cached value with its slot.
pub proof fn law_function_content(
    name: Seq<char>,
    func: Function,
    intern: HirInterner,
    strings: Seq<Seq<char>>,
    mapping: Seq<(Value, CacheSlot)>,
    known: Seq<Ends>,
)
    ensures
        is_function(
            function_doc(name, func, intern, strings, mapping, known),
            name,
            func,
            intern,
            strings,
            mapping,
            known,
        ),
{
}

/// An array of the names of nodes, as they are.
pub open spec fn is_node_list(doc: Doc, nodes: Seq<Node>) -> bool {
    &&& is_array(doc, Layout::Spaced, nodes.len() as int)
    &&& forall|i: int|
        0 <= i < nodes.len() ==> #[trigger] doc->Arr_1[i] == Doc::Str(nodes[i].name@)
}

/// A module is written with its name, its terminals twice, its internal nodes, its
/// three functions under their names, and the two views of its equation system. Only
/// the setup of an instance has cached values.
pub proof fn law_module_content(module: CompiledModule, strings: Seq<Seq<char>>)
    ensures
        ({
            let doc = module_doc(module, strings);
            &&& is_object(doc, Layout::Lines(2), 10)
            &&& has_member(doc, 0, "schema_version"@, number(1))
            &&& has_member(doc, 1, "name"@, Doc::Str(escaped(module.info.name@)))
            &&& doc->Obj_1[2].0 == "ports"@
            &&& is_node_list(doc->Obj_1[2].1, module.info.ports@)
            &&& doc->Obj_1[3].0 == "port_nodes"@
            &&& is_node_list(doc->Obj_1[3].1, module.info.ports@)
            &&& doc->Obj_1[4].0 == "internal_nodes"@
            &&& is_node_list(doc->Obj_1[4].1, module.info.internal_nodes@)
            &&& doc->Obj_1[5].0 == "eval_fn"@
            &&& is_function(
                doc->Obj_1[5].1,
                Seq::empty(),
                module.eval,
                module.intern,
                strings,
                Seq::empty(),
                known_before_eval(module),
            )
            &&& doc->Obj_1[6].0 == "init_fn"@
            &&& is_function(
                doc->Obj_1[6].1,
                "_init"@,
                module.init.func,
                module.init.intern,
                strings,
                module.init.cached_vals@,
                known_before_init(module),
            )
            &&& doc->Obj_1[7].0 == "setup_fn"@
            &&& is_function(
                doc->Obj_1[7].1,
                "_setup"@,
                module.model_param_setup,
                module.model_param_intern,
                strings,
                Seq::empty(),
                known_before_setup(module),
            )
            &&& has_member(doc, 8, "dae"@, dae_doc(module.dae_system, known_before_dae(module)))
            &&& has_member(doc, 9, "mna"@, mna_doc(module.info, module.dae_system))
        }),
{
    reveal_strlit("");
    assert(""@ =~= Seq::empty());
    law_function_content(
        Seq::empty(),
        module.eval,
        module.intern,
        strings,
        Seq::empty(),
        known_before_eval(module),
    );
    law_function_content(
        "_init"@,
        module.init.func,
        module.init.intern,
        strings,
        module.init.cached_vals@,
        known_before_init(module),
    );
    law_function_content(
        "_setup"@,
        module.model_param_setup,
        module.model_param_intern,
        strings,
        Seq::empty(),
        known_before_setup(module),
    );
}

/// What the unknown or the equation with the given number is called.
pub open spec fn node_label(i: int) -> Seq<char> {
    "sim_node"@ + decimal_text(i as nat)
}

/// The word for the nature of a residual.
pub open spec fn is_nature_word(word: Seq<char>, nature: ResidualNatureKind) -> bool {
    &&& nature is Flow ==> word == "Flow"@
    &&& nature is Potential ==> word == "Potential"@
    &&& nature is Switch ==> word == "Switch"@
}

/// The equation system is written with the name of every unknown, all parts of every
/// residual and every entry of the Jacobian, each under its number or its row and
/// column, and in order.
pub proof fn law_equations_content(dae: DaeSystem, known: Seq<Ends>)
    ensures
        ({
            let doc = dae_doc(dae, known);
            let unknowns = doc->Obj_1[0].1;
            let residuals = doc->Obj_1[1].1;
            let jacobian = doc->Obj_1[2].1;
            &&& is_object(doc, Layout::Lines(4), 5)
            &&& doc->Obj_1[0].0 == "unknowns"@
            &&& is_object(unknowns, Layout::Lines(6), dae.unknowns@.len() as int)
            &&& forall|i: int|
                0 <= i < dae.unknowns@.len() ==> #[trigger] unknowns->Obj_1[i] == (
                    node_label(i),
                    Doc::Str(
                        unknown_text(
                            dae.unknowns@[i],
                            known_after_unknowns(dae.unknowns@, i, known),
                        ),
                    ),
                )
            &&& doc->Obj_1[1].0 == "residual"@
            &&& is_object(residuals, Layout::Lines(6), dae.residual@.len() as int)
            &&& forall|i: int|
                0 <= i < dae.residual@.len() ==> {
                    let residual = dae.residual@[i];
                    let entry = (#[trigger] residuals->Obj_1[i]).1;
                    &&& residuals->Obj_1[i].0 == node_label(i)
                    &&& is_object(entry, Layout::Spaced, 7)
                    &&& has_member(entry, 0, "resist"@, Doc::Str(residual.resist.text@))
                    &&& has_member(entry, 1, "react"@, Doc::Str(residual.react.text@))
                    &&& has_member(
                        entry,
                        2,
                        "resist_small_signal"@,
                        Doc::Str(residual.resist_small_signal.text@),
                    )
                    &&& has_member(
                        entry,
                        3,
                        "react_small_signal"@,
                        Doc::Str(residual.react_small_signal.text@),
                    )
                    &&& has_member(
                        entry,
                        4,
                        "resist_lim_rhs"@,
                        Doc::Str(residual.resist_lim_rhs.text@),
                    )
                    &&& has_member(
                        entry,
                        5,
                        "react_lim_rhs"@,
                        Doc::Str(residual.react_lim_rhs.text@),
                    )
                    &&& entry->Obj_1[6].0 == "nature_kind"@
                    &&& entry->Obj_1[6].1 is Str
                    &&& is_nature_word(entry->Obj_1[6].1->Str_0, residual.nature_kind)
                }
            &&& doc->Obj_1[2].0 == "jacobian"@
            &&& is_object(jacobian, Layout::Lines(6), dae.jacobian@.len() as int)
            &&& forall|i: int|
                0 <= i < dae.jacobian@.len() ==> {
                    let part = dae.jacobian@[i];
                    let entry = (#[trigger] jacobian->Obj_1[i]).1;
                    &&& jacobian->Obj_1[i].0 == part.row.text@ + ","@ + part.col.text@
                    &&& is_object(entry, Layout::Spaced, 4)
                    &&& has_member(entry, 0, "row"@, Doc::Str(part.row.text@))
                    &&& has_member(entry, 1, "col"@, Doc::Str(part.col.text@))
                    &&& has_member(entry, 2, "resist"@, Doc::Str(part.resist.text@))
                    &&& has_member(entry, 3, "react"@, Doc::Str(part.react.text@))
                }
            &&& has_member(doc, 3, "num_resistive"@, number(dae.num_resistive as int))
            &&& has_member(doc, 4, "num_reactive"@, number(dae.num_reactive as int))
        }),
{
}

/// An unknown that is no current is called by the name of its node, or by the text
/// of its equation. A current is called by the number of its branch.
pub proof fn law_names_of_unknowns(kind: SimUnknownKind, known: Seq<Ends>)
    ensures
        kind matches SimUnknownKind::KirchoffLaw(node) ==> unknown_text(kind, known) == node.name@,
        kind matches SimUnknownKind::Implicit(eq) ==> unknown_text(kind, known) == eq.text@,
        kind matches SimUnknownKind::Current(current) ==> Doc::Str(unknown_text(kind, known))
            == Doc::Str(
            "br[Branch(BranchId("@ + written_number(current, known)->Num_0 + "))]"@,
        ),
{
}

/// What an unknown is called by position: a potential by its node, a current by the
/// ends of its branch or by its terminal, and another unknown by its equation.
pub open spec fn is_position_name(name: Seq<char>, kind: SimUnknownKind) -> bool {
    match kind {
        SimUnknownKind::KirchoffLaw(node) => name == node.name@,
        SimUnknownKind::Implicit(eq) => name == eq.text@,
        SimUnknownKind::Current(CurrentKind::Port(port)) => name == "I<"@ + port.name@ + ">"@,
        SimUnknownKind::Current(CurrentKind::Branch(branch)) => is_current_name(
            name,
            upper_end(branch),
            lower_end(branch),
        ),
        SimUnknownKind::Current(CurrentKind::Unnamed { hi, lo }) => is_current_name(name, hi, lo),
    }
}

/// What the current between two nodes, or from one to ground, is called.
pub open spec fn is_current_name(name: Seq<char>, hi: Node, lo: Option<Node>) -> bool {
    &&& lo matches Some(lo) ==> name == "I("@ + hi.name@ + ","@ + lo.name@ + ")"@
    &&& lo is None ==> name == "I("@ + hi.name@ + ")"@
}

/// The word for the kind of an unknown.
pub open spec fn is_kind_word(word: Seq<char>, kind: SimUnknownKind) -> bool {
    &&& kind is KirchoffLaw ==> word == "voltage"@
    &&& kind is Current ==> word == "current"@
    &&& kind is Implicit ==> word == "implicit"@
}

/// The positional view holds every unknown, every residual and every entry of the
/// Jacobian at its place. Whatever the row and the column of an entry, it has a
/// resistive part if and only if its resistive value is not the zero constant, and a
/// reactive part if and only if its reactive value is not the zero constant.
pub proof fn law_positional_content(info: ModuleInfo, dae: DaeSystem)
    ensures
        ({
            let doc = mna_doc(info, dae);
            let nodes = doc->Obj_1[2].1;
            let residuals = doc->Obj_1[3].1;
            let entries = doc->Obj_1[4].1;
            &&& is_object(doc, Layout::Lines(4), 9)
            &&& has_member(doc, 0, "num_nodes"@, number(dae.unknowns@.len() as int))
            &&& has_member(doc, 1, "num_terminals"@, number(info.ports@.len() as int))
            &&& doc->Obj_1[2].0 == "nodes"@
            &&& is_array(nodes, Layout::Lines(6), dae.unknowns@.len() as int)
            &&& forall|i: int|
                0 <= i < dae.unknowns@.len() ==> {
                    let node = #[trigger] nodes->Arr_1[i];
                    &&& is_object(node, Layout::Spaced, 3)
                    &&& has_member(node, 0, "idx"@, number(i))
                    &&& node->Obj_1[1].0 == "name"@
                    &&& node->Obj_1[1].1 is Str
                    &&& is_position_name(node->Obj_1[1].1->Str_0, dae.unknowns@[i])
                    &&& node->Obj_1[2].0 == "kind"@
                    &&& node->Obj_1[2].1 is Str
                    &&& is_kind_word(node->Obj_1[2].1->Str_0, dae.unknowns@[i])
                }
            &&& doc->Obj_1[3].0 == "residuals"@
            &&& is_array(residuals, Layout::Lines(6), dae.residual@.len() as int)
            &&& forall|i: int|
                0 <= i < dae.residual@.len() ==> {
                    let entry = #[trigger] residuals->Arr_1[i];
                    &&& is_object(entry, Layout::Spaced, 3)
                    &&& has_member(entry, 0, "node"@, number(i))
                    &&& has_member(entry, 1, "resist"@, Doc::Str(dae.residual@[i].resist.text@))
                    &&& has_member(entry, 2, "react"@, Doc::Str(dae.residual@[i].react.text@))
                }
            &&& doc->Obj_1[4].0 == "jacobian_entries"@
            &&& is_array(entries, Layout::Lines(6), dae.jacobian@.len() as int)
            &&& forall|i: int|
                0 <= i < dae.jacobian@.len() ==> {
                    let part = dae.jacobian@[i];
                    let entry = #[trigger] entries->Arr_1[i];
                    &&& is_object(entry, Layout::Spaced, 6)
                    &&& has_member(entry, 0, "row"@, number(part.row.index as int))
                    &&& has_member(entry, 1, "col"@, number(part.col.index as int))
                    &&& has_member(entry, 2, "resist"@, Doc::Str(part.resist.text@))
                    &&& has_member(entry, 3, "react"@, Doc::Str(part.react.text@))
                    &&& entry->Obj_1[4].0 == "has_resist"@
                    &&& entry->Obj_1[4].1 == Doc::Bool(true) <==> part.resist.index
                        != dae.zero.index
                    &&& entry->Obj_1[4].1 == Doc::Bool(false) <==> part.resist.index
                        == dae.zero.index
                    &&& entry->Obj_1[5].0 == "has_react"@
                    &&& entry->Obj_1[5].1 == Doc::Bool(true) <==> part.react.index
                        != dae.zero.index
                    &&& entry->Obj_1[5].1 == Doc::Bool(false) <==> part.react.index
                        == dae.zero.index
                }
            &&& has_member(doc, 5, "num_noise_sources"@, number(dae.num_noise_sources as int))
            &&& has_member(doc, 6, "num_jacobian_entries"@, number(dae.jacobian@.len() as int))
            &&& has_member(
                doc,
                7,
                "num_resistive_jacobian_entries"@,
                number(dae.num_resistive as int),
            )
            &&& has_member(
                doc,
                8,
                "num_reactive_jacobian_entries"@,
                number(dae.num_reactive as int),
            )
        }),
{
}

} // verus!
