//! When the JSON text of a module is well formed.
//!
//! Names and texts of the compiler that are output as they are have to be legal
//! inside a JSON string; those that are escaped first always are.

use vstd::prelude::*;

#[allow(unused_imports)]
use crate::grammar::{code_unit, first_char, is_number, reads_as, unescaped, Json};
#[allow(unused_imports)]
use crate::json::{number_doc, render, Doc, Layout, Members};
#[allow(unused_imports)]
use crate::branches::{branch_ends, branch_id, ends, hi_lo, opt_name, Ends};
#[allow(unused_imports)]
use crate::model::{
    Block, BlockLayout, CacheSlot, CallBackKind, CompiledModule, Const, CurrentKind, DaeSystem,
    Function, HirInterner, Inst, InstructionData, MatrixEntry, ModuleInfo, ParamKind, Residual,
    SimUnknownKind, Value, ValueDef,
};
#[allow(unused_imports)]
use crate::args::{args_of, by_number, inserted, Arg};
#[allow(unused_imports)]
use crate::dae::{
    current_ends, dae_doc, jacobian_doc, jacobian_member, known_after_unknowns, residual_doc,
    residuals_doc, sim_node_text, unknown_member, unknown_text, unknowns_doc,
};
#[allow(unused_imports)]
use crate::function::{
    args_doc, block_doc, blocks_doc, bool_member, bool_members, cache_mapping_doc, cached_doc,
    call_decl_doc, call_decls_doc, constants_doc, edge_doc, edges_doc, float_member, float_members,
    function_doc, inst_doc, insts_doc, int_member, int_members, is_finite, known_after_params,
    param_member, params_doc, picked, str_member, str_members, values_doc,
};
#[allow(unused_imports)]
use crate::mna::{
    current_text, mna_doc, mna_entries_doc, mna_entry_doc, mna_name, mna_node_doc, mna_nodes_doc,
    mna_residual_doc, mna_residuals_doc,
};
#[allow(unused_imports)]
use crate::module::{
    known_before_dae, known_before_eval, known_before_init, known_before_setup, module_doc,
    module_text, nodes_doc, SCHEMA_VERSION,
};
#[allow(unused_imports)]
use crate::params::{callback_text, current_doc, param_doc};
#[allow(unused_imports)]
use crate::text::{decimal_text, digit_char};
#[allow(unused_imports)]
use crate::wellformed::{
    are_legal, are_legal_members, is_legal, is_plain, law_decimals_are_numbers,
    law_escaping_is_undone, law_padding_changes_nothing, law_plain_text_stands_for_itself,
    law_rendered_reads_back, value_of,
};
#[allow(unused_imports)]
use crate::unambiguous::law_text_means_one_value;

verus! {

/// A text that may stand between the quotes of a JSON string.
pub open spec fn is_legal_text(s: Seq<char>) -> bool {
    unescaped(s) is Some
}

proof fn lemma_legal_items(items: Seq<Doc>)
    requires
        forall|i: int| 0 <= i < items.len() ==> is_legal(#[trigger] items[i]),
    ensures
        are_legal(items),
    decreases items.len(),
{
    if items.len() > 0 {
        let rest = items.drop_last();
        assert forall|i: int| 0 <= i < rest.len() implies is_legal(#[trigger] rest[i]) by {
            assert(rest[i] == items[i]);
        }
        lemma_legal_items(rest);
    }
}

/// A member whose name and value are written as JSON allows.
pub open spec fn is_legal_member(member: (Seq<char>, Doc)) -> bool {
    is_legal_text(member.0) && is_legal(member.1)
}

proof fn lemma_legal_members(members: Members)
    requires
        forall|i: int| 0 <= i < members.len() ==> is_legal_member(#[trigger] members[i]),
    ensures
        are_legal_members(members),
    decreases members.len(),
{
    if members.len() > 0 {
        let rest = members.drop_last();
        assert forall|i: int| 0 <= i < rest.len() implies is_legal_member(
            #[trigger] rest[i],
        ) by {
            assert(rest[i] == members[i]);
        }
        lemma_legal_members(rest);
        assert(is_legal_member(members[members.len() - 1]));
    }
}

proof fn lemma_first_char_of_front(a: Seq<char>, b: Seq<char>)
    requires
        first_char(a) is Some,
    ensures
        first_char(a + b) == first_char(a),
        1 <= (first_char(a)->0).1 <= a.len(),
{
    let s = a + b;
    assert(forall|i: int| 0 <= i < a.len() ==> s[i] == a[i]);
    if a[0] == '\\' && a[1] == 'u' {
        assert(code_unit(s, 2) == code_unit(a, 2));
        if a.len() >= 12 {
            assert(code_unit(s, 8) == code_unit(a, 8));
        }
    }
}

/// Legal texts one behind the other are a legal text.
proof fn lemma_legal_concat(a: Seq<char>, b: Seq<char>)
    requires
        is_legal_text(a),
        is_legal_text(b),
    ensures
        is_legal_text(a + b),
    decreases a.len(),
{
    reveal(unescaped);
    let s = a + b;
    if a.len() == 0 {
        assert(s =~= b);
    } else {
        lemma_first_char_of_front(a, b);
        let n = (first_char(a)->0).1;
        lemma_legal_concat(a.skip(n), b);
        assert(s.skip(n) =~= a.skip(n) + b);
    }
}

proof fn lemma_legal_decimal(n: nat)
    ensures
        is_legal_text(decimal_text(n)),
    decreases n,
{
    assert forall|d: int| 0 <= d < 10 implies is_plain(#[trigger] seq![digit_char(d)]) by {}
    if n < 10 {
        law_plain_text_stands_for_itself(seq![digit_char(n as int)]);
    } else {
        lemma_legal_decimal(n / 10);
        let last = seq![digit_char((n % 10) as int)];
        law_plain_text_stands_for_itself(last);
        lemma_legal_concat(decimal_text(n / 10), last);
        assert(decimal_text(n) =~= decimal_text(n / 10) + last);
    }
}

/// The words in the descriptions of arguments are legal.
proof fn lemma_param_words()
    ensures
        is_legal_text("tag"@),
        is_legal_text("hi"@),
        is_legal_text("lo"@),
        is_legal_text("hi_node"@),
        is_legal_text("lo_node"@),
        is_legal_text("name"@),
        is_legal_text("param_id"@),
        is_legal_text("var"@),
        is_legal_text("var_id"@),
        is_legal_text("port"@),
        is_legal_text("index"@),
        is_legal_text("id"@),
        is_legal_text("branch"@),
        is_legal_text("branch_id"@),
        is_legal_text("Voltage"@),
        is_legal_text("CurrentBranch"@),
        is_legal_text("CurrentUnnamed"@),
        is_legal_text("CurrentPort"@),
        is_legal_text("Param"@),
        is_legal_text("ParamGiven"@),
        is_legal_text("Temperature"@),
        is_legal_text("Abstime"@),
        is_legal_text("ParamSysFun"@),
        is_legal_text("HiddenState"@),
        is_legal_text("PortConnected"@),
        is_legal_text("PrevState"@),
        is_legal_text("NewState"@),
        is_legal_text("EnableLim"@),
        is_legal_text("EnableIntegration"@),
        is_legal_text("ImplicitUnknown"@),
{
    assert(is_legal_text("tag"@)) by {
        reveal_strlit("tag");
        law_plain_text_stands_for_itself("tag"@);
    }
    assert(is_legal_text("hi"@)) by {
        reveal_strlit("hi");
        law_plain_text_stands_for_itself("hi"@);
    }
    assert(is_legal_text("lo"@)) by {
        reveal_strlit("lo");
        law_plain_text_stands_for_itself("lo"@);
    }
    assert(is_legal_text("hi_node"@)) by {
        reveal_strlit("hi_node");
        law_plain_text_stands_for_itself("hi_node"@);
    }
    assert(is_legal_text("lo_node"@)) by {
        reveal_strlit("lo_node");
        law_plain_text_stands_for_itself("lo_node"@);
    }
    assert(is_legal_text("name"@)) by {
        reveal_strlit("name");
        law_plain_text_stands_for_itself("name"@);
    }
    assert(is_legal_text("param_id"@)) by {
        reveal_strlit("param_id");
        law_plain_text_stands_for_itself("param_id"@);
    }
    assert(is_legal_text("var"@)) by {
        reveal_strlit("var");
        law_plain_text_stands_for_itself("var"@);
    }
    assert(is_legal_text("var_id"@)) by {
        reveal_strlit("var_id");
        law_plain_text_stands_for_itself("var_id"@);
    }
    assert(is_legal_text("port"@)) by {
        reveal_strlit("port");
        law_plain_text_stands_for_itself("port"@);
    }
    assert(is_legal_text("index"@)) by {
        reveal_strlit("index");
        law_plain_text_stands_for_itself("index"@);
    }
    assert(is_legal_text("id"@)) by {
        reveal_strlit("id");
        law_plain_text_stands_for_itself("id"@);
    }
    assert(is_legal_text("branch"@)) by {
        reveal_strlit("branch");
        law_plain_text_stands_for_itself("branch"@);
    }
    assert(is_legal_text("branch_id"@)) by {
        reveal_strlit("branch_id");
        law_plain_text_stands_for_itself("branch_id"@);
    }
    assert(is_legal_text("Voltage"@)) by {
        reveal_strlit("Voltage");
        law_plain_text_stands_for_itself("Voltage"@);
    }
    assert(is_legal_text("CurrentBranch"@)) by {
        reveal_strlit("CurrentBranch");
        law_plain_text_stands_for_itself("CurrentBranch"@);
    }
    assert(is_legal_text("CurrentUnnamed"@)) by {
        reveal_strlit("CurrentUnnamed");
        law_plain_text_stands_for_itself("CurrentUnnamed"@);
    }
    assert(is_legal_text("CurrentPort"@)) by {
        reveal_strlit("CurrentPort");
        law_plain_text_stands_for_itself("CurrentPort"@);
    }
    assert(is_legal_text("Param"@)) by {
        reveal_strlit("Param");
        law_plain_text_stands_for_itself("Param"@);
    }
    assert(is_legal_text("ParamGiven"@)) by {
        reveal_strlit("ParamGiven");
        law_plain_text_stands_for_itself("ParamGiven"@);
    }
    assert(is_legal_text("Temperature"@)) by {
        reveal_strlit("Temperature");
        law_plain_text_stands_for_itself("Temperature"@);
    }
    assert(is_legal_text("Abstime"@)) by {
        reveal_strlit("Abstime");
        law_plain_text_stands_for_itself("Abstime"@);
    }
    assert(is_legal_text("ParamSysFun"@)) by {
        reveal_strlit("ParamSysFun");
        law_plain_text_stands_for_itself("ParamSysFun"@);
    }
    assert(is_legal_text("HiddenState"@)) by {
        reveal_strlit("HiddenState");
        law_plain_text_stands_for_itself("HiddenState"@);
    }
    assert(is_legal_text("PortConnected"@)) by {
        reveal_strlit("PortConnected");
        law_plain_text_stands_for_itself("PortConnected"@);
    }
    assert(is_legal_text("PrevState"@)) by {
        reveal_strlit("PrevState");
        law_plain_text_stands_for_itself("PrevState"@);
    }
    assert(is_legal_text("NewState"@)) by {
        reveal_strlit("NewState");
        law_plain_text_stands_for_itself("NewState"@);
    }
    assert(is_legal_text("EnableLim"@)) by {
        reveal_strlit("EnableLim");
        law_plain_text_stands_for_itself("EnableLim"@);
    }
    assert(is_legal_text("EnableIntegration"@)) by {
        reveal_strlit("EnableIntegration");
        law_plain_text_stands_for_itself("EnableIntegration"@);
    }
    assert(is_legal_text("ImplicitUnknown"@)) by {
        reveal_strlit("ImplicitUnknown");
        law_plain_text_stands_for_itself("ImplicitUnknown"@);
    }
}

/// A text that is legal where there is one.
pub open spec fn is_legal_opt(s: Option<Seq<char>>) -> bool {
    match s {
        Some(s) => is_legal_text(s),
        None => true,
    }
}

proof fn lemma_legal_number(n: int)
    ensures
        is_legal(number_doc(n)),
{
    law_decimals_are_numbers((n as nat) as int);
}

proof fn lemma_legal_object(layout: Layout, members: Members)
    requires
        forall|i: int| 0 <= i < members.len() ==> is_legal_member(#[trigger] members[i]),
    ensures
        is_legal(Doc::Obj(layout, members)),
{
    lemma_legal_members(members);
}

proof fn lemma_legal_array(layout: Layout, items: Seq<Doc>)
    requires
        forall|i: int| 0 <= i < items.len() ==> is_legal(#[trigger] items[i]),
    ensures
        is_legal(Doc::Arr(layout, items)),
{
    lemma_legal_items(items);
}

/// The names that the description of a probed current holds as they are.
pub open spec fn current_texts_legal(kind: CurrentKind) -> bool {
    match kind {
        CurrentKind::Branch(branch) => is_legal_text(hi_lo(branch).0) && is_legal_opt(
            hi_lo(branch).1,
        ),
        _ => true,
    }
}

/// The names that the description of an argument holds as they are.
pub open spec fn param_texts_legal(kind: ParamKind) -> bool {
    match kind {
        ParamKind::Voltage { hi, lo } => is_legal_text(hi.name@) && is_legal_opt(opt_name(lo)),
        ParamKind::Current(current) => current_texts_legal(current),
        ParamKind::ParamSysFun(fun) => is_legal_text(fun.text@),
        _ => true,
    }
}

proof fn lemma_legal_current(kind: CurrentKind, known: Seq<Ends>)
    requires
        current_texts_legal(kind),
    ensures
        is_legal(current_doc(kind, known)),
{
    lemma_param_words();
    match kind {
        CurrentKind::Branch(branch) => {
            lemma_legal_number(branch_id(known, branch_ends(branch)));
            law_escaping_is_undone(branch.name@);
        },
        CurrentKind::Unnamed { hi, lo } => {
            lemma_legal_number(branch_id(known, ends(hi.name@, opt_name(lo))));
            law_escaping_is_undone(hi.name@);
            if let Some(lo) = lo {
                law_escaping_is_undone(lo.name@);
            }
        },
        CurrentKind::Port(port) => {
            law_escaping_is_undone(port.name@);
        },
    }
    lemma_legal_object(Layout::Tight, current_doc(kind, known)->Obj_1);
}

proof fn lemma_legal_param(kind: ParamKind, idx: u32, known: Seq<Ends>)
    requires
        param_texts_legal(kind),
    ensures
        is_legal(param_doc(kind, idx, known)),
{
    lemma_param_words();
    lemma_legal_number(idx as int);
    match kind {
        ParamKind::Current(current) => {
            lemma_legal_current(current, known);
        },
        ParamKind::Param(param) => {
            law_escaping_is_undone(param.name@);
        },
        ParamKind::ParamGiven { param } => {
            law_escaping_is_undone(param.name@);
        },
        ParamKind::HiddenState(var) => {
            law_escaping_is_undone(var.name@);
        },
        ParamKind::PortConnected { port } => {
            law_escaping_is_undone(port.name@);
        },
        ParamKind::PrevState(state) => {
            lemma_legal_number(state as int);
        },
        ParamKind::NewState(state) => {
            lemma_legal_number(state as int);
        },
        ParamKind::ImplicitUnknown(eq) => {
            lemma_legal_number(eq.index as int);
        },
        _ => {},
    }
    if !(kind is Current) {
        lemma_legal_object(Layout::Tight, param_doc(kind, idx, known)->Obj_1);
    }
}

/// The words in the names of called functions are legal.
proof fn lemma_callback_words()
    ensures
        is_legal_text("ddt"@),
        is_legal_text("ddx_"@),
        is_legal_text("ddx_param"@),
        is_legal_text("simparam"@),
        is_legal_text("SimParamOpt"@),
        is_legal_text("simparam_str"@),
        is_legal_text("Analysis"@),
        is_legal_text("collapse_"@),
        is_legal_text("_Some("@),
        is_legal_text(")"@),
        is_legal_text("_None"@),
        is_legal_text("StoreLimit"@),
        is_legal_text("LimDiscontinuity"@),
        is_legal_text("BuiltinLimit"@),
        is_legal_text("WhiteNoise"@),
        is_legal_text("FlickerNoise"@),
        is_legal_text("Print"@),
        is_legal_text("set_Invalid"@),
{
    assert(is_legal_text("ddt"@)) by {
        reveal_strlit("ddt");
        law_plain_text_stands_for_itself("ddt"@);
    }
    assert(is_legal_text("ddx_"@)) by {
        reveal_strlit("ddx_");
        law_plain_text_stands_for_itself("ddx_"@);
    }
    assert(is_legal_text("ddx_param"@)) by {
        reveal_strlit("ddx_param");
        law_plain_text_stands_for_itself("ddx_param"@);
    }
    assert(is_legal_text("simparam"@)) by {
        reveal_strlit("simparam");
        law_plain_text_stands_for_itself("simparam"@);
    }
    assert(is_legal_text("SimParamOpt"@)) by {
        reveal_strlit("SimParamOpt");
        law_plain_text_stands_for_itself("SimParamOpt"@);
    }
    assert(is_legal_text("simparam_str"@)) by {
        reveal_strlit("simparam_str");
        law_plain_text_stands_for_itself("simparam_str"@);
    }
    assert(is_legal_text("Analysis"@)) by {
        reveal_strlit("Analysis");
        law_plain_text_stands_for_itself("Analysis"@);
    }
    assert(is_legal_text("collapse_"@)) by {
        reveal_strlit("collapse_");
        law_plain_text_stands_for_itself("collapse_"@);
    }
    assert(is_legal_text("_Some("@)) by {
        reveal_strlit("_Some(");
        law_plain_text_stands_for_itself("_Some("@);
    }
    assert(is_legal_text(")"@)) by {
        reveal_strlit(")");
        law_plain_text_stands_for_itself(")"@);
    }
    assert(is_legal_text("_None"@)) by {
        reveal_strlit("_None");
        law_plain_text_stands_for_itself("_None"@);
    }
    assert(is_legal_text("StoreLimit"@)) by {
        reveal_strlit("StoreLimit");
        law_plain_text_stands_for_itself("StoreLimit"@);
    }
    assert(is_legal_text("LimDiscontinuity"@)) by {
        reveal_strlit("LimDiscontinuity");
        law_plain_text_stands_for_itself("LimDiscontinuity"@);
    }
    assert(is_legal_text("BuiltinLimit"@)) by {
        reveal_strlit("BuiltinLimit");
        law_plain_text_stands_for_itself("BuiltinLimit"@);
    }
    assert(is_legal_text("WhiteNoise"@)) by {
        reveal_strlit("WhiteNoise");
        law_plain_text_stands_for_itself("WhiteNoise"@);
    }
    assert(is_legal_text("FlickerNoise"@)) by {
        reveal_strlit("FlickerNoise");
        law_plain_text_stands_for_itself("FlickerNoise"@);
    }
    assert(is_legal_text("Print"@)) by {
        reveal_strlit("Print");
        law_plain_text_stands_for_itself("Print"@);
    }
    assert(is_legal_text("set_Invalid"@)) by {
        reveal_strlit("set_Invalid");
        law_plain_text_stands_for_itself("set_Invalid"@);
    }
}

/// The words in instructions are legal.
proof fn lemma_inst_words()
    ensures
        is_legal_text("result"@),
        is_legal_text("opcode"@),
        is_legal_text("operands"@),
        is_legal_text("condition"@),
        is_legal_text("true_block"@),
        is_legal_text("false_block"@),
        is_legal_text("targets"@),
        is_legal_text("phi_edges"@),
        is_legal_text("call_target"@),
        is_legal_text("value"@),
        is_legal_text("block"@),
        is_legal_text("br"@),
        is_legal_text("jmp"@),
        is_legal_text("exit"@),
        is_legal_text("phi"@),
        is_legal_text("call"@),
        is_legal_text("label"@),
        is_legal_text("insts"@),
{
    assert(is_legal_text("result"@)) by {
        reveal_strlit("result");
        law_plain_text_stands_for_itself("result"@);
    }
    assert(is_legal_text("opcode"@)) by {
        reveal_strlit("opcode");
        law_plain_text_stands_for_itself("opcode"@);
    }
    assert(is_legal_text("operands"@)) by {
        reveal_strlit("operands");
        law_plain_text_stands_for_itself("operands"@);
    }
    assert(is_legal_text("condition"@)) by {
        reveal_strlit("condition");
        law_plain_text_stands_for_itself("condition"@);
    }
    assert(is_legal_text("true_block"@)) by {
        reveal_strlit("true_block");
        law_plain_text_stands_for_itself("true_block"@);
    }
    assert(is_legal_text("false_block"@)) by {
        reveal_strlit("false_block");
        law_plain_text_stands_for_itself("false_block"@);
    }
    assert(is_legal_text("targets"@)) by {
        reveal_strlit("targets");
        law_plain_text_stands_for_itself("targets"@);
    }
    assert(is_legal_text("phi_edges"@)) by {
        reveal_strlit("phi_edges");
        law_plain_text_stands_for_itself("phi_edges"@);
    }
    assert(is_legal_text("call_target"@)) by {
        reveal_strlit("call_target");
        law_plain_text_stands_for_itself("call_target"@);
    }
    assert(is_legal_text("value"@)) by {
        reveal_strlit("value");
        law_plain_text_stands_for_itself("value"@);
    }
    assert(is_legal_text("block"@)) by {
        reveal_strlit("block");
        law_plain_text_stands_for_itself("block"@);
    }
    assert(is_legal_text("br"@)) by {
        reveal_strlit("br");
        law_plain_text_stands_for_itself("br"@);
    }
    assert(is_legal_text("jmp"@)) by {
        reveal_strlit("jmp");
        law_plain_text_stands_for_itself("jmp"@);
    }
    assert(is_legal_text("exit"@)) by {
        reveal_strlit("exit");
        law_plain_text_stands_for_itself("exit"@);
    }
    assert(is_legal_text("phi"@)) by {
        reveal_strlit("phi");
        law_plain_text_stands_for_itself("phi"@);
    }
    assert(is_legal_text("call"@)) by {
        reveal_strlit("call");
        law_plain_text_stands_for_itself("call"@);
    }
    assert(is_legal_text("label"@)) by {
        reveal_strlit("label");
        law_plain_text_stands_for_itself("label"@);
    }
    assert(is_legal_text("insts"@)) by {
        reveal_strlit("insts");
        law_plain_text_stands_for_itself("insts"@);
    }
}

/// The words in functions are legal.
proof fn lemma_function_words()
    ensures
        is_legal_text("name"@),
        is_legal_text("args"@),
        is_legal_text("params"@),
        is_legal_text("constants"@),
        is_legal_text("call_decls"@),
        is_legal_text("blocks"@),
        is_legal_text("cache_mapping"@),
        is_legal_text("raw"@),
        is_legal_text("inst"@),
        is_legal_text("fn %"@),
        is_legal_text("init_value"@),
        is_legal_text("cslot"@),
        is_legal_text("__inf__"@),
        is_legal_text("__neginf__"@),
        is_legal_text("__nan__"@),
{
    assert(is_legal_text("name"@)) by {
        reveal_strlit("name");
        law_plain_text_stands_for_itself("name"@);
    }
    assert(is_legal_text("args"@)) by {
        reveal_strlit("args");
        law_plain_text_stands_for_itself("args"@);
    }
    assert(is_legal_text("params"@)) by {
        reveal_strlit("params");
        law_plain_text_stands_for_itself("params"@);
    }
    assert(is_legal_text("constants"@)) by {
        reveal_strlit("constants");
        law_plain_text_stands_for_itself("constants"@);
    }
    assert(is_legal_text("call_decls"@)) by {
        reveal_strlit("call_decls");
        law_plain_text_stands_for_itself("call_decls"@);
    }
    assert(is_legal_text("blocks"@)) by {
        reveal_strlit("blocks");
        law_plain_text_stands_for_itself("blocks"@);
    }
    assert(is_legal_text("cache_mapping"@)) by {
        reveal_strlit("cache_mapping");
        law_plain_text_stands_for_itself("cache_mapping"@);
    }
    assert(is_legal_text("raw"@)) by {
        reveal_strlit("raw");
        law_plain_text_stands_for_itself("raw"@);
    }
    assert(is_legal_text("inst"@)) by {
        reveal_strlit("inst");
        law_plain_text_stands_for_itself("inst"@);
    }
    assert(is_legal_text("fn %"@)) by {
        reveal_strlit("fn %");
        law_plain_text_stands_for_itself("fn %"@);
    }
    assert(is_legal_text("init_value"@)) by {
        reveal_strlit("init_value");
        law_plain_text_stands_for_itself("init_value"@);
    }
    assert(is_legal_text("cslot"@)) by {
        reveal_strlit("cslot");
        law_plain_text_stands_for_itself("cslot"@);
    }
    assert(is_legal_text("__inf__"@)) by {
        reveal_strlit("__inf__");
        law_plain_text_stands_for_itself("__inf__"@);
    }
    assert(is_legal_text("__neginf__"@)) by {
        reveal_strlit("__neginf__");
        law_plain_text_stands_for_itself("__neginf__"@);
    }
    assert(is_legal_text("__nan__"@)) by {
        reveal_strlit("__nan__");
        law_plain_text_stands_for_itself("__nan__"@);
    }
}

/// The names that the name of a called function is made of.
pub open spec fn callback_texts_legal(kind: CallBackKind) -> bool {
    match kind {
        CallBackKind::NodeDerivative(node) => is_legal_text(node.name@),
        CallBackKind::CollapseHint(hi, lo) => is_legal_text(hi.name@) && is_legal_opt(
            opt_name(lo),
        ),
        _ => true,
    }
}

proof fn lemma_legal_callback(kind: CallBackKind)
    requires
        callback_texts_legal(kind),
    ensures
        is_legal_text(callback_text(kind)),
{
    lemma_callback_words();
    match kind {
        CallBackKind::NodeDerivative(node) => {
            lemma_legal_concat("ddx_"@, node.name@);
        },
        CallBackKind::CollapseHint(hi, lo) => {
            lemma_legal_concat("collapse_"@, hi.name@);
            let front = "collapse_"@ + hi.name@;
            match lo {
                Some(lo) => {
                    lemma_legal_concat(front, "_Some("@);
                    lemma_legal_concat(front + "_Some("@, lo.name@);
                    lemma_legal_concat(front + "_Some("@ + lo.name@, ")"@);
                },
                None => {
                    lemma_legal_concat(front, "_None"@);
                },
            }
        },
        _ => {},
    }
}

/// The texts that an instruction is written with.
pub open spec fn inst_texts_legal(inst: Inst) -> bool {
    &&& inst.results@.len() > 0 ==> is_legal_text(inst.results@[0].text@)
    &&& match inst.data {
        InstructionData::Unary { opcode, arg } => is_legal_text(opcode.text@) && is_legal_text(
            arg.text@,
        ),
        InstructionData::Binary { opcode, lhs, rhs } => is_legal_text(opcode.text@)
            && is_legal_text(lhs.text@) && is_legal_text(rhs.text@),
        InstructionData::Branch { cond, then_dst, else_dst } => is_legal_text(cond.text@)
            && is_legal_text(then_dst.text@) && is_legal_text(else_dst.text@),
        InstructionData::Jump { destination } => is_legal_text(destination.text@),
        InstructionData::Exit => true,
        InstructionData::PhiNode(edges) => forall|i: int|
            0 <= i < edges@.len() ==> edge_texts_legal(#[trigger] edges@[i]),
        InstructionData::Call { func_ref, args } => is_legal_text(func_ref.text@) && (forall|
            i: int,
        |
            0 <= i < args@.len() ==> is_legal_text(#[trigger] args@[i].text@)),
    }
}

/// The texts that an incoming edge is written with.
pub open spec fn edge_texts_legal(edge: (Block, Value)) -> bool {
    is_legal_text(edge.0.text@) && is_legal_text(edge.1.text@)
}

proof fn lemma_legal_inst(inst: Inst)
    requires
        inst_texts_legal(inst),
    ensures
        is_legal(inst_doc(inst)),
{
    lemma_inst_words();
    match inst.data {
        InstructionData::Unary { opcode, arg } => {
            lemma_legal_array(Layout::Spaced, seq![Doc::Str(arg.text@)]);
        },
        InstructionData::Binary { opcode, lhs, rhs } => {
            lemma_legal_array(Layout::Spaced, seq![Doc::Str(lhs.text@), Doc::Str(rhs.text@)]);
        },
        InstructionData::Jump { destination } => {
            lemma_legal_array(Layout::Spaced, seq![Doc::Str(destination.text@)]);
        },
        InstructionData::Exit => {
            lemma_legal_array(Layout::Spaced, Seq::empty());
        },
        InstructionData::PhiNode(edges) => {
            assert forall|i: int| 0 <= i < edges@.len() implies is_legal(
                #[trigger] edge_doc(edges@[i]),
            ) by {
                lemma_legal_object(Layout::Spaced, edge_doc(edges@[i])->Obj_1);
            }
            lemma_legal_array(Layout::Spaced, edges_doc(edges@)->Arr_1);
        },
        InstructionData::Call { func_ref, args } => {
            lemma_legal_array(Layout::Spaced, values_doc(args@)->Arr_1);
        },
        _ => {},
    }
    lemma_legal_object(Layout::Spaced, inst_doc(inst)->Obj_1);
}

/// The texts that a basic block is written with.
pub open spec fn block_texts_legal(block: BlockLayout) -> bool {
    &&& is_legal_text(block.block.text@)
    &&& forall|i: int| 0 <= i < block.insts@.len() ==> inst_texts_legal(#[trigger] block.insts@[i])
}

proof fn lemma_legal_block(block: BlockLayout)
    requires
        block_texts_legal(block),
    ensures
        is_legal(block_doc(block)),
{
    lemma_inst_words();
    assert forall|i: int| 0 <= i < block.insts@.len() implies is_legal(
        #[trigger] inst_doc(block.insts@[i]),
    ) by {
        lemma_legal_inst(block.insts@[i]);
    }
    lemma_legal_array(Layout::Lines(8), insts_doc(block.insts@)->Arr_1);
    lemma_legal_object(Layout::Spaced, block_doc(block)->Obj_1);
}

/// The texts that a value is written with among the arguments or constants.
pub open spec fn value_texts_legal(entry: (Value, ValueDef)) -> bool {
    match entry.1 {
        ValueDef::Param(number) => is_legal_text(entry.0.text@),
        ValueDef::Const(Const::Float(value)) => is_legal_text(entry.0.text@) && (is_finite(
            value.bits,
        ) ==> is_number(value.text@)),
        ValueDef::Const(_) => is_legal_text(entry.0.text@),
        ValueDef::Other => true,
    }
}

proof fn lemma_legal_args_of(values: Seq<(Value, ValueDef)>)
    requires
        forall|i: int| 0 <= i < values.len() ==> value_texts_legal(#[trigger] values[i]),
    ensures
        forall|i: int|
            0 <= i < args_of(values).len() ==> is_legal_text((#[trigger] args_of(values)[i]).1),
    decreases values.len(),
{
    if values.len() > 0 {
        let rest = values.drop_last();
        assert forall|i: int| 0 <= i < rest.len() implies value_texts_legal(
            #[trigger] rest[i],
        ) by {
            assert(rest[i] == values[i]);
        }
        lemma_legal_args_of(rest);
        assert(value_texts_legal(values[values.len() - 1]));
        let args = args_of(values);
        let front = args_of(rest);
        assert forall|i: int| 0 <= i < args.len() implies is_legal_text((#[trigger] args[i]).1) by {
            if i < front.len() {
                assert(args[i] == front[i]);
            }
        }
    }
}

proof fn lemma_legal_inserted(args: Seq<Arg>, arg: Arg)
    requires
        is_legal_text(arg.1),
        forall|i: int| 0 <= i < args.len() ==> is_legal_text((#[trigger] args[i]).1),
    ensures
        forall|i: int|
            0 <= i < inserted(args, arg).len() ==> is_legal_text(
                (#[trigger] inserted(args, arg)[i]).1,
            ),
    decreases args.len(),
{
    let all = inserted(args, arg);
    if args.len() > 0 && args.last().0 > arg.0 {
        let rest = args.drop_last();
        assert forall|i: int| 0 <= i < rest.len() implies is_legal_text((#[trigger] rest[i]).1) by {
            assert(rest[i] == args[i]);
        }
        lemma_legal_inserted(rest, arg);
        let front = inserted(rest, arg);
        assert forall|i: int| 0 <= i < all.len() implies is_legal_text((#[trigger] all[i]).1) by {
            if i < front.len() {
                assert(all[i] == front[i]);
            } else {
                assert(all[i] == args[args.len() - 1]);
            }
        }
    } else {
        assert forall|i: int| 0 <= i < all.len() implies is_legal_text((#[trigger] all[i]).1) by {
            if i < args.len() {
                assert(all[i] == args[i]);
            }
        }
    }
}

proof fn lemma_legal_by_number(args: Seq<Arg>)
    requires
        forall|i: int| 0 <= i < args.len() ==> is_legal_text((#[trigger] args[i]).1),
    ensures
        forall|i: int|
            0 <= i < by_number(args).len() ==> is_legal_text((#[trigger] by_number(args)[i]).1),
    decreases args.len(),
{
    if args.len() > 0 {
        let rest = args.drop_last();
        assert forall|i: int| 0 <= i < rest.len() implies is_legal_text((#[trigger] rest[i]).1) by {
            assert(rest[i] == args[i]);
        }
        assert(is_legal_text(args[args.len() - 1].1));
        lemma_legal_by_number(rest);
        lemma_legal_inserted(by_number(rest), args.last());
    }
}

proof fn lemma_legal_picked(
    values: Seq<(Value, ValueDef)>,
    entry_of: spec_fn((Value, ValueDef)) -> Option<(Seq<char>, Doc)>,
)
    requires
        forall|i: int|
            0 <= i < values.len() ==> (entry_of(#[trigger] values[i]) matches Some(entry)
                ==> is_legal_member(entry)),
    ensures
        forall|i: int|
            0 <= i < picked(values, entry_of).len() ==> is_legal_member(
                #[trigger] picked(values, entry_of)[i],
            ),
    decreases values.len(),
{
    if values.len() > 0 {
        let rest = values.drop_last();
        assert forall|i: int| 0 <= i < rest.len() implies (entry_of(
            #[trigger] rest[i],
        ) matches Some(entry) ==> is_legal_member(entry)) by {
            assert(rest[i] == values[i]);
        }
        lemma_legal_picked(rest, entry_of);
        let last = values[values.len() - 1];
        assert(entry_of(last) matches Some(entry) ==> is_legal_member(entry));
        let all = picked(values, entry_of);
        let front = picked(rest, entry_of);
        assert forall|i: int| 0 <= i < all.len() implies is_legal_member(#[trigger] all[i]) by {
            if i < front.len() {
                assert(all[i] == front[i]);
            }
        }
    }
}

proof fn lemma_legal_constants(func: Function, strings: Seq<Seq<char>>)
    requires
        forall|i: int|
            0 <= i < func.values@.len() ==> value_texts_legal(#[trigger] func.values@[i]),
    ensures
        is_legal(constants_doc(func, strings)),
{
    let values = func.values@;
    lemma_function_words();
    let floats = |entry: (Value, ValueDef)| float_member(entry);
    let ints = |entry: (Value, ValueDef)| int_member(entry);
    let bools = |entry: (Value, ValueDef)| bool_member(entry);
    let strs = |entry: (Value, ValueDef)| str_member(entry, strings);
    assert forall|i: int| 0 <= i < values.len() implies (floats(
        #[trigger] values[i],
    ) matches Some(entry) ==> is_legal_member(entry)) by {
        assert(value_texts_legal(values[i]));
    }
    assert forall|i: int| 0 <= i < values.len() implies (ints(
        #[trigger] values[i],
    ) matches Some(entry) ==> is_legal_member(entry)) by {
        assert(value_texts_legal(values[i]));
        if let ValueDef::Const(Const::Int(value)) = values[i].1 {
            law_decimals_are_numbers(value as int);
        }
    }
    assert forall|i: int| 0 <= i < values.len() implies (bools(
        #[trigger] values[i],
    ) matches Some(entry) ==> is_legal_member(entry)) by {
        assert(value_texts_legal(values[i]));
    }
    assert forall|i: int| 0 <= i < values.len() implies (strs(
        #[trigger] values[i],
    ) matches Some(entry) ==> is_legal_member(entry)) by {
        assert(value_texts_legal(values[i]));
        if let ValueDef::Const(Const::Str(number)) = values[i].1 {
            law_escaping_is_undone(strings[number as int]);
        }
    }
    lemma_legal_picked(values, floats);
    lemma_legal_picked(values, ints);
    lemma_legal_picked(values, bools);
    lemma_legal_picked(values, strs);
    let members = float_members(values) + int_members(values) + bool_members(values)
        + str_members(values, strings);
    assert forall|i: int| 0 <= i < members.len() implies is_legal_member(
        #[trigger] members[i],
    ) by {
        let a = float_members(values).len() as int;
        let b = a + int_members(values).len();
        let c = b + bool_members(values).len();
        if i < a {
            assert(members[i] == float_members(values)[i]);
        } else if i < b {
            assert(members[i] == int_members(values)[i - a]);
        } else if i < c {
            assert(members[i] == bool_members(values)[i - b]);
        } else {
            assert(members[i] == str_members(values, strings)[i - c]);
        }
    }
    lemma_legal_object(Layout::Lines(6), members);
}

/// The texts that a cached value is written with.
pub open spec fn cached_texts_legal(entry: (Value, CacheSlot)) -> bool {
    is_legal_text(entry.0.text@) && is_legal_text(entry.1.text@)
}

/// The texts that the arguments and called functions of a function are written with.
pub open spec fn interner_texts_legal(intern: HirInterner) -> bool {
    &&& forall|i: int|
        0 <= i < intern.params@.len() ==> param_entry_texts_legal(#[trigger] intern.params@[i])
    &&& forall|i: int|
        0 <= i < intern.callbacks@.len() ==> callback_texts_legal(
            #[trigger] intern.callbacks@[i],
        )
}

/// The texts that an argument is written with.
pub open spec fn param_entry_texts_legal(entry: (ParamKind, Value)) -> bool {
    param_texts_legal(entry.0) && is_legal_text(entry.1.text@)
}

/// The texts that a function is written with.
pub open spec fn function_texts_legal(func: Function) -> bool {
    &&& forall|i: int|
        0 <= i < func.values@.len() ==> value_texts_legal(#[trigger] func.values@[i])
    &&& forall|i: int|
        0 <= i < func.layout@.len() ==> block_texts_legal(#[trigger] func.layout@[i])
}

proof fn lemma_legal_args(func: Function)
    requires
        function_texts_legal(func),
    ensures
        is_legal(args_doc(func)),
{
    lemma_legal_args_of(func.values@);
    lemma_legal_by_number(args_of(func.values@));
    lemma_legal_array(Layout::Spaced, args_doc(func)->Arr_1);
}

proof fn lemma_legal_params(intern: HirInterner, known: Seq<Ends>)
    requires
        interner_texts_legal(intern),
    ensures
        is_legal(params_doc(intern.params@, known)),
{
    let params = intern.params@;
    assert forall|i: int| 0 <= i < params.len() implies is_legal_member(
        #[trigger] param_member(params, i, known),
    ) by {
        assert(param_entry_texts_legal(params[i]));
        lemma_legal_param(params[i].0, i as u32, known_after_params(params, i, known));
    }
    lemma_legal_object(Layout::Lines(6), params_doc(params, known)->Obj_1);
}

proof fn lemma_legal_call_decls(intern: HirInterner)
    requires
        interner_texts_legal(intern),
    ensures
        is_legal(call_decls_doc(intern.callbacks@)),
{
    let callbacks = intern.callbacks@;
    lemma_function_words();
    assert forall|i: int| 0 <= i < callbacks.len() implies is_legal(
        #[trigger] call_decl_doc(i, callbacks[i]),
    ) by {
        lemma_legal_callback(callbacks[i]);
        lemma_legal_decimal(i as nat);
        lemma_legal_concat("inst"@, decimal_text(i as nat));
        lemma_legal_concat("fn %"@, callback_text(callbacks[i]));
        lemma_legal_object(Layout::Spaced, call_decl_doc(i, callbacks[i])->Obj_1);
    }
    lemma_legal_array(Layout::Lines(6), call_decls_doc(callbacks)->Arr_1);
}

proof fn lemma_legal_blocks(func: Function)
    requires
        function_texts_legal(func),
    ensures
        is_legal(blocks_doc(func)),
{
    assert forall|i: int| 0 <= i < func.layout@.len() implies is_legal(
        #[trigger] block_doc(func.layout@[i]),
    ) by {
        lemma_legal_block(func.layout@[i]);
    }
    lemma_legal_array(Layout::Lines(6), blocks_doc(func)->Arr_1);
}

proof fn lemma_legal_cache_mapping(mapping: Seq<(Value, CacheSlot)>)
    requires
        forall|i: int| 0 <= i < mapping.len() ==> cached_texts_legal(#[trigger] mapping[i]),
    ensures
        is_legal(cache_mapping_doc(mapping)),
{
    lemma_function_words();
    assert forall|i: int| 0 <= i < mapping.len() implies is_legal(
        #[trigger] cached_doc(mapping[i]),
    ) by {
        assert(cached_texts_legal(mapping[i]));
        lemma_legal_object(Layout::Spaced, cached_doc(mapping[i])->Obj_1);
    }
    lemma_legal_array(Layout::Lines(6), cache_mapping_doc(mapping)->Arr_1);
}

proof fn lemma_legal_function(
    name: Seq<char>,
    func: Function,
    intern: HirInterner,
    strings: Seq<Seq<char>>,
    mapping: Seq<(Value, CacheSlot)>,
    known: Seq<Ends>,
)
    requires
        is_legal_text(name),
        function_texts_legal(func),
        interner_texts_legal(intern),
        forall|i: int| 0 <= i < mapping.len() ==> cached_texts_legal(#[trigger] mapping[i]),
    ensures
        is_legal(function_doc(name, func, intern, strings, mapping, known)),
{
    lemma_function_words();
    lemma_legal_args(func);
    lemma_legal_params(intern, known);
    lemma_legal_constants(func, strings);
    lemma_legal_call_decls(intern);
    lemma_legal_blocks(func);
    lemma_legal_cache_mapping(mapping);
    lemma_legal_object(
        Layout::Lines(4),
        function_doc(name, func, intern, strings, mapping, known)->Obj_1,
    );
}

/// The words in the equation system are legal.
proof fn lemma_dae_words()
    ensures
        is_legal_text("unknowns"@),
        is_legal_text("residual"@),
        is_legal_text("jacobian"@),
        is_legal_text("num_resistive"@),
        is_legal_text("num_reactive"@),
        is_legal_text("br[Branch(BranchId("@),
        is_legal_text("))]"@),
        is_legal_text("sim_node"@),
        is_legal_text("resist"@),
        is_legal_text("react"@),
        is_legal_text("resist_small_signal"@),
        is_legal_text("react_small_signal"@),
        is_legal_text("resist_lim_rhs"@),
        is_legal_text("react_lim_rhs"@),
        is_legal_text("nature_kind"@),
        is_legal_text("Flow"@),
        is_legal_text("Potential"@),
        is_legal_text("Switch"@),
        is_legal_text("row"@),
        is_legal_text("col"@),
        is_legal_text(","@),
{
    assert(is_legal_text("unknowns"@)) by {
        reveal_strlit("unknowns");
        law_plain_text_stands_for_itself("unknowns"@);
    }
    assert(is_legal_text("residual"@)) by {
        reveal_strlit("residual");
        law_plain_text_stands_for_itself("residual"@);
    }
    assert(is_legal_text("jacobian"@)) by {
        reveal_strlit("jacobian");
        law_plain_text_stands_for_itself("jacobian"@);
    }
    assert(is_legal_text("num_resistive"@)) by {
        reveal_strlit("num_resistive");
        law_plain_text_stands_for_itself("num_resistive"@);
    }
    assert(is_legal_text("num_reactive"@)) by {
        reveal_strlit("num_reactive");
        law_plain_text_stands_for_itself("num_reactive"@);
    }
    assert(is_legal_text("br[Branch(BranchId("@)) by {
        reveal_strlit("br[Branch(BranchId(");
        law_plain_text_stands_for_itself("br[Branch(BranchId("@);
    }
    assert(is_legal_text("))]"@)) by {
        reveal_strlit("))]");
        law_plain_text_stands_for_itself("))]"@);
    }
    assert(is_legal_text("sim_node"@)) by {
        reveal_strlit("sim_node");
        law_plain_text_stands_for_itself("sim_node"@);
    }
    assert(is_legal_text("resist"@)) by {
        reveal_strlit("resist");
        law_plain_text_stands_for_itself("resist"@);
    }
    assert(is_legal_text("react"@)) by {
        reveal_strlit("react");
        law_plain_text_stands_for_itself("react"@);
    }
    assert(is_legal_text("resist_small_signal"@)) by {
        reveal_strlit("resist_small_signal");
        law_plain_text_stands_for_itself("resist_small_signal"@);
    }
    assert(is_legal_text("react_small_signal"@)) by {
        reveal_strlit("react_small_signal");
        law_plain_text_stands_for_itself("react_small_signal"@);
    }
    assert(is_legal_text("resist_lim_rhs"@)) by {
        reveal_strlit("resist_lim_rhs");
        law_plain_text_stands_for_itself("resist_lim_rhs"@);
    }
    assert(is_legal_text("react_lim_rhs"@)) by {
        reveal_strlit("react_lim_rhs");
        law_plain_text_stands_for_itself("react_lim_rhs"@);
    }
    assert(is_legal_text("nature_kind"@)) by {
        reveal_strlit("nature_kind");
        law_plain_text_stands_for_itself("nature_kind"@);
    }
    assert(is_legal_text("Flow"@)) by {
        reveal_strlit("Flow");
        law_plain_text_stands_for_itself("Flow"@);
    }
    assert(is_legal_text("Potential"@)) by {
        reveal_strlit("Potential");
        law_plain_text_stands_for_itself("Potential"@);
    }
    assert(is_legal_text("Switch"@)) by {
        reveal_strlit("Switch");
        law_plain_text_stands_for_itself("Switch"@);
    }
    assert(is_legal_text("row"@)) by {
        reveal_strlit("row");
        law_plain_text_stands_for_itself("row"@);
    }
    assert(is_legal_text("col"@)) by {
        reveal_strlit("col");
        law_plain_text_stands_for_itself("col"@);
    }
    assert(is_legal_text(","@)) by {
        reveal_strlit(",");
        law_plain_text_stands_for_itself(","@);
    }
}

/// The words in the positional view are legal.
proof fn lemma_mna_words()
    ensures
        is_legal_text("num_nodes"@),
        is_legal_text("num_terminals"@),
        is_legal_text("nodes"@),
        is_legal_text("residuals"@),
        is_legal_text("jacobian_entries"@),
        is_legal_text("num_noise_sources"@),
        is_legal_text("num_jacobian_entries"@),
        is_legal_text("num_resistive_jacobian_entries"@),
        is_legal_text("num_reactive_jacobian_entries"@),
        is_legal_text("idx"@),
        is_legal_text("name"@),
        is_legal_text("kind"@),
        is_legal_text("node"@),
        is_legal_text("resist"@),
        is_legal_text("react"@),
        is_legal_text("row"@),
        is_legal_text("col"@),
        is_legal_text("has_resist"@),
        is_legal_text("has_react"@),
        is_legal_text("voltage"@),
        is_legal_text("current"@),
        is_legal_text("implicit"@),
        is_legal_text("I("@),
        is_legal_text(","@),
        is_legal_text(")"@),
        is_legal_text("I<"@),
        is_legal_text(">"@),
{
    assert(is_legal_text("num_nodes"@)) by {
        reveal_strlit("num_nodes");
        law_plain_text_stands_for_itself("num_nodes"@);
    }
    assert(is_legal_text("num_terminals"@)) by {
        reveal_strlit("num_terminals");
        law_plain_text_stands_for_itself("num_terminals"@);
    }
    assert(is_legal_text("nodes"@)) by {
        reveal_strlit("nodes");
        law_plain_text_stands_for_itself("nodes"@);
    }
    assert(is_legal_text("residuals"@)) by {
        reveal_strlit("residuals");
        law_plain_text_stands_for_itself("residuals"@);
    }
    assert(is_legal_text("jacobian_entries"@)) by {
        reveal_strlit("jacobian_entries");
        law_plain_text_stands_for_itself("jacobian_entries"@);
    }
    assert(is_legal_text("num_noise_sources"@)) by {
        reveal_strlit("num_noise_sources");
        law_plain_text_stands_for_itself("num_noise_sources"@);
    }
    assert(is_legal_text("num_jacobian_entries"@)) by {
        reveal_strlit("num_jacobian_entries");
        law_plain_text_stands_for_itself("num_jacobian_entries"@);
    }
    assert(is_legal_text("num_resistive_jacobian_entries"@)) by {
        reveal_strlit("num_resistive_jacobian_entries");
        law_plain_text_stands_for_itself("num_resistive_jacobian_entries"@);
    }
    assert(is_legal_text("num_reactive_jacobian_entries"@)) by {
        reveal_strlit("num_reactive_jacobian_entries");
        law_plain_text_stands_for_itself("num_reactive_jacobian_entries"@);
    }
    assert(is_legal_text("idx"@)) by {
        reveal_strlit("idx");
        law_plain_text_stands_for_itself("idx"@);
    }
    assert(is_legal_text("name"@)) by {
        reveal_strlit("name");
        law_plain_text_stands_for_itself("name"@);
    }
    assert(is_legal_text("kind"@)) by {
        reveal_strlit("kind");
        law_plain_text_stands_for_itself("kind"@);
    }
    assert(is_legal_text("node"@)) by {
        reveal_strlit("node");
        law_plain_text_stands_for_itself("node"@);
    }
    assert(is_legal_text("resist"@)) by {
        reveal_strlit("resist");
        law_plain_text_stands_for_itself("resist"@);
    }
    assert(is_legal_text("react"@)) by {
        reveal_strlit("react");
        law_plain_text_stands_for_itself("react"@);
    }
    assert(is_legal_text("row"@)) by {
        reveal_strlit("row");
        law_plain_text_stands_for_itself("row"@);
    }
    assert(is_legal_text("col"@)) by {
        reveal_strlit("col");
        law_plain_text_stands_for_itself("col"@);
    }
    assert(is_legal_text("has_resist"@)) by {
        reveal_strlit("has_resist");
        law_plain_text_stands_for_itself("has_resist"@);
    }
    assert(is_legal_text("has_react"@)) by {
        reveal_strlit("has_react");
        law_plain_text_stands_for_itself("has_react"@);
    }
    assert(is_legal_text("voltage"@)) by {
        reveal_strlit("voltage");
        law_plain_text_stands_for_itself("voltage"@);
    }
    assert(is_legal_text("current"@)) by {
        reveal_strlit("current");
        law_plain_text_stands_for_itself("current"@);
    }
    assert(is_legal_text("implicit"@)) by {
        reveal_strlit("implicit");
        law_plain_text_stands_for_itself("implicit"@);
    }
    assert(is_legal_text("I("@)) by {
        reveal_strlit("I(");
        law_plain_text_stands_for_itself("I("@);
    }
    assert(is_legal_text(","@)) by {
        reveal_strlit(",");
        law_plain_text_stands_for_itself(","@);
    }
    assert(is_legal_text(")"@)) by {
        reveal_strlit(")");
        law_plain_text_stands_for_itself(")"@);
    }
    assert(is_legal_text("I<"@)) by {
        reveal_strlit("I<");
        law_plain_text_stands_for_itself("I<"@);
    }
    assert(is_legal_text(">"@)) by {
        reveal_strlit(">");
        law_plain_text_stands_for_itself(">"@);
    }
}

/// The words in a module are legal.
proof fn lemma_module_words()
    ensures
        is_legal_text("schema_version"@),
        is_legal_text("name"@),
        is_legal_text("ports"@),
        is_legal_text("port_nodes"@),
        is_legal_text("internal_nodes"@),
        is_legal_text("eval_fn"@),
        is_legal_text("init_fn"@),
        is_legal_text("setup_fn"@),
        is_legal_text("dae"@),
        is_legal_text("mna"@),
        is_legal_text(""@),
        is_legal_text("_init"@),
        is_legal_text("_setup"@),
{
    assert(is_legal_text("schema_version"@)) by {
        reveal_strlit("schema_version");
        law_plain_text_stands_for_itself("schema_version"@);
    }
    assert(is_legal_text("name"@)) by {
        reveal_strlit("name");
        law_plain_text_stands_for_itself("name"@);
    }
    assert(is_legal_text("ports"@)) by {
        reveal_strlit("ports");
        law_plain_text_stands_for_itself("ports"@);
    }
    assert(is_legal_text("port_nodes"@)) by {
        reveal_strlit("port_nodes");
        law_plain_text_stands_for_itself("port_nodes"@);
    }
    assert(is_legal_text("internal_nodes"@)) by {
        reveal_strlit("internal_nodes");
        law_plain_text_stands_for_itself("internal_nodes"@);
    }
    assert(is_legal_text("eval_fn"@)) by {
        reveal_strlit("eval_fn");
        law_plain_text_stands_for_itself("eval_fn"@);
    }
    assert(is_legal_text("init_fn"@)) by {
        reveal_strlit("init_fn");
        law_plain_text_stands_for_itself("init_fn"@);
    }
    assert(is_legal_text("setup_fn"@)) by {
        reveal_strlit("setup_fn");
        law_plain_text_stands_for_itself("setup_fn"@);
    }
    assert(is_legal_text("dae"@)) by {
        reveal_strlit("dae");
        law_plain_text_stands_for_itself("dae"@);
    }
    assert(is_legal_text("mna"@)) by {
        reveal_strlit("mna");
        law_plain_text_stands_for_itself("mna"@);
    }
    assert(is_legal_text(""@)) by {
        reveal_strlit("");
        law_plain_text_stands_for_itself(""@);
    }
    assert(is_legal_text("_init"@)) by {
        reveal_strlit("_init");
        law_plain_text_stands_for_itself("_init"@);
    }
    assert(is_legal_text("_setup"@)) by {
        reveal_strlit("_setup");
        law_plain_text_stands_for_itself("_setup"@);
    }
}

/// The names that an unknown is written with.
pub open spec fn unknown_texts_legal(kind: SimUnknownKind) -> bool {
    match kind {
        SimUnknownKind::KirchoffLaw(node) => is_legal_text(node.name@),
        SimUnknownKind::Current(current) => match current {
            CurrentKind::Branch(branch) => is_legal_text(hi_lo(branch).0) && is_legal_opt(
                hi_lo(branch).1,
            ),
            CurrentKind::Unnamed { hi, lo } => is_legal_text(hi.name@) && is_legal_opt(
                opt_name(lo),
            ),
            CurrentKind::Port(port) => is_legal_text(port.name@),
        },
        SimUnknownKind::Implicit(eq) => is_legal_text(eq.text@),
    }
}

/// The texts that a residual is written with.
pub open spec fn residual_texts_legal(residual: Residual) -> bool {
    &&& is_legal_text(residual.resist.text@)
    &&& is_legal_text(residual.react.text@)
    &&& is_legal_text(residual.resist_small_signal.text@)
    &&& is_legal_text(residual.react_small_signal.text@)
    &&& is_legal_text(residual.resist_lim_rhs.text@)
    &&& is_legal_text(residual.react_lim_rhs.text@)
}

/// The texts that an entry of the Jacobian is written with.
pub open spec fn entry_texts_legal(entry: MatrixEntry) -> bool {
    &&& is_legal_text(entry.row.text@)
    &&& is_legal_text(entry.col.text@)
    &&& is_legal_text(entry.resist.text@)
    &&& is_legal_text(entry.react.text@)
}

/// The texts that the equation system is written with.
pub open spec fn dae_texts_legal(dae: DaeSystem) -> bool {
    &&& forall|i: int|
        0 <= i < dae.unknowns@.len() ==> unknown_texts_legal(#[trigger] dae.unknowns@[i])
    &&& forall|i: int|
        0 <= i < dae.residual@.len() ==> residual_texts_legal(#[trigger] dae.residual@[i])
    &&& forall|i: int|
        0 <= i < dae.jacobian@.len() ==> entry_texts_legal(#[trigger] dae.jacobian@[i])
}

proof fn lemma_legal_sim_node(i: int)
    ensures
        is_legal_text(sim_node_text(i)),
{
    lemma_dae_words();
    lemma_legal_decimal(i as nat);
    lemma_legal_concat("sim_node"@, decimal_text(i as nat));
}

proof fn lemma_legal_unknown(kind: SimUnknownKind, known: Seq<Ends>)
    requires
        unknown_texts_legal(kind),
    ensures
        is_legal_text(unknown_text(kind, known)),
{
    if let SimUnknownKind::Current(current) = kind {
        lemma_dae_words();
        let front = "br[Branch(BranchId("@;
        let number = decimal_text(branch_id(known, current_ends(current)) as nat);
        lemma_legal_decimal(branch_id(known, current_ends(current)) as nat);
        lemma_legal_concat(front, number);
        lemma_legal_concat(front + number, "))]"@);
    }
}

proof fn lemma_legal_unknowns(unknowns: Seq<SimUnknownKind>, known: Seq<Ends>)
    requires
        forall|i: int| 0 <= i < unknowns.len() ==> unknown_texts_legal(#[trigger] unknowns[i]),
    ensures
        is_legal(unknowns_doc(unknowns, known)),
{
    assert forall|i: int| 0 <= i < unknowns.len() implies is_legal_member(
        #[trigger] unknown_member(unknowns, i, known),
    ) by {
        lemma_legal_sim_node(i);
        lemma_legal_unknown(unknowns[i], known_after_unknowns(unknowns, i, known));
    }
    lemma_legal_object(Layout::Lines(6), unknowns_doc(unknowns, known)->Obj_1);
}

proof fn lemma_legal_residuals(residuals: Seq<Residual>)
    requires
        forall|i: int| 0 <= i < residuals.len() ==> residual_texts_legal(#[trigger] residuals[i]),
    ensures
        is_legal(residuals_doc(residuals)),
{
    lemma_dae_words();
    let members = residuals_doc(residuals)->Obj_1;
    assert forall|i: int| 0 <= i < members.len() implies is_legal_member(
        #[trigger] members[i],
    ) by {
        lemma_legal_sim_node(i);
        assert(residual_texts_legal(residuals[i]));
        lemma_legal_object(Layout::Spaced, residual_doc(residuals[i])->Obj_1);
    }
    lemma_legal_object(Layout::Lines(6), members);
}

proof fn lemma_legal_jacobian(entries: Seq<MatrixEntry>)
    requires
        forall|i: int| 0 <= i < entries.len() ==> entry_texts_legal(#[trigger] entries[i]),
    ensures
        is_legal(jacobian_doc(entries)),
{
    lemma_dae_words();
    assert forall|i: int| 0 <= i < entries.len() implies is_legal_member(
        #[trigger] jacobian_member(entries[i]),
    ) by {
        let entry = entries[i];
        assert(entry_texts_legal(entry));
        lemma_legal_concat(entry.row.text@, ","@);
        lemma_legal_concat(entry.row.text@ + ","@, entry.col.text@);
        lemma_legal_object(Layout::Spaced, jacobian_member(entry).1->Obj_1);
    }
    lemma_legal_object(Layout::Lines(6), jacobian_doc(entries)->Obj_1);
}

proof fn lemma_legal_dae(dae: DaeSystem, known: Seq<Ends>)
    requires
        dae_texts_legal(dae),
    ensures
        is_legal(dae_doc(dae, known)),
{
    lemma_dae_words();
    lemma_legal_unknowns(dae.unknowns@, known);
    lemma_legal_residuals(dae.residual@);
    lemma_legal_jacobian(dae.jacobian@);
    lemma_legal_number(dae.num_resistive as int);
    lemma_legal_number(dae.num_reactive as int);
    lemma_legal_object(Layout::Lines(4), dae_doc(dae, known)->Obj_1);
}

proof fn lemma_legal_current_text(hi: Seq<char>, lo: Option<Seq<char>>)
    requires
        is_legal_text(hi),
        is_legal_opt(lo),
    ensures
        is_legal_text(current_text(hi, lo)),
{
    lemma_mna_words();
    lemma_legal_concat("I("@, hi);
    let front = "I("@ + hi;
    match lo {
        Some(lo) => {
            lemma_legal_concat(front, ","@);
            lemma_legal_concat(front + ","@, lo);
            lemma_legal_concat(front + ","@ + lo, ")"@);
        },
        None => {
            lemma_legal_concat(front, ")"@);
        },
    }
}

proof fn lemma_legal_mna_name(kind: SimUnknownKind)
    requires
        unknown_texts_legal(kind),
    ensures
        is_legal_text(mna_name(kind)),
{
    if let SimUnknownKind::Current(current) = kind {
        match current {
            CurrentKind::Branch(branch) => {
                lemma_legal_current_text(hi_lo(branch).0, hi_lo(branch).1);
            },
            CurrentKind::Unnamed { hi, lo } => {
                lemma_legal_current_text(hi.name@, opt_name(lo));
            },
            CurrentKind::Port(port) => {
                lemma_mna_words();
                lemma_legal_concat("I<"@, port.name@);
                lemma_legal_concat("I<"@ + port.name@, ">"@);
            },
        }
    }
}

proof fn lemma_legal_mna_nodes(unknowns: Seq<SimUnknownKind>)
    requires
        forall|i: int| 0 <= i < unknowns.len() ==> unknown_texts_legal(#[trigger] unknowns[i]),
    ensures
        is_legal(mna_nodes_doc(unknowns)),
{
    lemma_mna_words();
    assert forall|i: int| 0 <= i < unknowns.len() implies is_legal(
        #[trigger] mna_node_doc(i, unknowns[i]),
    ) by {
        lemma_legal_number(i);
        lemma_legal_mna_name(unknowns[i]);
        lemma_legal_object(Layout::Spaced, mna_node_doc(i, unknowns[i])->Obj_1);
    }
    lemma_legal_array(Layout::Lines(6), mna_nodes_doc(unknowns)->Arr_1);
}

proof fn lemma_legal_mna_residuals(residuals: Seq<Residual>)
    requires
        forall|i: int| 0 <= i < residuals.len() ==> residual_texts_legal(#[trigger] residuals[i]),
    ensures
        is_legal(mna_residuals_doc(residuals)),
{
    lemma_mna_words();
    assert forall|i: int| 0 <= i < residuals.len() implies is_legal(
        #[trigger] mna_residual_doc(i, residuals[i]),
    ) by {
        assert(residual_texts_legal(residuals[i]));
        lemma_legal_number(i);
        lemma_legal_object(Layout::Spaced, mna_residual_doc(i, residuals[i])->Obj_1);
    }
    lemma_legal_array(Layout::Lines(6), mna_residuals_doc(residuals)->Arr_1);
}

proof fn lemma_legal_mna_entries(entries: Seq<MatrixEntry>, zero: Value)
    requires
        forall|i: int| 0 <= i < entries.len() ==> entry_texts_legal(#[trigger] entries[i]),
    ensures
        is_legal(mna_entries_doc(entries, zero)),
{
    lemma_mna_words();
    assert forall|i: int| 0 <= i < entries.len() implies is_legal(
        #[trigger] mna_entry_doc(entries[i], zero),
    ) by {
        assert(entry_texts_legal(entries[i]));
        lemma_legal_number(entries[i].row.index as int);
        lemma_legal_number(entries[i].col.index as int);
        lemma_legal_object(Layout::Spaced, mna_entry_doc(entries[i], zero)->Obj_1);
    }
    lemma_legal_array(Layout::Lines(6), mna_entries_doc(entries, zero)->Arr_1);
}

proof fn lemma_legal_mna(info: ModuleInfo, dae: DaeSystem)
    requires
        dae_texts_legal(dae),
    ensures
        is_legal(mna_doc(info, dae)),
{
    lemma_mna_words();
    lemma_legal_mna_nodes(dae.unknowns@);
    lemma_legal_mna_residuals(dae.residual@);
    lemma_legal_mna_entries(dae.jacobian@, dae.zero);
    lemma_legal_number(dae.unknowns@.len() as int);
    lemma_legal_number(info.ports@.len() as int);
    lemma_legal_number(dae.num_noise_sources as int);
    lemma_legal_number(dae.jacobian@.len() as int);
    lemma_legal_number(dae.num_resistive as int);
    lemma_legal_number(dae.num_reactive as int);
    lemma_legal_object(Layout::Lines(4), mna_doc(info, dae)->Obj_1);
}

/// The texts that a module is written with as they are: the names of its nodes,
/// and the texts of values, blocks and the like, are legal inside a JSON string,
/// and the texts of its finite constants are numbers. The name of the module, of
/// parameters, of variables and of named branches, and the string literals, are
/// escaped and may hold anything.
pub open spec fn module_texts_legal(module: CompiledModule) -> bool {
    &&& forall|i: int|
        0 <= i < module.info.ports@.len() ==> is_legal_text(
            #[trigger] module.info.ports@[i].name@,
        )
    &&& forall|i: int|
        0 <= i < module.info.internal_nodes@.len() ==> is_legal_text(
            #[trigger] module.info.internal_nodes@[i].name@,
        )
    &&& function_texts_legal(module.eval)
    &&& interner_texts_legal(module.intern)
    &&& function_texts_legal(module.init.func)
    &&& interner_texts_legal(module.init.intern)
    &&& forall|i: int|
        0 <= i < module.init.cached_vals@.len() ==> cached_texts_legal(
            #[trigger] module.init.cached_vals@[i],
        )
    &&& function_texts_legal(module.model_param_setup)
    &&& interner_texts_legal(module.model_param_intern)
    &&& dae_texts_legal(module.dae_system)
}

proof fn lemma_legal_module(module: CompiledModule, strings: Seq<Seq<char>>)
    requires
        module_texts_legal(module),
    ensures
        is_legal(module_doc(module, strings)),
{
    lemma_module_words();
    lemma_legal_number(SCHEMA_VERSION as int);
    law_escaping_is_undone(module.info.name@);
    lemma_legal_array(Layout::Spaced, nodes_doc(module.info.ports@)->Arr_1);
    lemma_legal_array(Layout::Spaced, nodes_doc(module.info.internal_nodes@)->Arr_1);
    lemma_legal_function(
        ""@,
        module.eval,
        module.intern,
        strings,
        Seq::empty(),
        known_before_eval(module),
    );
    lemma_legal_function(
        "_init"@,
        module.init.func,
        module.init.intern,
        strings,
        module.init.cached_vals@,
        known_before_init(module),
    );
    lemma_legal_function(
        "_setup"@,
        module.model_param_setup,
        module.model_param_intern,
        strings,
        Seq::empty(),
        known_before_setup(module),
    );
    lemma_legal_dae(module.dae_system, known_before_dae(module));
    lemma_legal_mna(module.info, module.dae_system);
    lemma_legal_object(Layout::Lines(2), module_doc(module, strings)->Obj_1);
}

/// What is written for a module is a JSON text, and it reads as the value that
/// the module was laid out as, and as no other.
pub proof fn law_module_is_json(module: CompiledModule, strings: Seq<Seq<char>>)
    requires
        module_texts_legal(module),
    ensures
        is_legal(module_doc(module, strings)),
        reads_as(module_text(module, strings), value_of(module_doc(module, strings))),
        forall|j: Json| #[trigger]
            reads_as(module_text(module, strings), j) ==> j == value_of(
                module_doc(module, strings),
            ),
{
    lemma_legal_module(module, strings);
    let doc = module_doc(module, strings);
    law_rendered_reads_back(doc);
    law_padding_changes_nothing(
        render(doc),
        value_of(doc),
        Seq::empty(),
        seq!['\n'],
    );
    let text = module_text(module, strings);
    assert(text =~= Seq::<char>::empty() + render(doc) + seq!['\n']);
    assert forall|j: Json| #[trigger] reads_as(text, j) implies j == value_of(doc) by {
        law_text_means_one_value(text, j, value_of(doc));
    }
}

} // verus!
