//! What the arguments and the called functions of compiled code stand for.

use vstd::prelude::*;

#[allow(unused_imports)]
use crate::branches::{branch_ends, branch_id, ends, hi_lo, opt_name, registered, Ends};
use crate::branches::{branch_hi_lo, BranchReg};
use crate::builder::ObjectWriter;
#[allow(unused_imports)]
use crate::json::{escaped, number_doc, opt_str_doc, render, Doc};
use crate::json::{jstr, Layout};
use crate::model::{CallBackKind, CurrentKind, ParamKind};
#[allow(unused_imports)]
use crate::model::Node;

verus! {

/// The name of a node as it stands in an escaped string, where there is one.
pub open spec fn escaped_name(node: Option<Node>) -> Option<Seq<char>> {
    match node {
        Some(node) => Some(escaped(node.name@)),
        None => None,
    }
}

/// The value that describes a probed current, with the branches that have a
/// number before it is written.
pub open spec fn current_doc(kind: CurrentKind, known: Seq<Ends>) -> Doc {
    match kind {
        CurrentKind::Branch(branch) => Doc::Obj(
            Layout::Tight,
            seq![
                ("tag"@, Doc::Str("CurrentBranch"@)),
                ("branch"@, Doc::Str(escaped(branch.name@))),
                ("branch_id"@, number_doc(branch_id(known, branch_ends(branch)))),
                ("hi"@, Doc::Str(hi_lo(branch).0)),
                ("lo"@, opt_str_doc(hi_lo(branch).1)),
            ],
        ),
        CurrentKind::Unnamed { hi, lo } => Doc::Obj(
            Layout::Tight,
            seq![
                ("tag"@, Doc::Str("CurrentUnnamed"@)),
                ("branch_id"@, number_doc(branch_id(known, ends(hi.name@, opt_name(lo))))),
                ("hi"@, Doc::Str(escaped(hi.name@))),
                ("lo"@, opt_str_doc(escaped_name(lo))),
            ],
        ),
        CurrentKind::Port(port) => Doc::Obj(
            Layout::Tight,
            seq![
                ("tag"@, Doc::Str("CurrentPort"@)),
                ("port"@, Doc::Str(escaped(port.name@))),
            ],
        ),
    }
}

/// The branches that have a number once a probed current has been written.
pub open spec fn known_after_current(kind: CurrentKind, known: Seq<Ends>) -> Seq<Ends> {
    match kind {
        CurrentKind::Branch(branch) => registered(known, branch_ends(branch)),
        CurrentKind::Unnamed { hi, lo } => registered(known, ends(hi.name@, opt_name(lo))),
        CurrentKind::Port(port) => known,
    }
}

/// An object that holds a tag alone.
pub open spec fn tag_doc(tag: Seq<char>) -> Doc {
    Doc::Obj(Layout::Tight, seq![("tag"@, Doc::Str(tag))])
}

/// The value that describes an argument, from the place of the argument in the
/// list and the branches that have a number before it is written.
pub open spec fn param_doc(kind: ParamKind, idx: u32, known: Seq<Ends>) -> Doc {
    match kind {
        ParamKind::Voltage { hi, lo } => Doc::Obj(
            Layout::Tight,
            seq![
                ("tag"@, Doc::Str("Voltage"@)),
                ("hi"@, Doc::Str(hi.name@)),
                ("lo"@, opt_str_doc(opt_name(lo))),
                ("hi_node"@, Doc::Str(hi.name@)),
                ("lo_node"@, opt_str_doc(opt_name(lo))),
            ],
        ),
        ParamKind::Current(current) => current_doc(current, known),
        ParamKind::Param(param) => Doc::Obj(
            Layout::Tight,
            seq![
                ("tag"@, Doc::Str("Param"@)),
                ("name"@, Doc::Str(escaped(param.name@))),
                ("param_id"@, number_doc(idx as int)),
            ],
        ),
        ParamKind::ParamGiven { param } => Doc::Obj(
            Layout::Tight,
            seq![
                ("tag"@, Doc::Str("ParamGiven"@)),
                ("name"@, Doc::Str(escaped(param.name@))),
                ("param_id"@, number_doc(idx as int)),
            ],
        ),
        ParamKind::Temperature => tag_doc("Temperature"@),
        ParamKind::Abstime => tag_doc("Abstime"@),
        ParamKind::ParamSysFun(fun) => Doc::Obj(
            Layout::Tight,
            seq![("tag"@, Doc::Str("ParamSysFun"@)), ("name"@, Doc::Str(fun.text@))],
        ),
        ParamKind::HiddenState(var) => Doc::Obj(
            Layout::Tight,
            seq![
                ("tag"@, Doc::Str("HiddenState"@)),
                ("var"@, Doc::Str(escaped(var.name@))),
                ("var_id"@, number_doc(idx as int)),
            ],
        ),
        ParamKind::PortConnected { port } => Doc::Obj(
            Layout::Tight,
            seq![
                ("tag"@, Doc::Str("PortConnected"@)),
                ("port"@, Doc::Str(escaped(port.name@))),
            ],
        ),
        ParamKind::PrevState(state) => Doc::Obj(
            Layout::Tight,
            seq![("tag"@, Doc::Str("PrevState"@)), ("index"@, number_doc(state as int))],
        ),
        ParamKind::NewState(state) => Doc::Obj(
            Layout::Tight,
            seq![("tag"@, Doc::Str("NewState"@)), ("index"@, number_doc(state as int))],
        ),
        ParamKind::EnableLim => tag_doc("EnableLim"@),
        ParamKind::EnableIntegration => tag_doc("EnableIntegration"@),
        ParamKind::ImplicitUnknown(eq) => Doc::Obj(
            Layout::Tight,
            seq![("tag"@, Doc::Str("ImplicitUnknown"@)), ("id"@, number_doc(eq.index as int))],
        ),
    }
}

/// The branches that have a number once an argument has been described.
pub open spec fn known_after_param(kind: ParamKind, known: Seq<Ends>) -> Seq<Ends> {
    match kind {
        ParamKind::Current(current) => known_after_current(current, known),
        _ => known,
    }
}

/// An object that so far holds a tag.
fn tagged(tag: &str) -> (res: ObjectWriter)
    ensures
        res.wf(),
        res.layout() == Layout::Tight,
        res@ == seq![("tag"@, Doc::Str(tag@))],
{
    let mut res = ObjectWriter::new(Layout::Tight);
    res.put_str("tag", tag);
    res
}

/// Describes an argument of a compiled function.
pub fn param_kind_json(kind: &ParamKind, idx: u32, branches: &mut BranchReg) -> (res: String)
    requires
        old(branches).wf(),
        known_after_param(*kind, old(branches)@).len() <= u32::MAX,
    ensures
        final(branches).wf(),
        final(branches)@ == known_after_param(*kind, old(branches)@),
        res@ == render(param_doc(*kind, idx, old(branches)@)),
{
    match kind {
        ParamKind::Voltage { hi, lo } => {
            let mut out = tagged("Voltage");
            out.put_str("hi", hi.name.as_str());
            match lo {
                Some(lo) => {
                    out.put_str("lo", lo.name.as_str());
                    out.put_str("hi_node", hi.name.as_str());
                    out.put_str("lo_node", lo.name.as_str());
                },
                None => {
                    out.put_null("lo");
                    out.put_str("hi_node", hi.name.as_str());
                    out.put_null("lo_node");
                },
            }
            out.finish(Ghost(param_doc(*kind, idx, branches@)))
        },
        ParamKind::Current(current) => current_kind_json(current, branches),
        ParamKind::Param(param) => {
            let name = jstr(param.name.as_str());
            let mut out = tagged("Param");
            out.put_str("name", name.as_str());
            out.put_number("param_id", idx as u64);
            out.finish(Ghost(param_doc(*kind, idx, branches@)))
        },
        ParamKind::ParamGiven { param } => {
            let name = jstr(param.name.as_str());
            let mut out = tagged("ParamGiven");
            out.put_str("name", name.as_str());
            out.put_number("param_id", idx as u64);
            out.finish(Ghost(param_doc(*kind, idx, branches@)))
        },
        ParamKind::Temperature => tagged("Temperature").finish(
            Ghost(param_doc(*kind, idx, branches@)),
        ),
        ParamKind::Abstime => tagged("Abstime").finish(Ghost(param_doc(*kind, idx, branches@))),
        ParamKind::ParamSysFun(fun) => {
            let mut out = tagged("ParamSysFun");
            out.put_str("name", fun.text.as_str());
            out.finish(Ghost(param_doc(*kind, idx, branches@)))
        },
        ParamKind::HiddenState(var) => {
            let name = jstr(var.name.as_str());
            let mut out = tagged("HiddenState");
            out.put_str("var", name.as_str());
            out.put_number("var_id", idx as u64);
            out.finish(Ghost(param_doc(*kind, idx, branches@)))
        },
        ParamKind::PortConnected { port } => {
            let name = jstr(port.name.as_str());
            let mut out = tagged("PortConnected");
            out.put_str("port", name.as_str());
            out.finish(Ghost(param_doc(*kind, idx, branches@)))
        },
        ParamKind::PrevState(state) => {
            let mut out = tagged("PrevState");
            out.put_number("index", *state as u64);
            out.finish(Ghost(param_doc(*kind, idx, branches@)))
        },
        ParamKind::NewState(state) => {
            let mut out = tagged("NewState");
            out.put_number("index", *state as u64);
            out.finish(Ghost(param_doc(*kind, idx, branches@)))
        },
        ParamKind::EnableLim => tagged("EnableLim").finish(Ghost(param_doc(*kind, idx, branches@))),
        ParamKind::EnableIntegration => tagged("EnableIntegration").finish(
            Ghost(param_doc(*kind, idx, branches@)),
        ),
        ParamKind::ImplicitUnknown(eq) => {
            let mut out = tagged("ImplicitUnknown");
            out.put_number("id", eq.index as u64);
            out.finish(Ghost(param_doc(*kind, idx, branches@)))
        },
    }
}

/// Describes a probed current; a branch that has no number yet gets one.
pub fn current_kind_json(kind: &CurrentKind, branches: &mut BranchReg) -> (res: String)
    requires
        old(branches).wf(),
        known_after_current(*kind, old(branches)@).len() <= u32::MAX,
    ensures
        final(branches).wf(),
        final(branches)@ == known_after_current(*kind, old(branches)@),
        res@ == render(current_doc(*kind, old(branches)@)),
{
    match kind {
        CurrentKind::Branch(branch) => {
            let bid = branches.named_id(branch);
            let name = jstr(branch.name.as_str());
            let (hi, lo) = branch_hi_lo(branch);
            let mut out = tagged("CurrentBranch");
            out.put_str("branch", name.as_str());
            out.put_number("branch_id", bid as u64);
            out.put_str("hi", hi.as_str());
            match lo {
                Some(lo) => out.put_str("lo", lo.as_str()),
                None => out.put_null("lo"),
            }
            out.finish(Ghost(current_doc(*kind, old(branches)@)))
        },
        CurrentKind::Unnamed { hi, lo } => {
            let bid = branches.unnamed_id(hi, lo.as_ref());
            let hi_name = jstr(hi.name.as_str());
            let mut out = tagged("CurrentUnnamed");
            out.put_number("branch_id", bid as u64);
            out.put_str("hi", hi_name.as_str());
            match lo {
                Some(lo) => {
                    let lo_name = jstr(lo.name.as_str());
                    out.put_str("lo", lo_name.as_str());
                },
                None => out.put_null("lo"),
            }
            out.finish(Ghost(current_doc(*kind, old(branches)@)))
        },
        CurrentKind::Port(port) => {
            let name = jstr(port.name.as_str());
            let mut out = tagged("CurrentPort");
            out.put_str("port", name.as_str());
            out.finish(Ghost(current_doc(*kind, old(branches)@)))
        },
    }
}

/// The name of a called function.
pub open spec fn callback_text(kind: CallBackKind) -> Seq<char> {
    match kind {
        CallBackKind::TimeDerivative => "ddt"@,
        CallBackKind::NodeDerivative(node) => "ddx_"@ + node.name@,
        CallBackKind::Derivative => "ddx_param"@,
        CallBackKind::SimParam => "simparam"@,
        CallBackKind::SimParamOpt => "SimParamOpt"@,
        CallBackKind::SimParamStr => "simparam_str"@,
        CallBackKind::Analysis => "Analysis"@,
        CallBackKind::CollapseHint(hi, lo) => match lo {
            Some(lo) => "collapse_"@ + hi.name@ + "_Some("@ + lo.name@ + ")"@,
            None => "collapse_"@ + hi.name@ + "_None"@,
        },
        CallBackKind::StoreLimit => "StoreLimit"@,
        CallBackKind::LimDiscontinuity => "LimDiscontinuity"@,
        CallBackKind::BuiltinLimit => "BuiltinLimit"@,
        CallBackKind::WhiteNoise => "WhiteNoise"@,
        CallBackKind::FlickerNoise => "FlickerNoise"@,
        CallBackKind::Print => "Print"@,
        CallBackKind::ParamInfo => "set_Invalid"@,
        CallBackKind::SetRetFlag => "set_Invalid"@,
        CallBackKind::NoiseTable => "WhiteNoise"@,
    }
}

/// Names a called function.
pub fn callback_name(kind: &CallBackKind) -> (res: String)
    ensures
        res@ == callback_text(*kind),
{
    match kind {
        CallBackKind::TimeDerivative => "ddt".to_owned(),
        CallBackKind::NodeDerivative(node) => {
            let mut res = "ddx_".to_owned();
            res.append(node.name.as_str());
            res
        },
        CallBackKind::Derivative => "ddx_param".to_owned(),
        CallBackKind::SimParam => "simparam".to_owned(),
        CallBackKind::SimParamOpt => "SimParamOpt".to_owned(),
        CallBackKind::SimParamStr => "simparam_str".to_owned(),
        CallBackKind::Analysis => "Analysis".to_owned(),
        CallBackKind::CollapseHint(hi, lo) => {
            let mut res = "collapse_".to_owned();
            res.append(hi.name.as_str());
            match lo {
                Some(lo) => {
                    res.append("_Some(");
                    res.append(lo.name.as_str());
                    res.append(")");
                },
                None => res.append("_None"),
            }
            res
        },
        CallBackKind::StoreLimit => "StoreLimit".to_owned(),
        CallBackKind::LimDiscontinuity => "LimDiscontinuity".to_owned(),
        CallBackKind::BuiltinLimit => "BuiltinLimit".to_owned(),
        CallBackKind::WhiteNoise => "WhiteNoise".to_owned(),
        CallBackKind::FlickerNoise => "FlickerNoise".to_owned(),
        CallBackKind::Print => "Print".to_owned(),
        CallBackKind::ParamInfo => "set_Invalid".to_owned(),
        CallBackKind::SetRetFlag => "set_Invalid".to_owned(),
        CallBackKind::NoiseTable => "WhiteNoise".to_owned(),
    }
}

} // verus!
