//! The equation system by position, for simulators that stamp it into a matrix.
//!
//! Entry `i` of the nodes is the unknown with number `i`.

use vstd::prelude::*;

use crate::branches::branch_hi_lo;
#[allow(unused_imports)]
use crate::branches::{hi_lo, opt_name};
use crate::builder::{ArrayWriter, ObjectWriter};
use crate::json::Layout;
#[allow(unused_imports)]
use crate::json::{number_doc, render, Doc};
use crate::model::{
    CurrentKind, DaeSystem, MatrixEntry, ModuleInfo, Residual, SimUnknownKind, Value,
};

verus! {

/// A current through the branch between two named ends, or from one to ground.
pub open spec fn current_text(hi: Seq<char>, lo: Option<Seq<char>>) -> Seq<char> {
    match lo {
        Some(lo) => "I("@ + hi + ","@ + lo + ")"@,
        None => "I("@ + hi + ")"@,
    }
}

/// The name of an unknown.
pub open spec fn mna_name(kind: SimUnknownKind) -> Seq<char> {
    match kind {
        SimUnknownKind::KirchoffLaw(node) => node.name@,
        SimUnknownKind::Current(current) => match current {
            CurrentKind::Branch(branch) => current_text(hi_lo(branch).0, hi_lo(branch).1),
            CurrentKind::Unnamed { hi, lo } => current_text(hi.name@, opt_name(lo)),
            CurrentKind::Port(port) => "I<"@ + port.name@ + ">"@,
        },
        SimUnknownKind::Implicit(eq) => eq.text@,
    }
}

/// What kind of quantity an unknown is.
pub open spec fn mna_kind(kind: SimUnknownKind) -> Seq<char> {
    match kind {
        SimUnknownKind::KirchoffLaw(node) => "voltage"@,
        SimUnknownKind::Current(current) => "current"@,
        SimUnknownKind::Implicit(eq) => "implicit"@,
    }
}

/// An unknown and its number.
pub open spec fn mna_node_doc(index: int, kind: SimUnknownKind) -> Doc {
    Doc::Obj(
        Layout::Spaced,
        seq![
            ("idx"@, number_doc(index)),
            ("name"@, Doc::Str(mna_name(kind))),
            ("kind"@, Doc::Str(mna_kind(kind))),
        ],
    )
}

/// The unknowns, in order.
pub open spec fn mna_nodes_doc(unknowns: Seq<SimUnknownKind>) -> Doc {
    Doc::Arr(
        Layout::Lines(6),
        Seq::new(unknowns.len(), |i: int| mna_node_doc(i, unknowns[i])),
    )
}

/// A residual and the number of its equation.
pub open spec fn mna_residual_doc(index: int, residual: Residual) -> Doc {
    Doc::Obj(
        Layout::Spaced,
        seq![
            ("node"@, number_doc(index)),
            ("resist"@, Doc::Str(residual.resist.text@)),
            ("react"@, Doc::Str(residual.react.text@)),
        ],
    )
}

/// The residuals, in order.
pub open spec fn mna_residuals_doc(residuals: Seq<Residual>) -> Doc {
    Doc::Arr(
        Layout::Lines(6),
        Seq::new(residuals.len(), |i: int| mna_residual_doc(i, residuals[i])),
    )
}

/// An entry of the Jacobian: its row and column by number, and which of its
/// parts differ from the constant zero.
pub open spec fn mna_entry_doc(entry: MatrixEntry, zero: Value) -> Doc {
    Doc::Obj(
        Layout::Spaced,
        seq![
            ("row"@, number_doc(entry.row.index as int)),
            ("col"@, number_doc(entry.col.index as int)),
            ("resist"@, Doc::Str(entry.resist.text@)),
            ("react"@, Doc::Str(entry.react.text@)),
            ("has_resist"@, Doc::Bool(entry.resist.index != zero.index)),
            ("has_react"@, Doc::Bool(entry.react.index != zero.index)),
        ],
    )
}

/// The entries of the Jacobian, in order.
pub open spec fn mna_entries_doc(entries: Seq<MatrixEntry>, zero: Value) -> Doc {
    Doc::Arr(
        Layout::Lines(6),
        Seq::new(entries.len(), |i: int| mna_entry_doc(entries[i], zero)),
    )
}

/// The positional view of a module.
pub open spec fn mna_doc(info: ModuleInfo, dae: DaeSystem) -> Doc {
    Doc::Obj(
        Layout::Lines(4),
        seq![
            ("num_nodes"@, number_doc(dae.unknowns@.len() as int)),
            ("num_terminals"@, number_doc(info.ports@.len() as int)),
            ("nodes"@, mna_nodes_doc(dae.unknowns@)),
            ("residuals"@, mna_residuals_doc(dae.residual@)),
            ("jacobian_entries"@, mna_entries_doc(dae.jacobian@, dae.zero)),
            ("num_noise_sources"@, number_doc(dae.num_noise_sources as int)),
            ("num_jacobian_entries"@, number_doc(dae.jacobian@.len() as int)),
            ("num_resistive_jacobian_entries"@, number_doc(dae.num_resistive as int)),
            ("num_reactive_jacobian_entries"@, number_doc(dae.num_reactive as int)),
        ],
    )
}

/// Writes a current through a branch.
fn current_name(hi: &str, lo: Option<&str>) -> (res: String)
    ensures
        res@ == current_text(
            hi@,
            match lo {
                Some(lo) => Some(lo@),
                None => None,
            },
        ),
{
    let mut res = "I(".to_owned();
    res.append(hi);
    if let Some(lo) = lo {
        res.append(",");
        res.append(lo);
    }
    res.append(")");
    res
}

/// Returns the name of an unknown and what kind of quantity it is.
pub fn mna_node_info(kind: &SimUnknownKind) -> (res: (String, &'static str))
    ensures
        res.0@ == mna_name(*kind),
        res.1@ == mna_kind(*kind),
{
    match kind {
        SimUnknownKind::KirchoffLaw(node) => (node.name.clone(), "voltage"),
        SimUnknownKind::Current(current) => {
            let name = match current {
                CurrentKind::Branch(branch) => {
                    let (hi, lo) = branch_hi_lo(branch);
                    match lo {
                        Some(lo) => current_name(hi.as_str(), Some(lo.as_str())),
                        None => current_name(hi.as_str(), None),
                    }
                },
                CurrentKind::Unnamed { hi, lo } => match lo {
                    Some(lo) => current_name(hi.name.as_str(), Some(lo.name.as_str())),
                    None => current_name(hi.name.as_str(), None),
                },
                CurrentKind::Port(port) => {
                    let mut res = "I<".to_owned();
                    res.append(port.name.as_str());
                    res.append(">");
                    res
                },
            };
            (name, "current")
        },
        SimUnknownKind::Implicit(eq) => (eq.text.clone(), "implicit"),
    }
}

/// Writes the unknowns.
fn nodes_array(unknowns: &Vec<SimUnknownKind>) -> (res: String)
    ensures
        res@ == render(mna_nodes_doc(unknowns@)),
{
    let mut out = ArrayWriter::new(Layout::Lines(6));
    let mut idx: usize = 0;
    while idx < unknowns.len()
        invariant
            idx <= unknowns.len(),
            out.wf(),
            out.layout() == Layout::Lines(6),
            out@.len() == idx,
            forall|j: int| 0 <= j < idx ==> #[trigger] out@[j] == mna_node_doc(j, unknowns@[j]),
        decreases unknowns.len() - idx,
    {
        let (name, kind) = mna_node_info(&unknowns[idx]);
        let ghost doc = mna_node_doc(idx as int, unknowns@[idx as int]);
        let mut item = ObjectWriter::new(Layout::Spaced);
        item.put_number("idx", idx as u64);
        item.put_str("name", name.as_str());
        item.put_str("kind", kind);
        let text = item.finish(Ghost(doc));
        out.put(text, Ghost(doc));
        idx += 1;
    }
    out.finish(Ghost(mna_nodes_doc(unknowns@)))
}

/// Writes the residuals.
fn residuals_array(residuals: &Vec<Residual>) -> (res: String)
    ensures
        res@ == render(mna_residuals_doc(residuals@)),
{
    let mut out = ArrayWriter::new(Layout::Lines(6));
    let mut idx: usize = 0;
    while idx < residuals.len()
        invariant
            idx <= residuals.len(),
            out.wf(),
            out.layout() == Layout::Lines(6),
            out@.len() == idx,
            forall|j: int|
                0 <= j < idx ==> #[trigger] out@[j] == mna_residual_doc(j, residuals@[j]),
        decreases residuals.len() - idx,
    {
        let residual = &residuals[idx];
        let ghost doc = mna_residual_doc(idx as int, *residual);
        let mut item = ObjectWriter::new(Layout::Spaced);
        item.put_number("node", idx as u64);
        item.put_str("resist", residual.resist.text.as_str());
        item.put_str("react", residual.react.text.as_str());
        let text = item.finish(Ghost(doc));
        out.put(text, Ghost(doc));
        idx += 1;
    }
    out.finish(Ghost(mna_residuals_doc(residuals@)))
}

/// Writes the entries of the Jacobian.
fn entries_array(entries: &Vec<MatrixEntry>, zero: &Value) -> (res: String)
    ensures
        res@ == render(mna_entries_doc(entries@, *zero)),
{
    let mut out = ArrayWriter::new(Layout::Lines(6));
    let mut i: usize = 0;
    while i < entries.len()
        invariant
            i <= entries.len(),
            out.wf(),
            out.layout() == Layout::Lines(6),
            out@.len() == i,
            forall|j: int| 0 <= j < i ==> #[trigger] out@[j] == mna_entry_doc(entries@[j], *zero),
        decreases entries.len() - i,
    {
        let entry = &entries[i];
        let ghost doc = mna_entry_doc(*entry, *zero);
        let mut item = ObjectWriter::new(Layout::Spaced);
        item.put_number("row", entry.row.index as u64);
        item.put_number("col", entry.col.index as u64);
        item.put_str("resist", entry.resist.text.as_str());
        item.put_str("react", entry.react.text.as_str());
        item.put_bool("has_resist", entry.resist.index != zero.index);
        item.put_bool("has_react", entry.react.index != zero.index);
        let text = item.finish(Ghost(doc));
        out.put(text, Ghost(doc));
        i += 1;
    }
    out.finish(Ghost(mna_entries_doc(entries@, *zero)))
}

/// Writes the positional view of a module.
pub fn emit_mna_json(info: &ModuleInfo, dae: &DaeSystem) -> (res: String)
    ensures
        res@ == render(mna_doc(*info, *dae)),
{
    let mut out = ObjectWriter::new(Layout::Lines(4));
    out.put_number("num_nodes", dae.unknowns.len() as u64);
    out.put_number("num_terminals", info.ports.len() as u64);
    let nodes = nodes_array(&dae.unknowns);
    out.put("nodes", nodes.as_str(), Ghost(mna_nodes_doc(dae.unknowns@)));
    let residuals = residuals_array(&dae.residual);
    out.put("residuals", residuals.as_str(), Ghost(mna_residuals_doc(dae.residual@)));
    let entries = entries_array(&dae.jacobian, &dae.zero);
    out.put(
        "jacobian_entries",
        entries.as_str(),
        Ghost(mna_entries_doc(dae.jacobian@, dae.zero)),
    );
    out.put_number("num_noise_sources", dae.num_noise_sources as u64);
    out.put_number("num_jacobian_entries", dae.jacobian.len() as u64);
    out.put_number("num_resistive_jacobian_entries", dae.num_resistive as u64);
    out.put_number("num_reactive_jacobian_entries", dae.num_reactive as u64);
    out.finish(Ghost(mna_doc(*info, *dae)))
}

} // verus!
