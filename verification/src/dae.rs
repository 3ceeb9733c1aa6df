//! The equation system of a module.

use vstd::prelude::*;

use crate::branches::BranchReg;
#[allow(unused_imports)]
use crate::branches::{branch_ends, branch_id, ends, opt_name, registered, Ends};
use crate::builder::ObjectWriter;
use crate::json::Layout;
#[allow(unused_imports)]
use crate::json::{number_doc, render, Doc};
use crate::model::{
    CurrentKind, DaeSystem, MatrixEntry, Residual, ResidualNatureKind, SimUnknownKind,
};
use crate::text::decimal;
#[allow(unused_imports)]
use crate::text::decimal_text;

verus! {

/// The ends of the branch whose current is an unknown.
pub open spec fn current_ends(kind: CurrentKind) -> Ends {
    match kind {
        CurrentKind::Branch(branch) => branch_ends(branch),
        CurrentKind::Unnamed { hi, lo } => ends(hi.name@, opt_name(lo)),
        CurrentKind::Port(port) => ends(port.name@, None),
    }
}

/// The name of an unknown, with the branches that have a number before it is named.
pub open spec fn unknown_text(kind: SimUnknownKind, known: Seq<Ends>) -> Seq<char> {
    match kind {
        SimUnknownKind::KirchoffLaw(node) => node.name@,
        SimUnknownKind::Current(current) => "br[Branch(BranchId("@ + decimal_text(
            branch_id(known, current_ends(current)) as nat,
        ) + "))]"@,
        SimUnknownKind::Implicit(eq) => eq.text@,
    }
}

/// The branches that have a number once an unknown has been named.
pub open spec fn known_after_unknown(kind: SimUnknownKind, known: Seq<Ends>) -> Seq<Ends> {
    match kind {
        SimUnknownKind::Current(current) => registered(known, current_ends(current)),
        _ => known,
    }
}

/// The branches that have a number once the first `n` unknowns have been named.
pub open spec fn known_after_unknowns(
    unknowns: Seq<SimUnknownKind>,
    n: int,
    known: Seq<Ends>,
) -> Seq<Ends>
    decreases n,
{
    if n <= 0 {
        known
    } else {
        known_after_unknown(unknowns[n - 1], known_after_unknowns(unknowns, n - 1, known))
    }
}

/// What the unknown with the given number, and its equation, are called.
pub open spec fn sim_node_text(index: int) -> Seq<char> {
    "sim_node"@ + decimal_text(index as nat)
}

/// The entry for an unknown.
pub open spec fn unknown_member(
    unknowns: Seq<SimUnknownKind>,
    i: int,
    known: Seq<Ends>,
) -> (Seq<char>, Doc) {
    (
        sim_node_text(i),
        Doc::Str(unknown_text(unknowns[i], known_after_unknowns(unknowns, i, known))),
    )
}

/// The names of the unknowns.
pub open spec fn unknowns_doc(unknowns: Seq<SimUnknownKind>, known: Seq<Ends>) -> Doc {
    Doc::Obj(
        Layout::Lines(6),
        Seq::new(unknowns.len(), |i: int| unknown_member(unknowns, i, known)),
    )
}

/// The name of the nature of a residual.
pub open spec fn nature_text(nature: ResidualNatureKind) -> Seq<char> {
    match nature {
        ResidualNatureKind::Flow => "Flow"@,
        ResidualNatureKind::Potential => "Potential"@,
        ResidualNatureKind::Switch => "Switch"@,
    }
}

/// A residual.
pub open spec fn residual_doc(residual: Residual) -> Doc {
    Doc::Obj(
        Layout::Spaced,
        seq![
            ("resist"@, Doc::Str(residual.resist.text@)),
            ("react"@, Doc::Str(residual.react.text@)),
            ("resist_small_signal"@, Doc::Str(residual.resist_small_signal.text@)),
            ("react_small_signal"@, Doc::Str(residual.react_small_signal.text@)),
            ("resist_lim_rhs"@, Doc::Str(residual.resist_lim_rhs.text@)),
            ("react_lim_rhs"@, Doc::Str(residual.react_lim_rhs.text@)),
            ("nature_kind"@, Doc::Str(nature_text(residual.nature_kind))),
        ],
    )
}

/// The residuals, under the names of their equations.
pub open spec fn residuals_doc(residuals: Seq<Residual>) -> Doc {
    Doc::Obj(
        Layout::Lines(6),
        Seq::new(residuals.len(), |i: int| (sim_node_text(i), residual_doc(residuals[i]))),
    )
}

/// The entry for one entry of the Jacobian, under its row and column.
pub open spec fn jacobian_member(entry: MatrixEntry) -> (Seq<char>, Doc) {
    (
        entry.row.text@ + ","@ + entry.col.text@,
        Doc::Obj(
            Layout::Spaced,
            seq![
                ("row"@, Doc::Str(entry.row.text@)),
                ("col"@, Doc::Str(entry.col.text@)),
                ("resist"@, Doc::Str(entry.resist.text@)),
                ("react"@, Doc::Str(entry.react.text@)),
            ],
        ),
    )
}

/// The Jacobian.
pub open spec fn jacobian_doc(entries: Seq<MatrixEntry>) -> Doc {
    Doc::Obj(
        Layout::Lines(6),
        Seq::new(entries.len(), |i: int| jacobian_member(entries[i])),
    )
}

/// The equation system, with the branches that have a number before it is written.
pub open spec fn dae_doc(dae: DaeSystem, known: Seq<Ends>) -> Doc {
    Doc::Obj(
        Layout::Lines(4),
        seq![
            ("unknowns"@, unknowns_doc(dae.unknowns@, known)),
            ("residual"@, residuals_doc(dae.residual@)),
            ("jacobian"@, jacobian_doc(dae.jacobian@)),
            ("num_resistive"@, number_doc(dae.num_resistive as int)),
            ("num_reactive"@, number_doc(dae.num_reactive as int)),
        ],
    )
}

/// The branches that have a number once the equation system has been written.
pub open spec fn known_after_dae(dae: DaeSystem, known: Seq<Ends>) -> Seq<Ends> {
    known_after_unknowns(dae.unknowns@, dae.unknowns@.len() as int, known)
}

/// Naming more unknowns never takes a branch out of the list.
pub proof fn lemma_unknowns_add_branches(
    unknowns: Seq<SimUnknownKind>,
    n: int,
    m: int,
    known: Seq<Ends>,
)
    requires
        n <= m,
    ensures
        known_after_unknowns(unknowns, n, known).len() <= known_after_unknowns(
            unknowns,
            m,
            known,
        ).len(),
    decreases m - n,
{
    if 0 < m && n < m {
        lemma_unknowns_add_branches(unknowns, n, m - 1, known);
    }
}

/// Names an unknown; a branch that has no number yet gets one.
pub fn sim_unknown_name(kind: &SimUnknownKind, branches: &mut BranchReg) -> (res: String)
    requires
        old(branches).wf(),
        known_after_unknown(*kind, old(branches)@).len() <= u32::MAX,
    ensures
        final(branches).wf(),
        final(branches)@ == known_after_unknown(*kind, old(branches)@),
        res@ == unknown_text(*kind, old(branches)@),
{
    match kind {
        SimUnknownKind::KirchoffLaw(node) => node.name.clone(),
        SimUnknownKind::Current(current) => {
            let bid: u32 = match current {
                CurrentKind::Branch(branch) => branches.named_id(branch),
                CurrentKind::Unnamed { hi, lo } => branches.unnamed_id(hi, lo.as_ref()),
                CurrentKind::Port(port) => branches.unnamed_id(port, None),
            };
            let number = decimal(bid as u64);
            let mut res = "br[Branch(BranchId(".to_owned();
            res.append(number.as_str());
            res.append("))]");
            res
        },
        SimUnknownKind::Implicit(eq) => eq.text.clone(),
    }
}

/// Writes what the unknown with the given number is called.
fn sim_node(index: usize) -> (res: String)
    ensures
        res@ == sim_node_text(index as int),
{
    let number = decimal(index as u64);
    let mut res = "sim_node".to_owned();
    res.append(number.as_str());
    res
}

/// Writes the names of the unknowns.
fn unknowns_object(unknowns: &Vec<SimUnknownKind>, branches: &mut BranchReg) -> (res: String)
    requires
        old(branches).wf(),
        known_after_unknowns(unknowns@, unknowns@.len() as int, old(branches)@).len()
            <= u32::MAX,
    ensures
        final(branches).wf(),
        final(branches)@ == known_after_unknowns(
            unknowns@,
            unknowns@.len() as int,
            old(branches)@,
        ),
        res@ == render(unknowns_doc(unknowns@, old(branches)@)),
{
    let mut out = ObjectWriter::new(Layout::Lines(6));
    let mut idx: usize = 0;
    while idx < unknowns.len()
        invariant
            idx <= unknowns.len(),
            branches.wf(),
            branches@ == known_after_unknowns(unknowns@, idx as int, old(branches)@),
            known_after_unknowns(unknowns@, unknowns@.len() as int, old(branches)@).len()
                <= u32::MAX,
            out.wf(),
            out.layout() == Layout::Lines(6),
            out@.len() == idx,
            forall|j: int|
                0 <= j < idx ==> #[trigger] out@[j] == unknown_member(
                    unknowns@,
                    j,
                    old(branches)@,
                ),
        decreases unknowns.len() - idx,
    {
        proof {
            lemma_unknowns_add_branches(
                unknowns@,
                idx + 1,
                unknowns@.len() as int,
                old(branches)@,
            );
        }
        let key = sim_node(idx);
        let name = sim_unknown_name(&unknowns[idx], branches);
        out.put_str(key.as_str(), name.as_str());
        idx += 1;
    }
    out.finish(Ghost(unknowns_doc(unknowns@, old(branches)@)))
}

/// Writes a residual.
fn residual_object(residual: &Residual) -> (res: String)
    ensures
        res@ == render(residual_doc(*residual)),
{
    let nature = match residual.nature_kind {
        ResidualNatureKind::Flow => "Flow",
        ResidualNatureKind::Potential => "Potential",
        ResidualNatureKind::Switch => "Switch",
    };
    let mut out = ObjectWriter::new(Layout::Spaced);
    out.put_str("resist", residual.resist.text.as_str());
    out.put_str("react", residual.react.text.as_str());
    out.put_str("resist_small_signal", residual.resist_small_signal.text.as_str());
    out.put_str("react_small_signal", residual.react_small_signal.text.as_str());
    out.put_str("resist_lim_rhs", residual.resist_lim_rhs.text.as_str());
    out.put_str("react_lim_rhs", residual.react_lim_rhs.text.as_str());
    out.put_str("nature_kind", nature);
    out.finish(Ghost(residual_doc(*residual)))
}

/// Writes the residuals.
fn residuals_object(residuals: &Vec<Residual>) -> (res: String)
    ensures
        res@ == render(residuals_doc(residuals@)),
{
    let mut out = ObjectWriter::new(Layout::Lines(6));
    let mut idx: usize = 0;
    while idx < residuals.len()
        invariant
            idx <= residuals.len(),
            out.wf(),
            out.layout() == Layout::Lines(6),
            out@.len() == idx,
            forall|j: int|
                0 <= j < idx ==> #[trigger] out@[j] == (
                    sim_node_text(j),
                    residual_doc(residuals@[j]),
                ),
        decreases residuals.len() - idx,
    {
        let key = sim_node(idx);
        let text = residual_object(&residuals[idx]);
        out.put(key.as_str(), text.as_str(), Ghost(residual_doc(residuals@[idx as int])));
        idx += 1;
    }
    out.finish(Ghost(residuals_doc(residuals@)))
}

/// Writes the Jacobian.
fn jacobian_object(entries: &Vec<MatrixEntry>) -> (res: String)
    ensures
        res@ == render(jacobian_doc(entries@)),
{
    let mut out = ObjectWriter::new(Layout::Lines(6));
    let mut i: usize = 0;
    while i < entries.len()
        invariant
            i <= entries.len(),
            out.wf(),
            out.layout() == Layout::Lines(6),
            out@.len() == i,
            forall|j: int| 0 <= j < i ==> #[trigger] out@[j] == jacobian_member(entries@[j]),
        decreases entries.len() - i,
    {
        let entry = &entries[i];
        let mut key = entry.row.text.clone();
        key.append(",");
        key.append(entry.col.text.as_str());
        let ghost doc = jacobian_member(*entry).1;
        let mut item = ObjectWriter::new(Layout::Spaced);
        item.put_str("row", entry.row.text.as_str());
        item.put_str("col", entry.col.text.as_str());
        item.put_str("resist", entry.resist.text.as_str());
        item.put_str("react", entry.react.text.as_str());
        let text = item.finish(Ghost(doc));
        out.put(key.as_str(), text.as_str(), Ghost(doc));
        i += 1;
    }
    out.finish(Ghost(jacobian_doc(entries@)))
}

/// Writes the equation system.
pub fn emit_dae_json(dae: &DaeSystem, branches: &mut BranchReg) -> (res: String)
    requires
        old(branches).wf(),
        known_after_dae(*dae, old(branches)@).len() <= u32::MAX,
    ensures
        final(branches).wf(),
        final(branches)@ == known_after_dae(*dae, old(branches)@),
        res@ == render(dae_doc(*dae, old(branches)@)),
{
    let ghost known = branches@;
    let mut out = ObjectWriter::new(Layout::Lines(4));
    let unknowns = unknowns_object(&dae.unknowns, branches);
    out.put("unknowns", unknowns.as_str(), Ghost(unknowns_doc(dae.unknowns@, known)));
    let residual = residuals_object(&dae.residual);
    out.put("residual", residual.as_str(), Ghost(residuals_doc(dae.residual@)));
    let jacobian = jacobian_object(&dae.jacobian);
    out.put("jacobian", jacobian.as_str(), Ghost(jacobian_doc(dae.jacobian@)));
    out.put_number("num_resistive", dae.num_resistive as u64);
    out.put_number("num_reactive", dae.num_reactive as u64);
    out.finish(Ghost(dae_doc(*dae, known)))
}

} // verus!
