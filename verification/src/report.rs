//! The printed report on compiled modules.
//!
//! Modules and the arguments of their functions are printed by the compiler; the
//! report is a list of these parts and of the text between them.

use lasso::Rodeo;
use vstd::prelude::*;

#[allow(unused_imports)]
use crate::literals::interned;
use crate::literals::{key_debug, literal_entries};
#[allow(unused_imports)]
use crate::text::{concatenated, decimal_text, texts};

verus! {

/// A part of the printed report on compiled modules.
#[derive(Debug)]
pub enum ReportStep {
    /// Print this text.
    Text { text: String },
    /// Print the module with this number.
    Module { index: usize },
    /// Print what the arguments of a function of a module stand for.
    Interner { index: usize, stage: Stage },
}

/// A function of a compiled module.
#[derive(Clone, Copy, Debug)]
pub enum Stage {
    ModelSetup,
    InstanceSetup,
    Evaluation,
}

/// A part of the report, with its text.
pub ghost enum ReportPart {
    Text(Seq<char>),
    Module(int),
    Interner(int, Stage),
}

/// What a part of the report is.
pub open spec fn report_part(step: ReportStep) -> ReportPart {
    match step {
        ReportStep::Text { text } => ReportPart::Text(text@),
        ReportStep::Module { index } => ReportPart::Module(index as int),
        ReportStep::Interner { index, stage } => ReportPart::Interner(index as int, stage),
    }
}

/// What the parts of a report are.
pub open spec fn report_parts(steps: Seq<ReportStep>) -> Seq<ReportPart> {
    Seq::new(steps.len(), |i: int| report_part(steps[i]))
}

/// The lines for the first `n` interned strings.
pub open spec fn literal_lines(strings: Seq<Seq<char>>, n: int) -> Seq<char>
    decreases n,
{
    if n <= 0 {
        Seq::empty()
    } else {
        literal_lines(strings, n - 1) + "  Spur("@ + decimal_text(n as nat) + ") -> '"@ + strings[n
            - 1] + "'\n"@
    }
}

/// The head of the report.
pub open spec fn report_head(unit: Seq<char>, strings: Seq<Seq<char>>) -> Seq<char> {
    "Compilation unit: "@ + unit + "\n\nLiterals:\n"@ + literal_lines(
        strings,
        strings.len() as int,
    ) + "\n"@
}

/// What is printed above the arguments of a function.
pub open spec fn stage_head(stage: Stage, name: Seq<char>) -> Seq<char> {
    match stage {
        Stage::ModelSetup => "\nModel setup HIR interner of "@ + name + "\n"@,
        Stage::InstanceSetup => "\nInstance setup HIR interner of "@ + name + "\n"@,
        Stage::Evaluation => "\nEvaluation HIR interner of "@ + name + "\n"@,
    }
}

/// The parts of the report on one module.
pub open spec fn module_report(index: int, name: Seq<char>) -> Seq<ReportPart> {
    seq![
        ReportPart::Module(index),
        ReportPart::Text(stage_head(Stage::ModelSetup, name)),
        ReportPart::Interner(index, Stage::ModelSetup),
        ReportPart::Text(stage_head(Stage::InstanceSetup, name)),
        ReportPart::Interner(index, Stage::InstanceSetup),
        ReportPart::Text(stage_head(Stage::Evaluation, name)),
        ReportPart::Interner(index, Stage::Evaluation),
        ReportPart::Text("\n"@),
    ]
}

/// The parts of the report on the first `n` modules.
pub open spec fn modules_report(names: Seq<Seq<char>>, n: int) -> Seq<ReportPart>
    decreases n,
{
    if n <= 0 {
        Seq::empty()
    } else {
        modules_report(names, n - 1) + module_report(n - 1, names[n - 1])
    }
}

/// The report on compiled modules: the compilation unit, the interned strings,
/// and the modules in order.
pub open spec fn full_report(
    unit: Seq<char>,
    strings: Seq<Seq<char>>,
    names: Seq<Seq<char>>,
) -> Seq<ReportPart> {
    seq![ReportPart::Text(report_head(unit, strings))] + modules_report(
        names,
        names.len() as int,
    )
}

/// Writes the head of the report.
fn report_head_text(unit: &str, literals: &Rodeo) -> (res: String)
    ensures
        res@ == report_head(unit@, interned(*literals)),
{
    let entries = literal_entries(literals);
    let mut lines = String::new();
    let mut i: usize = 0;
    while i < entries.len()
        invariant
            i <= entries.len(),
            entries@.len() == interned(*literals).len(),
            entries@.len() <= u32::MAX,
            forall|j: int|
                0 <= j < entries@.len() ==> (#[trigger] entries@[j]).0 == j && entries@[j].1@
                    == interned(*literals)[j],
            lines@ == literal_lines(interned(*literals), i as int),
        decreases entries.len() - i,
    {
        let entry = &entries[i];
        assert(entries@[i as int].0 == i);
        let key = key_debug(entry.0);
        let ghost before = lines@;
        lines.append("  ");
        lines.append(key.as_str());
        lines.append(" -> '");
        lines.append(entry.1.as_str());
        lines.append("'\n");
        i += 1;
        proof {
            reveal_strlit("  ");
            reveal_strlit("Spur(");
            reveal_strlit("  Spur(");
            reveal_strlit(")");
            reveal_strlit(" -> '");
            reveal_strlit(") -> '");
            assert("  "@ + "Spur("@ =~= "  Spur("@);
            assert(")"@ + " -> '"@ =~= ") -> '"@);
            let number = decimal_text(i as nat);
            assert(before + "  "@ + ("Spur("@ + number + ")"@) + " -> '"@ =~= before + ("  "@
                + "Spur("@) + number + (")"@ + " -> '"@));
        }
    }
    let mut res = "Compilation unit: ".to_owned();
    res.append(unit);
    res.append("\n\nLiterals:\n");
    res.append(lines.as_str());
    res.append("\n");
    res
}

/// Writes what is printed above the arguments of a function.
fn stage_head_text(stage: Stage, name: &str) -> (res: String)
    ensures
        res@ == stage_head(stage, name@),
{
    let mut res = match stage {
        Stage::ModelSetup => "\nModel setup HIR interner of ".to_owned(),
        Stage::InstanceSetup => "\nInstance setup HIR interner of ".to_owned(),
        Stage::Evaluation => "\nEvaluation HIR interner of ".to_owned(),
    };
    res.append(name);
    res.append("\n");
    res
}

/// Appends the heading and the arguments of one function.
fn report_stage(steps: &mut Vec<ReportStep>, index: usize, stage: Stage, name: &str)
    ensures
        report_parts(final(steps)@) == report_parts(old(steps)@).push(
            ReportPart::Text(stage_head(stage, name@)),
        ).push(ReportPart::Interner(index as int, stage)),
{
    let text = stage_head_text(stage, name);
    steps.push(ReportStep::Text { text });
    steps.push(ReportStep::Interner { index, stage });
    assert(report_parts(steps@) =~= report_parts(old(steps)@).push(
        ReportPart::Text(stage_head(stage, name@)),
    ).push(ReportPart::Interner(index as int, stage)));
}

/// Returns the parts of the report on compiled modules, from the name of the
/// compilation unit and the names of the modules.
pub fn report_plan(unit: &str, literals: &Rodeo, names: &Vec<String>) -> (res: Vec<ReportStep>)
    ensures
        report_parts(res@) == full_report(unit@, interned(*literals), texts(names@)),
{
    let mut res: Vec<ReportStep> = Vec::new();
    let text = report_head_text(unit, literals);
    res.push(ReportStep::Text { text });
    let ghost head = seq![ReportPart::Text(report_head(unit@, interned(*literals)))];
    assert(report_parts(res@) =~= head + modules_report(texts(names@), 0));
    let mut i: usize = 0;
    while i < names.len()
        invariant
            i <= names.len(),
            report_parts(res@) == head + modules_report(texts(names@), i as int),
        decreases names.len() - i,
    {
        let name = names[i].as_str();
        let ghost before = report_parts(res@);
        res.push(ReportStep::Module { index: i });
        assert(report_parts(res@) =~= before.push(ReportPart::Module(i as int)));
        report_stage(&mut res, i, Stage::ModelSetup, name);
        report_stage(&mut res, i, Stage::InstanceSetup, name);
        report_stage(&mut res, i, Stage::Evaluation, name);
        let ghost so_far = report_parts(res@);
        res.push(ReportStep::Text { text: "\n".to_owned() });
        assert(report_parts(res@) =~= so_far.push(ReportPart::Text("\n"@)));
        assert(report_parts(res@) =~= before + module_report(i as int, name@));
        i += 1;
        assert(report_parts(res@) =~= head + modules_report(texts(names@), i as int));
    }
    res
}

/// The line for one interned string: the text of its key, and the string.
pub open spec fn literal_line(strings: Seq<Seq<char>>, i: int) -> Seq<char> {
    "  Spur("@ + decimal_text((i + 1) as nat) + ") -> '"@ + strings[i] + "'\n"@
}

proof fn lemma_literal_lines(strings: Seq<Seq<char>>, n: int)
    requires
        0 <= n,
    ensures
        literal_lines(strings, n) == concatenated(
            Seq::new(n as nat, |i: int| literal_line(strings, i)),
        ),
    decreases n,
{
    let lines = Seq::new(n as nat, |i: int| literal_line(strings, i));
    if n > 0 {
        lemma_literal_lines(strings, n - 1);
        assert(lines.drop_last() =~= Seq::new((n - 1) as nat, |i: int| literal_line(strings, i)));
        assert(lines.last() == literal_line(strings, n - 1));
        assert(literal_lines(strings, n) =~= literal_lines(strings, n - 1) + literal_line(
            strings,
            n - 1,
        ));
        assert(concatenated(lines) =~= concatenated(lines.drop_last()) + lines.last());
    }
}

/// The report begins with the name of the compilation unit and a line for every
/// interned string, in order.
pub proof fn law_report_head(
    unit: Seq<char>,
    strings: Seq<Seq<char>>,
    names: Seq<Seq<char>>,
)
    ensures
        full_report(unit, strings, names).len() > 0,
        full_report(unit, strings, names)[0] == ReportPart::Text(
            "Compilation unit: "@ + unit + "\n\nLiterals:\n"@ + concatenated(
                Seq::new(strings.len(), |i: int| literal_line(strings, i)),
            ) + "\n"@,
        ),
{
    lemma_literal_lines(strings, strings.len() as int);
}

proof fn lemma_modules_report(names: Seq<Seq<char>>, n: int, m: int)
    requires
        0 <= m < n,
    ensures
        modules_report(names, n).len() == 8 * n,
        modules_report(names, n).subrange(8 * m, 8 * m + 8) == module_report(m, names[m]),
    decreases n,
{
    let all = modules_report(names, n);
    let before = modules_report(names, n - 1);
    lemma_modules_report_len(names, n);
    lemma_modules_report_len(names, n - 1);
    if m == n - 1 {
        assert(all.subrange(8 * m, 8 * m + 8) =~= module_report(m, names[m]));
    } else {
        lemma_modules_report(names, n - 1, m);
        assert(all.subrange(8 * m, 8 * m + 8) =~= before.subrange(8 * m, 8 * m + 8));
    }
}

proof fn lemma_modules_report_len(names: Seq<Seq<char>>, n: int)
    requires
        0 <= n,
    ensures
        modules_report(names, n).len() == 8 * n,
    decreases n,
{
    if n > 0 {
        lemma_modules_report_len(names, n - 1);
    }
}

/// Behind the head, the report holds eight parts for each module, in order: the module
/// itself, and a heading and the arguments for the setup of the model, the setup of an
/// instance and the evaluation.
pub proof fn law_report_on_modules(
    unit: Seq<char>,
    strings: Seq<Seq<char>>,
    names: Seq<Seq<char>>,
    m: int,
)
    requires
        0 <= m < names.len(),
    ensures
        ({
            let parts = full_report(unit, strings, names);
            let at = 1 + 8 * m;
            &&& parts.len() == 1 + 8 * names.len()
            &&& parts[at] == ReportPart::Module(m)
            &&& parts[at + 1] == ReportPart::Text(
                "\nModel setup HIR interner of "@ + names[m] + "\n"@,
            )
            &&& parts[at + 2] == ReportPart::Interner(m, Stage::ModelSetup)
            &&& parts[at + 3] == ReportPart::Text(
                "\nInstance setup HIR interner of "@ + names[m] + "\n"@,
            )
            &&& parts[at + 4] == ReportPart::Interner(m, Stage::InstanceSetup)
            &&& parts[at + 5] == ReportPart::Text(
                "\nEvaluation HIR interner of "@ + names[m] + "\n"@,
            )
            &&& parts[at + 6] == ReportPart::Interner(m, Stage::Evaluation)
            &&& parts[at + 7] == ReportPart::Text("\n"@)
        }),
{
    let parts = full_report(unit, strings, names);
    let rest = modules_report(names, names.len() as int);
    lemma_modules_report(names, names.len() as int, m);
    let own = module_report(m, names[m]);
    assert forall|k: int| 0 <= k < 8 implies #[trigger] parts[1 + 8 * m + k] == own[k] by {
        assert(parts[1 + 8 * m + k] == rest[8 * m + k]);
        assert(rest.subrange(8 * m, 8 * m + 8)[k] == rest[8 * m + k]);
    }
    assert(parts[1 + 8 * m + 0] == own[0]);
    assert(parts[1 + 8 * m + 1] == own[1]);
    assert(parts[1 + 8 * m + 2] == own[2]);
    assert(parts[1 + 8 * m + 3] == own[3]);
    assert(parts[1 + 8 * m + 4] == own[4]);
    assert(parts[1 + 8 * m + 5] == own[5]);
    assert(parts[1 + 8 * m + 6] == own[6]);
    assert(parts[1 + 8 * m + 7] == own[7]);
}

/// A report without modules is its head alone.
pub proof fn law_report_without_modules(unit: Seq<char>, strings: Seq<Seq<char>>)
    ensures
        full_report(unit, strings, Seq::empty()).len() == 1,
{
}

/// The parts of a report are read as they are: a text by what it holds, and a module
/// by its number.
pub proof fn law_report_parts(steps: Seq<ReportStep>, i: int)
    requires
        0 <= i < steps.len(),
    ensures
        report_parts(steps).len() == steps.len(),
        steps[i] matches ReportStep::Text { text } ==> report_parts(steps)[i] == ReportPart::Text(
            text@,
        ),
        steps[i] matches ReportStep::Module { index } ==> report_parts(steps)[i]
            == ReportPart::Module(index as int),
        steps[i] matches ReportStep::Interner { index, stage } ==> report_parts(steps)[i]
            == ReportPart::Interner(index as int, stage),
{
}

} // verus!
