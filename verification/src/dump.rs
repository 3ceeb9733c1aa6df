//! Printing the modules of a source as one JSON array.

use vstd::prelude::*;

use crate::failure::Failure;
use crate::options::CompilationTermination;
use crate::text::join;
#[allow(unused_imports)]
use crate::text::{concatenated, joined, texts};

verus! {

/// How far modules are optimised before they are printed.
#[derive(Clone, Copy, Debug)]
pub enum DumpKind {
    /// With all optimisations.
    Optimized,
    /// As they come out of the split into functions, without any optimisation.
    Unoptimized,
    /// With dead code removed, and nothing else.
    DeadCodeOnly,
}

/// What the compiler is told about optimisation.
#[derive(Clone, Copy, Debug, PartialEq, Eq, Structural)]
pub struct SplitOpts {
    pub skip_value_opts: bool,
    pub run_adce: bool,
}

/// Returns what the compiler is told about optimisation, or nothing where it
/// does what it does by itself.
pub fn split_opts(kind: DumpKind) -> (res: Option<SplitOpts>)
    ensures
        res == match kind {
            DumpKind::Optimized => None,
            DumpKind::Unoptimized => Some(SplitOpts { skip_value_opts: true, run_adce: false }),
            DumpKind::DeadCodeOnly => Some(SplitOpts { skip_value_opts: true, run_adce: true }),
        },
{
    match kind {
        DumpKind::Optimized => None,
        DumpKind::Unoptimized => Some(SplitOpts { skip_value_opts: true, run_adce: false }),
        DumpKind::DeadCodeOnly => Some(SplitOpts { skip_value_opts: true, run_adce: true }),
    }
}

/// A step of a run that prints modules.
#[derive(Debug)]
pub enum DumpStep {
    /// Resolve the path of the source.
    ResolveInput,
    /// Open the source.
    OpenSource,
    /// Read the modules of the source.
    CollectModules,
    /// Print the opening bracket.
    Open { count: usize },
    /// Print the comma in front of the module with this number.
    Separate { index: usize, count: usize },
    /// Compile the module with this number.
    Compile { index: usize, count: usize },
    /// Print the module with this number, piece by piece.
    Print { index: usize, count: usize, pieces: Vec<String> },
    /// Print the closing bracket and a line break.
    Close,
    /// Nothing is left to do.
    Finished { termination: CompilationTermination },
    /// The run stops, as something could not be done.
    Failed { failure: Failure },
}

/// The outcome of a step of a run that prints modules.
#[derive(Debug)]
pub enum DumpEvent {
    InputResolved,
    SourceOpened,
    /// The number of modules, where they could be read.
    ModulesCollected { count: Option<usize> },
    /// The pieces of the JSON text of the module.
    Compiled { pieces: Vec<String> },
    Printed,
    /// The step could not be performed.
    Failed,
}

/// A step, with what its strings hold.
pub ghost enum DumpStepView {
    ResolveInput,
    OpenSource,
    CollectModules,
    Open(nat),
    Separate(nat, nat),
    Compile(nat, nat),
    Print(nat, nat, Seq<Seq<char>>),
    Close,
    /// The file that is named, or nothing where there were errors.
    Finished(Option<Seq<char>>),
    Failed(Failure),
}

impl View for DumpStep {
    type V = DumpStepView;

    open spec fn view(&self) -> DumpStepView {
        match self {
            DumpStep::ResolveInput => DumpStepView::ResolveInput,
            DumpStep::OpenSource => DumpStepView::OpenSource,
            DumpStep::CollectModules => DumpStepView::CollectModules,
            DumpStep::Open { count } => DumpStepView::Open(*count as nat),
            DumpStep::Separate { index, count } => DumpStepView::Separate(
                *index as nat,
                *count as nat,
            ),
            DumpStep::Compile { index, count } => DumpStepView::Compile(
                *index as nat,
                *count as nat,
            ),
            DumpStep::Print { index, count, pieces } => DumpStepView::Print(
                *index as nat,
                *count as nat,
                texts(pieces@),
            ),
            DumpStep::Close => DumpStepView::Close,
            DumpStep::Finished { termination } => DumpStepView::Finished(
                match termination {
                    CompilationTermination::Compiled { lib_file } => Some(lib_file@),
                    CompilationTermination::FatalDiagnostic => None,
                },
            ),
            DumpStep::Failed { failure } => DumpStepView::Failed(*failure),
        }
    }
}

/// The outcome of a step, with what its strings hold.
pub ghost enum DumpEventView {
    InputResolved,
    SourceOpened,
    ModulesCollected(Option<nat>),
    Compiled(Seq<Seq<char>>),
    Printed,
    Failed,
}

impl View for DumpEvent {
    type V = DumpEventView;

    open spec fn view(&self) -> DumpEventView {
        match self {
            DumpEvent::InputResolved => DumpEventView::InputResolved,
            DumpEvent::SourceOpened => DumpEventView::SourceOpened,
            DumpEvent::ModulesCollected { count } => DumpEventView::ModulesCollected(
                match count {
                    Some(count) => Some(*count as nat),
                    None => None,
                },
            ),
            DumpEvent::Compiled { pieces } => DumpEventView::Compiled(texts(pieces@)),
            DumpEvent::Printed => DumpEventView::Printed,
            DumpEvent::Failed => DumpEventView::Failed,
        }
    }
}

/// What comes when the modules in front of `index` are printed.
pub open spec fn module_step(index: nat, count: nat) -> DumpStepView {
    if index >= count {
        DumpStepView::Close
    } else if index == 0 {
        DumpStepView::Compile(index, count)
    } else {
        DumpStepView::Separate(index, count)
    }
}

/// What has failed where a step cannot be performed, of the steps that can fail.
pub open spec fn dump_failure(step: DumpStepView) -> Option<Failure> {
    match step {
        DumpStepView::ResolveInput => Some(Failure::Input),
        DumpStepView::OpenSource => Some(Failure::Source),
        DumpStepView::Open(count) => Some(Failure::Printing),
        DumpStepView::Separate(index, count) => Some(Failure::Printing),
        DumpStepView::Print(index, count, pieces) => Some(Failure::Printing),
        DumpStepView::Close => Some(Failure::Printing),
        _ => None,
    }
}

/// The step behind `step`. An outcome that does not belong to the step changes nothing.
pub open spec fn next_dump_step(step: DumpStepView, event: DumpEventView) -> DumpStepView {
    match (step, event) {
        (_, DumpEventView::Failed) => match dump_failure(step) {
            Some(failure) => DumpStepView::Failed(failure),
            None => step,
        },
        (DumpStepView::ResolveInput, DumpEventView::InputResolved) => DumpStepView::OpenSource,
        (DumpStepView::OpenSource, DumpEventView::SourceOpened) => DumpStepView::CollectModules,
        (DumpStepView::CollectModules, DumpEventView::ModulesCollected(count)) => match count {
            Some(count) => DumpStepView::Open(count),
            None => DumpStepView::Finished(None),
        },
        (DumpStepView::Open(count), DumpEventView::Printed) => module_step(0, count),
        (DumpStepView::Separate(index, count), DumpEventView::Printed) => DumpStepView::Compile(
            index,
            count,
        ),
        (
            DumpStepView::Compile(index, count),
            DumpEventView::Compiled(pieces),
        ) => DumpStepView::Print(index, count, pieces),
        (DumpStepView::Print(index, count, pieces), DumpEventView::Printed) => module_step(
            index + 1,
            count,
        ),
        (DumpStepView::Close, DumpEventView::Printed) => DumpStepView::Finished(
            Some(Seq::empty()),
        ),
        _ => step,
    }
}

/// What is printed in a step.
pub open spec fn dump_step_text(step: DumpStepView) -> Seq<char> {
    match step {
        DumpStepView::Open(count) => seq!['['],
        DumpStepView::Separate(index, count) => seq![','],
        DumpStepView::Print(index, count, pieces) => concatenated(pieces),
        DumpStepView::Close => seq![']', '\n'],
        _ => Seq::empty(),
    }
}

/// Returns the first step of a run that prints modules.
pub fn dump_first() -> (res: DumpStep)
    ensures
        res@ == DumpStepView::ResolveInput,
{
    DumpStep::ResolveInput
}

fn at_module(index: usize, count: usize) -> (res: DumpStep)
    ensures
        res@ == module_step(index as nat, count as nat),
{
    if index >= count {
        DumpStep::Close
    } else if index == 0 {
        DumpStep::Compile { index, count }
    } else {
        DumpStep::Separate { index, count }
    }
}

/// Returns the step behind one that could not be performed.
fn after_failure(step: DumpStep) -> (res: DumpStep)
    ensures
        res@ == next_dump_step(step@, DumpEventView::Failed),
{
    match step {
        DumpStep::ResolveInput => DumpStep::Failed { failure: Failure::Input },
        DumpStep::OpenSource => DumpStep::Failed { failure: Failure::Source },
        DumpStep::Open { .. } => DumpStep::Failed { failure: Failure::Printing },
        DumpStep::Separate { .. } => DumpStep::Failed { failure: Failure::Printing },
        DumpStep::Print { .. } => DumpStep::Failed { failure: Failure::Printing },
        DumpStep::Close => DumpStep::Failed { failure: Failure::Printing },
        _ => step,
    }
}

/// Returns the step behind `step`, from its outcome.
pub fn dump_next(step: DumpStep, event: DumpEvent) -> (res: DumpStep)
    ensures
        res@ == next_dump_step(step@, event@),
{
    match (step, event) {
        (step, DumpEvent::Failed) => after_failure(step),
        (DumpStep::ResolveInput, DumpEvent::InputResolved) => DumpStep::OpenSource,
        (DumpStep::OpenSource, DumpEvent::SourceOpened) => DumpStep::CollectModules,
        (DumpStep::CollectModules, DumpEvent::ModulesCollected { count }) => match count {
            Some(count) => DumpStep::Open { count },
            None => DumpStep::Finished { termination: CompilationTermination::FatalDiagnostic },
        },
        (DumpStep::Open { count }, DumpEvent::Printed) => at_module(0, count),
        (DumpStep::Separate { index, count }, DumpEvent::Printed) => DumpStep::Compile {
            index,
            count,
        },
        (DumpStep::Compile { index, count }, DumpEvent::Compiled { pieces }) => DumpStep::Print {
            index,
            count,
            pieces,
        },
        (DumpStep::Print { index, count, pieces: _ }, DumpEvent::Printed) => {
            if index < count {
                at_module(index + 1, count)
            } else {
                DumpStep::Close
            }
        },
        (DumpStep::Close, DumpEvent::Printed) => DumpStep::Finished {
            termination: CompilationTermination::Compiled { lib_file: String::new() },
        },
        (step, _) => step,
    }
}

/// Returns what is printed in a step.
pub fn dump_output(step: &DumpStep) -> (res: String)
    ensures
        res@ == dump_step_text(step@),
{
    let mut res = String::new();
    match step {
        DumpStep::Open { .. } => {
            res.push('[');
        },
        DumpStep::Separate { .. } => {
            res.push(',');
        },
        DumpStep::Print { pieces, .. } => {
            proof {
                reveal_strlit("");
                assert(""@ =~= Seq::empty());
            }
            res = join(pieces, "");
        },
        DumpStep::Close => {
            res.push(']');
            res.push('\n');
        },
        _ => {},
    }
    assert(res@ =~= dump_step_text(step@));
    res
}

/// The outcome of a step when all goes well and the modules have the given pieces.
pub open spec fn dump_outcome(
    step: DumpStepView,
    modules: Seq<Seq<Seq<char>>>,
) -> DumpEventView {
    match step {
        DumpStepView::ResolveInput => DumpEventView::InputResolved,
        DumpStepView::OpenSource => DumpEventView::SourceOpened,
        DumpStepView::CollectModules => DumpEventView::ModulesCollected(Some(modules.len())),
        DumpStepView::Compile(index, count) => DumpEventView::Compiled(modules[index as int]),
        _ => DumpEventView::Printed,
    }
}

/// What a run has printed after its first `n` steps, and the step that it is at.
pub open spec fn dump_run(modules: Seq<Seq<Seq<char>>>, n: nat) -> (Seq<char>, DumpStepView)
    decreases n,
{
    if n == 0 {
        (Seq::empty(), DumpStepView::ResolveInput)
    } else {
        let (printed, step) = dump_run(modules, (n - 1) as nat);
        (printed + dump_step_text(step), next_dump_step(step, dump_outcome(step, modules)))
    }
}

/// The number of steps that are performed before the step at which the first `k`
/// modules are printed and the next thing is due.
pub open spec fn steps_before_module(k: nat) -> nat {
    if k == 0 {
        4
    } else {
        (3 * k + 3) as nat
    }
}

/// The number of steps of a run that prints `count` modules.
pub open spec fn steps_of_dump(count: nat) -> nat {
    steps_before_module(count) + 1
}

/// The texts of modules, from their pieces.
pub open spec fn piece_texts(modules: Seq<Seq<Seq<char>>>) -> Seq<Seq<char>> {
    Seq::new(modules.len(), |i: int| concatenated(modules[i]))
}

/// The texts of modules as one JSON array, and a line break.
pub open spec fn array_text(modules: Seq<Seq<Seq<char>>>) -> Seq<char> {
    seq!['['] + joined(piece_texts(modules), seq![',']) + seq![']', '\n']
}

proof fn lemma_dump_run_modules(modules: Seq<Seq<Seq<char>>>, k: nat)
    requires
        k <= modules.len(),
    ensures
        dump_run(modules, steps_before_module(k)) == (
            seq!['['] + joined(piece_texts(modules).take(k as int), seq![',']),
            module_step(k, modules.len()),
        ),
    decreases k,
{
    reveal_with_fuel(dump_run, 6);
    let jsons = piece_texts(modules);
    if k == 0 {
        assert(dump_run(modules, 4).0 =~= seq!['['] + joined(jsons.take(0), seq![',']));
    } else {
        let before = (k - 1) as nat;
        lemma_dump_run_modules(modules, before);
        assert(jsons.take(k as int).drop_last() =~= jsons.take(before as int));
        assert(jsons[before as int] == concatenated(modules[before as int]));
        assert(dump_run(modules, steps_before_module(k)).0 =~= seq!['['] + joined(
            jsons.take(k as int),
            seq![','],
        ));
    }
}

/// A run that prints modules prints one JSON array: the texts of the modules in
/// order, with commas between them, in brackets, and a line break. It then ends
/// without naming a file.
pub proof fn law_dump_prints_one_array(modules: Seq<Seq<Seq<char>>>)
    ensures
        dump_run(modules, steps_of_dump(modules.len())) == (
            array_text(modules),
            DumpStepView::Finished(Some(Seq::empty())),
        ),
{
    lemma_dump_run_modules(modules, modules.len());
    assert(piece_texts(modules).take(modules.len() as int) =~= piece_texts(modules));
}

proof fn lemma_dump_only_grows(modules: Seq<Seq<Seq<char>>>, a: nat, b: nat)
    requires
        a <= b,
    ensures
        dump_run(modules, a).0.is_prefix_of(dump_run(modules, b).0),
    decreases b,
{
    let early = dump_run(modules, a).0;
    let late = dump_run(modules, b).0;
    if a < b {
        lemma_dump_only_grows(modules, a, (b - 1) as nat);
        let middle = dump_run(modules, (b - 1) as nat).0;
        assert forall|i: int| 0 <= i < early.len() implies early[i] == late[i] by {
            assert(middle.subrange(0, early.len() as int)[i] == early[i]);
        }
    }
    assert(early =~= late.subrange(0, early.len() as int));
}

proof fn lemma_dump_stays_finished(modules: Seq<Seq<Seq<char>>>, n: nat)
    requires
        n >= steps_of_dump(modules.len()),
    ensures
        dump_run(modules, n).1 is Finished,
    decreases n,
{
    if n == steps_of_dump(modules.len()) {
        law_dump_prints_one_array(modules);
    } else {
        lemma_dump_stays_finished(modules, (n - 1) as nat);
    }
}

/// What a run has printed after its first `n` steps, and the step that it is at,
/// where the step with the number `bad` cannot be performed.
pub open spec fn failing_dump_run(modules: Seq<Seq<Seq<char>>>, bad: nat, n: nat) -> (
    Seq<char>,
    DumpStepView,
)
    decreases n,
{
    if n == 0 {
        (Seq::empty(), DumpStepView::ResolveInput)
    } else {
        let (printed, step) = failing_dump_run(modules, bad, (n - 1) as nat);
        if n == bad + 1 {
            (printed, next_dump_step(step, DumpEventView::Failed))
        } else {
            (printed + dump_step_text(step), next_dump_step(step, dump_outcome(step, modules)))
        }
    }
}

proof fn lemma_failing_run_before(modules: Seq<Seq<Seq<char>>>, bad: nat, n: nat)
    requires
        n <= bad,
    ensures
        failing_dump_run(modules, bad, n) == dump_run(modules, n),
    decreases n,
{
    if n > 0 {
        lemma_failing_run_before(modules, bad, (n - 1) as nat);
    }
}

/// A source that cannot be resolved or opened, and output that cannot be written,
/// stop a run at once. It stays stopped and prints nothing more, and what it printed
/// before is the beginning of what it would have printed.
pub proof fn law_failed_dump_stops(modules: Seq<Seq<Seq<char>>>, bad: nat, n: nat)
    requires
        dump_failure(dump_run(modules, bad).1) is Some,
        n > bad,
    ensures
        failing_dump_run(modules, bad, n) == (
            dump_run(modules, bad).0,
            DumpStepView::Failed(dump_failure(dump_run(modules, bad).1)->0),
        ),
        dump_run(modules, bad).0.is_prefix_of(array_text(modules)),
    decreases n,
{
    if bad >= steps_of_dump(modules.len()) {
        lemma_dump_stays_finished(modules, bad);
    } else {
        lemma_dump_only_grows(modules, bad, steps_of_dump(modules.len()));
        law_dump_prints_one_array(modules);
    }
    lemma_failing_run_before(modules, bad, bad);
    if n > bad + 1 {
        law_failed_dump_stops(modules, bad, (n - 1) as nat);
        let before = failing_dump_run(modules, bad, (n - 1) as nat);
        assert(before.0 + dump_step_text(before.1) =~= before.0);
    }
}

/// A run whose source cannot be resolved or opened has printed nothing.
pub proof fn law_dump_without_source_prints_nothing(modules: Seq<Seq<Seq<char>>>)
    ensures
        dump_run(modules, 0) == (Seq::<char>::empty(), DumpStepView::ResolveInput),
        dump_run(modules, 1) == (Seq::<char>::empty(), DumpStepView::OpenSource),
        dump_failure(DumpStepView::ResolveInput) == Some(Failure::Input),
        dump_failure(DumpStepView::OpenSource) == Some(Failure::Source),
{
    reveal_with_fuel(dump_run, 2);
    assert(Seq::<char>::empty() + Seq::<char>::empty() =~= Seq::<char>::empty());
}

/// A source whose modules cannot be read prints nothing and ends the run.
pub proof fn law_dump_fails_without_modules(modules: Seq<Seq<Seq<char>>>)
    ensures
        dump_run(modules, 2) == (Seq::<char>::empty(), DumpStepView::CollectModules),
        next_dump_step(DumpStepView::CollectModules, DumpEventView::ModulesCollected(None))
            == DumpStepView::Finished(None),
        dump_step_text(DumpStepView::CollectModules).len() == 0,
{
    reveal_with_fuel(dump_run, 3);
    assert(dump_run(modules, 2).0 =~= Seq::<char>::empty());
}

/// Resolving and opening the source can fail, and so can every step that prints,
/// whichever module it is at; nothing else can.
pub proof fn law_what_can_fail_in_a_dump(step: DumpStepView)
    ensures
        step is ResolveInput ==> dump_failure(step) == Some(Failure::Input),
        step is OpenSource ==> dump_failure(step) == Some(Failure::Source),
        step is Open || step is Separate || step is Print || step is Close ==> dump_failure(step)
            == Some(Failure::Printing),
        step is CollectModules || step is Compile || step is Finished || step is Failed
            ==> dump_failure(step) is None,
{
}

/// Every module is printed once and at its place: its text stands behind the opening
/// bracket and all the modules in front of it, each with its comma.
pub proof fn law_every_module_is_printed(modules: Seq<Seq<Seq<char>>>, k: nat)
    requires
        k < modules.len(),
    ensures
        dump_run(modules, steps_before_module(k + 1)).0 == dump_run(
            modules,
            steps_before_module(k),
        ).0 + (if k == 0 {
            Seq::empty()
        } else {
            seq![',']
        }) + concatenated(modules[k as int]),
{
    lemma_dump_run_modules(modules, k);
    lemma_dump_run_modules(modules, k + 1);
    let jsons = piece_texts(modules);
    assert(jsons.take(k as int + 1).drop_last() =~= jsons.take(k as int));
    assert(jsons.take(k as int + 1).last() == concatenated(modules[k as int]));
    assert(dump_run(modules, steps_before_module(k + 1)).0 =~= dump_run(
        modules,
        steps_before_module(k),
    ).0 + (if k == 0 {
        Seq::empty()
    } else {
        seq![',']
    }) + concatenated(modules[k as int]));
}

/// A step and its outcome are read as they are: counts by their values, and strings by
/// what they hold.
pub proof fn law_dump_is_read_as_it_is(step: DumpStep, event: DumpEvent)
    ensures
        step matches DumpStep::Open { count } ==> step@ == DumpStepView::Open(count as nat),
        step matches DumpStep::Separate { index, count } ==> step@ == DumpStepView::Separate(
            index as nat,
            count as nat,
        ),
        step matches DumpStep::Compile { index, count } ==> step@ == DumpStepView::Compile(
            index as nat,
            count as nat,
        ),
        step matches DumpStep::Print { index, count, pieces } ==> step@ == DumpStepView::Print(
            index as nat,
            count as nat,
            Seq::new(pieces@.len(), |i: int| pieces@[i]@),
        ),
        step is CollectModules <==> step@ is CollectModules,
        step is Close <==> step@ is Close,
        step is Finished <==> step@ is Finished,
        step matches DumpStep::Failed { failure } ==> step@ == DumpStepView::Failed(failure),
        event matches DumpEvent::ModulesCollected { count: Some(count) } ==> event@
            == DumpEventView::ModulesCollected(Some(count as nat)),
        event matches DumpEvent::ModulesCollected { count: None } ==> event@
            == DumpEventView::ModulesCollected(None),
        event matches DumpEvent::Compiled { pieces } ==> event@ == DumpEventView::Compiled(
            Seq::new(pieces@.len(), |i: int| pieces@[i]@),
        ),
        event is Printed <==> event@ is Printed,
        event is Failed <==> event@ is Failed,
{
    if let DumpStep::Print { pieces, .. } = step {
        assert(texts(pieces@) =~= Seq::new(pieces@.len(), |i: int| pieces@[i]@));
    }
    if let DumpEvent::Compiled { pieces } = event {
        assert(texts(pieces@) =~= Seq::new(pieces@.len(), |i: int| pieces@[i]@));
    }
}

} // verus!
