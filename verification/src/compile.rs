//! Compilation: what is done next.
//!
//! Reading files, generating code, linking and printing are done outside. A run is
//! described by the step that is to be performed; the outcome of the step decides
//! which one comes next.

use vstd::prelude::*;

use crate::failure::Failure;
use crate::options::{CompilationDestination, CompilationTermination, Opts};
use crate::paths::{file_name, join_path};
#[allow(unused_imports)]
use crate::paths::{has_no_last_part, is_joined, is_last_part, is_relative, is_verbatim, opt_text};

verus! {

/// A step of a compilation. Each step but the last knows the file that the
/// library goes into, once that is settled.
#[derive(Debug)]
pub enum CompileStep {
    /// Resolve the path of the source.
    ResolveInput,
    /// Open the source.
    OpenSource,
    /// Find out what the file in the cache is called.
    NameArtifact,
    /// Find out whether the file exists.
    LookUp { lib_file: String },
    /// Create the cache directory.
    CreateCacheDir { lib_file: String },
    /// Read the modules of the source.
    CollectModules { lib_file: String },
    /// Set up code generation.
    CreateBackend { lib_file: String },
    /// Write the object files.
    EmitObjects { lib_file: String },
    /// Print the intermediate representation.
    PrintReport { lib_file: String, objects: Vec<String> },
    /// Link these object files, in this order.
    Link { lib_file: String, objects: Vec<String> },
    /// Delete the object file with this number.
    RemoveObject { lib_file: String, objects: Vec<String>, index: usize },
    /// Tell the user that all is done.
    Announce { lib_file: String },
    /// Nothing is left to do.
    Finished { termination: CompilationTermination },
    /// The run stops, as something could not be done.
    Failed { failure: Failure },
}

/// The outcome of a step of a compilation.
#[derive(Debug)]
pub enum CompileEvent {
    InputResolved,
    SourceOpened,
    /// The name of the file in the cache.
    Named { name: String },
    /// Whether the file exists.
    LookedUp { exists: bool },
    CacheDirCreated,
    /// Whether the modules could be read.
    ModulesCollected { found: bool },
    BackendCreated,
    /// The object files that were written.
    ObjectsEmitted { objects: Vec<String> },
    ReportPrinted,
    Linked,
    ObjectRemoved,
    Announced,
    /// The step could not be performed.
    Failed,
}

/// The first step of a compilation whose source is open.
pub open spec fn opened_step(opts: Opts) -> CompileStep {
    match opts.output {
        CompilationDestination::Cache { cache_dir } => CompileStep::NameArtifact,
        CompilationDestination::Path { lib_file } => CompileStep::CollectModules { lib_file },
    }
}

/// The step at which the object files in front of `index` are deleted.
pub open spec fn removal_step(lib_file: String, objects: Vec<String>, index: int) -> CompileStep {
    if index < objects@.len() {
        CompileStep::RemoveObject { lib_file, objects, index: index as usize }
    } else {
        CompileStep::Announce { lib_file }
    }
}

/// The step behind one that knows the file, with what the options ask for. An
/// outcome that does not belong to the step changes nothing.
pub open spec fn following_step(opts: Opts, step: CompileStep, event: CompileEvent) -> CompileStep {
    match (step, event) {
        (CompileStep::ResolveInput, CompileEvent::InputResolved) => CompileStep::OpenSource,
        (CompileStep::OpenSource, CompileEvent::SourceOpened) => opened_step(opts),
        (CompileStep::LookUp { lib_file }, CompileEvent::LookedUp { exists }) => if exists {
            CompileStep::Finished { termination: CompilationTermination::Compiled { lib_file } }
        } else {
            CompileStep::CreateCacheDir { lib_file }
        },
        (
            CompileStep::CreateCacheDir { lib_file },
            CompileEvent::CacheDirCreated,
        ) => CompileStep::CollectModules { lib_file },
        (
            CompileStep::CollectModules { lib_file },
            CompileEvent::ModulesCollected { found },
        ) => if found {
            CompileStep::CreateBackend { lib_file }
        } else {
            CompileStep::Finished { termination: CompilationTermination::FatalDiagnostic }
        },
        (CompileStep::CreateBackend { lib_file }, CompileEvent::BackendCreated) => if opts.dry_run {
            CompileStep::Finished { termination: CompilationTermination::Compiled { lib_file } }
        } else {
            CompileStep::EmitObjects { lib_file }
        },
        (
            CompileStep::EmitObjects { lib_file },
            CompileEvent::ObjectsEmitted { objects },
        ) => if opts.dump_mir || opts.dump_unopt_mir {
            CompileStep::PrintReport { lib_file, objects }
        } else {
            CompileStep::Link { lib_file, objects }
        },
        (
            CompileStep::PrintReport { lib_file, objects },
            CompileEvent::ReportPrinted,
        ) => CompileStep::Link { lib_file, objects },
        (CompileStep::Link { lib_file, objects }, CompileEvent::Linked) => removal_step(
            lib_file,
            objects,
            0,
        ),
        (
            CompileStep::RemoveObject { lib_file, objects, index },
            CompileEvent::ObjectRemoved,
        ) => removal_step(lib_file, objects, index + 1),
        (CompileStep::Announce { lib_file }, CompileEvent::Announced) => CompileStep::Finished {
            termination: CompilationTermination::Compiled { lib_file },
        },
        (CompileStep::ResolveInput, CompileEvent::Failed) => CompileStep::Failed {
            failure: Failure::Input,
        },
        (CompileStep::OpenSource, CompileEvent::Failed) => CompileStep::Failed {
            failure: Failure::Source,
        },
        (CompileStep::CreateCacheDir { lib_file }, CompileEvent::Failed) => CompileStep::Failed {
            failure: Failure::CacheDir,
        },
        (CompileStep::Link { lib_file, objects }, CompileEvent::Failed) => CompileStep::Failed {
            failure: Failure::Linking,
        },
        (
            CompileStep::RemoveObject { lib_file, objects, index },
            CompileEvent::Failed,
        ) => CompileStep::Failed { failure: Failure::Removal },
        (CompileStep::Announce { lib_file }, CompileEvent::Failed) => CompileStep::Failed {
            failure: Failure::Announcement,
        },
        _ => step,
    }
}

/// `next` is the step behind `step`. The file in the cache is looked up only
/// where files that exist may be used again.
pub open spec fn is_next_step(
    opts: Opts,
    reuse_cached: bool,
    step: CompileStep,
    event: CompileEvent,
    next: CompileStep,
) -> bool {
    match (step, event, opts.output) {
        (
            CompileStep::NameArtifact,
            CompileEvent::Named { name },
            CompilationDestination::Cache { cache_dir },
        ) => {
            let proper = !is_verbatim(cache_dir@) && is_relative(name@);
            if reuse_cached {
                next matches CompileStep::LookUp { lib_file } && (proper ==> is_joined(
                    cache_dir@,
                    name@,
                    lib_file@,
                ))
            } else {
                next matches CompileStep::CreateCacheDir { lib_file } && (proper ==> is_joined(
                    cache_dir@,
                    name@,
                    lib_file@,
                ))
            }
        },
        _ => next == following_step(opts, step, event),
    }
}

/// Returns the first step of a compilation.
pub fn compile_first() -> (res: CompileStep)
    ensures
        res == CompileStep::ResolveInput,
{
    CompileStep::ResolveInput
}

/// Returns the first step of a compilation whose source is open.
fn after_opening(opts: &Opts) -> (res: CompileStep)
    ensures
        res == opened_step(*opts),
{
    match &opts.output {
        CompilationDestination::Cache { .. } => CompileStep::NameArtifact,
        CompilationDestination::Path { lib_file } => CompileStep::CollectModules {
            lib_file: lib_file.clone(),
        },
    }
}

/// Returns the step behind the naming of the file in the cache, from the path of that file.
pub fn after_naming(lib_file: String, reuse_cached: bool) -> (res: CompileStep)
    ensures
        res == if reuse_cached {
            CompileStep::LookUp { lib_file }
        } else {
            CompileStep::CreateCacheDir { lib_file }
        },
{
    if reuse_cached {
        CompileStep::LookUp { lib_file }
    } else {
        CompileStep::CreateCacheDir { lib_file }
    }
}

/// Returns the step at which the object files in front of `index` are deleted.
fn remove_from(lib_file: String, objects: Vec<String>, index: usize) -> (res: CompileStep)
    ensures
        res == removal_step(lib_file, objects, index as int),
{
    if index < objects.len() {
        CompileStep::RemoveObject { lib_file, objects, index }
    } else {
        CompileStep::Announce { lib_file }
    }
}

/// Returns the step behind one that knows the file.
fn follow(opts: &Opts, step: CompileStep, event: CompileEvent) -> (res: CompileStep)
    ensures
        res == following_step(*opts, step, event),
{
    match (step, event) {
        (CompileStep::ResolveInput, CompileEvent::InputResolved) => CompileStep::OpenSource,
        (CompileStep::OpenSource, CompileEvent::SourceOpened) => after_opening(opts),
        (CompileStep::LookUp { lib_file }, CompileEvent::LookedUp { exists }) => {
            if exists {
                CompileStep::Finished {
                    termination: CompilationTermination::Compiled { lib_file },
                }
            } else {
                CompileStep::CreateCacheDir { lib_file }
            }
        },
        (CompileStep::CreateCacheDir { lib_file }, CompileEvent::CacheDirCreated) => {
            CompileStep::CollectModules { lib_file }
        },
        (CompileStep::CollectModules { lib_file }, CompileEvent::ModulesCollected { found }) => {
            if found {
                CompileStep::CreateBackend { lib_file }
            } else {
                CompileStep::Finished { termination: CompilationTermination::FatalDiagnostic }
            }
        },
        (CompileStep::CreateBackend { lib_file }, CompileEvent::BackendCreated) => {
            if opts.dry_run {
                CompileStep::Finished {
                    termination: CompilationTermination::Compiled { lib_file },
                }
            } else {
                CompileStep::EmitObjects { lib_file }
            }
        },
        (CompileStep::EmitObjects { lib_file }, CompileEvent::ObjectsEmitted { objects }) => {
            if opts.dump_mir || opts.dump_unopt_mir {
                CompileStep::PrintReport { lib_file, objects }
            } else {
                CompileStep::Link { lib_file, objects }
            }
        },
        (CompileStep::PrintReport { lib_file, objects }, CompileEvent::ReportPrinted) => {
            CompileStep::Link { lib_file, objects }
        },
        (CompileStep::Link { lib_file, objects }, CompileEvent::Linked) => {
            remove_from(lib_file, objects, 0)
        },
        (CompileStep::RemoveObject { lib_file, objects, index }, CompileEvent::ObjectRemoved) => {
            if index < objects.len() {
                remove_from(lib_file, objects, index + 1)
            } else {
                CompileStep::Announce { lib_file }
            }
        },
        (CompileStep::Announce { lib_file }, CompileEvent::Announced) => {
            CompileStep::Finished { termination: CompilationTermination::Compiled { lib_file } }
        },
        (CompileStep::ResolveInput, CompileEvent::Failed) => {
            CompileStep::Failed { failure: Failure::Input }
        },
        (CompileStep::OpenSource, CompileEvent::Failed) => {
            CompileStep::Failed { failure: Failure::Source }
        },
        (CompileStep::CreateCacheDir { .. }, CompileEvent::Failed) => {
            CompileStep::Failed { failure: Failure::CacheDir }
        },
        (CompileStep::Link { .. }, CompileEvent::Failed) => {
            CompileStep::Failed { failure: Failure::Linking }
        },
        (CompileStep::RemoveObject { .. }, CompileEvent::Failed) => {
            CompileStep::Failed { failure: Failure::Removal }
        },
        (CompileStep::Announce { .. }, CompileEvent::Failed) => {
            CompileStep::Failed { failure: Failure::Announcement }
        },
        (step, _) => step,
    }
}

/// Returns the step of a compilation behind `step`, from its outcome.
pub fn compile_next(
    opts: &Opts,
    reuse_cached: bool,
    step: CompileStep,
    event: CompileEvent,
) -> (res: CompileStep)
    ensures
        is_next_step(*opts, reuse_cached, step, event, res),
{
    if let CompilationDestination::Cache { cache_dir } = &opts.output {
        if let CompileStep::NameArtifact = step {
            if let CompileEvent::Named { name } = &event {
                let lib_file = join_path(cache_dir.as_str(), name.as_str());
                return after_naming(lib_file, reuse_cached);
            }
        }
    }
    follow(opts, step, event)
}

/// A compilation: the steps that it went through, and the outcome of each but the last.
pub open spec fn is_compilation(
    opts: Opts,
    reuse_cached: bool,
    steps: Seq<CompileStep>,
    events: Seq<CompileEvent>,
) -> bool {
    &&& steps.len() == events.len() + 1
    &&& steps[0] == CompileStep::ResolveInput
    &&& forall|i: int|
        0 <= i < events.len() ==> is_next_step(
            opts,
            reuse_cached,
            steps[i],
            #[trigger] events[i],
            steps[i + 1],
        )
}

/// A step in which files are written or removed, or the user is told that they were.
pub open spec fn leaves_traces(step: CompileStep) -> bool {
    step is EmitObjects || step is PrintReport || step is Link || step is RemoveObject
        || step is Announce
}

/// The file that the library goes into, where that is settled.
pub open spec fn settled_file(step: CompileStep) -> Option<String> {
    match step {
        CompileStep::ResolveInput => None,
        CompileStep::OpenSource => None,
        CompileStep::NameArtifact => None,
        CompileStep::LookUp { lib_file } => Some(lib_file),
        CompileStep::CreateCacheDir { lib_file } => Some(lib_file),
        CompileStep::CollectModules { lib_file } => Some(lib_file),
        CompileStep::CreateBackend { lib_file } => Some(lib_file),
        CompileStep::EmitObjects { lib_file } => Some(lib_file),
        CompileStep::PrintReport { lib_file, .. } => Some(lib_file),
        CompileStep::Link { lib_file, .. } => Some(lib_file),
        CompileStep::RemoveObject { lib_file, .. } => Some(lib_file),
        CompileStep::Announce { lib_file } => Some(lib_file),
        CompileStep::Finished { termination } => match termination {
            CompilationTermination::Compiled { lib_file } => Some(lib_file),
            CompilationTermination::FatalDiagnostic => None,
        },
        CompileStep::Failed { .. } => None,
    }
}

/// A dry run generates no code, prints no report, links nothing and removes nothing.
pub proof fn law_dry_run_leaves_no_traces(
    opts: Opts,
    reuse_cached: bool,
    steps: Seq<CompileStep>,
    events: Seq<CompileEvent>,
    i: int,
)
    requires
        is_compilation(opts, reuse_cached, steps, events),
        opts.dry_run,
        0 <= i < steps.len(),
    ensures
        !leaves_traces(steps[i]),
    decreases i,
{
    if i > 0 {
        law_dry_run_leaves_no_traces(opts, reuse_cached, steps, events, i - 1);
        assert(is_next_step(opts, reuse_cached, steps[i - 1], events[i - 1], steps[i]));
    }
}

/// Whether the library is in the cache already is asked only where it goes into
/// the cache and files that exist may be used again.
pub proof fn law_cache_is_looked_up_only_for_reuse(
    opts: Opts,
    reuse_cached: bool,
    steps: Seq<CompileStep>,
    events: Seq<CompileEvent>,
    i: int,
)
    requires
        is_compilation(opts, reuse_cached, steps, events),
        0 <= i < steps.len(),
        steps[i] is LookUp,
    ensures
        reuse_cached,
        opts.output is Cache,
    decreases i,
{
    if i > 0 {
        assert(is_next_step(opts, reuse_cached, steps[i - 1], events[i - 1], steps[i]));
        if steps[i - 1] is LookUp {
            law_cache_is_looked_up_only_for_reuse(opts, reuse_cached, steps, events, i - 1);
        }
    }
}

/// A library that is found in the cache ends the run, and so do modules that
/// cannot be read; nothing is compiled in either case. A source that cannot be
/// resolved or opened, a directory that cannot be created, a link that fails and an
/// object file that cannot be deleted stop it, and it stays stopped.
pub proof fn law_run_ends_early(
    opts: Opts,
    reuse_cached: bool,
    step: CompileStep,
    event: CompileEvent,
    next: CompileStep,
)
    requires
        is_next_step(opts, reuse_cached, step, event, next),
    ensures
        step matches CompileStep::LookUp { lib_file } ==> (event == (CompileEvent::LookedUp {
            exists: true,
        }) ==> next == (CompileStep::Finished {
            termination: CompilationTermination::Compiled { lib_file },
        })),
        step is CollectModules && event == (CompileEvent::ModulesCollected { found: false })
            ==> next == (CompileStep::Finished {
            termination: CompilationTermination::FatalDiagnostic,
        }),
        step is ResolveInput && event is Failed ==> next == (CompileStep::Failed {
            failure: Failure::Input,
        }),
        step is OpenSource && event is Failed ==> next == (CompileStep::Failed {
            failure: Failure::Source,
        }),
        step is CreateCacheDir && event is Failed ==> next == (CompileStep::Failed {
            failure: Failure::CacheDir,
        }),
        step is Link && event is Failed ==> next == (CompileStep::Failed {
            failure: Failure::Linking,
        }),
        step is RemoveObject && event is Failed ==> next == (CompileStep::Failed {
            failure: Failure::Removal,
        }),
        step is Finished || step is Failed ==> next == step,
{
}

/// Once it is settled which file the library goes into, that file is used to the
/// end and is the one that is reported, unless the modules cannot be read or
/// something cannot be done.
pub proof fn law_file_is_kept(
    opts: Opts,
    reuse_cached: bool,
    steps: Seq<CompileStep>,
    events: Seq<CompileEvent>,
    i: int,
    j: int,
)
    requires
        is_compilation(opts, reuse_cached, steps, events),
        0 <= i <= j < steps.len(),
        settled_file(steps[i]) is Some,
    ensures
        settled_file(steps[j]) == settled_file(steps[i]) || steps[j] == (CompileStep::Finished {
            termination: CompilationTermination::FatalDiagnostic,
        }) || steps[j] is Failed,
    decreases j - i,
{
    if i < j {
        law_file_is_kept(opts, reuse_cached, steps, events, i, j - 1);
        assert(is_next_step(opts, reuse_cached, steps[j - 1], events[j - 1], steps[j]));
    }
}

/// The lists of object files that were written in the first `n` steps of a run.
pub open spec fn emitted(
    steps: Seq<CompileStep>,
    events: Seq<CompileEvent>,
    n: int,
) -> Seq<Seq<String>>
    decreases n,
{
    if n <= 0 {
        Seq::empty()
    } else {
        let before = emitted(steps, events, n - 1);
        match (steps[n - 1], events[n - 1]) {
            (
                CompileStep::EmitObjects { .. },
                CompileEvent::ObjectsEmitted { objects },
            ) => before.push(objects@),
            _ => before,
        }
    }
}

/// The lists of object files that were linked in the first `n` steps of a run.
pub open spec fn linked(
    steps: Seq<CompileStep>,
    events: Seq<CompileEvent>,
    n: int,
) -> Seq<Seq<String>>
    decreases n,
{
    if n <= 0 {
        Seq::empty()
    } else {
        let before = linked(steps, events, n - 1);
        match (steps[n - 1], events[n - 1]) {
            (CompileStep::Link { objects, .. }, CompileEvent::Linked) => before.push(objects@),
            _ => before,
        }
    }
}

/// The object files that were deleted in the first `n` steps of a run, in order.
pub open spec fn removed(
    steps: Seq<CompileStep>,
    events: Seq<CompileEvent>,
    n: int,
) -> Seq<String>
    decreases n,
{
    if n <= 0 {
        Seq::empty()
    } else {
        let before = removed(steps, events, n - 1);
        match (steps[n - 1], events[n - 1]) {
            (
                CompileStep::RemoveObject { objects, index, .. },
                CompileEvent::ObjectRemoved,
            ) => before.push(objects@[index as int]),
            _ => before,
        }
    }
}

/// What has become of the object files when the run is at a step.
pub open spec fn objects_so_far(
    step: CompileStep,
    written: Seq<Seq<String>>,
    linked: Seq<Seq<String>>,
    removed: Seq<String>,
) -> bool {
    match step {
        CompileStep::PrintReport { objects, .. } => written == seq![objects@] && linked.len() == 0
            && removed.len() == 0,
        CompileStep::Link { objects, .. } => written == seq![objects@] && linked.len() == 0
            && removed.len() == 0,
        CompileStep::RemoveObject { objects, index, .. } => index < objects@.len() && written
            == seq![objects@] && linked == written && removed == objects@.take(index as int),
        CompileStep::Announce { .. } => written.len() == 1 && linked == written && removed
            == written[0],
        CompileStep::Finished { .. } | CompileStep::Failed { .. } => true,
        _ => written.len() == 0 && linked.len() == 0 && removed.len() == 0,
    }
}

/// At every step, nothing is linked before object files are written, and nothing
/// is deleted before it is linked. Object files are deleted one by one in the order
/// in which they were written, and what is left is still in the list.
pub proof fn law_objects_are_linked_before_removal(
    opts: Opts,
    reuse_cached: bool,
    steps: Seq<CompileStep>,
    events: Seq<CompileEvent>,
    n: int,
)
    requires
        is_compilation(opts, reuse_cached, steps, events),
        0 <= n < steps.len(),
    ensures
        objects_so_far(
            steps[n],
            emitted(steps, events, n),
            linked(steps, events, n),
            removed(steps, events, n),
        ),
    decreases n,
{
    if n > 0 {
        law_objects_are_linked_before_removal(opts, reuse_cached, steps, events, n - 1);
        let step = steps[n - 1];
        let event = events[n - 1];
        assert(is_next_step(opts, reuse_cached, step, event, steps[n]));
        if let CompileStep::RemoveObject { objects, index, .. } = step {
            if event is ObjectRemoved {
                assert(objects.len() == objects@.len());
                assert(removed(steps, events, n) =~= objects@.take(index + 1));
                assert(objects@.take(objects@.len() as int) =~= objects@);
            }
        }
        if let (CompileStep::Link { objects, .. }, CompileEvent::Linked) = (step, event) {
            assert(linked(steps, events, n) =~= seq![objects@]);
            assert(seq![objects@][0] == objects@);
            assert(removed(steps, events, n) =~= objects@.take(0));
            assert(objects@.len() == 0 ==> objects@ =~= objects@.take(0));
        }
        if let CompileEvent::ObjectsEmitted { objects } = event {
            if step is EmitObjects {
                assert(emitted(steps, events, n) =~= seq![objects@]);
            }
        }
    }
}

/// A run that tells the user that all is done has written object files once, has
/// linked them once, each of them and in their order, and has then deleted each of
/// them once, so that none is left.
pub proof fn law_full_build_leaves_no_objects(
    opts: Opts,
    reuse_cached: bool,
    steps: Seq<CompileStep>,
    events: Seq<CompileEvent>,
    i: int,
    n: int,
)
    requires
        is_compilation(opts, reuse_cached, steps, events),
        0 <= i <= n < steps.len(),
        steps[i] is Announce,
    ensures
        emitted(steps, events, n).len() == 1,
        linked(steps, events, n) == emitted(steps, events, n),
        removed(steps, events, n) == emitted(steps, events, n)[0],
        steps[n] is Announce || steps[n] is Finished || steps[n] is Failed,
    decreases n,
{
    if i == n {
        law_objects_are_linked_before_removal(opts, reuse_cached, steps, events, n);
    } else {
        law_full_build_leaves_no_objects(opts, reuse_cached, steps, events, i, n - 1);
        assert(is_next_step(opts, reuse_cached, steps[n - 1], events[n - 1], steps[n]));
    }
}

/// The report is printed only where the options ask for it.
pub proof fn law_report_is_asked_for(
    opts: Opts,
    reuse_cached: bool,
    steps: Seq<CompileStep>,
    events: Seq<CompileEvent>,
    i: int,
)
    requires
        is_compilation(opts, reuse_cached, steps, events),
        0 <= i < steps.len(),
        steps[i] is PrintReport,
    ensures
        opts.dump_mir || opts.dump_unopt_mir,
    decreases i,
{
    if i > 0 {
        assert(is_next_step(opts, reuse_cached, steps[i - 1], events[i - 1], steps[i]));
        if steps[i - 1] is PrintReport {
            law_report_is_asked_for(opts, reuse_cached, steps, events, i - 1);
        }
    }
}

/// What a run has done.
#[derive(Clone, Copy, Debug)]
pub enum Deed {
    Preprocessing,
    Building,
}

/// The word for what a run has done.
pub open spec fn deed_text(deed: Deed) -> Seq<char> {
    match deed {
        Deed::Preprocessing => " preprocessing "@,
        Deed::Building => " building "@,
    }
}

/// What is told, behind the word `Finished`, when a run is done.
pub open spec fn finished_text(deed: Deed, file: Seq<char>, seconds: Seq<char>) -> Seq<char> {
    deed_text(deed) + file + " in "@ + seconds + "s\n"@
}

/// Returns what is told when a run is done: what was done to which file, and how
/// many seconds it took.
pub fn finished_line(deed: Deed, file: &str, seconds: &str) -> (res: String)
    ensures
        res@ == finished_text(deed, file@, seconds@),
{
    let mut res = match deed {
        Deed::Preprocessing => " preprocessing ".to_owned(),
        Deed::Building => " building ".to_owned(),
    };
    res.append(file);
    res.append(" in ");
    res.append(seconds);
    res.append("s\n");
    res
}

/// `res` is what is told of a run on the file with the given path: it names the
/// last part of the path, and there is nothing to tell where the path has none.
pub open spec fn tells_of(
    deed: Deed,
    input: Seq<char>,
    seconds: Seq<char>,
    res: Option<Seq<char>>,
) -> bool {
    &&& forall|name: Seq<char>| #[trigger]
        is_last_part(input, name) ==> res == Some(finished_text(deed, name, seconds))
    &&& has_no_last_part(input) ==> res is None
    &&& res matches Some(text) ==> exists|file: Seq<char>|
        text == #[trigger] finished_text(deed, file, seconds)
}

/// Returns what is told of a run on the file with the given path, or nothing
/// where the path does not end in the name of a file.
pub fn finish_message(deed: Deed, input: &str, seconds: &str) -> (res: Option<String>)
    ensures
        tells_of(deed, input@, seconds@, opt_text(res)),
{
    match file_name(input) {
        Some(file) => Some(finished_line(deed, file.as_str(), seconds)),
        None => None,
    }
}

/// A step is only ever reached from where it belongs. What lies in front of each step,
/// what came of it, and what the options say where the way forks, is fixed; the file
/// and the object files are those of the step in front.
pub proof fn law_steps_are_reached_in_order(
    opts: Opts,
    reuse_cached: bool,
    step: CompileStep,
    event: CompileEvent,
    next: CompileStep,
)
    requires
        is_next_step(opts, reuse_cached, step, event, next),
        next != step,
    ensures
        !(next is ResolveInput),
        next is OpenSource ==> step is ResolveInput && event is InputResolved,
        next is NameArtifact ==> step is OpenSource && event is SourceOpened && opts.output
            is Cache,
        next is LookUp ==> step is NameArtifact && event is Named && opts.output is Cache
            && reuse_cached,
        next matches CompileStep::CreateCacheDir { lib_file } ==> {
            ||| step is NameArtifact && event is Named && opts.output is Cache && !reuse_cached
            ||| step == (CompileStep::LookUp { lib_file }) && event == (CompileEvent::LookedUp {
                exists: false,
            })
        },
        next matches CompileStep::CollectModules { lib_file } ==> {
            ||| step is OpenSource && event is SourceOpened && opts.output == (
            CompilationDestination::Path { lib_file })
            ||| step == (CompileStep::CreateCacheDir { lib_file }) && event is CacheDirCreated
        },
        next matches CompileStep::CreateBackend { lib_file } ==> step
            == (CompileStep::CollectModules { lib_file }) && event == (
        CompileEvent::ModulesCollected { found: true }),
        next matches CompileStep::EmitObjects { lib_file } ==> step == (
        CompileStep::CreateBackend { lib_file }) && event is BackendCreated && !opts.dry_run,
        next matches CompileStep::PrintReport { lib_file, objects } ==> step == (
        CompileStep::EmitObjects { lib_file }) && event == (CompileEvent::ObjectsEmitted {
            objects,
        }) && (opts.dump_mir || opts.dump_unopt_mir),
        next matches CompileStep::Link { lib_file, objects } ==> {
            ||| step == (CompileStep::EmitObjects { lib_file }) && event == (
            CompileEvent::ObjectsEmitted { objects }) && !opts.dump_mir && !opts.dump_unopt_mir
            ||| step == (CompileStep::PrintReport { lib_file, objects }) && event is ReportPrinted
        },
        next matches CompileStep::RemoveObject { lib_file, objects, index } ==> index
            < objects@.len() && {
            ||| index == 0 && step == (CompileStep::Link { lib_file, objects }) && event is Linked
            ||| index > 0 && event is ObjectRemoved && step == (CompileStep::RemoveObject {
                lib_file,
                objects,
                index: (index - 1) as usize,
            })
        },
        next matches CompileStep::Announce { lib_file } ==> {
            ||| step matches CompileStep::Link { lib_file: file, objects } && file == lib_file
                && objects@.len() == 0 && event is Linked
            ||| step matches CompileStep::RemoveObject { lib_file: file, objects, index } && file
                == lib_file && index + 1 >= objects@.len() && event is ObjectRemoved
        },
        next matches CompileStep::Finished {
            termination: CompilationTermination::Compiled { lib_file },
        } ==> {
            ||| step == (CompileStep::LookUp { lib_file }) && event == (CompileEvent::LookedUp {
                exists: true,
            })
            ||| step == (CompileStep::CreateBackend { lib_file }) && event is BackendCreated
                && opts.dry_run
            ||| step == (CompileStep::Announce { lib_file }) && event is Announced
        },
        next == (CompileStep::Finished { termination: CompilationTermination::FatalDiagnostic })
            ==> step is CollectModules && event == (CompileEvent::ModulesCollected {
            found: false,
        }),
        next matches CompileStep::Failed { failure } ==> event is Failed && match failure {
            Failure::Input => step is ResolveInput,
            Failure::Source => step is OpenSource,
            Failure::CacheDir => step is CreateCacheDir,
            Failure::Linking => step is Link,
            Failure::Removal => step is RemoveObject,
            Failure::Announcement => step is Announce,
            Failure::Printing => false,
        },
{
    if let CompileStep::RemoveObject { objects, .. } = step {
        assert(objects.len() == objects@.len());
    }
    if let CompileStep::Link { objects, .. } = step {
        assert(objects.len() == objects@.len());
    }
}

/// An outcome that a step can have when it is performed.
pub open spec fn is_outcome_of(opts: Opts, step: CompileStep, event: CompileEvent) -> bool {
    match step {
        CompileStep::ResolveInput => event is InputResolved || event is Failed,
        CompileStep::OpenSource => event is SourceOpened || event is Failed,
        CompileStep::NameArtifact => event is Named && opts.output is Cache,
        CompileStep::LookUp { .. } => event is LookedUp,
        CompileStep::CreateCacheDir { .. } => event is CacheDirCreated || event is Failed,
        CompileStep::CollectModules { .. } => event is ModulesCollected,
        CompileStep::CreateBackend { .. } => event is BackendCreated,
        CompileStep::EmitObjects { .. } => event is ObjectsEmitted,
        CompileStep::PrintReport { .. } => event is ReportPrinted,
        CompileStep::Link { .. } => event is Linked || event is Failed,
        CompileStep::RemoveObject { objects, index, .. } => index < objects@.len() && (event
            is ObjectRemoved || event is Failed),
        CompileStep::Announce { .. } => event is Announced || event is Failed,
        CompileStep::Finished { .. } => false,
        CompileStep::Failed { .. } => false,
    }
}

/// A run never stays at a step that was performed, and it stops as failed if and only
/// if the step could not be performed.
pub proof fn law_runs_go_on(
    opts: Opts,
    reuse_cached: bool,
    step: CompileStep,
    event: CompileEvent,
    next: CompileStep,
)
    requires
        is_next_step(opts, reuse_cached, step, event, next),
        is_outcome_of(opts, step, event),
    ensures
        next != step,
        next is Failed <==> event is Failed,
{
    if let CompileStep::RemoveObject { objects, .. } = step {
        assert(objects.len() == objects@.len());
    }
}

/// Whatever the options, object files that were written are handed on as they are: to
/// the report where it is asked for, and else to the linker.
pub proof fn law_written_objects_are_handed_on(
    opts: Opts,
    reuse_cached: bool,
    lib_file: String,
    objects: Vec<String>,
    next: CompileStep,
)
    requires
        is_next_step(
            opts,
            reuse_cached,
            CompileStep::EmitObjects { lib_file },
            CompileEvent::ObjectsEmitted { objects },
            next,
        ),
    ensures
        opts.dump_mir || opts.dump_unopt_mir ==> next == (CompileStep::PrintReport {
            lib_file,
            objects,
        }),
        !opts.dump_mir && !opts.dump_unopt_mir ==> next == (CompileStep::Link {
            lib_file,
            objects,
        }),
{
}

/// A run that has written object files and ends without errors has linked them once,
/// all of them and in their order, has deleted each of them once, and has told the user
/// that all is done.
pub proof fn law_built_library_is_linked(
    opts: Opts,
    reuse_cached: bool,
    steps: Seq<CompileStep>,
    events: Seq<CompileEvent>,
    n: int,
)
    requires
        is_compilation(opts, reuse_cached, steps, events),
        0 <= n < steps.len(),
        steps[n] is Finished,
        steps[n]->termination is Compiled,
        emitted(steps, events, n).len() > 0,
    ensures
        emitted(steps, events, n).len() == 1,
        linked(steps, events, n) == emitted(steps, events, n),
        removed(steps, events, n) == emitted(steps, events, n)[0],
        exists|i: int| 0 <= i < n && #[trigger] steps[i] is Announce,
    decreases n,
{
    if n > 0 {
        let before = steps[n - 1];
        let event = events[n - 1];
        assert(is_next_step(opts, reuse_cached, before, event, steps[n]));
        law_objects_are_linked_before_removal(opts, reuse_cached, steps, events, n - 1);
        if before == steps[n] {
            law_built_library_is_linked(opts, reuse_cached, steps, events, n - 1);
            let i = choose|i: int| 0 <= i < n - 1 && #[trigger] steps[i] is Announce;
            assert(steps[i] is Announce);
        } else {
            law_steps_are_reached_in_order(opts, reuse_cached, before, event, steps[n]);
            assert(before is Announce);
        }
    }
}

/// The library goes into the file that the options name, or into one in the cache
/// directory: the directory, a separator where it does not end in one, and the name of
/// the file.
pub proof fn law_file_of_the_library(
    opts: Opts,
    reuse_cached: bool,
    name: String,
    next: CompileStep,
)
    requires
        opts.output is Cache,
        is_next_step(
            opts,
            reuse_cached,
            CompileStep::NameArtifact,
            CompileEvent::Named { name },
            next,
        ),
        is_relative(name@),
        !is_verbatim(opts.output->cache_dir@),
    ensures
        settled_file(next) is Some,
        ({
            let dir = opts.output->cache_dir@;
            let file = settled_file(next)->0@;
            &&& dir.len() == 0 || dir.last() == '/' ==> file == dir + name@
            &&& dir.len() > 0 && dir.last() != '/' && dir.last() != '\\' && dir.last() != ':'
                ==> file == dir + seq!['/'] + name@ || file == dir + seq!['\\'] + name@
        }),
{
    let dir = opts.output->cache_dir@;
    assert(dir.push('/') =~= dir + seq!['/']);
    assert(dir.push('\\') =~= dir + seq!['\\']);
}

/// What is told at the end of a run: what was done, to the file that the path of the
/// source ends in, and in how many seconds.
pub proof fn law_what_is_told(
    deed: Deed,
    input: Seq<char>,
    name: Seq<char>,
    seconds: Seq<char>,
    res: Option<Seq<char>>,
)
    requires
        tells_of(deed, input, seconds, res),
        is_last_part(input, name),
    ensures
        deed is Building ==> res == Some(" building "@ + name + " in "@ + seconds + "s\n"@),
        deed is Preprocessing ==> res == Some(
            " preprocessing "@ + name + " in "@ + seconds + "s\n"@,
        ),
{
}

/// Nothing is told where the path of the source has no last part.
pub proof fn law_nothing_is_told_without_a_name(
    deed: Deed,
    input: Seq<char>,
    seconds: Seq<char>,
    res: Option<Seq<char>>,
)
    requires
        tells_of(deed, input, seconds, res),
        has_no_last_part(input),
    ensures
        res is None,
{
}

/// What is told of a file is made of what was done, its name and the seconds.
pub proof fn law_finished_line(deed: Deed, file: Seq<char>, seconds: Seq<char>)
    ensures
        deed is Building ==> finished_text(deed, file, seconds) == " building "@ + file + " in "@
            + seconds + "s\n"@,
        deed is Preprocessing ==> finished_text(deed, file, seconds) == " preprocessing "@ + file
            + " in "@ + seconds + "s\n"@,
{
}

} // verus!
