use lasso::Rodeo;
use openvaf::compile::{
    after_naming, compile_first, compile_next, finish_message, finished_line, CompileEvent,
    CompileStep, Deed,
};
use openvaf::dump::{
    dump_first, dump_next, dump_output, split_opts, DumpEvent, DumpKind, DumpStep, SplitOpts,
};
use openvaf::expand::{
    expand_first, expand_message, expand_next, expand_outcome, expanded_source, ExpandEvent,
    ExpandStep, Token, TokenKind,
};
use openvaf::failure::{failure_context, resolve_context, Failure};
use openvaf::options::{CompilationDestination, CompilationTermination, Opts};
use openvaf::report::{report_plan, ReportStep, Stage};

fn options(output: CompilationDestination) -> Opts {
    Opts {
        dry_run: false,
        defines: vec![],
        codegen_opts: vec![],
        input: "models/diode.va".to_string(),
        output,
        target_cpu: "generic".to_string(),
        dump_mir: false,
        dump_unopt_mir: false,
        dump_ir: false,
        dump_unopt_ir: false,
        dump_unopt_json: false,
        dump_unopt_json_with_split: false,
    }
}

fn to_file() -> Opts {
    options(CompilationDestination::Path { lib_file: "diode.osdi".to_string() })
}

fn to_cache() -> Opts {
    options(CompilationDestination::Cache { cache_dir: "/tmp/cache".to_string() })
}

/// A word for a step and the file that it knows.
fn shown(step: &CompileStep) -> (&'static str, String) {
    match step {
        CompileStep::ResolveInput => ("resolve", String::new()),
        CompileStep::OpenSource => ("open", String::new()),
        CompileStep::NameArtifact => ("name", String::new()),
        CompileStep::LookUp { lib_file } => ("look up", lib_file.clone()),
        CompileStep::CreateCacheDir { lib_file } => ("create dir", lib_file.clone()),
        CompileStep::CollectModules { lib_file } => ("collect", lib_file.clone()),
        CompileStep::CreateBackend { lib_file } => ("backend", lib_file.clone()),
        CompileStep::EmitObjects { lib_file } => ("emit", lib_file.clone()),
        CompileStep::PrintReport { lib_file, .. } => ("report", lib_file.clone()),
        CompileStep::Link { lib_file, .. } => ("link", lib_file.clone()),
        CompileStep::RemoveObject { lib_file, .. } => ("remove", lib_file.clone()),
        CompileStep::Announce { lib_file } => ("announce", lib_file.clone()),
        CompileStep::Finished { termination } => match termination {
            CompilationTermination::Compiled { lib_file } => ("done", lib_file.clone()),
            CompilationTermination::FatalDiagnostic => ("failed", String::new()),
        },
        CompileStep::Failed { .. } => ("stopped", String::new()),
    }
}

/// The first step behind the opening of the source.
fn opened(opts: &Opts) -> CompileStep {
    let step = compile_next(opts, true, compile_first(), CompileEvent::InputResolved);
    compile_next(opts, true, step, CompileEvent::SourceOpened)
}

/// The words for the steps of a run on an open source in which every step has the given outcome,
/// and the file at its end.
fn words(opts: &Opts, reuse: bool, exists: bool, found: bool) -> (Vec<&'static str>, String) {
    let mut step = opened(opts);
    let mut words = vec![shown(&step).0];
    loop {
        let event = match &step {
            CompileStep::ResolveInput => CompileEvent::InputResolved,
            CompileStep::OpenSource => CompileEvent::SourceOpened,
            CompileStep::NameArtifact => CompileEvent::Named { name: "x.osdi".to_string() },
            CompileStep::LookUp { .. } => CompileEvent::LookedUp { exists },
            CompileStep::CreateCacheDir { .. } => CompileEvent::CacheDirCreated,
            CompileStep::CollectModules { .. } => CompileEvent::ModulesCollected { found },
            CompileStep::CreateBackend { .. } => CompileEvent::BackendCreated,
            CompileStep::EmitObjects { .. } => {
                CompileEvent::ObjectsEmitted { objects: vec!["x.o".to_string()] }
            }
            CompileStep::PrintReport { .. } => CompileEvent::ReportPrinted,
            CompileStep::Link { .. } => CompileEvent::Linked,
            CompileStep::RemoveObject { .. } => CompileEvent::ObjectRemoved,
            CompileStep::Announce { .. } => CompileEvent::Announced,
            CompileStep::Finished { .. } | CompileStep::Failed { .. } => {
                return (words, shown(&step).1)
            }
        };
        step = compile_next(opts, reuse, step, event);
        words.push(shown(&step).0);
    }
}

#[test]
fn compilation_to_a_file() {
    assert_eq!(
        words(&to_file(), true, true, true),
        (
            vec!["collect", "backend", "emit", "link", "remove", "announce", "done"],
            "diode.osdi".to_string()
        )
    );
}

#[test]
fn compilation_to_the_cache() {
    assert_eq!(
        words(&to_cache(), true, false, true).0,
        vec![
            "name", "look up", "create dir", "collect", "backend", "emit", "link", "remove",
            "announce", "done"
        ]
    );
    let file = words(&to_cache(), true, false, true).1;
    assert!(file == "/tmp/cache/x.osdi" || file == "/tmp/cache\\x.osdi");
}

#[test]
fn a_library_in_the_cache_is_used_again() {
    assert_eq!(words(&to_cache(), true, true, true).0, vec!["name", "look up", "done"]);
}

#[test]
fn the_cache_is_not_looked_up_without_reuse() {
    assert_eq!(
        words(&to_cache(), false, true, false).0,
        vec!["name", "create dir", "collect", "failed"]
    );
    assert_eq!(
        shown(&after_naming("f".to_string(), false)),
        ("create dir", "f".to_string())
    );
    assert_eq!(shown(&after_naming("f".to_string(), true)), ("look up", "f".to_string()));
}

#[test]
fn modules_that_cannot_be_read_end_the_run() {
    assert_eq!(words(&to_file(), true, true, false), (vec!["collect", "failed"], String::new()));
}

#[test]
fn a_dry_run_generates_no_code() {
    let mut opts = to_file();
    opts.dry_run = true;
    opts.dump_mir = true;
    assert_eq!(
        words(&opts, true, true, true),
        (vec!["collect", "backend", "done"], "diode.osdi".to_string())
    );
}

#[test]
fn a_report_is_printed_where_it_is_asked_for() {
    let expected =
        vec!["collect", "backend", "emit", "report", "link", "remove", "announce", "done"];
    let mut opts = to_file();
    opts.dump_mir = true;
    assert_eq!(words(&opts, true, true, true).0, expected);
    let mut opts = to_file();
    opts.dump_unopt_mir = true;
    assert_eq!(words(&opts, true, true, true).0, expected);
    let mut opts = to_file();
    opts.dump_ir = true;
    opts.dump_unopt_ir = true;
    assert!(!words(&opts, true, true, true).0.contains(&"report"));
}

#[test]
fn a_separator_is_put_only_where_one_is_needed() {
    let named = |dir: &str| {
        let opts = options(CompilationDestination::Cache { cache_dir: dir.to_string() });
        let event = CompileEvent::Named { name: "x.osdi".to_string() };
        shown(&compile_next(&opts, false, opened(&opts), event)).1
    };
    assert_eq!(named(""), "x.osdi");
    assert_eq!(named("/"), "/x.osdi");
    assert_eq!(named("cache/"), "cache/x.osdi");
    assert_eq!(named("//share/"), "//share/x.osdi");
    let slashed = named("\\\\host\\share");
    assert!(slashed == "\\\\host\\share/x.osdi" || slashed == "\\\\host\\share\\x.osdi");
    assert!(named("cache") == "cache/x.osdi" || named("cache") == "cache\\x.osdi");
}

#[test]
fn an_outcome_of_another_step_changes_nothing() {
    let opts = to_file();
    let step = compile_next(&opts, true, opened(&opts), CompileEvent::Linked);
    assert_eq!(shown(&step), ("collect", "diode.osdi".to_string()));
    let event = CompileEvent::Named { name: "x".to_string() };
    let step = compile_next(&opts, true, step, event);
    assert_eq!(shown(&step), ("collect", "diode.osdi".to_string()));
}

/// Links and deletes object files from the link on. Returns the lists that were
/// linked, the files that were deleted, and the last step; the step with the number
/// `bad` fails.
fn build(objects: &[&str], bad: usize) -> (Vec<Vec<String>>, Vec<String>, CompileStep) {
    let opts = to_file();
    let mut step = CompileStep::EmitObjects { lib_file: "diode.osdi".to_string() };
    let mut linked = vec![];
    let mut removed = vec![];
    for n in 0.. {
        let event = match &step {
            CompileStep::EmitObjects { .. } => CompileEvent::ObjectsEmitted {
                objects: objects.iter().map(|object| object.to_string()).collect(),
            },
            _ if n == bad => CompileEvent::Failed,
            CompileStep::Link { objects, .. } => {
                linked.push(objects.clone());
                CompileEvent::Linked
            }
            CompileStep::RemoveObject { objects, index, .. } => {
                removed.push(objects[*index].clone());
                CompileEvent::ObjectRemoved
            }
            CompileStep::Announce { .. } => CompileEvent::Announced,
            _ => break,
        };
        step = compile_next(&opts, false, step, event);
    }
    (linked, removed, step)
}

#[test]
fn every_object_is_linked_once_and_removed_once() {
    for objects in [vec![], vec!["a.o"], vec!["b.o", "a.o", "c.o"]] {
        let (linked, removed, step) = build(&objects, 100);
        assert_eq!(linked, vec![objects.clone()]);
        assert_eq!(removed, objects);
        assert_eq!(shown(&step), ("done", "diode.osdi".to_string()));
    }
}

#[test]
fn a_failure_stops_the_run() {
    let objects = ["a.o", "b.o", "c.o"];
    let (linked, removed, step) = build(&objects, 1);
    assert_eq!((linked.len(), removed.len()), (0, 0));
    assert!(matches!(step, CompileStep::Failed { failure: Failure::Linking }));
    let (linked, removed, step) = build(&objects, 3);
    assert_eq!((linked.len(), removed), (1, vec!["a.o".to_string()]));
    assert!(matches!(step, CompileStep::Failed { failure: Failure::Removal }));
    let (_, removed, step) = build(&objects, 5);
    assert_eq!(removed, vec!["a.o", "b.o", "c.o"]);
    assert!(matches!(step, CompileStep::Failed { failure: Failure::Announcement }));
    let step = CompileStep::CreateCacheDir { lib_file: "x".to_string() };
    let step = compile_next(&to_cache(), true, step, CompileEvent::Failed);
    assert!(matches!(step, CompileStep::Failed { failure: Failure::CacheDir }));
    let step = compile_next(&to_cache(), true, step, CompileEvent::CacheDirCreated);
    assert_eq!(shown(&step).0, "stopped");
}

#[test]
fn a_source_that_cannot_be_opened_stops_a_compilation() {
    assert_eq!(shown(&compile_first()).0, "resolve");
    let step = compile_next(&to_file(), true, compile_first(), CompileEvent::Failed);
    assert!(matches!(step, CompileStep::Failed { failure: Failure::Input }));
    let step = compile_next(&to_file(), true, compile_first(), CompileEvent::InputResolved);
    assert_eq!(shown(&step).0, "open");
    let step = compile_next(&to_file(), true, step, CompileEvent::Failed);
    assert!(matches!(step, CompileStep::Failed { failure: Failure::Source }));
}

#[test]
fn what_is_said_about_failures() {
    assert_eq!(resolve_context("models/a.va"), "failed to resolve models/a.va");
    assert_eq!(
        failure_context(Failure::Input, "a.va"),
        Some("failed to resolve a.va".to_string())
    );
    assert_eq!(failure_context(Failure::Source, "a.va"), None);
    assert_eq!(failure_context(Failure::Printing, "a.va"), None);
    assert_eq!(
        failure_context(Failure::CacheDir, "a.va"),
        Some("failed to create cache directory".to_string())
    );
    assert_eq!(
        failure_context(Failure::Removal, "a.va"),
        Some("failed to delete intermediate compile artifact".to_string())
    );
    assert_eq!(failure_context(Failure::Linking, "a.va"), None);
    assert_eq!(failure_context(Failure::Announcement, "a.va"), None);
}

#[test]
fn what_is_told_at_the_end() {
    assert_eq!(finished_line(Deed::Building, "a.va", "1.25"), " building a.va in 1.25s\n");
    assert_eq!(
        finished_line(Deed::Preprocessing, "a.va", "0.00"),
        " preprocessing a.va in 0.00s\n"
    );
}

#[test]
fn the_last_part_of_the_path_is_named() {
    let told = |input: &str| finish_message(Deed::Building, input, "0.10");
    let expected = Some(" building a.va in 0.10s\n".to_string());
    assert_eq!(told("a.va"), expected);
    assert_eq!(told("/a.va"), expected);
    assert_eq!(told("models/sub/a.va"), expected);
    assert_eq!(told("models/a.va/"), expected);
    assert_eq!(told("a.va/."), expected);
    assert_eq!(told("a.va/.//"), expected);
    assert_eq!(told("\\models/a.va"), expected);
    assert_eq!(
        told("models/a:b.va"),
        Some(" building a:b.va in 0.10s\n".to_string())
    );
    assert_eq!(told(""), None);
    assert_eq!(told("."), None);
    assert_eq!(told("/"), None);
    assert_eq!(told(".."), None);
    assert_eq!(told("models/.."), None);
    assert_eq!(told("models/../"), None);
}

/// What a run prints whose modules have the given texts, and its last step. The
/// step with the number `bad` cannot be performed.
fn dumped(jsons: Option<&[&str]>, bad: usize) -> (String, DumpStep) {
    let mut out = String::new();
    let mut step = dump_first();
    for n in 0.. {
        let event = match &step {
            _ if n == bad => DumpEvent::Failed,
            DumpStep::ResolveInput => DumpEvent::InputResolved,
            DumpStep::OpenSource => DumpEvent::SourceOpened,
            DumpStep::CollectModules => {
                DumpEvent::ModulesCollected { count: jsons.map(|jsons| jsons.len()) }
            }
            DumpStep::Compile { index, .. } => DumpEvent::Compiled {
                pieces: jsons.unwrap()[*index].chars().map(|c| c.to_string()).collect(),
            },
            DumpStep::Finished { .. } | DumpStep::Failed { .. } => break,
            _ => {
                out.push_str(&dump_output(&step));
                DumpEvent::Printed
            }
        };
        step = dump_next(step, event);
    }
    (out, step)
}

/// What a run prints whose modules have the given texts, and how it ends.
fn printed(jsons: Option<&[&str]>) -> (String, CompilationTermination) {
    match dumped(jsons, 1000) {
        (out, DumpStep::Finished { termination }) => (out, termination),
        _ => panic!("the run stopped"),
    }
}

#[test]
fn a_failure_stops_the_printing() {
    let jsons = ["{1}", "{2}"];
    let full = printed(Some(&jsons)).0;
    assert_eq!(full, "[{1},{2}]\n");
    // Nothing is printed in the steps that cannot fail on their own.
    let expected = [
        (0, "", Failure::Input),
        (1, "", Failure::Source),
        (3, "", Failure::Printing),
        (5, "[", Failure::Printing),
        (6, "[{1}", Failure::Printing),
        (8, "[{1},", Failure::Printing),
        (9, "[{1},{2}", Failure::Printing),
    ];
    for (bad, text, failure) in expected {
        let (out, step) = dumped(Some(&jsons), bad);
        assert_eq!(out, text);
        assert!(full.starts_with(&out));
        assert!(matches!(step, DumpStep::Failed { failure: found } if found == failure));
    }
}

#[test]
fn modules_are_printed_as_one_array() {
    for (jsons, expected) in [
        (vec![], "[]\n"),
        (vec!["{}"], "[{}]\n"),
        (vec!["{\"a\": 1}\n", "{}\n", "7"], "[{\"a\": 1}\n,{}\n,7]\n"),
    ] {
        let (out, termination) = printed(Some(&jsons));
        assert_eq!(out, expected);
        assert!(
            matches!(termination, CompilationTermination::Compiled { lib_file } if lib_file.is_empty())
        );
    }
}

#[test]
fn nothing_is_printed_where_modules_cannot_be_read() {
    let (out, termination) = printed(None);
    assert_eq!(out, "");
    assert!(matches!(termination, CompilationTermination::FatalDiagnostic));
}

#[test]
fn optimisation_by_kind_of_dump() {
    assert_eq!(split_opts(DumpKind::Optimized), None);
    assert_eq!(
        split_opts(DumpKind::Unoptimized),
        Some(SplitOpts { skip_value_opts: true, run_adce: false })
    );
    assert_eq!(
        split_opts(DumpKind::DeadCodeOnly),
        Some(SplitOpts { skip_value_opts: true, run_adce: true })
    );
}

#[test]
fn preprocessed_source() {
    let token = |kind: TokenKind, text: &str| Token { kind, text: text.to_string() };
    assert_eq!(expanded_source(&vec![]), "\n");
    let tokens = vec![
        token(TokenKind::Other, "module"),
        token(TokenKind::Comment, "// a line"),
        token(TokenKind::Comment, "/* a block */"),
        token(TokenKind::Other, "/*"),
        token(TokenKind::Comment, "/"),
        token(TokenKind::Comment, ""),
        token(TokenKind::Other, ";"),
    ];
    assert_eq!(expanded_source(&tokens), "module // a line\n/* a block *//* /\n\n; \n");
}

#[test]
fn errors_end_the_preprocessing() {
    assert!(matches!(expand_outcome(true), CompilationTermination::FatalDiagnostic));
    assert!(
        matches!(expand_outcome(false), CompilationTermination::Compiled { lib_file } if lib_file.is_empty())
    );
}

/// What a run prints that only preprocesses, what it tells, and how it ends.
fn expanded(text: &str, has_errors: bool) -> (String, Option<String>, CompilationTermination) {
    let mut printed = String::new();
    let mut told = None;
    let mut step = expand_first();
    loop {
        let event = match &step {
            ExpandStep::ResolveInput => ExpandEvent::InputResolved,
            ExpandStep::OpenSource => ExpandEvent::SourceOpened,
            ExpandStep::Preprocess => ExpandEvent::Preprocessed {
                tokens: vec![Token { kind: TokenKind::Other, text: text.to_string() }],
            },
            ExpandStep::Print { text } => {
                printed.push_str(text);
                ExpandEvent::Printed
            }
            ExpandStep::Diagnose => {
                assert!(!printed.is_empty());
                ExpandEvent::Diagnosed { has_errors }
            }
            ExpandStep::Conclude { has_errors } => {
                told = expand_message(*has_errors, "models/a.va", "0.50");
                ExpandEvent::Concluded
            }
            ExpandStep::Finished { .. } | ExpandStep::Failed { .. } => break,
        };
        step = expand_next(step, event);
    }
    match step {
        ExpandStep::Finished { termination } => (printed, told, termination),
        _ => unreachable!(),
    }
}

#[test]
fn the_source_is_printed_whether_or_not_there_are_errors() {
    let (printed, told, termination) = expanded("x", false);
    assert_eq!(printed, "x \n");
    assert_eq!(told, Some(" preprocessing a.va in 0.50s\n".to_string()));
    assert!(
        matches!(termination, CompilationTermination::Compiled { lib_file } if lib_file.is_empty())
    );
    let (printed, told, termination) = expanded("y", true);
    assert_eq!(printed, "y \n");
    assert_eq!(told, None);
    assert!(matches!(termination, CompilationTermination::FatalDiagnostic));
}

#[test]
fn a_failure_stops_the_preprocessing() {
    let cases = vec![
        (ExpandStep::ResolveInput, Failure::Input),
        (ExpandStep::OpenSource, Failure::Source),
        (ExpandStep::Print { text: "x".to_string() }, Failure::Printing),
        (ExpandStep::Conclude { has_errors: false }, Failure::Announcement),
    ];
    for (step, failure) in cases {
        let step = expand_next(step, ExpandEvent::Failed);
        assert!(matches!(step, ExpandStep::Failed { failure: found } if found == failure));
        let step = expand_next(step, ExpandEvent::Printed);
        assert!(matches!(step, ExpandStep::Failed { .. }));
    }
    let step = expand_next(ExpandStep::Diagnose, ExpandEvent::Failed);
    assert!(matches!(step, ExpandStep::Diagnose));
}

#[test]
fn nothing_is_told_of_errors() {
    assert_eq!(expand_message(true, "a.va", "1.00"), None);
    assert_eq!(
        expand_message(false, "a.va", "1.00"),
        Some(" preprocessing a.va in 1.00s\n".to_string())
    );
    assert_eq!(expand_message(false, "..", "1.00"), None);
}

fn text_of(step: &ReportStep) -> &str {
    match step {
        ReportStep::Text { text } => text,
        _ => panic!("no text"),
    }
}

#[test]
fn a_report_without_modules() {
    let mut literals = Rodeo::new();
    literals.get_or_intern("simparam");
    literals.get_or_intern("it's \"x\"");
    let plan = report_plan("diode.va", &literals, &vec![]);
    assert_eq!(plan.len(), 1);
    assert_eq!(
        text_of(&plan[0]),
        "Compilation unit: diode.va\n\nLiterals:\n  Spur(1) -> 'simparam'\n  Spur(2) -> 'it's \"x\"'\n\n"
    );
    let plan = report_plan("", &Rodeo::new(), &vec![]);
    assert_eq!(text_of(&plan[0]), "Compilation unit: \n\nLiterals:\n\n");
}

#[test]
fn a_report_on_two_modules() {
    let names = vec!["diode".to_string(), "res".to_string()];
    let plan = report_plan("u", &Rodeo::new(), &names);
    assert_eq!(plan.len(), 17);
    for (i, name) in names.iter().enumerate() {
        let part = &plan[1 + 8 * i..9 + 8 * i];
        assert!(matches!(part[0], ReportStep::Module { index } if index == i));
        assert_eq!(text_of(&part[1]), format!("\nModel setup HIR interner of {name}\n"));
        assert!(
            matches!(part[2], ReportStep::Interner { index, stage: Stage::ModelSetup } if index == i)
        );
        assert_eq!(text_of(&part[3]), format!("\nInstance setup HIR interner of {name}\n"));
        assert!(
            matches!(part[4], ReportStep::Interner { index, stage: Stage::InstanceSetup } if index == i)
        );
        assert_eq!(text_of(&part[5]), format!("\nEvaluation HIR interner of {name}\n"));
        assert!(
            matches!(part[6], ReportStep::Interner { index, stage: Stage::Evaluation } if index == i)
        );
        assert_eq!(text_of(&part[7]), "\n");
    }
}
