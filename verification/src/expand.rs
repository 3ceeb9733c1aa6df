//! The preprocessed source, token by token.

use vstd::prelude::*;

#[allow(unused_imports)]
use crate::compile::tells_of;
use crate::compile::{finish_message, Deed};
use crate::failure::Failure;
use crate::options::CompilationTermination;
#[allow(unused_imports)]
use crate::paths::opt_text;

verus! {

/// Whether a token is a comment.
#[derive(Clone, Copy, Debug)]
pub enum TokenKind {
    Comment,
    Other,
}

/// A token of the preprocessed source.
#[derive(Debug)]
pub struct Token {
    pub kind: TokenKind,
    pub text: String,
}

/// A text that opens a block comment.
pub open spec fn opens_block_comment(text: Seq<char>) -> bool {
    text.len() >= 2 && text[0] == '/' && text[1] == '*'
}

/// What is printed for a token: a line comment ends its line, a block comment
/// stands as it is, and every other token is followed by a blank.
pub open spec fn token_text(token: Token) -> Seq<char> {
    match token.kind {
        TokenKind::Comment => if opens_block_comment(token.text@) {
            token.text@
        } else {
            token.text@.push('\n')
        },
        TokenKind::Other => token.text@.push(' '),
    }
}

/// What is printed for a list of tokens.
pub open spec fn tokens_text(tokens: Seq<Token>) -> Seq<char>
    decreases tokens.len(),
{
    if tokens.len() == 0 {
        Seq::empty()
    } else {
        tokens_text(tokens.drop_last()) + token_text(tokens.last())
    }
}

/// Appends what is printed for a token.
fn print_token(out: &mut String, token: &Token)
    ensures
        final(out)@ == old(out)@ + token_text(*token),
{
    let text = token.text.as_str();
    out.append(text);
    match token.kind {
        TokenKind::Comment => {
            let block = text.unicode_len() >= 2 && text.get_char(0) == '/' && text.get_char(1)
                == '*';
            if !block {
                out.push('\n');
            }
        },
        TokenKind::Other => {
            out.push(' ');
        },
    }
    assert(out@ =~= old(out)@ + token_text(*token));
}

/// The preprocessed source: every token, and a line break at the end.
pub open spec fn source_text(tokens: Seq<Token>) -> Seq<char> {
    tokens_text(tokens).push('\n')
}

/// Returns the preprocessed source.
pub fn expanded_source(tokens: &Vec<Token>) -> (res: String)
    ensures
        res@ == source_text(tokens@),
{
    let mut res = String::new();
    let mut i: usize = 0;
    while i < tokens.len()
        invariant
            i <= tokens.len(),
            res@ == tokens_text(tokens@.take(i as int)),
        decreases tokens.len() - i,
    {
        assert(tokens@.take(i + 1).drop_last() =~= tokens@.take(i as int));
        print_token(&mut res, &tokens[i]);
        i += 1;
    }
    assert(tokens@.take(i as int) =~= tokens@);
    res.push('\n');
    res
}

/// Returns how a run ends that only preprocesses: it names no library, and it
/// fails if and only if errors were reported.
pub fn expand_outcome(has_errors: bool) -> (res: CompilationTermination)
    ensures
        has_errors <==> res is FatalDiagnostic,
        res matches CompilationTermination::Compiled { lib_file } ==> lib_file@.len() == 0,
{
    if has_errors {
        CompilationTermination::FatalDiagnostic
    } else {
        CompilationTermination::Compiled { lib_file: String::new() }
    }
}

/// Returns what is told at the end of a run that only preprocesses: nothing where
/// there were errors, else what was done to which file.
pub fn expand_message(has_errors: bool, input: &str, seconds: &str) -> (res: Option<String>)
    ensures
        has_errors ==> res is None,
        !has_errors ==> tells_of(Deed::Preprocessing, input@, seconds@, opt_text(res)),
{
    if has_errors {
        None
    } else {
        finish_message(Deed::Preprocessing, input, seconds)
    }
}

/// A step of a run that only preprocesses.
#[derive(Debug)]
pub enum ExpandStep {
    /// Resolve the path of the source.
    ResolveInput,
    /// Open the source.
    OpenSource,
    /// Preprocess the source.
    Preprocess,
    /// Print this text.
    Print { text: String },
    /// Report what is wrong with the source.
    Diagnose,
    /// Tell the user how the run went.
    Conclude { has_errors: bool },
    /// Nothing is left to do.
    Finished { termination: CompilationTermination },
    /// The run stops, as something could not be done.
    Failed { failure: Failure },
}

/// The outcome of a step of a run that only preprocesses.
#[derive(Debug)]
pub enum ExpandEvent {
    InputResolved,
    SourceOpened,
    /// The tokens of the preprocessed source.
    Preprocessed { tokens: Vec<Token> },
    Printed,
    /// Whether errors were reported.
    Diagnosed { has_errors: bool },
    Concluded,
    /// The step could not be performed.
    Failed,
}

/// A step, with its text.
pub ghost enum ExpandStepView {
    ResolveInput,
    OpenSource,
    Preprocess,
    Print(Seq<char>),
    Diagnose,
    Conclude(bool),
    /// The file that is named, or nothing where there were errors.
    Finished(Option<Seq<char>>),
    Failed(Failure),
}

impl View for ExpandStep {
    type V = ExpandStepView;

    open spec fn view(&self) -> ExpandStepView {
        match self {
            ExpandStep::ResolveInput => ExpandStepView::ResolveInput,
            ExpandStep::OpenSource => ExpandStepView::OpenSource,
            ExpandStep::Preprocess => ExpandStepView::Preprocess,
            ExpandStep::Print { text } => ExpandStepView::Print(text@),
            ExpandStep::Diagnose => ExpandStepView::Diagnose,
            ExpandStep::Conclude { has_errors } => ExpandStepView::Conclude(*has_errors),
            ExpandStep::Finished { termination } => ExpandStepView::Finished(
                match termination {
                    CompilationTermination::Compiled { lib_file } => Some(lib_file@),
                    CompilationTermination::FatalDiagnostic => None,
                },
            ),
            ExpandStep::Failed { failure } => ExpandStepView::Failed(*failure),
        }
    }
}

/// What has failed where a step cannot be performed, of the steps that can fail.
pub open spec fn expand_failure(step: ExpandStepView) -> Option<Failure> {
    match step {
        ExpandStepView::ResolveInput => Some(Failure::Input),
        ExpandStepView::OpenSource => Some(Failure::Source),
        ExpandStepView::Print(text) => Some(Failure::Printing),
        ExpandStepView::Conclude(has_errors) => Some(Failure::Announcement),
        _ => None,
    }
}

/// The step behind `step`. An outcome that does not belong to the step changes nothing.
pub open spec fn next_expand_step(step: ExpandStepView, event: ExpandEvent) -> ExpandStepView {
    match (step, event) {
        (_, ExpandEvent::Failed) => match expand_failure(step) {
            Some(failure) => ExpandStepView::Failed(failure),
            None => step,
        },
        (ExpandStepView::ResolveInput, ExpandEvent::InputResolved) => ExpandStepView::OpenSource,
        (ExpandStepView::OpenSource, ExpandEvent::SourceOpened) => ExpandStepView::Preprocess,
        (
            ExpandStepView::Preprocess,
            ExpandEvent::Preprocessed { tokens },
        ) => ExpandStepView::Print(source_text(tokens@)),
        (ExpandStepView::Print(text), ExpandEvent::Printed) => ExpandStepView::Diagnose,
        (
            ExpandStepView::Diagnose,
            ExpandEvent::Diagnosed { has_errors },
        ) => ExpandStepView::Conclude(has_errors),
        (
            ExpandStepView::Conclude(has_errors),
            ExpandEvent::Concluded,
        ) => ExpandStepView::Finished(
            if has_errors {
                None
            } else {
                Some(Seq::empty())
            },
        ),
        _ => step,
    }
}

/// Returns the first step of a run that only preprocesses.
pub fn expand_first() -> (res: ExpandStep)
    ensures
        res@ == ExpandStepView::ResolveInput,
{
    ExpandStep::ResolveInput
}

/// Returns the step behind `step`, from its outcome.
pub fn expand_next(step: ExpandStep, event: ExpandEvent) -> (res: ExpandStep)
    ensures
        res@ == next_expand_step(step@, event),
{
    match (step, event) {
        (step, ExpandEvent::Failed) => match step {
            ExpandStep::ResolveInput => ExpandStep::Failed { failure: Failure::Input },
            ExpandStep::OpenSource => ExpandStep::Failed { failure: Failure::Source },
            ExpandStep::Print { .. } => ExpandStep::Failed { failure: Failure::Printing },
            ExpandStep::Conclude { .. } => ExpandStep::Failed { failure: Failure::Announcement },
            _ => step,
        },
        (ExpandStep::ResolveInput, ExpandEvent::InputResolved) => ExpandStep::OpenSource,
        (ExpandStep::OpenSource, ExpandEvent::SourceOpened) => ExpandStep::Preprocess,
        (ExpandStep::Preprocess, ExpandEvent::Preprocessed { tokens }) => ExpandStep::Print {
            text: expanded_source(&tokens),
        },
        (ExpandStep::Print { .. }, ExpandEvent::Printed) => ExpandStep::Diagnose,
        (ExpandStep::Diagnose, ExpandEvent::Diagnosed { has_errors }) => ExpandStep::Conclude {
            has_errors,
        },
        (ExpandStep::Conclude { has_errors }, ExpandEvent::Concluded) => {
            let res = ExpandStep::Finished { termination: expand_outcome(has_errors) };
            assert(!has_errors ==> res@->Finished_0->0 =~= Seq::<char>::empty());
            res
        },
        (step, _) => step,
    }
}

/// A run that only preprocesses: the steps that it went through, and the outcome
/// of each but the last.
pub open spec fn is_expansion(steps: Seq<ExpandStepView>, events: Seq<ExpandEvent>) -> bool {
    &&& steps.len() == events.len() + 1
    &&& steps[0] == ExpandStepView::ResolveInput
    &&& forall|i: int|
        0 <= i < events.len() ==> steps[i + 1] == next_expand_step(
            steps[i],
            #[trigger] events[i],
        )
}

/// What was printed in the first `n` steps of a run.
pub open spec fn expansion_text(
    steps: Seq<ExpandStepView>,
    events: Seq<ExpandEvent>,
    n: int,
) -> Seq<char>
    decreases n,
{
    if n <= 0 {
        Seq::empty()
    } else {
        let before = expansion_text(steps, events, n - 1);
        match (steps[n - 1], events[n - 1]) {
            (ExpandStepView::Print(text), ExpandEvent::Printed) => before + text,
            _ => before,
        }
    }
}

/// The preprocessed source is printed in full, and nothing else, before anything is
/// reported, whether or not there are errors. A run is concluded and ends with
/// errors if and only if errors were reported. One that stops in front of its
/// conclusion has printed nothing.
pub proof fn law_source_is_printed_first(
    steps: Seq<ExpandStepView>,
    events: Seq<ExpandEvent>,
    n: int,
)
    requires
        is_expansion(steps, events),
        0 <= n < steps.len(),
    ensures
        steps[n] is ResolveInput || steps[n] is OpenSource || steps[n] is Preprocess
            ==> expansion_text(steps, events, n).len() == 0,
        steps[n] matches ExpandStepView::Print(text) ==> expansion_text(steps, events, n).len()
            == 0 && is_source_of(steps, events, text),
        steps[n] is Diagnose || steps[n] is Conclude || steps[n] is Finished ==> is_source_of(
            steps,
            events,
            expansion_text(steps, events, n),
        ),
        steps[n] matches ExpandStepView::Conclude(has_errors) ==> has_diagnosed(
            steps,
            events,
            has_errors,
        ),
        steps[n] matches ExpandStepView::Finished(file) ==> has_diagnosed(
            steps,
            events,
            file is None,
        ) && (file matches Some(file) ==> file.len() == 0),
        steps[n] matches ExpandStepView::Failed(failure) ==> match failure {
            Failure::Announcement => is_source_of(
                steps,
                events,
                expansion_text(steps, events, n),
            ),
            _ => expansion_text(steps, events, n).len() == 0,
        },
    decreases n,
{
    if n > 0 {
        law_source_is_printed_first(steps, events, n - 1);
        let step = steps[n - 1];
        let event = events[n - 1];
        assert(steps[n] == next_expand_step(step, event));
        if let ExpandStepView::Print(text) = step {
            if event is Printed {
                assert(expansion_text(steps, events, n) =~= text);
            }
        }
        if let ExpandEvent::Preprocessed { tokens } = event {
            if step is Preprocess {
                assert(reads_at(steps, events, n - 1, tokens));
            }
        }
        if let ExpandEvent::Diagnosed { has_errors } = event {
            if step is Diagnose {
                assert(diagnoses_at(steps, events, n - 1, has_errors));
            }
        }
    }
}

/// A source that cannot be resolved or opened, and output that cannot be written,
/// stop a run at once: it stays stopped and prints nothing more.
pub proof fn law_failed_expansion_stops(
    steps: Seq<ExpandStepView>,
    events: Seq<ExpandEvent>,
    i: int,
    n: int,
)
    requires
        is_expansion(steps, events),
        0 <= i < n < steps.len(),
        expand_failure(steps[i]) is Some,
        events[i] is Failed,
    ensures
        steps[n] == ExpandStepView::Failed(expand_failure(steps[i])->0),
        expansion_text(steps, events, n) == expansion_text(steps, events, i),
    decreases n,
{
    if n > i + 1 {
        law_failed_expansion_stops(steps, events, i, n - 1);
    }
    assert(steps[n - 1 + 1] == next_expand_step(steps[n - 1], events[n - 1]));
}

/// The source is preprocessed into `tokens` in the step `i` of a run.
pub open spec fn reads_at(
    steps: Seq<ExpandStepView>,
    events: Seq<ExpandEvent>,
    i: int,
    tokens: Vec<Token>,
) -> bool {
    0 <= i < events.len() && steps[i] is Preprocess && events[i] == (ExpandEvent::Preprocessed {
        tokens,
    })
}

/// `text` is the preprocessed source that a run has read.
pub open spec fn is_source_of(
    steps: Seq<ExpandStepView>,
    events: Seq<ExpandEvent>,
    text: Seq<char>,
) -> bool {
    exists|i: int, tokens: Vec<Token>| #[trigger]
        reads_at(steps, events, i, tokens) && text == source_text(tokens@)
}

/// Whether there are errors is found out in the step `i` of a run.
pub open spec fn diagnoses_at(
    steps: Seq<ExpandStepView>,
    events: Seq<ExpandEvent>,
    i: int,
    has_errors: bool,
) -> bool {
    0 <= i < events.len() && steps[i] is Diagnose && events[i] == (ExpandEvent::Diagnosed {
        has_errors,
    })
}

/// A run has found errors, or has found that there are none.
pub open spec fn has_diagnosed(
    steps: Seq<ExpandStepView>,
    events: Seq<ExpandEvent>,
    has_errors: bool,
) -> bool {
    exists|i: int| #[trigger] diagnoses_at(steps, events, i, has_errors)
}

/// Tokens are printed one after the other, each as it would be printed alone.
pub proof fn law_tokens_are_printed_in_order(a: Seq<Token>, b: Seq<Token>)
    ensures
        tokens_text(a + b) == tokens_text(a) + tokens_text(b),
        tokens_text(Seq::empty()).len() == 0,
    decreases b.len(),
{
    if b.len() == 0 {
        assert(a + b =~= a);
        assert(tokens_text(a) + tokens_text(b) =~= tokens_text(a));
    } else {
        law_tokens_are_printed_in_order(a, b.drop_last());
        assert((a + b).drop_last() =~= a + b.drop_last());
        assert(tokens_text(a + b) =~= tokens_text(a) + tokens_text(b));
    }
}

/// What is printed for a single token, whatever its text: the text, and behind it
/// exactly one blank for a token that is no comment, exactly one line break for a
/// comment that does not begin as a block comment does, and nothing for a block comment.
pub proof fn law_single_tokens(token: Token)
    ensures
        token.kind is Other ==> tokens_text(seq![token]) == token.text@ + seq![' '],
        token.kind is Comment && token.text@.len() >= 2 && token.text@[0] == '/' && token.text@[1]
            == '*' ==> tokens_text(seq![token]) == token.text@,
        token.kind is Comment && !(token.text@.len() >= 2 && token.text@[0] == '/'
            && token.text@[1] == '*') ==> tokens_text(seq![token]) == token.text@ + seq!['\n'],
        source_text(seq![token]) == tokens_text(seq![token]) + seq!['\n'],
{
    assert(seq![token].drop_last() =~= Seq::empty());
    reveal_with_fuel(tokens_text, 2);
    let printed = tokens_text(seq![token]);
    assert(printed =~= token_text(token));
    if token.kind is Other {
        assert(printed =~= token.text@ + seq![' ']);
    }
    assert(source_text(seq![token]) =~= printed + seq!['\n']);
    if token.kind is Comment && !(token.text@.len() >= 2 && token.text@[0] == '/'
        && token.text@[1] == '*') {
        assert(printed =~= token.text@ + seq!['\n']);
    }
}

/// The preprocessed source is all its tokens and one line break.
pub proof fn law_source_ends_its_line(tokens: Seq<Token>)
    ensures
        source_text(tokens).len() == tokens_text(tokens).len() + 1,
        source_text(tokens).last() == '\n',
        source_text(tokens).drop_last() == tokens_text(tokens),
{
    assert(source_text(tokens).drop_last() =~= tokens_text(tokens));
}

/// A text taken apart at its blanks: the words that end in a blank, and what is behind
/// the last blank.
pub open spec fn words(s: Seq<char>) -> (Seq<Seq<char>>, Seq<char>)
    decreases s.len(),
{
    if s.len() == 0 {
        (Seq::empty(), Seq::empty())
    } else {
        let (done, rest) = words(s.drop_last());
        if s.last() == ' ' {
            (done.push(rest), Seq::empty())
        } else {
            (done, rest.push(s.last()))
        }
    }
}

proof fn lemma_words_of_text(s: Seq<char>, text: Seq<char>)
    requires
        !text.contains(' '),
    ensures
        words(s + text) == (words(s).0, words(s).1 + text),
    decreases text.len(),
{
    if text.len() == 0 {
        assert(s + text =~= s);
        assert(words(s).1 + text =~= words(s).1);
    } else {
        let rest = text.drop_last();
        assert(!rest.contains(' ')) by {
            if rest.contains(' ') {
                let i = rest.index_of(' ');
                assert(text[i] == ' ');
            }
        }
        lemma_words_of_text(s, rest);
        assert((s + text).drop_last() =~= s + rest);
        assert(text.last() == text[text.len() - 1]);
        assert(text.contains(text.last()));
        assert((words(s).1 + rest).push(text.last()) =~= words(s).1 + text);
    }
}

/// Tokens that are no comments and hold no blanks can be told apart in what is printed:
/// taken apart at its blanks, it is the list of their texts again, and nothing is left.
pub proof fn law_tokens_read_back(tokens: Seq<Token>)
    requires
        forall|i: int|
            0 <= i < tokens.len() ==> (#[trigger] tokens[i]).kind is Other
                && !tokens[i].text@.contains(' '),
    ensures
        words(tokens_text(tokens)).0 == Seq::new(tokens.len(), |i: int| tokens[i].text@),
        words(tokens_text(tokens)).1.len() == 0,
    decreases tokens.len(),
{
    let read = Seq::new(tokens.len(), |i: int| tokens[i].text@);
    if tokens.len() > 0 {
        let rest = tokens.drop_last();
        let last = tokens.last();
        assert(last == tokens[tokens.len() - 1]);
        assert forall|i: int| 0 <= i < rest.len() implies (#[trigger] rest[i]).kind is Other
            && !rest[i].text@.contains(' ') by {
            assert(rest[i] == tokens[i]);
        }
        law_tokens_read_back(rest);
        let before = tokens_text(rest);
        lemma_words_of_text(before, last.text@);
        let printed = tokens_text(tokens);
        assert(printed =~= (before + last.text@).push(' '));
        assert(printed.drop_last() =~= before + last.text@);
        assert(words(before).1 + last.text@ =~= last.text@);
        assert(read =~= Seq::new(rest.len(), |i: int| rest[i].text@).push(last.text@));
    } else {
        assert(words(tokens_text(tokens)).0 =~= read);
    }
}

/// The course of a run in which every step can be performed, whatever the tokens: the
/// source is resolved, opened, preprocessed and printed, errors are reported, and the
/// run is concluded and ends, with errors if and only if there were any.
pub proof fn law_course_of_an_expansion(
    steps: Seq<ExpandStepView>,
    events: Seq<ExpandEvent>,
    tokens: Vec<Token>,
    has_errors: bool,
)
    requires
        is_expansion(steps, events),
        events.len() == 6,
        events[0] is InputResolved,
        events[1] is SourceOpened,
        events[2] == (ExpandEvent::Preprocessed { tokens }),
        events[3] is Printed,
        events[4] == (ExpandEvent::Diagnosed { has_errors }),
        events[5] is Concluded,
    ensures
        steps[0] is ResolveInput,
        steps[1] is OpenSource,
        steps[2] is Preprocess,
        steps[3] == ExpandStepView::Print(tokens_text(tokens@) + seq!['\n']),
        steps[4] is Diagnose,
        steps[5] == ExpandStepView::Conclude(has_errors),
        has_errors ==> steps[6] == ExpandStepView::Finished(None),
        !has_errors ==> steps[6] == ExpandStepView::Finished(Some(Seq::empty())),
{
    assert(steps[0int + 1] == next_expand_step(steps[0], events[0]));
    assert(steps[1int + 1] == next_expand_step(steps[1], events[1]));
    assert(steps[2int + 1] == next_expand_step(steps[2], events[2]));
    assert(steps[3int + 1] == next_expand_step(steps[3], events[3]));
    assert(steps[4int + 1] == next_expand_step(steps[4], events[4]));
    assert(steps[5int + 1] == next_expand_step(steps[5], events[5]));
    assert(source_text(tokens@) =~= tokens_text(tokens@) + seq!['\n']);
}

/// Resolving and opening the source, printing, and telling how the run went can fail,
/// whatever is printed or told; nothing else can.
pub proof fn law_what_can_fail_in_an_expansion(step: ExpandStepView)
    ensures
        step is ResolveInput ==> expand_failure(step) == Some(Failure::Input),
        step is OpenSource ==> expand_failure(step) == Some(Failure::Source),
        step is Print ==> expand_failure(step) == Some(Failure::Printing),
        step is Conclude ==> expand_failure(step) == Some(Failure::Announcement),
        step is Preprocess || step is Diagnose || step is Finished || step is Failed
            ==> expand_failure(step) is None,
{
}

/// A step is read as it is, and its text by what it holds.
pub proof fn law_expansion_is_read_as_it_is(step: ExpandStep)
    ensures
        step matches ExpandStep::Print { text } ==> step@ == ExpandStepView::Print(text@),
        step matches ExpandStep::Conclude { has_errors } ==> step@ == ExpandStepView::Conclude(
            has_errors,
        ),
        step matches ExpandStep::Failed { failure } ==> step@ == ExpandStepView::Failed(failure),
        step is Finished && step->termination is FatalDiagnostic <==> step@
            == ExpandStepView::Finished(None),
        step is Preprocess <==> step@ is Preprocess,
        step is Diagnose <==> step@ is Diagnose,
{
}

} // verus!
