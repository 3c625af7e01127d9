//! One run of the tool, from what was asked for to the last example that is
//! run. The run itself reads and writes nothing: it says what is to be done
//! next, and is told how that went.
use vstd::prelude::*;
use crate::cache::save_last_replay;
use crate::constants::{CARGO_CMD, SEPARATOR};
use crate::models::args::{Args, ArgsView};
use crate::models::cache::{LastRunView, ReplayConfig, ReplayConfigView};
use crate::models::catalog::{names_in_order, Catalog};
use crate::models::example::ExampleFileView;
use crate::run_ext::{command_line_text, invocation_args, Invocation, RunExampleExt};
use crate::text::{
    from_chars, lemma_line_len, lemma_texts_push, line_len, texts, to_chars, trim_end,
    trim_end_of,
};
use crate::types::{Failure, FailureView};

verus! {

/// The error of `shellwords`, which holds nothing.
#[verifier::external_type_specification]
#[verifier::external_body]
pub struct ExMismatchedQuotes(shellwords::MismatchedQuotes);

/// The words that `shellwords` splits a line into, as a shell would; `None`
/// where a quote in the line is never closed.
pub uninterp spec fn shell_words(line: Seq<char>) -> Option<Seq<Seq<char>>>;

/// `shellwords::split`: splits a line into words the way the Bourne shell
/// does, by quotes and backslashes, or reports mismatched quotes. The
/// outcome is named [`shell_words`].
#[verifier::external_body]
fn split_words(line: &str) -> (r: Result<Vec<String>, shellwords::MismatchedQuotes>)
    ensures
        match r {
            Ok(words) => shell_words(line@) == Some(texts(words@)),
            Err(_) => shell_words(line@) is None,
        },
{
    shellwords::split(line)
}

/// The arguments for an example, behind the word that parts them from the
/// options of `cargo`.
pub open spec fn with_separator(arguments: Seq<Seq<char>>) -> Seq<Seq<char>> {
    seq![SEPARATOR@] + arguments
}

/// The arguments that a typed line stands for: its words as a shell would
/// split them, without regard to white space at its end, behind the
/// separator.
pub open spec fn typed_arguments(line: Seq<char>) -> Option<Seq<Seq<char>>> {
    match shell_words(trim_end_of(line)) {
        Some(words) => Some(with_separator(words)),
        None => None,
    }
}

/// Puts the separator before the arguments.
pub fn separated(arguments: &Vec<String>) -> (r: Vec<String>)
    ensures
        texts(r@) == with_separator(texts(arguments@)),
{
    let mut r: Vec<String> = Vec::new();
    r.push(SEPARATOR.to_owned());
    let mut i: usize = 0;
    assert(texts(r@) =~= seq![SEPARATOR@] + texts(arguments@).take(0));
    while i < arguments.len()
        invariant
            i <= arguments.len(),
            texts(r@) == seq![SEPARATOR@] + texts(arguments@).take(i as int),
        decreases arguments.len() - i,
    {
        let one = arguments[i].clone();
        proof {
            lemma_texts_push(r@, one);
            assert((seq![SEPARATOR@] + texts(arguments@).take(i as int)).push(one@) =~= seq![
                SEPARATOR@,
            ] + texts(arguments@).take(i + 1));
        }
        r.push(one);
        i += 1;
    }
    assert(texts(arguments@).take(i as int) =~= texts(arguments@));
    r
}

/// Splits the line that the user typed into the arguments for the example.
///
/// # Errors
/// `MismatchedQuotes` where a quote in the line is never closed.
pub fn prompted_arguments(line: &str) -> (r: Result<Vec<String>, Failure>)
    ensures
        match r {
            Ok(arguments) => typed_arguments(line@) == Some(texts(arguments@)),
            Err(e) => typed_arguments(line@) is None && e@ == FailureView::MismatchedQuotes,
        },
{
    let trimmed = trim_end(line);
    match split_words(trimmed.as_str()) {
        Ok(words) => Ok(separated(&words)),
        Err(_) => Err(Failure::MismatchedQuotes),
    }
}

/// What the selector wrote, piece by piece: each piece ends with a line
/// feed, which is no part of it; the last piece needs none.
pub open spec fn pieces_of(s: Seq<char>) -> Seq<Seq<char>>
    decreases s.len(),
{
    if s.len() == 0 {
        Seq::empty()
    } else {
        let n = line_len(s) as int;
        if n < s.len() {
            seq![s.take(n)] + pieces_of(s.skip(n + 1))
        } else {
            seq![s]
        }
    }
}

/// The names that the user chose, from what the selector wrote: one name
/// on each line, in the order of choice.
pub fn chosen_names(output: &str) -> (r: Vec<String>)
    ensures
        texts(r@) == pieces_of(output@),
{
    let chars = to_chars(output);
    let mut r: Vec<String> = Vec::new();
    let mut start: usize = 0;
    proof {
        assert(chars@.skip(0) =~= chars@);
        assert(texts(r@) + pieces_of(chars@) =~= pieces_of(chars@));
    }
    while start < chars.len()
        invariant
            start <= chars.len(),
            texts(r@) + pieces_of(chars@.skip(start as int)) == pieces_of(chars@),
        decreases chars.len() - start,
    {
        let ghost rest = chars@.skip(start as int);
        let ghost before = texts(r@);
        let mut end: usize = start;
        while end < chars.len() && chars[end] != '\n'
            invariant
                start <= end <= chars.len(),
                forall|j: int| start <= j < end ==> chars@[j] != '\n',
            decreases chars.len() - end,
        {
            end += 1;
        }
        let piece = from_chars(&chars, start, end);
        proof {
            assert forall|j: int| 0 <= j < end - start implies rest[j] != '\n' by {
                assert(rest[j] == chars@[start + j]);
            }
            lemma_line_len(rest, end - start);
            assert(piece@ =~= rest.take(end - start));
            lemma_texts_push(r@, piece);
        }
        r.push(piece);
        if end < chars.len() {
            proof {
                assert(rest.skip(end - start + 1) =~= chars@.skip(end + 1));
                assert(before.push(piece@) + pieces_of(chars@.skip(end + 1)) =~= before + (seq![
                    piece@,
                ] + pieces_of(rest.skip(end - start + 1))));
            }
            start = end + 1;
        } else {
            proof {
                assert(piece@ =~= rest);
                assert(chars@.skip(end as int).len() == 0);
                assert(before.push(piece@) + pieces_of(chars@.skip(end as int)) =~= before
                    + seq![rest]);
            }
            start = end;
        }
    }
    assert(texts(r@) + pieces_of(chars@.skip(start as int)) =~= texts(r@));
    r
}

/// How far a run has come.
#[derive(Clone, Copy, Debug, PartialEq, Eq, Structural)]
pub enum Phase {
    /// Nothing has happened yet.
    Ready,
    /// The record of the last run is being read.
    AwaitingReplay,
    /// The user is choosing among the examples.
    AwaitingSelection,
    /// The user is typing arguments.
    AwaitingLine,
    /// The record of this run is being written.
    AwaitingSave,
    /// The example at this place among the chosen is running.
    Running(usize),
    /// The run is over.
    Done,
}

/// How the build tool fared with one example.
#[derive(Clone, Debug, PartialEq, Eq)]
pub enum Outcome {
    /// It ran and reported success.
    Succeeded,
    /// It ran and reported a failure.
    Failed,
    /// It could not be started; the text says why.
    NotStarted(String),
    /// It was started, and waiting for it failed; the text says why.
    Lost(String),
}

/// The mathematical content of an [`Outcome`].
pub enum OutcomeView {
    Succeeded,
    Failed,
    NotStarted(Seq<char>),
    Lost(Seq<char>),
}

impl View for Outcome {
    type V = OutcomeView;

    open spec fn view(&self) -> OutcomeView {
        match self {
            Outcome::Succeeded => OutcomeView::Succeeded,
            Outcome::Failed => OutcomeView::Failed,
            Outcome::NotStarted(text) => OutcomeView::NotStarted(text@),
            Outcome::Lost(text) => OutcomeView::Lost(text@),
        }
    }
}

/// What has happened since the run last said what to do.
#[derive(Debug, PartialEq, Eq)]
pub enum Event {
    /// The run is to begin.
    Begin,
    /// The record of the last run was looked for: what it holds, or `None`
    /// where it is missing or cannot be understood.
    ReplayLoaded(Option<ReplayConfig>),
    /// The user has chosen these examples, in this order; or `None`: the
    /// user has left the selector without choosing.
    Selected(Option<Vec<String>>),
    /// The line that the user typed, or the text of the error of reading it.
    LineRead(Result<String, String>),
    /// The record of this run was written, or the text of the error.
    Saved(Result<(), String>),
    /// The build tool is through with the example that was to be run.
    Ran(Outcome),
}

/// The mathematical content of an [`Event`].
pub enum EventView {
    Begin,
    ReplayLoaded(Option<ReplayConfigView>),
    Selected(Option<Seq<Seq<char>>>),
    LineRead(Result<Seq<char>, Seq<char>>),
    Saved(Result<(), Seq<char>>),
    Ran(OutcomeView),
}

impl View for Event {
    type V = EventView;

    open spec fn view(&self) -> EventView {
        match self {
            Event::Begin => EventView::Begin,
            Event::ReplayLoaded(stored) => EventView::ReplayLoaded(
                match stored {
                    Some(config) => Some(config@),
                    None => None,
                },
            ),
            Event::Selected(chosen) => EventView::Selected(
                match chosen {
                    Some(names) => Some(texts(names@)),
                    None => None,
                },
            ),
            Event::LineRead(line) => EventView::LineRead(
                match line {
                    Ok(text) => Ok(text@),
                    Err(text) => Err(text@),
                },
            ),
            Event::Saved(done) => EventView::Saved(
                match done {
                    Ok(_) => Ok(()),
                    Err(text) => Err(text@),
                },
            ),
            Event::Ran(outcome) => EventView::Ran(outcome@),
        }
    }
}

/// The mathematical content of an [`Invocation`].
pub struct InvocationView {
    pub program: Seq<char>,
    pub working_dir: Seq<char>,
    pub arguments: Seq<Seq<char>>,
    pub display: Seq<char>,
}

impl View for Invocation {
    type V = InvocationView;

    open spec fn view(&self) -> InvocationView {
        InvocationView {
            program: self.program@,
            working_dir: self.working_dir@,
            arguments: texts(self.arguments@),
            display: self.display@,
        }
    }
}

/// What is to be done next.
#[derive(Debug, PartialEq, Eq)]
pub enum Action {
    /// Read the record of the last run.
    LoadReplay,
    /// Let the user choose among these names, listed in this order.
    Select(Vec<String>),
    /// Ask the user for arguments, and read one line.
    Prompt,
    /// Write this record in place of that of the last run.
    Save(ReplayConfig),
    /// Start this command, and wait until it is through.
    Run(Invocation),
    /// Nothing more: the run is over, and this is how it went.
    Finish(Result<(), Failure>),
}

/// The mathematical content of an [`Action`].
pub enum ActionView {
    LoadReplay,
    Select(Seq<Seq<char>>),
    Prompt,
    Save(ReplayConfigView),
    Run(InvocationView),
    Finish(Result<(), FailureView>),
}

impl View for Action {
    type V = ActionView;

    open spec fn view(&self) -> ActionView {
        match self {
            Action::LoadReplay => ActionView::LoadReplay,
            Action::Select(names) => ActionView::Select(texts(names@)),
            Action::Prompt => ActionView::Prompt,
            Action::Save(record) => ActionView::Save(record@),
            Action::Run(invocation) => ActionView::Run(invocation@),
            Action::Finish(result) => ActionView::Finish(
                match result {
                    Ok(_) => Ok(()),
                    Err(e) => Err(e@),
                },
            ),
        }
    }
}

/// One run of the tool.
#[derive(Debug)]
pub struct Session {
    /// What was asked for
    pub args: Args,
    /// The root of the project, in which the examples are run
    pub root_path: String,
    /// The examples of the project
    pub files: Catalog,
    /// Whether the examples behind one that failed are still run
    pub keep_going: bool,
    /// The examples to run, in order
    pub examples: Vec<String>,
    /// The arguments that each of them is run with
    pub arguments: Vec<String>,
    /// How far the run has come
    pub phase: Phase,
    /// The first failure that the run has met
    pub failure: Option<Failure>,
}

/// The mathematical content of a [`Session`].
pub struct SessionView {
    pub args: ArgsView,
    pub root_path: Seq<char>,
    pub files: Map<Seq<char>, ExampleFileView>,
    pub keep_going: bool,
    pub examples: Seq<Seq<char>>,
    pub arguments: Seq<Seq<char>>,
    pub phase: Phase,
    pub failure: Option<FailureView>,
}

impl View for Session {
    type V = SessionView;

    open spec fn view(&self) -> SessionView {
        SessionView {
            args: self.args@,
            root_path: self.root_path@,
            files: self.files@,
            keep_going: self.keep_going,
            examples: texts(self.examples@),
            arguments: texts(self.arguments@),
            phase: self.phase,
            failure: match self.failure {
                Some(e) => Some(e@),
                None => None,
            },
        }
    }
}

/// The features that the catalog requires for the example of this name;
/// none for a name that the catalog does not know.
pub open spec fn required_for(
    files: Map<Seq<char>, ExampleFileView>,
    name: Seq<char>,
) -> Option<Seq<char>> {
    if files.dom().contains(name) {
        files[name].required_features
    } else {
        None
    }
}

/// The command that runs the example `name` in this run.
pub open spec fn invocation_of(s: SessionView, name: Seq<char>) -> InvocationView {
    let arguments = invocation_args(s.args.cargo, name, s.arguments, required_for(s.files, name));
    InvocationView {
        program: CARGO_CMD@,
        working_dir: s.root_path,
        arguments,
        display: command_line_text(arguments),
    }
}

/// The run ends here with this failure.
pub open spec fn failed(s: SessionView, failure: FailureView) -> (SessionView, ActionView) {
    (
        SessionView { phase: Phase::Done, failure: Some(failure), ..s },
        ActionView::Finish(Err(failure)),
    )
}

/// How a run ends that has met this failure, or none.
pub open spec fn verdict(failure: Option<FailureView>) -> Result<(), FailureView> {
    match failure {
        Some(e) => Err(e),
        None => Ok(()),
    }
}

/// The chosen example at place `next` is run; behind the last of them the
/// run is over, and ends with the first failure that it has met.
pub open spec fn run_from(s: SessionView, next: int) -> (SessionView, ActionView) {
    if 0 <= next < s.examples.len() && next <= usize::MAX {
        (
            SessionView { phase: Phase::Running(next as usize), ..s },
            ActionView::Run(invocation_of(s, s.examples[next])),
        )
    } else {
        (SessionView { phase: Phase::Done, ..s }, ActionView::Finish(verdict(s.failure)))
    }
}

/// With the examples and their arguments settled, the first of the examples
/// goes on record with the arguments; where there is no example, nothing is
/// recorded, and nothing is run.
pub open spec fn record(s: SessionView) -> (SessionView, ActionView) {
    if s.examples.len() > 0 {
        (
            SessionView { phase: Phase::AwaitingSave, ..s },
            ActionView::Save(
                ReplayConfigView {
                    last_run: LastRunView { name: s.examples[0], arguments: s.arguments },
                },
            ),
        )
    } else {
        run_from(s, 0)
    }
}

/// With the examples chosen, their arguments are settled: those given
/// behind the separator, if any; else those that the user types, where that
/// was asked for; else none.
pub open spec fn settle_arguments(s: SessionView) -> (SessionView, ActionView) {
    if s.args.args.len() > 0 {
        record(SessionView { arguments: with_separator(s.args.args), ..s })
    } else if s.args.input_args {
        (SessionView { phase: Phase::AwaitingLine, ..s }, ActionView::Prompt)
    } else {
        record(SessionView { arguments: Seq::empty(), ..s })
    }
}

/// How a run begins: with a replay, by reading the record of the last run;
/// with a name, by taking that name as it is; otherwise by letting the user
/// choose among the names of the catalog, in ascending order.
pub open spec fn begin(s: SessionView) -> (SessionView, ActionView) {
    if s.args.replay {
        (SessionView { phase: Phase::AwaitingReplay, ..s }, ActionView::LoadReplay)
    } else {
        match s.args.name {
            Some(name) => settle_arguments(SessionView { examples: seq![name], ..s }),
            None => (
                SessionView { phase: Phase::AwaitingSelection, ..s },
                ActionView::Select(names_in_order(s.files)),
            ),
        }
    }
}

/// The failure that an outcome is for the example `name`, if it is one.
pub open spec fn failure_of(outcome: OutcomeView, name: Seq<char>) -> Option<FailureView> {
    match outcome {
        OutcomeView::Succeeded => None,
        OutcomeView::Failed => Some(FailureView::ProcessFailure(name)),
        OutcomeView::NotStarted(text) => Some(FailureView::SpawnFailure(text)),
        OutcomeView::Lost(text) => Some(FailureView::Io(text)),
    }
}

/// The first of two failures.
pub open spec fn first_of(earlier: Option<FailureView>, later: Option<FailureView>) -> Option<
    FailureView,
> {
    match earlier {
        Some(e) => Some(e),
        None => later,
    }
}

/// After the example at place `at` has run: the failure is kept if it is
/// the first; the run ends there if it is not to go on after a failure; else
/// the next example is run.
pub open spec fn after_run(s: SessionView, at: int, outcome: OutcomeView) -> (
    SessionView,
    ActionView,
) {
    if 0 <= at < s.examples.len() {
        let this = failure_of(outcome, s.examples[at]);
        let kept = SessionView { failure: first_of(s.failure, this), ..s };
        if this is Some && !s.keep_going {
            (SessionView { phase: Phase::Done, ..kept }, ActionView::Finish(verdict(kept.failure)))
        } else {
            run_from(kept, at + 1)
        }
    } else {
        failed(s, FailureView::UnexpectedEvent)
    }
}

/// The step that a run takes on an event: the state it is in afterwards,
/// and what is to be done next. An event that the run is not waiting for
/// ends it.
pub open spec fn step(s: SessionView, event: EventView) -> (SessionView, ActionView) {
    match (s.phase, event) {
        (Phase::Ready, EventView::Begin) => begin(s),
        (Phase::AwaitingReplay, EventView::ReplayLoaded(Some(record))) => run_from(
            SessionView {
                examples: seq![record.last_run.name],
                arguments: record.last_run.arguments,
                ..s
            },
            0,
        ),
        (Phase::AwaitingReplay, EventView::ReplayLoaded(None)) => failed(
            s,
            FailureView::ReplayUnavailable,
        ),
        (Phase::AwaitingSelection, EventView::Selected(Some(names))) => settle_arguments(
            SessionView { examples: names, ..s },
        ),
        (Phase::AwaitingSelection, EventView::Selected(None)) => (
            SessionView { phase: Phase::Done, ..s },
            ActionView::Finish(Ok(())),
        ),
        (Phase::AwaitingLine, EventView::LineRead(Ok(line))) => match typed_arguments(line) {
            Some(arguments) => record(SessionView { arguments, ..s }),
            None => failed(s, FailureView::MismatchedQuotes),
        },
        (Phase::AwaitingLine, EventView::LineRead(Err(text))) => failed(s, FailureView::Io(text)),
        (Phase::AwaitingSave, EventView::Saved(Ok(_))) => run_from(s, 0),
        (Phase::AwaitingSave, EventView::Saved(Err(text))) => failed(s, FailureView::Io(text)),
        (Phase::Running(at), EventView::Ran(outcome)) => after_run(s, at as int, outcome),
        _ => failed(s, FailureView::UnexpectedEvent),
    }
}

impl Session {
    /// A run that has not begun: for these arguments, in the project at
    /// `root_path`, over these examples. It goes on after an example that
    /// failed.
    pub fn new(args: Args, root_path: String, files: Catalog) -> (r: Session)
        ensures
            r@ == (SessionView {
                args: args@,
                root_path: root_path@,
                files: files@,
                keep_going: true,
                examples: Seq::empty(),
                arguments: Seq::empty(),
                phase: Phase::Ready,
                failure: None,
            }),
    {
        let r = Session {
            args,
            root_path,
            files,
            keep_going: true,
            examples: Vec::new(),
            arguments: Vec::new(),
            phase: Phase::Ready,
            failure: None,
        };
        assert(r@.examples =~= Seq::empty());
        assert(r@.arguments =~= Seq::empty());
        r
    }

    fn fail(&mut self, failure: Failure) -> (r: Action)
        ensures
            (final(self)@, r@) == failed(old(self)@, failure@),
    {
        self.phase = Phase::Done;
        self.failure = Some(failure.duplicate());
        Action::Finish(Err(failure))
    }

    fn finish(&mut self) -> (r: Action)
        ensures
            final(self)@ == (SessionView { phase: Phase::Done, ..old(self)@ }),
            r@ == ActionView::Finish(verdict(old(self)@.failure)),
    {
        self.phase = Phase::Done;
        match &self.failure {
            Some(e) => Action::Finish(Err(e.duplicate())),
            None => Action::Finish(Ok(())),
        }
    }

    fn run_from(&mut self, next: usize) -> (r: Action)
        ensures
            (final(self)@, r@) == run_from(old(self)@, next as int),
    {
        if next < self.examples.len() {
            let name = self.examples[next].as_str();
            assert(texts(self.examples@)[next as int] == name@);
            let required: Option<&String> = match self.files.get(name) {
                Some(file) => match &file.required_features {
                    Some(features) => Some(features),
                    None => None,
                },
                None => None,
            };
            let invocation = self.args.cargo.run_example(
                self.root_path.as_str(),
                name,
                &self.arguments,
                required,
            );
            self.phase = Phase::Running(next);
            Action::Run(invocation)
        } else {
            self.finish()
        }
    }

    fn record(&mut self) -> (r: Action)
        ensures
            (final(self)@, r@) == record(old(self)@),
    {
        if self.examples.len() > 0 {
            assert(texts(self.examples@)[0] == self.examples@[0]@);
            let saved = save_last_replay(self.examples[0].as_str(), &self.arguments);
            self.phase = Phase::AwaitingSave;
            Action::Save(saved)
        } else {
            self.run_from(0)
        }
    }

    fn settle_arguments(&mut self) -> (r: Action)
        ensures
            (final(self)@, r@) == settle_arguments(old(self)@),
    {
        if self.args.args.len() > 0 {
            self.arguments = separated(&self.args.args);
            self.record()
        } else if self.args.input_args {
            self.phase = Phase::AwaitingLine;
            Action::Prompt
        } else {
            self.arguments = Vec::new();
            assert(texts(self.arguments@) =~= Seq::<Seq<char>>::empty());
            self.record()
        }
    }

    fn begin(&mut self) -> (r: Action)
        ensures
            (final(self)@, r@) == begin(old(self)@),
    {
        if self.args.replay {
            self.phase = Phase::AwaitingReplay;
            Action::LoadReplay
        } else {
            let named = match &self.args.name {
                Some(name) => Some(name.clone()),
                None => None,
            };
            match named {
                Some(name) => {
                    let mut examples: Vec<String> = Vec::new();
                    examples.push(name);
                    assert(texts(examples@) =~= seq![name@]);
                    self.examples = examples;
                    self.settle_arguments()
                },
                None => {
                    let names = self.files.names();
                    self.phase = Phase::AwaitingSelection;
                    Action::Select(names)
                },
            }
        }
    }

    fn after_run(&mut self, at: usize, outcome: Outcome) -> (r: Action)
        ensures
            (final(self)@, r@) == after_run(old(self)@, at as int, outcome@),
    {
        if at < self.examples.len() {
            assert(texts(self.examples@)[at as int] == self.examples@[at as int]@);
            let this = match outcome {
                Outcome::Succeeded => None,
                Outcome::Failed => Some(Failure::ProcessFailure(self.examples[at].clone())),
                Outcome::NotStarted(text) => Some(Failure::SpawnFailure(text)),
                Outcome::Lost(text) => Some(Failure::Io(text)),
            };
            let stop = this.is_some() && !self.keep_going;
            if self.failure.is_none() {
                self.failure = this;
            }
            if stop {
                self.finish()
            } else if at < usize::MAX {
                self.run_from(at + 1)
            } else {
                self.finish()
            }
        } else {
            self.fail(Failure::UnexpectedEvent)
        }
    }

    /// Takes the step that the event calls for, and says what is to be done
    /// next.
    pub fn advance(&mut self, event: Event) -> (r: Action)
        ensures
            (final(self)@, r@) == step(old(self)@, event@),
    {
        match (self.phase, event) {
            (Phase::Ready, Event::Begin) => self.begin(),
            (Phase::AwaitingReplay, Event::ReplayLoaded(Some(record))) => {
                let mut examples: Vec<String> = Vec::new();
                examples.push(record.last_run.name);
                assert(texts(examples@) =~= seq![record.last_run.name@]);
                self.examples = examples;
                self.arguments = record.last_run.arguments;
                self.run_from(0)
            },
            (Phase::AwaitingReplay, Event::ReplayLoaded(None)) => self.fail(
                Failure::ReplayUnavailable,
            ),
            (Phase::AwaitingSelection, Event::Selected(Some(names))) => {
                self.examples = names;
                self.settle_arguments()
            },
            (Phase::AwaitingSelection, Event::Selected(None)) => {
                self.phase = Phase::Done;
                Action::Finish(Ok(()))
            },
            (Phase::AwaitingLine, Event::LineRead(Ok(line))) => {
                match prompted_arguments(line.as_str()) {
                    Ok(arguments) => {
                        self.arguments = arguments;
                        self.record()
                    },
                    Err(e) => self.fail(e),
                }
            },
            (Phase::AwaitingLine, Event::LineRead(Err(text))) => self.fail(Failure::Io(text)),
            (Phase::AwaitingSave, Event::Saved(Ok(_))) => self.run_from(0),
            (Phase::AwaitingSave, Event::Saved(Err(text))) => self.fail(Failure::Io(text)),
            (Phase::Running(at), Event::Ran(outcome)) => self.after_run(at, outcome),
            _ => self.fail(Failure::UnexpectedEvent),
        }
    }
}

/// Processes an input to *select or run* an **example** in a Cargo
/// project: begins the run for these arguments over the examples of the
/// project, and says what is to be done first.
pub fn process_input(args: Args, root_path: String, files: Catalog) -> (r: (Session, Action))
    ensures
        (r.0@, r.1@) == step(
            SessionView {
                args: args@,
                root_path: root_path@,
                files: files@,
                keep_going: true,
                examples: Seq::empty(),
                arguments: Seq::empty(),
                phase: Phase::Ready,
                failure: None,
            },
            EventView::Begin,
        ),
{
    let mut session = Session::new(args, root_path, files);
    let action = session.advance(Event::Begin);
    (session, action)
}

/// A run that replays is only ever about to begin, reading the record,
/// running an example, or over.
pub open spec fn replaying(s: SessionView) -> bool {
    s.args.replay && (s.phase == Phase::Ready || s.phase == Phase::AwaitingReplay || s.phase
        == Phase::Done || s.phase matches Phase::Running(_))
}

/// A run that is over stays over: whatever happens, it starts nothing.
pub proof fn lemma_done_is_final(s: SessionView, event: EventView)
    requires
        s.phase == Phase::Done,
    ensures
        step(s, event).0.phase == Phase::Done,
        step(s, event).1 is Finish,
{
}

/// A replay for which no record is found ends with `ReplayUnavailable`, and
/// starts no command: neither before the record was looked for, nor after.
pub proof fn lemma_replay_without_record(s: SessionView, later: EventView)
    requires
        s.phase == Phase::Ready,
        s.args.replay,
    ensures
        step(s, EventView::Begin).1 == ActionView::LoadReplay,
        step(step(s, EventView::Begin).0, EventView::ReplayLoaded(None)).1 == ActionView::Finish(
            Err(FailureView::ReplayUnavailable),
        ),
        step(
            step(step(s, EventView::Begin).0, EventView::ReplayLoaded(None)).0,
            later,
        ).1 is Finish,
{
}

/// A replay writes no record, and asks the user nothing.
pub proof fn lemma_replay_never_writes(s: SessionView, event: EventView)
    requires
        replaying(s),
    ensures
        replaying(step(s, event).0),
        !(step(s, event).1 is Save),
        !(step(s, event).1 is Select),
        !(step(s, event).1 is Prompt),
{
}

/// A run that is no replay starts no command before its record is written:
/// until then each step asks for something else, or ends the run.
pub proof fn lemma_record_comes_before_run(s: SessionView, event: EventView)
    requires
        !s.args.replay,
        s.phase == Phase::Ready || s.phase == Phase::AwaitingSelection || s.phase
            == Phase::AwaitingLine,
    ensures
        !(step(s, event).1 is Run),
{
}

/// What one run records, a replay runs again: the record holds the first
/// of the chosen examples and the arguments of the run, and a replay that
/// loads this record runs that example, with those arguments.
pub proof fn lemma_recorded_run_is_replayed(recording: SessionView, replay: SessionView)
    requires
        recording.examples.len() > 0,
        replay.phase == Phase::AwaitingReplay,
    ensures
        record(recording).1 matches ActionView::Save(saved) && saved.last_run.name
            == recording.examples[0] && saved.last_run.arguments == recording.arguments && ({
            let next = step(replay, EventView::ReplayLoaded(Some(saved)));
            &&& next.0.examples == seq![recording.examples[0]]
            &&& next.0.arguments == recording.arguments
            &&& next.1 matches ActionView::Run(command) && command.arguments == invocation_args(
                replay.args.cargo,
                recording.examples[0],
                recording.arguments,
                required_for(replay.files, recording.examples[0]),
            )
        }),
{
}

} // verus!
