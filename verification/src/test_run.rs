//! The regression run over one test case, as a machine of states. The run
//! itself parses nothing and touches no file: it says what is to be done
//! next, takes in what came of it, and in the end hands out the result.

use crate::buffer::{extended_by_message, rendered_entries, reversed};
use crate::errors::{LeoError, LeoOrString};
use crate::handler::Handler;
use crate::hash::{content_hash, hash_content};
use crate::inputs::{all_input_paths, collect_all_inputs, resolve_cwd, working_dir, Test};
use crate::output::{item_texts, no_input_item, no_input_marker, CompileOutput, CompileOutputView, OutputItem};
use crate::source_map::{FileName, FileNameView};
use crate::symbol_table::{render, SymbolTable};
use crate::text::{join_lines, texts};
use vstd::prelude::*;
use vstd::string::*;

verus! {

/// The name that a program goes by where the test names no directory.
pub open spec fn default_program_name() -> Seq<char> {
    "compiler-test"@
}

/// The path that the compiler is given for the program: the test's working
/// directory, or the default name where it has none.
pub open spec fn program_path(cwd: Option<Seq<char>>) -> Seq<char> {
    match cwd {
        Some(dir) => dir,
        None => default_program_name(),
    }
}

/// The name under which the program's text is registered: a real file's
/// where the test has a working directory, a label where it has none.
pub open spec fn program_name(cwd: Option<Seq<char>>) -> FileNameView {
    match cwd {
        Some(dir) => FileNameView::Real(dir),
        None => FileNameView::Custom(default_program_name()),
    }
}

/// How the program of a test is presented to the compiler.
#[derive(Clone, Debug, PartialEq, Eq)]
pub struct ProgramSource {
    pub main_file_path: String,
    pub name: FileName,
}

/// How to present a program that is to be compiled in `cwd`.
pub fn program_source(cwd: Option<String>) -> (program: ProgramSource)
    ensures
        match cwd {
            Some(dir) => program.main_file_path@ == program_path(Some(dir@)) && program.name@
                == program_name(Some(dir@)),
            None => program.main_file_path@ == program_path(None) && program.name@
                == program_name(None),
        },
{
    match cwd {
        Some(dir) => ProgramSource { main_file_path: dir.clone(), name: FileName::Real(dir) },
        None => ProgramSource {
            main_file_path: String::from_str("compiler-test"),
            name: FileName::Custom(String::from_str("compiler-test")),
        },
    }
}

/// Where a run stands.
#[derive(Clone, Copy, Debug, PartialEq, Eq, Structural)]
pub enum Stage {
    /// The program is to be parsed.
    Program,
    /// The next input file is to be parsed.
    Inputs,
    /// The passes are to be run.
    Stages,
    /// The parsed form of the program is to be read back.
    ProgramAst,
    /// All is done, and there is a result.
    Done,
    /// A step failed; its error is in the handler's log.
    Failed,
}

/// What the run asks to be done next.
#[derive(Clone, Debug, PartialEq, Eq)]
pub enum Request {
    /// Parse the program text `source` under `name`, with a compiler made for
    /// `main_file_path`.
    ParseProgram { source: String, main_file_path: String, name: FileName },
    /// Parse the input file at `path`, and read back the parsed form that
    /// the compiler wrote.
    ParseInput { path: String },
    /// Run the passes over the parsed program.
    RunStages,
    /// Read back the parsed form of the program, and clear the output
    /// directory.
    ReadProgramAst,
    /// Nothing: the run is over.
    Finished,
}

/// A request, as contracts see it.
pub enum RequestView {
    ParseProgram { source: Seq<char>, main_file_path: Seq<char>, name: FileNameView },
    ParseInput { path: Seq<char> },
    RunStages,
    ReadProgramAst,
    Finished,
}

impl View for Request {
    type V = RequestView;

    open spec fn view(&self) -> RequestView {
        match self {
            Request::ParseProgram { source, main_file_path, name } => RequestView::ParseProgram {
                source: source@,
                main_file_path: main_file_path@,
                name: name@,
            },
            Request::ParseInput { path } => RequestView::ParseInput { path: path@ },
            Request::RunStages => RequestView::RunStages,
            Request::ReadProgramAst => RequestView::ReadProgramAst,
            Request::Finished => RequestView::Finished,
        }
    }
}

/// What came of a request.
#[derive(Debug, PartialEq, Eq)]
pub enum Event {
    /// The program was parsed, or the parser gave an error.
    ProgramParsed(Result<(), LeoError>),
    /// An input file was parsed, and this is the text of its parsed form; or
    /// the parser gave an error.
    InputParsed(Result<String, LeoError>),
    /// The passes ran, and this is the symbol table that they built; or one
    /// of them gave an error.
    StagesRun(Result<SymbolTable, LeoError>),
    /// This is the text of the parsed form of the program.
    ProgramAstRead(String),
    /// What was asked for failed, and whoever tried has reported the error to
    /// the handler already: its log of errors is not empty.
    AlreadyReported,
}

impl Event {
    /// Whether this is what a run at `stage` waits for.
    pub open spec fn answers(&self, stage: Stage) -> bool {
        match self {
            Event::ProgramParsed(_) => stage == Stage::Program,
            Event::InputParsed(_) => stage == Stage::Inputs,
            Event::StagesRun(_) => stage == Stage::Stages,
            Event::ProgramAstRead(_) => stage == Stage::ProgramAst,
            Event::AlreadyReported => stage == Stage::Program || stage == Stage::Inputs || stage
                == Stage::Stages,
        }
    }

    /// Whether this is what a run at `stage` waits for.
    pub fn is_awaited(&self, stage: Stage) -> (awaited: bool)
        ensures
            awaited == self.answers(stage),
    {
        match self {
            Event::ProgramParsed(_) => stage == Stage::Program,
            Event::InputParsed(_) => stage == Stage::Inputs,
            Event::StagesRun(_) => stage == Stage::Stages,
            Event::ProgramAstRead(_) => stage == Stage::ProgramAst,
            Event::AlreadyReported => stage == Stage::Program || stage == Stage::Inputs || stage
                == Stage::Stages,
        }
    }

    /// Whether the event tells of a failure: it brings an error, or says
    /// that one was reported.
    pub open spec fn ends_run(&self) -> bool {
        self.failure() is Some || self is AlreadyReported
    }

    /// The error that the event brings, if it brings one.
    pub open spec fn failure(&self) -> Option<LeoError> {
        match self {
            Event::ProgramParsed(Err(err)) => Some(*err),
            Event::InputParsed(Err(err)) => Some(*err),
            Event::StagesRun(Err(err)) => Some(*err),
            _ => None,
        }
    }

    /// The text that the event brings: a parsed form, or the rendering of
    /// the symbol table; empty where it brings none.
    pub open spec fn text(&self) -> Seq<char> {
        match self {
            Event::InputParsed(Ok(text)) => text@,
            Event::StagesRun(Ok(table)) => render(table@),
            Event::ProgramAstRead(text) => text@,
            _ => Seq::empty(),
        }
    }
}

/// A run, as contracts see it.
pub struct TestRunView {
    pub stage: Stage,
    /// The program text.
    pub source: Seq<char>,
    /// The path that the compiler is made for.
    pub main_file_path: Seq<char>,
    /// The name under which the program text is registered.
    pub name: FileNameView,
    /// The paths of the input files, in the order in which the test names them.
    pub inputs: Seq<Seq<char>>,
    /// One entry for each input file handled so far: the hash of its parsed
    /// form. For a test without input files, the marker alone.
    pub output: Seq<Seq<char>>,
    /// The hash of the symbol table's rendering, once the passes have run.
    pub symbol_table: Seq<char>,
    /// The hash of the parsed program, once it was read back.
    pub initial_ast: Seq<char>,
}

/// The run of `test` before anything was done.
pub open spec fn initial_run(test: Test) -> TestRunView {
    TestRunView {
        stage: Stage::Program,
        source: test.content@,
        main_file_path: program_path(working_dir(test)),
        name: program_name(working_dir(test)),
        inputs: all_input_paths(test),
        output: Seq::empty(),
        symbol_table: Seq::empty(),
        initial_ast: Seq::empty(),
    }
}

/// What `run` asks to be done next.
pub open spec fn pending(run: TestRunView) -> RequestView {
    match run.stage {
        Stage::Program => RequestView::ParseProgram {
            source: run.source,
            main_file_path: run.main_file_path,
            name: run.name,
        },
        Stage::Inputs => RequestView::ParseInput { path: run.inputs[run.output.len() as int] },
        Stage::Stages => RequestView::RunStages,
        Stage::ProgramAst => RequestView::ReadProgramAst,
        Stage::Done => RequestView::Finished,
        Stage::Failed => RequestView::Finished,
    }
}

/// Whether `event` makes `run` fail: it is what the run waits for, and it
/// tells of a failure.
pub open spec fn fails(run: TestRunView, event: Event) -> bool {
    event.answers(run.stage) && event.ends_run()
}

/// The run after `event`. An event that the run does not wait for changes
/// nothing. One that tells of a failure ends the run as failed. Else:
/// once the program is parsed, the input files are next, and where there are
/// none, the marker is put in their place and the passes are next; each parsed
/// input adds its hash, and after the last one the passes are next; the passes
/// leave the hash of the symbol table; the parsed program leaves its hash, and
/// the run is done.
pub open spec fn step(run: TestRunView, event: Event) -> TestRunView {
    if !event.answers(run.stage) {
        run
    } else if event.ends_run() {
        TestRunView { stage: Stage::Failed, ..run }
    } else {
        match run.stage {
            Stage::Program => if run.inputs.len() == 0 {
                TestRunView { stage: Stage::Stages, output: seq![no_input_marker()], ..run }
            } else {
                TestRunView { stage: Stage::Inputs, ..run }
            },
            Stage::Inputs => TestRunView {
                stage: if run.output.len() + 1 >= run.inputs.len() {
                    Stage::Stages
                } else {
                    Stage::Inputs
                },
                output: run.output.push(content_hash(event.text())),
                ..run
            },
            Stage::Stages => TestRunView {
                stage: Stage::ProgramAst,
                symbol_table: content_hash(event.text()),
                ..run
            },
            Stage::ProgramAst => TestRunView {
                stage: Stage::Done,
                initial_ast: content_hash(event.text()),
                ..run
            },
            _ => run,
        }
    }
}

/// The run over one test case.
#[derive(Clone, Debug, PartialEq, Eq)]
pub struct TestRun {
    stage: Stage,
    source: String,
    program: ProgramSource,
    inputs: Vec<String>,
    output: Vec<OutputItem>,
    symbol_table: String,
    initial_ast: String,
}

impl View for TestRun {
    type V = TestRunView;

    closed spec fn view(&self) -> TestRunView {
        TestRunView {
            stage: self.stage,
            source: self.source@,
            main_file_path: self.program.main_file_path@,
            name: self.program.name@,
            inputs: texts(self.inputs@),
            output: item_texts(self.output@),
            symbol_table: self.symbol_table@,
            initial_ast: self.initial_ast@,
        }
    }
}

impl TestRun {
    /// Holds of every run that this module hands out: before the program is
    /// parsed there is no output yet, and while input files are being parsed,
    /// at least one is left.
    pub open spec fn wf(&self) -> bool {
        &&& self@.stage == Stage::Program ==> self@.output.len() == 0
        &&& self@.stage == Stage::Inputs ==> self@.output.len() < self@.inputs.len()
    }

    /// The run of `test`, before anything was done. The key `cwd` of the
    /// test, where it is there, must hold a string, and a list under
    /// `input_file` strings only.
    pub fn start(test: &Test) -> (run: TestRun)
        requires
            test.config.cwd is Some ==> test.config.cwd->Some_0 is Text,
            test.config.input_file is Some ==> test.config.input_file->Some_0.spec_names_only(),
        ensures
            run.wf(),
            run@ == initial_run(*test),
    {
        let cwd = resolve_cwd(test);
        let program = program_source(cwd);
        let inputs = match collect_all_inputs(test) {
            Ok(list) => list,
            Err(_) => Vec::new(),
        };
        let run = TestRun {
            stage: Stage::Program,
            source: test.content.clone(),
            program,
            inputs,
            output: Vec::new(),
            symbol_table: String::new(),
            initial_ast: String::new(),
        };
        assert(run@.output =~= Seq::<Seq<char>>::empty());
        run
    }

    /// Where the run stands.
    pub fn stage(&self) -> (stage: Stage)
        ensures
            stage == self@.stage,
    {
        self.stage
    }

    /// What the run asks to be done next.
    pub fn request(&self) -> (request: Request)
        requires
            self.wf(),
        ensures
            request@ == pending(self@),
    {
        match self.stage {
            Stage::Program => Request::ParseProgram {
                source: self.source.clone(),
                main_file_path: self.program.main_file_path.clone(),
                name: self.program.name.duplicate(),
            },
            Stage::Inputs => {
                let at = self.output.len();
                Request::ParseInput { path: self.inputs[at].clone() }
            },
            Stage::Stages => Request::RunStages,
            Stage::ProgramAst => Request::ReadProgramAst,
            Stage::Done => Request::Finished,
            Stage::Failed => Request::Finished,
        }
    }
}

/// The log of errors after `event` reached a run that stood as `run`: the
/// error that the event brings is added where the run waits for the event,
/// and nothing else is.
pub open spec fn log_after(log: Seq<LeoOrString>, run: TestRunView, event: Event) -> Seq<
    LeoOrString,
> {
    if event.answers(run.stage) && event.failure() is Some {
        log.push(LeoOrString::Leo(event.failure()->Some_0))
    } else {
        log
    }
}

impl TestRun {
    /// Takes in what came of the last request, and says what is to be done
    /// next. An error that ends the run is reported to `handler`; nothing
    /// else is reported, and no warning is touched. A run never fails in
    /// silence: an event that says that the error was reported already is
    /// taken in only with an error in the handler's log.
    pub fn advance(&mut self, handler: &mut Handler, event: Event) -> (request: Request)
        requires
            old(self).wf(),
            event is AlreadyReported && event.answers(old(self)@.stage) ==> old(
                handler,
            ).errors().len() > 0,
        ensures
            final(self).wf(),
            fails(old(self)@, event) ==> final(handler).errors().len() > 0,
            final(self)@ == step(old(self)@, event),
            request@ == pending(final(self)@),
            final(handler).errors() == log_after(old(handler).errors(), old(self)@, event),
            final(handler).warnings() == old(handler).warnings(),
            final(handler).is_live() == old(handler).is_live(),
            final(handler).pending() == if event.answers(old(self)@.stage)
                && event.failure() is Some {
                old(handler).queued(event.failure()->Some_0.spec_render())
            } else {
                old(handler).pending()
            },
    {
        match event {
            Event::ProgramParsed(parsed) => {
                if self.stage == Stage::Program {
                    match handler.extend_if_error(parsed) {
                        Ok(_) => {
                            if self.inputs.len() == 0 {
                                self.output.push(no_input_item());
                                self.stage = Stage::Stages;
                                assert(item_texts(self.output@) =~= seq![no_input_marker()]);
                            } else {
                                self.stage = Stage::Inputs;
                            }
                        },
                        Err(_) => {
                            self.stage = Stage::Failed;
                        },
                    }
                }
            },
            Event::InputParsed(parsed) => {
                if self.stage == Stage::Inputs {
                    match handler.extend_if_error(parsed) {
                        Ok(text) => {
                            let initial_input_ast = hash_content(text.as_str());
                            self.output.push(OutputItem { initial_input_ast });
                            assert(item_texts(self.output@) =~= item_texts(old(self).output@).push(
                                content_hash(text@),
                            ));
                            if self.output.len() >= self.inputs.len() {
                                self.stage = Stage::Stages;
                            }
                        },
                        Err(_) => {
                            self.stage = Stage::Failed;
                        },
                    }
                }
            },
            Event::StagesRun(ran) => {
                if self.stage == Stage::Stages {
                    match handler.extend_if_error(ran) {
                        Ok(table) => {
                            let text = table.render_canonical();
                            self.symbol_table = hash_content(text.as_str());
                            self.stage = Stage::ProgramAst;
                        },
                        Err(_) => {
                            self.stage = Stage::Failed;
                        },
                    }
                }
            },
            Event::ProgramAstRead(text) => {
                if self.stage == Stage::ProgramAst {
                    self.initial_ast = hash_content(text.as_str());
                    self.stage = Stage::Done;
                }
            },
            Event::AlreadyReported => {
                match self.stage {
                    Stage::Program => {
                        self.stage = Stage::Failed;
                    },
                    Stage::Inputs => {
                        self.stage = Stage::Failed;
                    },
                    Stage::Stages => {
                        self.stage = Stage::Failed;
                    },
                    _ => {},
                }
            },
        }
        self.request()
    }

    /// The result of a run that is done; none of any other.
    pub fn result(self) -> (out: Option<CompileOutput>)
        ensures
            out is Some <==> self@.stage == Stage::Done,
            out is Some ==> out->Some_0@ == result_of(self@),
    {
        match self.stage {
            Stage::Done => Some(
                CompileOutput {
                    output: self.output,
                    initial_ast: self.initial_ast,
                    symbol_table: self.symbol_table,
                },
            ),
            _ => None,
        }
    }

    /// Ends the run. One that is done gives its result, and leaves the
    /// handler alone. Any other gives the handler's log of errors as text,
    /// and takes that log with it. The text is never that of an empty log:
    /// where the run has not failed, or has failed and the log holds no
    /// error, a plain message that says so is logged first.
    pub fn finish(self, handler: &mut Handler) -> (out: Result<CompileOutput, String>)
        ensures
            final(handler).warnings() == old(handler).warnings(),
            final(handler).is_live() == old(handler).is_live(),
            match out {
                Ok(result) => {
                    &&& self@.stage == Stage::Done
                    &&& result@ == result_of(self@)
                    &&& final(handler).errors() == old(handler).errors()
                    &&& final(handler).pending() == old(handler).pending()
                },
                Err(text) => {
                    &&& self@.stage != Stage::Done
                    &&& text@ == join_lines(
                        closing_lines(
                            rendered_entries(old(handler).errors()),
                            self@.stage == Stage::Failed && old(handler).errors().len() > 0,
                            self@.stage,
                        ),
                    )
                    &&& final(handler).errors() == Seq::<LeoOrString>::empty()
                    &&& final(handler).pending() == if self@.stage == Stage::Failed && old(
                        handler,
                    ).errors().len() > 0 {
                        old(handler).pending()
                    } else {
                        old(handler).queued(closing_message(self@.stage))
                    }
                },
            },
    {
        let stage = self.stage;
        match self.result() {
            Some(result) => Ok(result),
            None => {
                if !(stage == Stage::Failed && handler.had_errors()) {
                    handler.emit_message(closing_text(stage));
                    proof {
                        assert(rendered_entries(handler.errors()) =~= rendered_entries(
                            old(handler).errors(),
                        ).push(closing_message(stage)));
                    }
                }
                let log = handler.take_errors();
                Err(log.to_string())
            },
        }
    }
}

/// What is logged for a run that ends without a result and without an error
/// to show for it: that it failed and its error was not handed on, or that
/// it ended before it was done.
pub open spec fn closing_message(stage: Stage) -> Seq<char> {
    if stage == Stage::Failed {
        "a step failed, and its error was not handed on"@
    } else {
        "the run ended before it was done"@
    }
}

/// The lines of a log when a run that stands at `stage` ends: the lines as
/// they are where the run is done, or has an error to show (`shown`); else
/// the lines and the message that says how the run ended.
pub open spec fn closing_lines(lines: Seq<Seq<char>>, shown: bool, stage: Stage) -> Seq<
    Seq<char>,
> {
    if stage == Stage::Done || shown {
        lines
    } else {
        lines.push(closing_message(stage))
    }
}

/// The message for a run that ends at `stage` without a result and without
/// an error to show for it.
pub fn closing_text(stage: Stage) -> (text: String)
    ensures
        text@ == closing_message(stage),
{
    match stage {
        Stage::Failed => String::from_str("a step failed, and its error was not handed on"),
        _ => String::from_str("the run ended before it was done"),
    }
}

/// What a run that stands as `run` has to show.
pub open spec fn result_of(run: TestRunView) -> CompileOutputView {
    CompileOutputView {
        output: run.output,
        initial_ast: run.initial_ast,
        symbol_table: run.symbol_table,
    }
}

/// The run `run` after the first `n` events of `events`, taken in order.
pub open spec fn after_events(run: TestRunView, events: Seq<Event>, n: int) -> TestRunView
    decreases n,
{
    if n <= 0 {
        run
    } else {
        step(after_events(run, events, n - 1), events[n - 1])
    }
}

/// The log of errors after the first `n` events of `events` reached a run
/// that began as `run`, with `log` in the log before.
pub open spec fn log_through(
    log: Seq<LeoOrString>,
    run: TestRunView,
    events: Seq<Event>,
    n: int,
) -> Seq<LeoOrString>
    decreases n,
{
    if n <= 0 {
        log
    } else {
        log_after(log_through(log, run, events, n - 1), after_events(run, events, n - 1), events[n - 1])
    }
}

/// The log of errors never loses an entry over the events of a run, and
/// gains one at most: the error of the event that makes the run fail. Once
/// it has gained that one, the run has failed.
pub proof fn log_gains_one_error_at_most(
    log: Seq<LeoOrString>,
    run: TestRunView,
    events: Seq<Event>,
    n: int,
)
    requires
        run.stage != Stage::Failed,
    ensures
        log_through(log, run, events, n) == log || (log_through(log, run, events, n).len()
            == log.len() + 1 && log_through(log, run, events, n).drop_last() == log
            && after_events(run, events, n).stage == Stage::Failed),
    decreases n,
{
    if n > 0 {
        log_gains_one_error_at_most(log, run, events, n - 1);
        let before = log_through(log, run, events, n - 1);
        let after = log_through(log, run, events, n);
        if after != before {
            assert(after == before.push(after.last()));
            assert(after.drop_last() =~= before);
        }
    }
}

/// Runs `test` over what came of its requests: takes in `events` in order,
/// as `advance` does one, and hands out the result where the run is done
/// after the last of them. A failure is never silent. The error that ends
/// a run is in the handler's log, and stays there; where the run ends
/// otherwise without a result, a plain message in the log says how: that a
/// step failed and its error was not handed on, for an event that only says
/// so, or that the run ended before it was done. The key `cwd` of the test,
/// where it is there, must hold a string, and a list under `input_file`
/// strings only.
pub fn run_test(test: &Test, handler: &mut Handler, events: Vec<Event>) -> (out: Result<
    CompileOutput,
    (),
>)
    requires
        test.config.cwd is Some ==> test.config.cwd->Some_0 is Text,
        test.config.input_file is Some ==> test.config.input_file->Some_0.spec_names_only(),
    ensures
        out is Ok <==> after_events(initial_run(*test), events@, events@.len() as int).stage
            == Stage::Done,
        out is Ok ==> out->Ok_0@ == result_of(
            after_events(initial_run(*test), events@, events@.len() as int),
        ),
        out is Err ==> final(handler).errors().len() > old(handler).errors().len(),
        ({
            let end = after_events(initial_run(*test), events@, events@.len() as int);
            let log = log_through(
                old(handler).errors(),
                initial_run(*test),
                events@,
                events@.len() as int,
            );
            if end.stage == Stage::Done || log.len() > old(handler).errors().len() {
                final(handler).errors() == log
            } else {
                log == old(handler).errors() && extended_by_message(
                    log,
                    final(handler).errors(),
                    closing_message(end.stage),
                )
            }
        }),
        final(handler).warnings() == old(handler).warnings(),
        final(handler).is_live() == old(handler).is_live(),
        old(handler).errors().is_prefix_of(final(handler).errors()),
        final(handler).pending() == old(handler).streamed(
            rendered_entries(final(handler).errors().skip(old(handler).errors().len() as int)),
        ),
{
    let mut run = TestRun::start(test);
    let mut stack = reversed(events);
    let ghost start = old(handler).errors();
    let ghost first = start.len() as int;
    let ghost begin = initial_run(*test);
    proof {
        assert(handler.errors().skip(first) =~= Seq::<LeoOrString>::empty());
        assert(handler.pending() =~= handler.streamed(
            rendered_entries(Seq::<LeoOrString>::empty()),
        ));
    }
    while stack.len() > 0
        invariant
            stack@.len() <= events@.len(),
            stack@ == events@.skip(events@.len() - stack@.len()).reverse(),
            start == old(handler).errors(),
            first == start.len(),
            begin == initial_run(*test),
            begin.stage != Stage::Failed,
            run.wf(),
            run@ == after_events(begin, events@, events@.len() - stack@.len()),
            ({
                let log = log_through(start, begin, events@, events@.len() - stack@.len());
                if run@.stage == Stage::Failed && log.len() == first {
                    log == start && extended_by_message(
                        log,
                        handler.errors(),
                        closing_message(Stage::Failed),
                    )
                } else {
                    handler.errors() == log
                }
            }),
            handler.warnings() == old(handler).warnings(),
            handler.is_live() == old(handler).is_live(),
            start.is_prefix_of(handler.errors()),
            handler.pending() == old(handler).streamed(
                rendered_entries(handler.errors().skip(first)),
            ),
        decreases stack.len(),
    {
        let ghost at = events@.len() - stack@.len();
        let ghost log = handler.errors();
        let event = stack.pop().unwrap();
        proof {
            assert(event == events@[at]);
            assert(stack@ =~= events@.skip(at + 1).reverse());
            log_gains_one_error_at_most(start, begin, events@, at);
            log_gains_one_error_at_most(start, begin, events@, at + 1);
        }
        let silent = match &event {
            Event::AlreadyReported => event.is_awaited(run.stage()),
            _ => false,
        };
        if silent {
            handler.emit_message(closing_text(Stage::Failed));
        }
        let ghost told = handler.errors();
        let _ = run.advance(handler, event);
        proof {
            if handler.errors() != log {
                let last = handler.errors().last();
                assert(handler.errors() == log.push(last));
                assert(handler.errors().skip(first) =~= log.skip(first).push(last));
                assert(rendered_entries(handler.errors().skip(first)) =~= rendered_entries(
                    log.skip(first),
                ).push(last.spec_render()));
                assert(handler.errors().drop_last() =~= log);
            }
        }
    }
    proof {
        log_gains_one_error_at_most(start, begin, events@, events@.len() as int);
    }
    let stage = run.stage();
    match run.result() {
        Some(result) => Ok(result),
        None => {
            if stage != Stage::Failed {
                let ghost log = handler.errors();
                handler.emit_message(closing_text(stage));
                proof {
                    let last = handler.errors().last();
                    assert(handler.errors().drop_last() =~= log);
                    assert(handler.errors().skip(first) =~= log.skip(first).push(last));
                    assert(rendered_entries(handler.errors().skip(first)) =~= rendered_entries(
                        log.skip(first),
                    ).push(last.spec_render()));
                }
            }
            Err(())
        },
    }
}

/// A run that an error ends leaves that error's exit code as the last one:
/// the code of the class that failed, which is never 0.
pub proof fn failed_run_ends_on_code_of_its_error(
    log: Seq<LeoOrString>,
    run: TestRunView,
    event: Event,
)
    requires
        fails(run, event),
        event.failure() is Some,
    ensures
        step(run, event).stage == Stage::Failed,
        crate::emitter::last_code(log_after(log, run, event)) == Some(
            event.failure()->Some_0.kind.spec_exit_code(),
        ),
{
}

/// A test without input files gets the marker in place of an input's hash as
/// soon as its program is parsed, and goes on to the passes.
pub proof fn no_input_gives_marker(run: TestRunView)
    requires
        run.stage == Stage::Program,
        run.inputs.len() == 0,
    ensures
        step(run, Event::ProgramParsed(Ok(()))).output == seq![no_input_marker()],
        step(run, Event::ProgramParsed(Ok(()))).stage == Stage::Stages,
{
}

/// A run that is over, done or failed, takes nothing in.
pub proof fn finished_run_takes_nothing_in(run: TestRunView, event: Event)
    requires
        run.stage == Stage::Done || run.stage == Stage::Failed,
    ensures
        step(run, event) == run,
        pending(run) == RequestView::Finished,
{
}

} // verus!
