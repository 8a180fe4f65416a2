//! The namespace that test cases of the compiler run in, and the runner that
//! finds it by its name.

use crate::buffer::rendered_entries;
use crate::errors::LeoOrString;
use crate::emitter::Emitter;
use crate::handler::Handler;
use crate::inputs::Test;
use crate::interner::str_equal;
use crate::output::CompileOutput;
use crate::test_run::{
    after_events, closing_lines, closing_message, initial_run, log_through, result_of, run_test,
    Event, Stage,
};
use crate::text::join_lines;
use crate::unit_of_work::UnitOfWork;
use vstd::prelude::*;
use vstd::string::*;

verus! {

/// How a test file is cut into test cases.
#[derive(Clone, Copy, Debug, PartialEq, Eq, Structural)]
pub enum ParseType {
    /// Each line is a case.
    Line,
    /// Each run of lines without an empty one between them is a case.
    ContinuousLines,
    /// The whole file is one case.
    Whole,
}

/// The namespace of the compiler tests.
#[derive(Clone, Copy, Debug, PartialEq, Eq, Structural)]
pub struct CompileNamespace;

impl CompileNamespace {
    /// A compiler test is its whole file.
    pub fn parse_type(&self) -> (parse_type: ParseType)
        ensures
            parse_type == ParseType::Whole,
    {
        ParseType::Whole
    }

    /// Runs `test` within the session of `unit`, which is made where there
    /// is none yet and left as it is where there is one, over what came
    /// of the run's requests. The errors are kept in a log of the run's own.
    /// A run that is done after the last event gives its result; any other
    /// gives the text of that log, which then holds at least one entry: the
    /// error that ended the run, or the message that says how it ended. The key `cwd` of the test, where it is
    /// there, must hold a string, and a list under `input_file` strings
    /// only; a session must be there, or a number left for a new one.
    pub fn run_test(&self, unit: &mut UnitOfWork, test: &Test, events: Vec<Event>) -> (out: Result<
        CompileOutput,
        String,
    >)
        requires
            old(unit).wf(),
            old(unit).current() is Some || old(unit).created() < u64::MAX,
            test.config.cwd is Some ==> test.config.cwd->Some_0 is Text,
            test.config.input_file is Some ==> test.config.input_file->Some_0.spec_names_only(),
        ensures
            final(unit).wf(),
            final(unit).current() is Some,
            old(unit).current() is Some ==> *final(unit) == *old(unit),
            old(unit).current() is None ==> final(unit).created() == old(unit).created() + 1
                && final(unit).current()->Some_0@.id == old(unit).created(),
            match out {
                Ok(result) => {
                    &&& after_events(initial_run(*test), events@, events@.len() as int).stage
                        == Stage::Done
                    &&& result@ == result_of(
                        after_events(initial_run(*test), events@, events@.len() as int),
                    )
                },
                Err(text) => {
                    let end = after_events(initial_run(*test), events@, events@.len() as int);
                    let log = log_through(
                        Seq::<LeoOrString>::empty(),
                        initial_run(*test),
                        events@,
                        events@.len() as int,
                    );
                    &&& end.stage != Stage::Done
                    &&& text@ == join_lines(
                        closing_lines(rendered_entries(log), log.len() > 0, end.stage),
                    )
                    &&& closing_lines(rendered_entries(log), log.len() > 0, end.stage).len() > 0
                },
            },
    {
        let mut handler = Handler::new(Emitter::buffered());
        let _ = unit.create_session_if_not_set();
        match run_test(test, &mut handler, events) {
            Ok(result) => Ok(result),
            Err(_) => {
                let ghost end = after_events(initial_run(*test), events@, events@.len() as int);
                let ghost log = log_through(
                    Seq::<LeoOrString>::empty(),
                    initial_run(*test),
                    events@,
                    events@.len() as int,
                );
                proof {
                    if log.len() == 0 {
                        assert(rendered_entries(handler.errors()) =~= rendered_entries(log).push(
                            closing_message(end.stage),
                        ));
                    }
                }
                let taken = handler.take_errors();
                Err(taken.to_string())
            },
        }
    }
}

/// The runner of the compiler tests.
#[derive(Clone, Copy, Debug, PartialEq, Eq, Structural)]
pub struct TestRunner;

impl TestRunner {
    /// The namespace that `name` names: the compiler's for `Compile`, and
    /// none for any other name.
    pub fn resolve_namespace(&self, name: &str) -> (namespace: Option<CompileNamespace>)
        ensures
            namespace is Some <==> name@ == "Compile"@,
    {
        if str_equal(name, "Compile") {
            Some(CompileNamespace)
        } else {
            None
        }
    }
}

} // verus!
