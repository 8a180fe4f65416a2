//! The handler that a compilation attempt reports to. It owns one emitter,
//! of either kind, and is used up when the caller takes the results out.

use crate::buffer::{reversed, Buffer};
use crate::emitter::{last_code, Emitter};
use crate::errors::{LeoError, LeoOrString, LeoWarning};
use vstd::prelude::*;
use vstd::string::*;

verus! {

/// The lines of a list of warnings, in their order.
pub open spec fn warning_lines(warnings: Seq<LeoWarning>) -> Seq<Seq<char>> {
    Seq::new(warnings.len(), |i: int| warnings[i].spec_render())
}

/// Where a compilation attempt stands with its diagnostics.
#[derive(Clone, Copy, Debug, PartialEq, Eq, Structural)]
pub enum Phase {
    /// Nothing has been reported yet.
    Idle,
    /// At least one diagnostic has been reported; more may follow.
    Collecting,
    /// The results were taken out; nothing more can be reported.
    Finalized,
}

/// What is left of a handler when the attempt is over: the two logs, and
/// the exit code that the attempt ends on.
#[derive(Clone, Debug, PartialEq, Eq)]
pub struct Finalized {
    pub errors: Buffer<LeoOrString>,
    pub warnings: Buffer<LeoWarning>,
    pub exit_code: Option<i32>,
}

impl Finalized {
    /// Always `Finalized`: such a value exists only after the handler is gone.
    pub fn phase(&self) -> (phase: Phase)
        ensures
            phase == Phase::Finalized,
    {
        Phase::Finalized
    }
}

/// The one place that a compilation attempt reports to. Reporting never
/// interrupts the code that reports: it is for the caller to stop or go on.
/// A copy of a handler is a handler of its own: what is reported to the one
/// does not reach the other.
#[derive(Clone, Debug, PartialEq, Eq)]
pub struct Handler {
    emitter: Emitter,
    collecting: bool,
}

impl Handler {
    /// The log of errors, oldest first.
    pub closed spec fn errors(&self) -> Seq<LeoOrString> {
        self.emitter.errors()
    }

    /// The log of warnings, oldest first.
    pub closed spec fn warnings(&self) -> Seq<LeoWarning> {
        self.emitter.warnings()
    }

    /// The lines that wait to be printed: always none where the emitter is
    /// not live.
    pub closed spec fn pending(&self) -> Seq<Seq<char>> {
        self.emitter.pending()
    }

    /// Whether the emitter is of the live kind.
    pub closed spec fn is_live(&self) -> bool {
        self.emitter.is_live()
    }

    /// The lines that wait once `lines` have arrived: those that waited and
    /// then `lines` where the emitter is live, and none more where it is not.
    pub open spec fn streamed(&self, lines: Seq<Seq<char>>) -> Seq<Seq<char>> {
        if self.is_live() {
            self.pending() + lines
        } else {
            self.pending()
        }
    }

    /// The lines that wait once `line` has arrived.
    pub open spec fn queued(&self, line: Seq<char>) -> Seq<Seq<char>> {
        if self.is_live() {
            self.pending().push(line)
        } else {
            self.pending()
        }
    }

    /// `Idle` until the first diagnostic is reported, `Collecting` from then
    /// on, whatever is taken out of the logs in between.
    pub closed spec fn spec_phase(&self) -> Phase {
        if self.collecting {
            Phase::Collecting
        } else {
            Phase::Idle
        }
    }

    /// A handler that reports to `emitter`. It is idle where the emitter
    /// holds nothing, and collecting where it holds something already.
    pub fn new(emitter: Emitter) -> (handler: Handler)
        ensures
            handler.errors() == emitter.errors(),
            handler.warnings() == emitter.warnings(),
            handler.pending() == emitter.pending(),
            handler.is_live() == emitter.is_live(),
            handler.spec_phase() == if emitter.errors().len() == 0 && emitter.warnings().len()
                == 0 {
                Phase::Idle
            } else {
                Phase::Collecting
            },
    {
        let mut handler = Handler { emitter, collecting: false };
        handler.collecting = handler.err_count() > 0 || handler.warning_count() > 0;
        handler
    }

    /// Where the attempt stands: `Idle` or `Collecting`.
    pub fn phase(&self) -> (phase: Phase)
        ensures
            phase == self.spec_phase(),
    {
        if self.collecting {
            Phase::Collecting
        } else {
            Phase::Idle
        }
    }

    /// Whether the emitter is of the live kind.
    pub fn live(&self) -> (live: bool)
        ensures
            live == self.is_live(),
    {
        match &self.emitter {
            Emitter::Buffered(_) => false,
            Emitter::Live(_) => true,
        }
    }

    /// The number of errors reported so far, plain messages included.
    pub fn err_count(&self) -> (n: usize)
        ensures
            n == self.errors().len(),
    {
        match &self.emitter {
            Emitter::Buffered(buf) => buf.errors.len(),
            Emitter::Live(live) => live.log.errors.len(),
        }
    }

    /// The number of warnings reported so far.
    pub fn warning_count(&self) -> (n: usize)
        ensures
            n == self.warnings().len(),
    {
        match &self.emitter {
            Emitter::Buffered(buf) => buf.warnings.len(),
            Emitter::Live(live) => live.log.warnings.len(),
        }
    }

    /// Whether any error was reported.
    pub fn had_errors(&self) -> (had: bool)
        ensures
            had == (self.errors().len() > 0),
    {
        self.err_count() > 0
    }

    /// Reports the error `err`.
    pub fn emit_err(&mut self, err: LeoError)
        ensures
            final(self).errors() == old(self).errors().push(LeoOrString::Leo(err)),
            final(self).warnings() == old(self).warnings(),
            final(self).pending() == old(self).queued(err.spec_render()),
            final(self).is_live() == old(self).is_live(),
            final(self).spec_phase() == Phase::Collecting,
    {
        self.emitter.emit_err(err);
        self.collecting = true;
    }

    /// Reports the warning `warning`.
    pub fn emit_warning(&mut self, warning: LeoWarning)
        ensures
            final(self).warnings() == old(self).warnings().push(warning),
            final(self).errors() == old(self).errors(),
            final(self).pending() == old(self).queued(warning.spec_render()),
            final(self).is_live() == old(self).is_live(),
            final(self).spec_phase() == Phase::Collecting,
    {
        self.emitter.emit_warning(warning);
        self.collecting = true;
    }

    /// Reports the plain message `message`, as an error without a class.
    pub fn emit_message(&mut self, message: String)
        ensures
            final(self).errors() == old(self).errors().push(LeoOrString::String(message)),
            final(self).warnings() == old(self).warnings(),
            final(self).pending() == old(self).queued(message@),
            final(self).is_live() == old(self).is_live(),
            final(self).spec_phase() == Phase::Collecting,
    {
        self.emitter.emit_message(message);
        self.collecting = true;
    }

    /// Reports the warnings of `warnings`, in their order.
    pub fn emit_warnings(&mut self, warnings: Vec<LeoWarning>)
        ensures
            final(self).warnings() == old(self).warnings() + warnings@,
            final(self).errors() == old(self).errors(),
            final(self).is_live() == old(self).is_live(),
            final(self).pending() == old(self).streamed(warning_lines(warnings@)),
            final(self).spec_phase() == if warnings@.len() > 0 {
                Phase::Collecting
            } else {
                old(self).spec_phase()
            },
    {
        let mut stack = reversed(warnings);
        proof {
            assert(self.warnings() + warnings@.take(0) =~= old(self).warnings());
            assert(self.pending() + warning_lines(warnings@.take(0)) =~= old(
                self,
            ).pending());
        }
        while stack.len() > 0
            invariant
                stack@.len() <= warnings@.len(),
                stack@ == warnings@.skip(warnings@.len() - stack@.len()).reverse(),
                self.warnings() == old(self).warnings() + warnings@.take(
                    warnings@.len() - stack@.len(),
                ),
                self.errors() == old(self).errors(),
                self.is_live() == old(self).is_live(),
                self.spec_phase() == if stack@.len() < warnings@.len() {
                    Phase::Collecting
                } else {
                    old(self).spec_phase()
                },
                self.pending() == if old(self).is_live() {
                    old(self).pending() + warning_lines(
                        warnings@.take(warnings@.len() - stack@.len()),
                    )
                } else {
                    old(self).pending()
                },
            decreases stack.len(),
        {
            let ghost at = warnings@.len() - stack@.len();
            let ghost left = stack@.len() as int;
            let warning = stack.pop().unwrap();
            proof {
                assert(warning == warnings@[at]);
                assert(stack@ =~= warnings@.skip(at + 1).reverse());
                assert(warnings@.take(at + 1) =~= warnings@.take(at).push(warning));
                assert(warning_lines(warnings@.take(at + 1)) =~= warning_lines(
                    warnings@.take(at),
                ).push(warning.spec_render()));
            }
            self.emitter.emit_warning(warning);
            self.collecting = true;
            proof {
                assert(self.warnings() =~= old(self).warnings() + warnings@.take(at + 1));
                if old(self).is_live() {
                    assert(self.pending() =~= old(self).pending() + warning_lines(
                        warnings@.take(at + 1),
                    ));
                }
            }
        }
        proof {
            assert(warnings@.take(warnings@.len() as int) =~= warnings@);
        }
    }

    /// The exit code of the error that was reported last: `None` while there
    /// is none, 0 where the last one is a plain message.
    pub fn last_emitted_err_code(&self) -> (code: Option<i32>)
        ensures
            code == last_code(self.errors()),
    {
        self.emitter.last_emitted_err_code()
    }

    /// Passes an `Ok` through untouched. Of an `Err`, the error is reported,
    /// and what is left is a failure without content: the error itself is
    /// then the last entry of the log.
    pub fn extend_if_error<T>(&mut self, res: Result<T, LeoError>) -> (out: Result<T, ()>)
        ensures
            final(self).warnings() == old(self).warnings(),
            final(self).spec_phase() == if res is Err {
                Phase::Collecting
            } else {
                old(self).spec_phase()
            },
            final(self).is_live() == old(self).is_live(),
            match res {
                Ok(value) => out == Ok::<T, ()>(value) && final(self).errors() == old(
                    self,
                ).errors() && final(self).pending() == old(self).pending(),
                Err(err) => out is Err && final(self).errors() == old(self).errors().push(
                    LeoOrString::Leo(err),
                ) && final(self).pending() == old(self).queued(
                    err.spec_render(),
                ),
            },
    {
        match res {
            Ok(value) => Ok(value),
            Err(err) => {
                self.emit_err(err);
                Err(())
            },
        }
    }

    /// Passes an `Ok` through untouched. Of an `Err`, the message is logged as
    /// an error without a class, and what is left is a failure without
    /// content.
    pub fn buffer_if_err<T>(&mut self, res: Result<T, String>) -> (out: Result<T, ()>)
        ensures
            final(self).warnings() == old(self).warnings(),
            final(self).spec_phase() == if res is Err {
                Phase::Collecting
            } else {
                old(self).spec_phase()
            },
            final(self).is_live() == old(self).is_live(),
            match res {
                Ok(value) => out == Ok::<T, ()>(value) && final(self).errors() == old(
                    self,
                ).errors() && final(self).pending() == old(self).pending(),
                Err(message) => out is Err && final(self).errors() == old(self).errors().push(
                    LeoOrString::String(message),
                ) && final(self).pending() == old(self).queued(message@),
            },
    {
        match res {
            Ok(value) => Ok(value),
            Err(message) => {
                self.emit_message(message);
                Err(())
            },
        }
    }

    /// Hands out the lines that wait to be printed, oldest first, and leaves
    /// none waiting. The logs stay as they are, and so does the phase.
    pub fn take_pending(&mut self) -> (lines: Vec<String>)
        ensures
            crate::text::texts(lines@) == old(self).pending(),
            final(self).pending() == Seq::<Seq<char>>::empty(),
            final(self).errors() == old(self).errors(),
            final(self).warnings() == old(self).warnings(),
            final(self).is_live() == old(self).is_live(),
            final(self).spec_phase() == old(self).spec_phase(),
    {
        self.emitter.take_pending()
    }

    /// Takes the log of errors out, oldest first, and leaves it empty. The
    /// warnings stay, and so does the phase: a handler that something was
    /// reported to does not become idle again.
    pub fn take_errors(&mut self) -> (taken: Buffer<LeoOrString>)
        ensures
            taken@ == old(self).errors(),
            final(self).errors() == Seq::<LeoOrString>::empty(),
            final(self).warnings() == old(self).warnings(),
            final(self).pending() == old(self).pending(),
            final(self).is_live() == old(self).is_live(),
            final(self).spec_phase() == old(self).spec_phase(),
    {
        match &mut self.emitter {
            Emitter::Buffered(buf) => buf.errors.take(),
            Emitter::Live(live) => live.log.errors.take(),
        }
    }

    /// Ends the attempt: hands out the two logs as they stand, with the exit
    /// code of the last error. The handler is used up.
    pub fn finalize(self) -> (done: Finalized)
        ensures
            done.errors@ == self.errors(),
            done.warnings@ == self.warnings(),
            done.exit_code == last_code(self.errors()),
    {
        let exit_code = self.emitter.last_emitted_err_code();
        match self.emitter {
            Emitter::Buffered(buf) => Finalized {
                errors: buf.errors,
                warnings: buf.warnings,
                exit_code,
            },
            Emitter::Live(live) => Finalized {
                errors: live.log.errors,
                warnings: live.log.warnings,
                exit_code,
            },
        }
    }
}

} // verus!
