//! Emitters: where the compiler hands its diagnostics. Both kinds keep the
//! same two logs; the live one also queues each diagnostic's text, for the
//! program around the library to print as it arrives.

use crate::buffer::Buffer;
use crate::errors::{LeoError, LeoOrString, LeoWarning};
use crate::text::texts;
use vstd::prelude::*;
use vstd::string::*;

verus! {

/// The exit code that a log of errors ends on: none while the log is empty,
/// else that of its last entry, which is 0 where the entry is a plain message.
pub open spec fn last_code(errors: Seq<LeoOrString>) -> Option<i32> {
    if errors.len() == 0 {
        None
    } else {
        Some(errors.last().spec_exit_code())
    }
}

/// An emitter that only keeps what it is given: a log of errors and a log of
/// warnings, each in the order of arrival. A copy of an emitter has logs of
/// its own: what is given to the one does not reach the other.
#[derive(Clone, Debug, PartialEq, Eq)]
pub struct BufferEmitter {
    pub errors: Buffer<LeoOrString>,
    pub warnings: Buffer<LeoWarning>,
}

impl BufferEmitter {
    /// An emitter with both logs empty.
    pub fn new() -> (emitter: BufferEmitter)
        ensures
            emitter.errors@ == Seq::<LeoOrString>::empty(),
            emitter.warnings@ == Seq::<LeoWarning>::empty(),
    {
        BufferEmitter { errors: Buffer::new(), warnings: Buffer::new() }
    }

    /// Appends `err` to the log of errors. The warnings stay as they are.
    pub fn emit_err(&mut self, err: LeoError)
        ensures
            final(self).errors@ == old(self).errors@.push(LeoOrString::Leo(err)),
            final(self).warnings@ == old(self).warnings@,
    {
        self.errors.push(LeoOrString::Leo(err));
    }

    /// The exit code of the error that was logged last: `None` while there is
    /// none, 0 where the last entry is a plain message.
    pub fn last_emitted_err_code(&self) -> (code: Option<i32>)
        ensures
            code == last_code(self.errors@),
    {
        match self.errors.last_entry() {
            Some(entry) => Some(entry.exit_code()),
            None => None,
        }
    }

    /// Appends `warning` to the log of warnings. The errors stay as they are.
    pub fn emit_warning(&mut self, warning: LeoWarning)
        ensures
            final(self).warnings@ == old(self).warnings@.push(warning),
            final(self).errors@ == old(self).errors@,
    {
        self.warnings.push(warning);
    }
}

/// Passes an `Ok` through untouched. Of an `Err`, the message goes to the end
/// of `buf`'s log of errors, and what is left is a failure without content.
pub fn buffer_if_err<T>(buf: &mut BufferEmitter, res: Result<T, String>) -> (out: Result<T, ()>)
    ensures
        final(buf).warnings@ == old(buf).warnings@,
        match res {
            Ok(value) => out == Ok::<T, ()>(value) && final(buf).errors@ == old(buf).errors@,
            Err(message) => out is Err && final(buf).errors@ == old(buf).errors@.push(
                LeoOrString::String(message),
            ),
        },
{
    match res {
        Ok(value) => Ok(value),
        Err(message) => {
            buf.errors.push(LeoOrString::String(message));
            Err(())
        },
    }
}

/// An emitter that keeps the two logs as a `BufferEmitter` does, and queues
/// the text of each diagnostic for printing as well. A copy has logs and a
/// queue of its own.
#[derive(Clone, Debug, PartialEq, Eq)]
pub struct LiveEmitter {
    pub log: BufferEmitter,
    pub pending: Vec<String>,
}

/// The emitters there are. Which one a handler holds is decided when it is made.
#[derive(Clone, Debug, PartialEq, Eq)]
pub enum Emitter {
    Buffered(BufferEmitter),
    Live(LiveEmitter),
}

impl Emitter {
    /// An emitter that only keeps what it is given.
    pub fn buffered() -> (emitter: Emitter)
        ensures
            emitter is Buffered,
            emitter.errors() == Seq::<LeoOrString>::empty(),
            emitter.warnings() == Seq::<LeoWarning>::empty(),
            emitter.pending() == Seq::<Seq<char>>::empty(),
    {
        let emitter = Emitter::Buffered(BufferEmitter::new());
        assert(emitter.pending() =~= Seq::<Seq<char>>::empty());
        emitter
    }

    /// An emitter that also queues each diagnostic's text for printing.
    pub fn live() -> (emitter: Emitter)
        ensures
            emitter is Live,
            emitter.errors() == Seq::<LeoOrString>::empty(),
            emitter.warnings() == Seq::<LeoWarning>::empty(),
            emitter.pending() == Seq::<Seq<char>>::empty(),
    {
        let emitter = Emitter::Live(LiveEmitter { log: BufferEmitter::new(), pending: Vec::new() });
        assert(emitter.pending() =~= Seq::<Seq<char>>::empty());
        emitter
    }

    /// Whether this is the live kind.
    pub open spec fn is_live(&self) -> bool {
        self is Live
    }

    /// The log of errors, oldest first.
    pub open spec fn errors(&self) -> Seq<LeoOrString> {
        match self {
            Emitter::Buffered(buf) => buf.errors@,
            Emitter::Live(live) => live.log.errors@,
        }
    }

    /// The log of warnings, oldest first.
    pub open spec fn warnings(&self) -> Seq<LeoWarning> {
        match self {
            Emitter::Buffered(buf) => buf.warnings@,
            Emitter::Live(live) => live.log.warnings@,
        }
    }

    /// The lines that wait to be printed: always none for a buffered emitter.
    pub open spec fn pending(&self) -> Seq<Seq<char>> {
        match self {
            Emitter::Buffered(_) => Seq::empty(),
            Emitter::Live(live) => texts(live.pending@),
        }
    }

    /// The lines that wait once `lines` have arrived: those that waited and
    /// then `lines` where the emitter is live, none where it is not.
    pub open spec fn streamed(&self, lines: Seq<Seq<char>>) -> Seq<Seq<char>> {
        match self {
            Emitter::Buffered(_) => Seq::empty(),
            Emitter::Live(_) => self.pending() + lines,
        }
    }

    /// The lines that wait once `line` has arrived: those that waited and then
    /// `line` where the emitter is live, none where it is not.
    pub open spec fn queued(&self, line: Seq<char>) -> Seq<Seq<char>> {
        match self {
            Emitter::Buffered(_) => Seq::empty(),
            Emitter::Live(_) => self.pending().push(line),
        }
    }

    /// Appends `err` to the log of errors; a live emitter queues its line too.
    pub fn emit_err(&mut self, err: LeoError)
        ensures
            final(self).errors() == old(self).errors().push(LeoOrString::Leo(err)),
            final(self).warnings() == old(self).warnings(),
            final(self).pending() == old(self).queued(err.spec_render()),
            final(self).is_live() == old(self).is_live(),
    {
        match self {
            Emitter::Buffered(buf) => {
                buf.emit_err(err);
            },
            Emitter::Live(live) => {
                let line = err.render();
                live.pending.push(line);
                live.log.emit_err(err);
                assert(texts(live.pending@) =~= texts(old(self)->Live_0.pending@).push(line@));
            },
        }
    }

    /// Appends `warning` to the log of warnings; a live emitter queues its
    /// line too.
    pub fn emit_warning(&mut self, warning: LeoWarning)
        ensures
            final(self).warnings() == old(self).warnings().push(warning),
            final(self).errors() == old(self).errors(),
            final(self).pending() == old(self).queued(warning.spec_render()),
            final(self).is_live() == old(self).is_live(),
    {
        match self {
            Emitter::Buffered(buf) => {
                buf.emit_warning(warning);
            },
            Emitter::Live(live) => {
                let line = warning.render();
                live.pending.push(line);
                live.log.emit_warning(warning);
                assert(texts(live.pending@) =~= texts(old(self)->Live_0.pending@).push(line@));
            },
        }
    }

    /// Appends the plain message `message` to the log of errors; a live
    /// emitter queues it too.
    pub fn emit_message(&mut self, message: String)
        ensures
            final(self).errors() == old(self).errors().push(LeoOrString::String(message)),
            final(self).warnings() == old(self).warnings(),
            final(self).pending() == old(self).queued(message@),
            final(self).is_live() == old(self).is_live(),
    {
        match self {
            Emitter::Buffered(buf) => {
                let _ = buffer_if_err::<()>(buf, Err(message));
            },
            Emitter::Live(live) => {
                let line = message.clone();
                live.pending.push(line);
                let _ = buffer_if_err::<()>(&mut live.log, Err(message));
                assert(texts(live.pending@) =~= texts(old(self)->Live_0.pending@).push(line@));
            },
        }
    }

    /// The exit code of the error that was logged last: `None` while there is
    /// none, 0 where the last entry is a plain message.
    pub fn last_emitted_err_code(&self) -> (code: Option<i32>)
        ensures
            code == last_code(self.errors()),
    {
        match self {
            Emitter::Buffered(buf) => buf.last_emitted_err_code(),
            Emitter::Live(live) => live.log.last_emitted_err_code(),
        }
    }

    /// Hands out the lines that wait to be printed, oldest first, and leaves
    /// none waiting. The logs stay as they are.
    pub fn take_pending(&mut self) -> (lines: Vec<String>)
        ensures
            texts(lines@) == old(self).pending(),
            final(self).pending() == Seq::<Seq<char>>::empty(),
            final(self).errors() == old(self).errors(),
            final(self).warnings() == old(self).warnings(),
            final(self).is_live() == old(self).is_live(),
    {
        match self {
            Emitter::Buffered(_) => {
                let lines: Vec<String> = Vec::new();
                assert(texts(lines@) =~= Seq::<Seq<char>>::empty());
                lines
            },
            Emitter::Live(live) => {
                let mut lines: Vec<String> = Vec::new();
                core::mem::swap(&mut lines, &mut live.pending);
                assert(texts(live.pending@) =~= Seq::<Seq<char>>::empty());
                lines
            },
        }
    }
}

/// After an error of the compiler is logged, the log ends on the exit code
/// of that error's class, whatever was logged before.
pub proof fn log_ends_on_code_of_last_error(log: Seq<LeoOrString>, err: LeoError)
    ensures
        last_code(log.push(LeoOrString::Leo(err))) == Some(err.kind.spec_exit_code()),
        last_code(log.push(LeoOrString::Leo(err)))->Some_0 > 0,
{
}

/// After a plain message is logged, the log ends on 0, whatever was logged
/// before.
pub proof fn log_ends_on_zero_after_message(log: Seq<LeoOrString>, message: String)
    ensures
        last_code(log.push(LeoOrString::String(message))) == Some(0i32),
{
}

} // verus!
