//! Spans: places in the source text that a session holds.

use vstd::prelude::*;

verus! {

/// A stretch of bytes in the buffer of one session: from `lo`, up to and not
/// including `hi`. The number of the session that made it is part of it, so
/// that a session with another number does not take it for one of its own.
/// Sessions are told apart by their numbers and by nothing else.
#[derive(Clone, Copy, Debug, PartialEq, Eq, Structural)]
pub struct Span {
    pub session: u64,
    pub lo: usize,
    pub hi: usize,
}

impl Span {
    /// The span from `lo` to `hi` in the buffer of the session `session`.
    pub fn new(session: u64, lo: usize, hi: usize) -> (span: Span)
        ensures
            span == (Span { session, lo, hi }),
    {
        Span { session, lo, hi }
    }

    /// How many bytes the span covers; none where `hi` lies before `lo`.
    pub open spec fn spec_len(self) -> nat {
        if self.lo <= self.hi {
            (self.hi - self.lo) as nat
        } else {
            0
        }
    }

    /// How many bytes the span covers; none where `hi` lies before `lo`.
    pub fn len(&self) -> (n: usize)
        ensures
            n == self.spec_len(),
    {
        if self.lo <= self.hi {
            self.hi - self.lo
        } else {
            0
        }
    }
}

} // verus!
