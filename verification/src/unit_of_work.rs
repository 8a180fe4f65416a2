//! The unit of work: one test case, or one run of the compiler. It holds at
//! most one session, which is made when first asked for and reused after.
//! The sessions of one unit of work are numbered in the order in which they
//! are made, so that no two of them share a number. Two units of work know
//! nothing of each other: their sessions may share numbers.

use crate::session::{Session, SessionError};
use crate::source_map::SourceFile;
use vstd::prelude::*;

verus! {

/// One unit of work and its session, if it has one yet.
#[derive(Clone, Debug, PartialEq, Eq)]
pub struct UnitOfWork {
    current: Option<Session>,
    created: u64,
}

impl UnitOfWork {
    /// The session that the unit of work has, if it has one.
    pub closed spec fn current(&self) -> Option<Session> {
        self.current
    }

    /// The number of sessions that the unit of work has made so far.
    pub closed spec fn created(&self) -> u64 {
        self.created
    }

    /// Holds of every unit of work that this module hands out: its session is
    /// well formed, and its number lies below the count of sessions made.
    pub open spec fn wf(&self) -> bool {
        self.current() is Some ==> self.current()->Some_0.wf() && self.current()->Some_0@.id
            < self.created()
    }

    /// A unit of work that has no session yet, and has made none.
    pub fn new() -> (unit: UnitOfWork)
        ensures
            unit.wf(),
            unit.current() is None,
            unit.created() == 0,
    {
        UnitOfWork { current: None, created: 0 }
    }

    /// A unit of work that has no session now, and has made `created`
    /// sessions before.
    pub fn resume(created: u64) -> (unit: UnitOfWork)
        ensures
            unit.wf(),
            unit.current() is None,
            unit.created() == created,
    {
        UnitOfWork { current: None, created }
    }

    /// Whether this unit of work has a session.
    pub fn has_session(&self) -> (has: bool)
        ensures
            has == (self.current() is Some),
    {
        self.current.is_some()
    }

    /// The number of sessions made so far.
    pub fn sessions_made(&self) -> (made: u64)
        ensures
            made == self.created(),
    {
        self.created
    }

    /// Whether a session can be had: there is one, or a number is left for a
    /// new one.
    pub fn can_have_session(&self) -> (can: bool)
        ensures
            can == (self.current() is Some || self.created() < u64::MAX),
    {
        self.current.is_some() || self.created < u64::MAX
    }

    /// The session of this unit of work: the one it has, untouched, or a new
    /// and empty one where it has none. What the caller does to the session
    /// stays with the unit of work. A session must be there, or a number left
    /// for a new one.
    pub fn session_or_create(&mut self) -> (session: &mut Session)
        requires
            old(self).wf(),
            old(self).current() is Some || old(self).created() < u64::MAX,
        ensures
            old(self).current() is Some ==> *session == old(self).current()->Some_0
                && final(self).created() == old(self).created(),
            old(self).current() is None ==> session@.id == old(self).created()
                && session@.files == Seq::<SourceFile>::empty()
                && session@.symbols == Seq::<Seq<char>>::empty()
                && session.wf()
                && final(self).created() == old(self).created() + 1,
            final(self).current() == Some(*final(session)),
    {
        if self.current.is_none() {
            self.current = Some(Session::new(self.created));
            self.created = self.created + 1;
        }
        self.current.as_mut().unwrap()
    }

    /// Makes a session where there is none, and says whether it did. A
    /// session that is there stays as it is. Fails, and changes nothing, only
    /// where a session is wanted and the numbers for sessions are used up.
    pub fn create_session_if_not_set(&mut self) -> (made: Result<bool, SessionError>)
        requires
            old(self).wf(),
        ensures
            final(self).wf(),
            match made {
                Ok(true) => {
                    &&& old(self).current() is None
                    &&& old(self).created() < u64::MAX
                    &&& final(self).created() == old(self).created() + 1
                    &&& final(self).current() is Some
                    &&& final(self).current()->Some_0@.id == old(self).created()
                    &&& final(self).current()->Some_0@.files == Seq::<SourceFile>::empty()
                    &&& final(self).current()->Some_0@.symbols == Seq::<Seq<char>>::empty()
                },
                Ok(false) => old(self).current() is Some && *final(self) == *old(self),
                Err(_) => old(self).current() is None && old(self).created() == u64::MAX
                    && *final(self) == *old(self),
            },
    {
        if self.current.is_some() {
            Ok(false)
        } else if self.created == u64::MAX {
            Err(SessionError::Exhausted)
        } else {
            self.current = Some(Session::new(self.created));
            self.created = self.created + 1;
            Ok(true)
        }
    }

    /// Ends the session, if there is one, and hands it out. The next session
    /// of this unit of work gets a number that none before it had.
    pub fn end_session(&mut self) -> (ended: Option<Session>)
        requires
            old(self).wf(),
        ensures
            final(self).wf(),
            final(self).current() is None,
            final(self).created() == old(self).created(),
            ended == old(self).current(),
            ended is Some ==> ended->Some_0@.id < final(self).created(),
    {
        self.current.take()
    }
}

/// The number that the next session of a unit of work gets is not that of
/// the session it has: every session gets the count of those made before it,
/// and the count has gone up since.
pub proof fn next_session_number_is_new(unit: UnitOfWork)
    requires
        unit.wf(),
        unit.current() is Some,
    ensures
        unit.current()->Some_0@.id != unit.created(),
{
}

} // verus!
