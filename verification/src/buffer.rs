//! Ordered logs of diagnostics, and the text that shows a log of errors.

use crate::errors::LeoOrString;
use crate::text::join_lines;
use vstd::prelude::*;
use vstd::string::*;

verus! {

/// An ordered log: what was pushed first comes first.
#[derive(Clone, Debug, PartialEq, Eq)]
pub struct Buffer<T> {
    pub entries: Vec<T>,
}

impl<T> View for Buffer<T> {
    type V = Seq<T>;

    open spec fn view(&self) -> Seq<T> {
        self.entries@
    }
}

impl<T> Buffer<T> {
    /// A log without entries.
    pub fn new() -> (buffer: Buffer<T>)
        ensures
            buffer@ == Seq::<T>::empty(),
    {
        Buffer { entries: Vec::new() }
    }

    /// Appends `entry` behind all that the log holds.
    pub fn push(&mut self, entry: T)
        ensures
            final(self)@ == old(self)@.push(entry),
    {
        self.entries.push(entry);
    }

    /// The number of entries.
    pub fn len(&self) -> (n: usize)
        ensures
            n == self@.len(),
    {
        self.entries.len()
    }

    /// The entry that was pushed last, if there is any.
    pub fn last_entry(&self) -> (entry: Option<&T>)
        ensures
            self@.len() == 0 ==> entry is None,
            self@.len() > 0 ==> entry == Some(&self@.last()),
    {
        let n = self.entries.len();
        if n == 0 {
            None
        } else {
            Some(&self.entries[n - 1])
        }
    }

    /// Takes the entries out and leaves the log empty.
    pub fn take(&mut self) -> (taken: Buffer<T>)
        ensures
            taken@ == old(self)@,
            final(self)@ == Seq::<T>::empty(),
    {
        let mut entries: Vec<T> = Vec::new();
        core::mem::swap(&mut entries, &mut self.entries);
        Buffer { entries }
    }

    /// The entries, in their order.
    pub fn into_inner(self) -> (entries: Vec<T>)
        ensures
            entries@ == self@,
    {
        self.entries
    }
}

/// The texts of the entries of an error log, in their order.
pub open spec fn rendered_entries(log: Seq<LeoOrString>) -> Seq<Seq<char>> {
    Seq::new(log.len(), |i: int| log[i].spec_render())
}

/// An error log as text: the entries in their order, a line feed between two.
pub open spec fn render_log(log: Seq<LeoOrString>) -> Seq<char> {
    join_lines(rendered_entries(log))
}

/// Whether `after` is `before` with one more entry at its end, a plain
/// message that says `text`.
pub open spec fn extended_by_message(
    before: Seq<LeoOrString>,
    after: Seq<LeoOrString>,
    text: Seq<char>,
) -> bool {
    &&& after.len() == before.len() + 1
    &&& after.drop_last() == before
    &&& after.last() is String
    &&& after.last()->String_0@ == text
}

impl Buffer<LeoOrString> {
    /// The log as text: each entry's text, a line feed between two of them.
    pub fn to_string(&self) -> (text: String)
        ensures
            text@ == render_log(self@),
    {
        let mut text = String::new();
        let mut i: usize = 0;
        proof {
            reveal_strlit("\n");
            assert(rendered_entries(self@.take(0)) =~= Seq::<Seq<char>>::empty());
        }
        while i < self.entries.len()
            invariant
                i <= self.entries.len(),
                "\n"@ == seq!['\n'],
                text@ == render_log(self@.take(i as int)),
            decreases self.entries.len() - i,
        {
            let line = self.entries[i].to_string();
            let ghost before = rendered_entries(self@.take(i as int));
            let ghost after = rendered_entries(self@.take(i + 1));
            proof {
                assert(after.drop_last() =~= before);
                assert(after.last() == line@);
            }
            if i > 0 {
                text.append("\n");
                text.append(line.as_str());
                assert(text@ =~= join_lines(after));
            } else {
                text.append(line.as_str());
                assert(text@ =~= join_lines(after));
            }
            i = i + 1;
        }
        assert(self@.take(i as int) =~= self@);
        text
    }
}

/// The items of `items` in the opposite order.
pub fn reversed<T>(items: Vec<T>) -> (turned: Vec<T>)
    ensures
        turned@ == items@.reverse(),
{
    let mut rest = items;
    let mut turned: Vec<T> = Vec::new();
    while rest.len() > 0
        invariant
            rest@.len() <= items@.len(),
            rest@ == items@.take(rest@.len() as int),
            turned@ == items@.skip(rest@.len() as int).reverse(),
        decreases rest.len(),
    {
        let ghost n = rest@.len() as int;
        let item = rest.pop().unwrap();
        turned.push(item);
        proof {
            assert(rest@ =~= items@.take(n - 1));
            assert(turned@ =~= items@.skip(n - 1).reverse());
        }
    }
    proof {
        assert(items@.skip(0) =~= items@);
    }
    turned
}

} // verus!
