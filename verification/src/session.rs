//! The session: the registry of the source files and interned strings of
//! one unit of work. A span carries the number of the session that made it,
//! and a session resolves only spans that carry its own number. One unit of
//! work never gives a number twice; whoever makes sessions by hand, or runs
//! several units of work side by side, has to keep their numbers apart.

use crate::interner::{distinct, first_index_of, Interner, Symbol};
use crate::source_map::{locate, location_in, FileId, FileName, Location, SourceFile};
use crate::span::Span;
use vstd::prelude::*;
use vstd::string::*;

verus! {

/// Why a file could not be registered.
#[derive(Clone, Copy, Debug, PartialEq, Eq, Structural)]
pub enum SessionError {
    /// The numbers for files, or the places in the buffer, are used up.
    Exhausted,
}

/// Why a span could not be resolved.
#[derive(Clone, Copy, Debug, PartialEq, Eq, Structural)]
pub enum ResolveError {
    /// The span carries the number of another session.
    ForeignSession,
    /// The span lies in no file of this session.
    OutOfBounds,
}

/// What a session holds, as contracts see it.
pub struct SessionView {
    /// The number that tells this session from the others of its unit of work.
    pub id: u64,
    /// The registered files, in the order of registration.
    pub files: Seq<SourceFile>,
    /// The interned strings, each at the place of its symbol.
    pub symbols: Seq<Seq<char>>,
}

/// The first file among the first `n` of `files` that holds the stretch from
/// `lo` to `hi`, or `n` if none of them does.
pub open spec fn first_holder(files: Seq<SourceFile>, lo: int, hi: int, n: int) -> int
    decreases n,
{
    if n <= 0 {
        0
    } else {
        let before = first_holder(files, lo, hi, n - 1);
        if before < n - 1 {
            before
        } else if files[n - 1].holds(lo, hi) {
            n - 1
        } else {
            n
        }
    }
}

/// Where the next file would begin in a buffer that holds `files`: at 0, or
/// one byte behind the end of the last file, so that no place belongs to two
/// files.
pub open spec fn next_start(files: Seq<SourceFile>) -> int {
    if files.len() == 0 {
        0
    } else {
        files.last().end() + 1
    }
}

/// Whether `files` lie in one buffer as a session lays them: numbered in
/// order, the first at 0, each next one a byte behind the one before.
pub open spec fn laid_out(files: Seq<SourceFile>) -> bool {
    &&& files.len() <= u32::MAX
    &&& forall|i: int| 0 <= i < files.len() ==> (#[trigger] files[i]).id == FileId(i as u32)
    &&& forall|i: int|
        0 <= i < files.len() ==> (#[trigger] files[i]).start == next_start(files.take(i))
    &&& next_start(files) <= usize::MAX
}

/// The registry of one unit of work.
#[derive(Clone, Debug, PartialEq, Eq)]
pub struct Session {
    id: u64,
    files: Vec<SourceFile>,
    interner: Interner,
}

impl View for Session {
    type V = SessionView;

    closed spec fn view(&self) -> SessionView {
        SessionView { id: self.id, files: self.files@, symbols: self.interner@ }
    }
}

impl Session {
    /// Holds of every session that this module hands out.
    pub open spec fn wf(&self) -> bool {
        laid_out(self@.files) && distinct(self@.symbols)
    }

    /// Whether a file of `len` bytes can still be registered.
    pub open spec fn has_room(&self, len: int) -> bool {
        self@.files.len() < u32::MAX && next_start(self@.files) + len < usize::MAX
    }

    /// What resolving `span` gives: its place in the one file that holds it;
    /// a refusal where the span is another session's, or lies in no file.
    pub open spec fn spec_resolve(&self, span: Span) -> Result<Location, ResolveError> {
        let owner = first_holder(
            self@.files,
            span.lo as int,
            span.hi as int,
            self@.files.len() as int,
        );
        if span.session != self@.id {
            Err(ResolveError::ForeignSession)
        } else if owner < self@.files.len() {
            Ok(location_in(self@.files[owner], span.lo as int, span.hi as int))
        } else {
            Err(ResolveError::OutOfBounds)
        }
    }

    /// What `span` gives for the stretch from `lo` to `hi` of the file
    /// `file`, both counted from the start of that file.
    pub open spec fn spec_span(&self, file: FileId, lo: usize, hi: usize) -> Option<Span> {
        if file.0 < self@.files.len() && lo <= hi <= self@.files[file.0 as int].content@.len() {
            Some(
                Span {
                    session: self@.id,
                    lo: (self@.files[file.0 as int].start + lo) as usize,
                    hi: (self@.files[file.0 as int].start + hi) as usize,
                },
            )
        } else {
            None
        }
    }

    /// A session without files and without symbols, known by `id`. It is for
    /// the caller to give no two sessions one number; a unit of work does so
    /// for the sessions that it makes.
    pub fn new(id: u64) -> (session: Session)
        ensures
            session.wf(),
            session@.id == id,
            session@.files == Seq::<SourceFile>::empty(),
            session@.symbols == Seq::<Seq<char>>::empty(),
    {
        Session { id, files: Vec::new(), interner: Interner::new() }
    }

    /// The number that tells this session from the others.
    pub fn id(&self) -> (id: u64)
        ensures
            id == self@.id,
    {
        self.id
    }

    /// The number of files registered so far.
    pub fn file_count(&self) -> (n: usize)
        ensures
            n == self@.files.len(),
    {
        self.files.len()
    }

    /// The file that `id` names, if it was registered here.
    pub fn file(&self, id: FileId) -> (file: Option<&SourceFile>)
        ensures
            file is Some <==> id.0 < self@.files.len(),
            file is Some ==> *file->Some_0 == self@.files[id.0 as int],
    {
        if (id.0 as usize) < self.files.len() {
            Some(&self.files[id.0 as usize])
        } else {
            None
        }
    }
}

/// `first_holder` finds the first of the first `n` files that holds the
/// stretch: what it returns holds it, unless it is `n`, and no file before
/// it does.
pub proof fn first_holder_is_first(files: Seq<SourceFile>, lo: int, hi: int, n: int)
    requires
        0 <= n <= files.len(),
    ensures
        0 <= first_holder(files, lo, hi, n) <= n,
        first_holder(files, lo, hi, n) < n ==> files[first_holder(files, lo, hi, n)].holds(lo, hi),
        forall|i: int| 0 <= i < first_holder(files, lo, hi, n) ==> !files[i].holds(lo, hi),
    decreases n,
{
    if n > 0 {
        first_holder_is_first(files, lo, hi, n - 1);
    }
}

/// Once a holder is found among the first `n` files, looking further changes
/// nothing.
pub proof fn first_holder_stays(files: Seq<SourceFile>, lo: int, hi: int, n: int, m: int)
    requires
        0 <= n <= m,
        first_holder(files, lo, hi, n) < n,
    ensures
        first_holder(files, lo, hi, m) == first_holder(files, lo, hi, n),
    decreases m - n,
{
    if n < m {
        first_holder_stays(files, lo, hi, n, m - 1);
    }
}

/// In a buffer that is laid out, a later file begins behind the end of every
/// earlier one, and every file ends before the next one would begin.
pub proof fn files_lie_apart(files: Seq<SourceFile>, i: int, j: int)
    requires
        laid_out(files),
        0 <= i < j <= files.len(),
    ensures
        files[i].end() < next_start(files.take(j)),
        j < files.len() ==> files[i].end() < files[j].start,
    decreases j,
{
    assert(files.take(j).last() == files[j - 1]);
    if i < j - 1 {
        files_lie_apart(files, i, j - 1);
        assert(files[j - 1].start == next_start(files.take(j - 1)));
    }
}

/// In a buffer that is laid out, no stretch lies in two files.
pub proof fn at_most_one_holder(files: Seq<SourceFile>, lo: int, hi: int, i: int, j: int)
    requires
        laid_out(files),
        0 <= i < files.len(),
        0 <= j < files.len(),
        files[i].holds(lo, hi),
        files[j].holds(lo, hi),
    ensures
        i == j,
{
    if i < j {
        files_lie_apart(files, i, j);
    } else if j < i {
        files_lie_apart(files, j, i);
    }
}

impl Session {
    /// Registers a file: its bytes go to the end of the buffer, and it gets
    /// the next number. Nothing that was registered before changes. Fails
    /// only where the numbers or the places are used up, and then changes
    /// nothing.
    pub fn register(&mut self, name: FileName, content: &str) -> (out: Result<
        FileId,
        SessionError,
    >)
        requires
            old(self).wf(),
        ensures
            final(self).wf(),
            final(self)@.id == old(self)@.id,
            final(self)@.symbols == old(self)@.symbols,
            match out {
                Ok(id) => {
                    &&& old(self).has_room(content.spec_bytes().len() as int)
                    &&& id.0 == old(self)@.files.len()
                    &&& final(self)@.files.len() == old(self)@.files.len() + 1
                    &&& final(self)@.files.drop_last() == old(self)@.files
                    &&& final(self)@.files.last().id == id
                    &&& final(self)@.files.last().name == name
                    &&& final(self)@.files.last().start == next_start(old(self)@.files)
                    &&& final(self)@.files.last().content@ == content.spec_bytes()
                },
                Err(_) => !old(self).has_room(content.spec_bytes().len() as int) && final(self)@
                    == old(self)@,
            },
    {
        let bytes = content.as_bytes_vec();
        let n = self.files.len();
        let start: usize = if n == 0 {
            0
        } else {
            let last = &self.files[n - 1];
            last.start + last.content.len() + 1
        };
        if n >= u32::MAX as usize || bytes.len() >= usize::MAX - start {
            return Err(SessionError::Exhausted);
        }
        let id = FileId(n as u32);
        let ghost before = self.files@;
        self.files.push(SourceFile { id, name, start, content: bytes });
        proof {
            let after = self.files@;
            assert(after.drop_last() =~= before);
            assert forall|i: int| 0 <= i < after.len() implies (#[trigger] after[i]).start
                == next_start(after.take(i)) by {
                if i < n {
                    assert(after.take(i) =~= before.take(i));
                    assert(after[i] == before[i]);
                } else {
                    assert(after.take(i) =~= before);
                }
            }
        }
        Ok(id)
    }

    /// The span of the stretch from `lo` to `hi` of the file `file`, both
    /// counted from the start of that file: `None` where this session has no
    /// such file, or the stretch does not lie in it.
    pub fn span(&self, file: FileId, lo: usize, hi: usize) -> (span: Option<Span>)
        requires
            self.wf(),
        ensures
            span == self.spec_span(file, lo, hi),
    {
        if (file.0 as usize) < self.files.len() {
            let source = &self.files[file.0 as usize];
            if lo <= hi && hi <= source.content.len() {
                proof {
                    files_lie_apart(self.files@, file.0 as int, self.files@.len() as int);
                    assert(self.files@.take(self.files@.len() as int) =~= self.files@);
                }
                return Some(Span { session: self.id, lo: source.start + lo, hi: source.start + hi });
            }
        }
        None
    }

    /// Resolves `span` to its place. A span that carries another session's
    /// number is refused, wherever it lies; so is one that lies in no file.
    pub fn resolve(&self, span: Span) -> (out: Result<Location, ResolveError>)
        requires
            self.wf(),
        ensures
            out == self.spec_resolve(span),
    {
        if span.session != self.id {
            return Err(ResolveError::ForeignSession);
        }
        proof {
            assert forall|k: int| 0 <= k < self.files@.len() implies (#[trigger] self.files@[k]).end()
                < usize::MAX by {
                files_lie_apart(self.files@, k, self.files@.len() as int);
                assert(self.files@.take(self.files@.len() as int) =~= self.files@);
            }
        }
        let mut i: usize = 0;
        while i < self.files.len()
            invariant
                i <= self.files.len(),
                self@.files == self.files@,
                span.session == self@.id,
                forall|k: int|
                    0 <= k < self.files@.len() ==> (#[trigger] self.files@[k]).end() < usize::MAX,
                first_holder(self.files@, span.lo as int, span.hi as int, i as int) == i,
            decreases self.files.len() - i,
        {
            let file = &self.files[i];
            if file.start <= span.lo && span.lo <= span.hi && span.hi - file.start
                <= file.content.len() {
                proof {
                    assert(self.files@[i as int].holds(span.lo as int, span.hi as int));
                    assert(first_holder(self.files@, span.lo as int, span.hi as int, i as int + 1)
                        == i);
                    first_holder_stays(
                        self.files@,
                        span.lo as int,
                        span.hi as int,
                        i as int + 1,
                        self.files@.len() as int,
                    );
                }
                return Ok(locate(file, span.lo, span.hi));
            }
            i = i + 1;
        }
        Err(ResolveError::OutOfBounds)
    }

    /// The symbol of `s`. A string that was interned before keeps its
    /// symbol; a new one gets the next. The files stay as they are.
    pub fn intern(&mut self, s: &str) -> (symbol: Symbol)
        requires
            old(self).wf(),
        ensures
            final(self).wf(),
            final(self)@.id == old(self)@.id,
            final(self)@.files == old(self)@.files,
            symbol.0 < final(self)@.symbols.len(),
            final(self)@.symbols[symbol.0 as int] == s@,
            symbol.0 == first_index_of(old(self)@.symbols, s@, old(self)@.symbols.len() as int),
            symbol.0 < old(self)@.symbols.len() ==> final(self)@.symbols == old(self)@.symbols,
            symbol.0 == old(self)@.symbols.len() ==> final(self)@.symbols == old(
                self,
            )@.symbols.push(s@),
    {
        self.interner.intern(s)
    }

    /// The string that `symbol` stands for, if this session gave it out.
    pub fn symbol_text(&self, symbol: Symbol) -> (s: Option<&str>)
        ensures
            s is Some <==> symbol.0 < self@.symbols.len(),
            s is Some ==> s->Some_0@ == self@.symbols[symbol.0 as int],
    {
        self.interner.get(symbol)
    }
}

/// A session refuses every span that carries another session's number,
/// wherever the span lies: no place is ever given for it.
pub proof fn foreign_span_is_rejected(session: Session, span: Span)
    requires
        span.session != session@.id,
    ensures
        session.spec_resolve(span) == Err::<Location, ResolveError>(ResolveError::ForeignSession),
{
}

/// A span that one session made is refused by every session with another
/// number. Of two sessions with one number nothing of the kind holds.
pub proof fn span_stays_with_its_session(
    maker: Session,
    other: Session,
    file: FileId,
    lo: usize,
    hi: usize,
)
    requires
        maker@.id != other@.id,
        maker.spec_span(file, lo, hi) is Some,
    ensures
        other.spec_resolve(maker.spec_span(file, lo, hi)->Some_0) == Err::<Location, ResolveError>(
            ResolveError::ForeignSession,
        ),
{
}

/// A span resolves in the session that made it, to a place in the file that
/// it was made for.
pub proof fn own_span_resolves(session: Session, file: FileId, lo: usize, hi: usize)
    requires
        session.wf(),
        session.spec_span(file, lo, hi) is Some,
    ensures
        session.spec_resolve(session.spec_span(file, lo, hi)->Some_0) == Ok::<
            Location,
            ResolveError,
        >(
            location_in(
                session@.files[file.0 as int],
                session@.files[file.0 as int].start + lo,
                session@.files[file.0 as int].start + hi,
            ),
        ),
        session.spec_resolve(session.spec_span(file, lo, hi)->Some_0)->Ok_0.file == file,
{
    let files = session@.files;
    let at = file.0 as int;
    let span = session.spec_span(file, lo, hi)->Some_0;
    files_lie_apart(files, at, files.len() as int);
    assert(files.take(files.len() as int) =~= files);
    holder_is_found(files, span.lo as int, span.hi as int, at);
}

/// Registering a file leaves every place of the earlier files where it was:
/// a span that resolved before resolves to the same place after.
pub proof fn registering_keeps_places(before: Session, after: Session, span: Span)
    requires
        before.wf(),
        after.wf(),
        after@.id == before@.id,
        after@.files.len() == before@.files.len() + 1,
        after@.files.drop_last() == before@.files,
        before.spec_resolve(span) is Ok,
    ensures
        after.spec_resolve(span) == before.spec_resolve(span),
{
    let old_files = before@.files;
    let new_files = after@.files;
    let n = old_files.len() as int;
    let lo = span.lo as int;
    let hi = span.hi as int;
    first_holder_is_first(old_files, lo, hi, n);
    let owner = first_holder(old_files, lo, hi, n);
    assert(new_files[owner] == old_files[owner]);
    first_holder_is_first(new_files, lo, hi, n + 1);
    let new_owner = first_holder(new_files, lo, hi, n + 1);
    assert(new_owner <= owner) by {
        if new_owner > owner {
            assert(!new_files[owner].holds(lo, hi));
        }
    }
    assert(new_files[new_owner] == old_files[new_owner]);
    at_most_one_holder(new_files, lo, hi, new_owner, owner);
}

/// In a buffer that is laid out, the file that holds a stretch is the one
/// that is found for it.
pub proof fn holder_is_found(files: Seq<SourceFile>, lo: int, hi: int, i: int)
    requires
        laid_out(files),
        0 <= i < files.len(),
        files[i].holds(lo, hi),
    ensures
        first_holder(files, lo, hi, files.len() as int) == i,
{
    let n = files.len() as int;
    first_holder_is_first(files, lo, hi, n);
    let owner = first_holder(files, lo, hi, n);
    assert(owner < n) by {
        if owner == n {
            assert(!files[i].holds(lo, hi));
        }
    }
    at_most_one_holder(files, lo, hi, owner, i);
}

} // verus!
