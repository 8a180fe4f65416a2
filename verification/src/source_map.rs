//! The files of a session, laid end to end in one buffer, and the places in
//! them.

use vstd::prelude::*;
use vstd::string::*;

verus! {

/// What a source file is known by.
#[derive(Clone, Debug, PartialEq, Eq)]
pub enum FileName {
    /// A file on disk, by its path.
    Real(String),
    /// A label that the caller chose.
    Custom(String),
    /// Text that came as a string, without a name.
    Anonymous,
}

/// A file's name, as contracts see it.
pub enum FileNameView {
    Real(Seq<char>),
    Custom(Seq<char>),
    Anonymous,
}

impl View for FileName {
    type V = FileNameView;

    open spec fn view(&self) -> FileNameView {
        match self {
            FileName::Real(path) => FileNameView::Real(path@),
            FileName::Custom(label) => FileNameView::Custom(label@),
            FileName::Anonymous => FileNameView::Anonymous,
        }
    }
}

impl FileName {
    /// A copy of the name.
    pub fn duplicate(&self) -> (copy: FileName)
        ensures
            copy == *self,
    {
        match self {
            FileName::Real(path) => FileName::Real(path.clone()),
            FileName::Custom(label) => FileName::Custom(label.clone()),
            FileName::Anonymous => FileName::Anonymous,
        }
    }
}

/// The number of a file in its session: files are numbered from 0 in the
/// order in which they were registered.
#[derive(Clone, Copy, Debug, PartialEq, Eq, Hash, Structural)]
pub struct FileId(pub u32);

/// One registered file: its bytes, and where they begin in the buffer.
#[derive(Clone, Debug, PartialEq, Eq)]
pub struct SourceFile {
    pub id: FileId,
    pub name: FileName,
    pub start: usize,
    pub content: Vec<u8>,
}

impl SourceFile {
    /// Where the file ends in the buffer: the first place behind its bytes.
    pub open spec fn end(&self) -> int {
        self.start + self.content@.len()
    }

    /// Whether the stretch from `lo` to `hi` lies within this file.
    pub open spec fn holds(&self, lo: int, hi: int) -> bool {
        self.start <= lo <= hi <= self.end()
    }
}

/// A place in a file: the line that a span begins on, and the columns that it
/// runs over, counted in bytes from the start of that line. Lines and
/// columns count from 1; `col_stop` is the first column behind the span.
#[derive(Clone, Copy, Debug, PartialEq, Eq, Structural)]
pub struct Location {
    pub file: FileId,
    pub line: usize,
    pub col_start: usize,
    pub col_stop: usize,
}

/// The number of line feeds among the first `pos` bytes of `content`.
pub open spec fn newlines_before(content: Seq<u8>, pos: int) -> int
    decreases pos,
{
    if pos <= 0 {
        0
    } else if content[pos - 1] == 10u8 {
        newlines_before(content, pos - 1) + 1
    } else {
        newlines_before(content, pos - 1)
    }
}

/// Where the line begins that the byte at `pos` stands on: behind the last
/// line feed before `pos`, or at 0.
pub open spec fn line_start(content: Seq<u8>, pos: int) -> int
    decreases pos,
{
    if pos <= 0 {
        0
    } else if content[pos - 1] == 10u8 {
        pos
    } else {
        line_start(content, pos - 1)
    }
}

/// The place of the stretch from `lo` to `hi` of `file`, both counted from
/// the start of the buffer.
pub open spec fn location_in(file: SourceFile, lo: int, hi: int) -> Location {
    let at = lo - file.start;
    let column = at - line_start(file.content@, at) + 1;
    Location {
        file: file.id,
        line: (newlines_before(file.content@, at) + 1) as usize,
        col_start: column as usize,
        col_stop: (column + (hi - lo)) as usize,
    }
}

/// Finds the place of the stretch from `lo` to `hi` of `file`.
pub(crate) fn locate(file: &SourceFile, lo: usize, hi: usize) -> (place: Location)
    requires
        file.holds(lo as int, hi as int),
        file.end() < usize::MAX,
    ensures
        place == location_in(*file, lo as int, hi as int),
        place.line >= 1,
        place.col_start >= 1,
        place.col_stop - place.col_start == hi - lo,
{
    let at: usize = lo - file.start;
    let mut line: usize = 1;
    let mut begin: usize = 0;
    let mut i: usize = 0;
    while i < at
        invariant
            i <= at <= file.content@.len(),
            file.end() < usize::MAX,
            line == newlines_before(file.content@, i as int) + 1,
            begin == line_start(file.content@, i as int),
            begin <= i,
            1 <= line <= i + 1,
        decreases at - i,
    {
        if file.content[i] == 10u8 {
            line = line + 1;
            begin = i + 1;
        }
        i = i + 1;
    }
    let column: usize = at - begin + 1;
    Location { file: file.id, line, col_start: column, col_stop: column + (hi - lo) }
}

} // verus!
