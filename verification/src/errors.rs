//! What a compilation reports: errors, each with the exit code of its class,
//! and warnings.

use crate::span::Span;
use crate::text::{push_signed_decimal, signed_decimal};
use vstd::prelude::*;
use vstd::string::*;

verus! {

/// The classes of failure that the compiler itself reports.
#[derive(Clone, Copy, Debug, PartialEq, Eq, Structural)]
pub enum ErrorKind {
    /// The program text is not well formed.
    MalformedSyntax,
    /// An input file ends before what it began is complete.
    UnterminatedInput,
    /// A name is used that no scope in sight declares.
    UnknownIdentifier,
    /// A name is declared twice in one scope.
    DuplicateDeclaration,
    /// A declaration is given a type that contradicts the one it has.
    TypeMismatch,
}

impl ErrorKind {
    /// The exit code of each class: a small positive number, no two alike.
    pub open spec fn spec_exit_code(self) -> i32 {
        match self {
            ErrorKind::MalformedSyntax => 1,
            ErrorKind::UnterminatedInput => 2,
            ErrorKind::UnknownIdentifier => 3,
            ErrorKind::DuplicateDeclaration => 4,
            ErrorKind::TypeMismatch => 5,
        }
    }

    /// The exit code of this class.
    pub fn exit_code(&self) -> (code: i32)
        ensures
            code == self.spec_exit_code(),
            code > 0,
    {
        match self {
            ErrorKind::MalformedSyntax => 1,
            ErrorKind::UnterminatedInput => 2,
            ErrorKind::UnknownIdentifier => 3,
            ErrorKind::DuplicateDeclaration => 4,
            ErrorKind::TypeMismatch => 5,
        }
    }

    /// Whether the parser reports this class, and not a pass.
    pub open spec fn spec_is_parse_error(self) -> bool {
        self == ErrorKind::MalformedSyntax || self == ErrorKind::UnterminatedInput
    }

    /// Whether the parser reports this class, and not a pass.
    pub fn is_parse_error(&self) -> (parse: bool)
        ensures
            parse == self.spec_is_parse_error(),
    {
        match self {
            ErrorKind::MalformedSyntax => true,
            ErrorKind::UnterminatedInput => true,
            _ => false,
        }
    }
}

/// Exit codes tell the classes apart: two classes with one code are one.
pub proof fn exit_codes_distinguish_classes(a: ErrorKind, b: ErrorKind)
    ensures
        a.spec_exit_code() == b.spec_exit_code() <==> a == b,
        a.spec_exit_code() > 0,
{
}

/// An error of the compiler: its class, what it says, and where.
#[derive(Clone, Debug, PartialEq, Eq)]
pub struct LeoError {
    pub kind: ErrorKind,
    pub message: String,
    pub spans: Vec<Span>,
}

impl LeoError {
    /// An error of class `kind` that says `message` about `spans`.
    pub fn new(kind: ErrorKind, message: String, spans: Vec<Span>) -> (err: LeoError)
        ensures
            err == (LeoError { kind, message, spans }),
    {
        LeoError { kind, message, spans }
    }

    /// The exit code that a process ending on this error should give.
    pub open spec fn spec_exit_code(&self) -> i32 {
        self.kind.spec_exit_code()
    }

    /// The exit code that a process ending on this error should give.
    pub fn exit_code(&self) -> (code: i32)
        ensures
            code == self.spec_exit_code(),
            code > 0,
    {
        self.kind.exit_code()
    }

    /// The line that shows this error: `Error [` and the exit code, then `]: `
    /// and the message.
    pub open spec fn spec_render(&self) -> Seq<char> {
        "Error ["@ + signed_decimal(self.spec_exit_code() as int) + "]: "@ + self.message@
    }

    /// The line that shows this error.
    pub fn render(&self) -> (line: String)
        ensures
            line@ == self.spec_render(),
    {
        let mut line = String::new();
        line.append("Error [");
        push_signed_decimal(&mut line, self.exit_code());
        line.append("]: ");
        line.append(self.message.as_str());
        assert(line@ =~= self.spec_render());
        line
    }
}

/// The classes of warning.
#[derive(Clone, Copy, Debug, PartialEq, Eq, Structural)]
pub enum WarningKind {
    /// A declaration hides one of the same name in a scope around it.
    Shadowed,
    /// A declaration that nothing uses.
    Unused,
}

/// A warning: advice that stops nothing and has no exit code.
#[derive(Clone, Debug, PartialEq, Eq)]
pub struct LeoWarning {
    pub kind: WarningKind,
    pub message: String,
    pub spans: Vec<Span>,
}

impl LeoWarning {
    /// A warning of class `kind` that says `message` about `spans`.
    pub fn new(kind: WarningKind, message: String, spans: Vec<Span>) -> (warning: LeoWarning)
        ensures
            warning == (LeoWarning { kind, message, spans }),
    {
        LeoWarning { kind, message, spans }
    }

    /// The line that shows this warning: `Warning: ` and the message.
    pub open spec fn spec_render(&self) -> Seq<char> {
        "Warning: "@ + self.message@
    }

    /// The line that shows this warning.
    pub fn render(&self) -> (line: String)
        ensures
            line@ == self.spec_render(),
    {
        let mut line = String::new();
        line.append("Warning: ");
        line.append(self.message.as_str());
        assert(line@ =~= self.spec_render());
        line
    }
}

/// One entry of the error log: an error of the compiler, or a message of the
/// code around it, which has no class and no exit code of its own.
#[derive(Clone, Debug, PartialEq, Eq)]
pub enum LeoOrString {
    Leo(LeoError),
    String(String),
}

impl LeoOrString {
    /// The exit code of the entry: that of a compiler error, and 0 for a
    /// message, which stands for "unspecified".
    pub open spec fn spec_exit_code(&self) -> i32 {
        match self {
            LeoOrString::Leo(err) => err.spec_exit_code(),
            LeoOrString::String(_) => 0,
        }
    }

    /// The exit code of the entry.
    pub fn exit_code(&self) -> (code: i32)
        ensures
            code == self.spec_exit_code(),
            code == 0 <==> self is String,
    {
        match self {
            LeoOrString::Leo(err) => err.exit_code(),
            LeoOrString::String(_) => 0,
        }
    }

    /// The text that shows the entry: the error's line, or the message as it
    /// stands.
    pub open spec fn spec_render(&self) -> Seq<char> {
        match self {
            LeoOrString::Leo(err) => err.spec_render(),
            LeoOrString::String(message) => message@,
        }
    }

    /// The text that shows the entry.
    pub fn to_string(&self) -> (text: String)
        ensures
            text@ == self.spec_render(),
    {
        match self {
            LeoOrString::Leo(err) => err.render(),
            LeoOrString::String(message) => message.clone(),
        }
    }
}

} // verus!
