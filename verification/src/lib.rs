//! The front end of the Leo compiler, as far as it decides anything: the
//! diagnostics that a compilation collects, the session that names files and
//! spans, the symbol table that the passes fill, the order in which the passes
//! run, and the regression run that drives all of it over one test case.
//!
//! Everything here works on plain values. Reading and writing files, and the
//! parser itself, belong to the program around this library.

pub mod buffer;
pub mod emitter;
pub mod errors;
pub mod handler;
pub mod hash;
pub mod inputs;
pub mod interner;
pub mod namespace;
pub mod output;
pub mod paths;
pub mod pipeline;
pub mod session;
pub mod source_map;
pub mod span;
pub mod symbol_table;
pub mod test_run;
pub mod text;
pub mod unit_of_work;
pub mod updates;
