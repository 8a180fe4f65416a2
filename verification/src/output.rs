//! What a regression run hands back for one test case.

use vstd::prelude::*;
use vstd::string::*;

verus! {

/// What the run found for one input file: the hash of its parsed form, or
/// the marker that stands in where the test has no input file.
#[derive(Clone, Debug, PartialEq, Eq)]
pub struct OutputItem {
    pub initial_input_ast: String,
}

/// The hashes, or markers, that a list of items holds, in their order.
pub open spec fn item_texts(items: Seq<OutputItem>) -> Seq<Seq<char>> {
    Seq::new(items.len(), |i: int| items[i].initial_input_ast@)
}

/// The result of a run that succeeded: one item for each input file, the hash
/// of the parsed program, and the hash of the symbol table's rendering.
#[derive(Clone, Debug, PartialEq, Eq)]
pub struct CompileOutput {
    pub output: Vec<OutputItem>,
    pub initial_ast: String,
    pub symbol_table: String,
}

/// A result, as contracts see it.
pub struct CompileOutputView {
    pub output: Seq<Seq<char>>,
    pub initial_ast: Seq<char>,
    pub symbol_table: Seq<char>,
}

impl View for CompileOutput {
    type V = CompileOutputView;

    open spec fn view(&self) -> CompileOutputView {
        CompileOutputView {
            output: item_texts(self.output@),
            initial_ast: self.initial_ast@,
            symbol_table: self.symbol_table@,
        }
    }
}

/// The marker that stands in for an input's hash where there is no input.
pub open spec fn no_input_marker() -> Seq<char> {
    "no input"@
}

/// The item of a test without input files.
pub fn no_input_item() -> (item: OutputItem)
    ensures
        item.initial_input_ast@ == no_input_marker(),
{
    OutputItem { initial_input_ast: String::from_str("no input") }
}

/// The directory that the compiler writes its artifacts to during a run.
pub fn output_dir() -> (dir: &'static str)
    ensures
        dir@ == "/tmp/output/"@,
{
    "/tmp/output/"
}

/// The file that holds the parsed form of the input that was parsed last.
pub fn input_ast_path() -> (path: &'static str)
    ensures
        path@ == "/tmp/output/inital_input_ast.json"@,
{
    "/tmp/output/inital_input_ast.json"
}

/// The file that holds the parsed form of the program.
pub fn program_ast_path() -> (path: &'static str)
    ensures
        path@ == "/tmp/output/initial_ast.json"@,
{
    "/tmp/output/initial_ast.json"
}

} // verus!
