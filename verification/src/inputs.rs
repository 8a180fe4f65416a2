//! A test case as the regression run receives it, and the input files that
//! it names.

use crate::paths::{join, join_path};
use crate::text::texts;
use vstd::prelude::*;
use vstd::string::*;

verus! {

/// What a key of a test's configuration holds, as far as the run reads it.
#[derive(Clone, Debug, PartialEq, Eq)]
pub enum ConfigValue {
    /// A string.
    Text(String),
    /// A list; each item is `Some` where it is a string, `None` where not.
    List(Vec<Option<String>>),
    /// Anything else.
    Other,
}

impl ConfigValue {
    /// Whether every item of a list is a string. Holds of what is no list.
    pub open spec fn spec_names_only(&self) -> bool {
        match self {
            ConfigValue::List(items) => forall|i: int|
                0 <= i < items@.len() ==> (#[trigger] items@[i]) is Some,
            _ => true,
        }
    }

    /// Whether every item of a list is a string. Holds of what is no list.
    pub fn names_only(&self) -> (all: bool)
        ensures
            all == self.spec_names_only(),
    {
        match self {
            ConfigValue::List(items) => {
                let mut i: usize = 0;
                while i < items.len()
                    invariant
                        i <= items.len(),
                        *self == ConfigValue::List(*items),
                        forall|j: int| 0 <= j < i ==> (#[trigger] items@[j]) is Some,
                    decreases items.len() - i,
                {
                    if items[i].is_none() {
                        assert(!(items@[i as int] is Some));
                        return false;
                    }
                    i = i + 1;
                }
                true
            },
            _ => true,
        }
    }

    /// Whether the value is a string.
    pub fn is_text(&self) -> (text: bool)
        ensures
            text == (self is Text),
    {
        match self {
            ConfigValue::Text(_) => true,
            _ => false,
        }
    }
}

/// The two keys of a test's configuration that the run reads.
#[derive(Clone, Debug, PartialEq, Eq)]
pub struct TestConfig {
    /// `cwd`: a directory, relative to the test's own, to compile in.
    pub cwd: Option<ConfigValue>,
    /// `input_file`: one input file, or a list of them, relative to the
    /// test's own directory.
    pub input_file: Option<ConfigValue>,
}

/// One test case: the directory that its file lies in, the program text, and
/// its configuration.
#[derive(Clone, Debug, PartialEq, Eq)]
pub struct Test {
    pub dir: String,
    pub content: String,
    pub config: TestConfig,
}

/// The directory that `test` asks to be compiled in: its key `cwd`, seen
/// from the test's own directory; none where it has no such key.
pub open spec fn working_dir(test: Test) -> Option<Seq<char>> {
    match test.config.cwd {
        Some(ConfigValue::Text(dir)) => Some(join_path(test.dir@, dir@)),
        _ => None,
    }
}

/// The directory that the input files of `test` are named from: the one it
/// asks to be compiled in, or its own where it asks for none.
pub open spec fn input_dir(test: Test) -> Seq<char> {
    match working_dir(test) {
        Some(dir) => dir,
        None => test.dir@,
    }
}

/// The paths that `names[0]`, .., `names[n - 1]` stand for in `dir`.
pub open spec fn paths_in(dir: Seq<char>, names: Seq<Option<String>>, n: int) -> Seq<Seq<char>> {
    Seq::new(n as nat, |i: int| join_path(dir, names[i]->Some_0@))
}

/// The paths of the input files that `input` names, seen from `dir`: one
/// for a string, one for each item of a list, none for anything else.
pub open spec fn input_paths(dir: Seq<char>, input: ConfigValue) -> Seq<Seq<char>> {
    match input {
        ConfigValue::Text(name) => seq![join_path(dir, name@)],
        ConfigValue::List(names) => paths_in(dir, names@, names@.len() as int),
        ConfigValue::Other => Seq::empty(),
    }
}

/// All input files of `test`: those that its key `input_file` names, and
/// none where it has no such key.
pub open spec fn all_input_paths(test: Test) -> Seq<Seq<char>> {
    match test.config.input_file {
        Some(input) => input_paths(input_dir(test), input),
        None => Seq::empty(),
    }
}

/// The directory that `test` asks to be compiled in, if it names one. The
/// key `cwd`, where it is there, must hold a string.
pub fn resolve_cwd(test: &Test) -> (cwd: Option<String>)
    requires
        test.config.cwd is Some ==> test.config.cwd->Some_0 is Text,
    ensures
        cwd is Some <==> test.config.cwd is Some,
        cwd is Some ==> working_dir(*test) == Some(cwd->Some_0@),
        cwd is None ==> working_dir(*test) is None,
{
    match &test.config.cwd {
        Some(ConfigValue::Text(dir)) => Some(join(test.dir.as_str(), dir.as_str())),
        _ => None,
    }
}

/// Appends to `list` the paths of the input files that `input` names, in
/// the order in which it names them. Each is seen from the directory that
/// the test asks to be compiled in, or from the test's own where it asks for
/// none. The key `cwd`, where it is there, must hold a string, and a list
/// strings only.
pub fn get_input_file_paths(list: &mut Vec<String>, test: &Test, input: &ConfigValue)
    requires
        test.config.cwd is Some ==> test.config.cwd->Some_0 is Text,
        input.spec_names_only(),
    ensures
        texts(final(list)@) == texts(old(list)@) + input_paths(input_dir(*test), *input),
{
    let dir = match resolve_cwd(test) {
        Some(dir) => dir,
        None => test.dir.clone(),
    };
    match input {
        ConfigValue::Text(name) => {
            let path = join(dir.as_str(), name.as_str());
            list.push(path);
            assert(texts(list@) =~= texts(old(list)@) + input_paths(dir@, *input));
        },
        ConfigValue::List(names) => {
            let mut i: usize = 0;
            assert(texts(list@) =~= texts(old(list)@) + paths_in(dir@, names@, 0));
            while i < names.len()
                invariant
                    i <= names.len(),
                    forall|j: int| 0 <= j < names@.len() ==> (#[trigger] names@[j]) is Some,
                    texts(list@) == texts(old(list)@) + paths_in(dir@, names@, i as int),
                decreases names.len() - i,
            {
                let ghost before = list@;
                assert(names@[i as int] is Some);
                match &names[i] {
                    Some(name) => {
                        let path = join(dir.as_str(), name.as_str());
                        list.push(path);
                        assert(path@ == join_path(dir@, names@[i as int]->Some_0@));
                        assert(list@ == before.push(path));
                    },
                    None => {},
                }
                i = i + 1;
                assert(texts(list@) =~= texts(before).push(
                    join_path(dir@, names@[i - 1]->Some_0@),
                ));
                assert(texts(list@) =~= texts(old(list)@) + paths_in(dir@, names@, i as int));
            }
        },
        ConfigValue::Other => {
            assert(texts(list@) =~= texts(old(list)@) + input_paths(dir@, *input));
        },
    }
}

/// The paths of all input files of `test`, in the order in which it names
/// them. The key `cwd`, where it is there, must hold a string, and a list
/// under `input_file` strings only.
pub fn collect_all_inputs(test: &Test) -> (inputs: Result<Vec<String>, String>)
    requires
        test.config.cwd is Some ==> test.config.cwd->Some_0 is Text,
        test.config.input_file is Some ==> test.config.input_file->Some_0.spec_names_only(),
    ensures
        inputs is Ok,
        texts(inputs->Ok_0@) == all_input_paths(*test),
{
    let mut list: Vec<String> = Vec::new();
    assert(texts(list@) =~= Seq::<Seq<char>>::empty());
    match &test.config.input_file {
        Some(input) => {
            get_input_file_paths(&mut list, test, input);
            assert(texts(list@) =~= all_input_paths(*test));
        },
        None => {},
    }
    Ok(list)
}

} // verus!
