//! Paths as text, with `/` between their parts.

use vstd::prelude::*;
use vstd::string::*;

verus! {

/// Whether `path` starts at the root.
pub open spec fn is_absolute(path: Seq<char>) -> bool {
    path.len() > 0 && path[0] == '/'
}

/// Whether a separator has to stand between `base` and what is put behind
/// it: not after nothing, and not after a separator.
pub open spec fn needs_separator(base: Seq<char>) -> bool {
    base.len() > 0 && base.last() != '/'
}

/// `name` seen from the directory `base`: an absolute `name` stands for
/// itself; any other is put behind `base`, with one `/` between the two
/// where `base` does not already end in one.
pub open spec fn join_path(base: Seq<char>, name: Seq<char>) -> Seq<char> {
    if is_absolute(name) {
        name
    } else if needs_separator(base) {
        base + seq!['/'] + name
    } else {
        base + name
    }
}

/// The path of `name` seen from the directory `base`.
pub fn join(base: &str, name: &str) -> (path: String)
    ensures
        path@ == join_path(base@, name@),
{
    let name_len = name.unicode_len();
    if name_len > 0 && name.get_char(0) == '/' {
        return String::from_str(name);
    }
    let mut path = String::from_str(base);
    let base_len = base.unicode_len();
    if base_len > 0 && base.get_char(base_len - 1) != '/' {
        proof {
            reveal_strlit("/");
        }
        path.append("/");
    }
    path.append(name);
    assert(path@ =~= join_path(base@, name@));
    path
}

} // verus!
