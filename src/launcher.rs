//! Recognising the game's launcher among the files of an installation.
use vstd::prelude::*;
use crate::text::{ascii_ci_eq, eq_ignore_ascii_case};

verus! {

/// Whether a file name is the launcher's, in any ASCII case: `vintagestory.exe`
/// always, and the bare `vintagestory` too when `accept_bare`.
pub open spec fn spec_is_launcher_name(name: Seq<char>, accept_bare: bool) -> bool {
    ascii_ci_eq(name, "vintagestory.exe"@) || (accept_bare && ascii_ci_eq(name, "vintagestory"@))
}

/// Whether `name` is the launcher's file name (see `spec_is_launcher_name`).
pub fn is_launcher_name(name: &str, accept_bare: bool) -> (r: bool)
    ensures
        r == spec_is_launcher_name(name@, accept_bare),
{
    eq_ignore_ascii_case(name, "vintagestory.exe") || (accept_bare && eq_ignore_ascii_case(
        name,
        "vintagestory",
    ))
}

/// Whether any of the file names found in a tree is the launcher's.
pub fn contains_launcher(file_names: &Vec<String>, accept_bare: bool) -> (r: bool)
    ensures
        r == exists|i: int|
            0 <= i < file_names@.len() && spec_is_launcher_name(
                #[trigger] file_names@[i]@,
                accept_bare,
            ),
{
    let mut i: usize = 0;
    while i < file_names.len()
        invariant
            i <= file_names@.len(),
            forall|k: int|
                0 <= k < i ==> !spec_is_launcher_name(#[trigger] file_names@[k]@, accept_bare),
        decreases file_names.len() - i,
    {
        if is_launcher_name(file_names[i].as_str(), accept_bare) {
            return true;
        }
        i = i + 1;
    }
    false
}

} // verus!
