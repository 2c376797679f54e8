//! The command line of the external archive tool used for archives that are
//! not zip files.
use vstd::prelude::*;

verus! {

/// The archive tool: `bsdtar` on macOS, `tar` elsewhere.
pub fn tar_program(macos: bool) -> (r: String)
    ensures
        r@ == if macos {
            "bsdtar"@
        } else {
            "tar"@
        },
{
    if macos {
        String::from_str("bsdtar")
    } else {
        String::from_str("tar")
    }
}

/// Whether a subfolder filter restricts anything: it is given and holds a
/// character other than `/`.
pub open spec fn spec_restricts(subfolder: Option<Seq<char>>) -> bool {
    subfolder is Some && has_other_than_slash(subfolder->Some_0)
}

pub open spec fn has_other_than_slash(s: Seq<char>) -> bool {
    exists|i: int| 0 <= i < s.len() && #[trigger] s[i] != '/'
}

fn has_non_slash(s: &str) -> (r: bool)
    ensures
        r == has_other_than_slash(s@),
{
    let n = s.unicode_len();
    let mut i: usize = 0;
    while i < n
        invariant
            n == s@.len(),
            i <= n,
            forall|k: int| 0 <= k < i ==> #[trigger] s@[k] == '/',
        decreases n - i,
    {
        if s.get_char(i) != '/' {
            return true;
        }
        i = i + 1;
    }
    false
}

/// The arguments that extract `archive` into `dest`, dropping the archive's
/// top-level directory, restricted to `subfolder` when it restricts anything.
pub fn tar_args(archive: &str, dest: &str, subfolder: Option<&str>) -> (r: Vec<String>)
    ensures
        r@.len() == if spec_restricts(
            match subfolder {
                Some(s) => Some(s@),
                None => None,
            },
        ) {
            7int
        } else {
            6int
        },
        r@[0]@ == "--strip-components"@,
        r@[1]@ == "1"@,
        r@[2]@ == "-xvf"@,
        r@[3]@ == archive@,
        r@[4]@ == "-C"@,
        r@[5]@ == dest@,
        r@.len() == 7 ==> subfolder is Some && r@[6]@ == subfolder->Some_0@,
{
    let mut args: Vec<String> = Vec::new();
    args.push(String::from_str("--strip-components"));
    args.push(String::from_str("1"));
    args.push(String::from_str("-xvf"));
    args.push(String::from_str(archive));
    args.push(String::from_str("-C"));
    args.push(String::from_str(dest));
    match subfolder {
        Some(sp) => {
            if has_non_slash(sp) {
                args.push(String::from_str(sp));
            }
        },
        None => {},
    }
    args
}

} // verus!
