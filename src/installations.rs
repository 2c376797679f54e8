//! Installations: the options of a game start, its command line, and the
//! files found in an installation.
use vstd::prelude::*;
use crate::text::{split_words, words, substring};

verus! {

/// The options of a game start.
#[derive(Debug, Clone)]
pub struct PlayGameParams {
    pub installation_id: u64,
    pub server: Option<String>,
    pub password: Option<String>,
}

/// The arguments of a game start: the data path, then `--connect` with the
/// server and `--password` with the password where given, then the words of
/// the installation's own start parameters.
pub open spec fn spec_launch_args(
    data_path: Seq<char>,
    server: Option<Seq<char>>,
    password: Option<Seq<char>>,
    start_params: Seq<char>,
) -> Seq<Seq<char>> {
    let head = seq!["--dataPath"@, data_path];
    let with_server = match server {
        Some(s) => head + seq!["--connect"@, s],
        None => head,
    };
    let with_password = match password {
        Some(p) => with_server + seq!["--password"@, p],
        None => with_server,
    };
    with_password + words(start_params)
}

/// The arguments the launcher is started with (see `spec_launch_args`).
pub fn launch_args(
    data_path: &str,
    server: Option<&str>,
    password: Option<&str>,
    start_params: &str,
) -> (r: Vec<String>)
    ensures
        r@.map_values(|s: String| s@) == spec_launch_args(
            data_path@,
            match server {
                Some(s) => Some(s@),
                None => None,
            },
            match password {
                Some(p) => Some(p@),
                None => None,
            },
            start_params@,
        ),
{
    let mut args: Vec<String> = Vec::new();
    args.push(String::from_str("--dataPath"));
    args.push(String::from_str(data_path));
    match server {
        Some(s) => {
            args.push(String::from_str("--connect"));
            args.push(String::from_str(s));
        },
        None => {},
    }
    match password {
        Some(p) => {
            args.push(String::from_str("--password"));
            args.push(String::from_str(p));
        },
        None => {},
    }
    let ghost fixed = args@.map_values(|s: String| s@);
    let extra = split_words(start_params);
    let ghost w = words(start_params@);
    let mut i: usize = 0;
    while i < extra.len()
        invariant
            extra@.len() == w.len(),
            forall|k: int| 0 <= k < extra@.len() ==> #[trigger] extra@[k]@ == w[k],
            i <= extra@.len(),
            args@.map_values(|s: String| s@) == fixed + w.take(i as int),
        decreases extra.len() - i,
    {
        let ghost before = args@;
        args.push(String::from_str(extra[i].as_str()));
        assert(extra@[i as int]@ == w[i as int]);
        assert(w.take(i + 1) =~= w.take(i as int).push(w[i as int]));
        assert(args@ == before.push(args@.last()));
        assert(args@.map_values(|s: String| s@) =~= before.map_values(|s: String| s@).push(
            w[i as int],
        ));
        assert(args@.map_values(|s: String| s@) =~= fixed + w.take(i + 1));
        i = i + 1;
    }
    assert(w.take(w.len() as int) =~= w);
    args
}

/// Whether a file name carries the save extension: a name before `.vcdbs`.
pub open spec fn spec_is_save_file(name: Seq<char>) -> bool {
    name.len() >= 7 && name.subrange(name.len() - 6, name.len() as int) == ".vcdbs"@
}

/// The save named by a file of the saves folder: its name without `.vcdbs`,
/// or nothing when it is no save file.
pub fn save_name(file_name: &str) -> (r: Option<String>)
    ensures
        spec_is_save_file(file_name@) ==> r is Some && r->Some_0@ == file_name@.subrange(
            0,
            file_name@.len() - 6,
        ),
        !spec_is_save_file(file_name@) ==> r is None,
{
    proof {
        reveal_strlit(".vcdbs");
    }
    let n = file_name.unicode_len();
    if n < 7 {
        return None;
    }
    let tail = substring(file_name, n - 6, n);
    if crate::text::same_text(tail.as_str(), ".vcdbs") {
        Some(substring(file_name, 0, n - 6))
    } else {
        None
    }
}

} // verus!
