//! Mods of an installation: listing options, the records read from mod
//! archives, and the decisions taken while scanning them.
use vstd::prelude::*;
use crate::text::{ascii_ci_eq, eq_ignore_ascii_case, same_text, split_on, split_parts,
    lemma_split_parts_nonempty};

verus! {

/// The key a mod listing is sorted by.
#[derive(Debug, Clone, Copy, PartialEq, Eq, Structural)]
pub enum ModSortBy {
    Created,
    LastReleased,
    Downloads,
    Follows,
    Comments,
    TrendingPoints,
}

/// The sort key named by `s`, if any.
pub open spec fn spec_sort_by(s: Seq<char>) -> Option<ModSortBy> {
    if s == "asset.created"@ {
        Some(ModSortBy::Created)
    } else if s == "lastreleased"@ {
        Some(ModSortBy::LastReleased)
    } else if s == "downloads"@ {
        Some(ModSortBy::Downloads)
    } else if s == "follows"@ {
        Some(ModSortBy::Follows)
    } else if s == "comments"@ {
        Some(ModSortBy::Comments)
    } else if s == "trendingpoints"@ {
        Some(ModSortBy::TrendingPoints)
    } else {
        None
    }
}

impl ModSortBy {
    /// The sort key named by `s`.
    pub fn parse(s: &str) -> (r: Option<ModSortBy>)
        ensures
            r == spec_sort_by(s@),
    {
        if same_text(s, "asset.created") {
            Some(ModSortBy::Created)
        } else if same_text(s, "lastreleased") {
            Some(ModSortBy::LastReleased)
        } else if same_text(s, "downloads") {
            Some(ModSortBy::Downloads)
        } else if same_text(s, "follows") {
            Some(ModSortBy::Follows)
        } else if same_text(s, "comments") {
            Some(ModSortBy::Comments)
        } else if same_text(s, "trendingpoints") {
            Some(ModSortBy::TrendingPoints)
        } else {
            None
        }
    }
}

impl std::str::FromStr for ModSortBy {
    type Err = &'static str;

    fn from_str(s: &str) -> (r: Result<Self, Self::Err>)
        ensures
            r == match spec_sort_by(s@) {
                Some(k) => Ok(k),
                None => Err("unknown sort key"),
            },
    {
        match ModSortBy::parse(s) {
            Some(k) => Ok(k),
            None => Err("unknown sort key"),
        }
    }
}

/// The direction of a mod listing.
#[derive(Debug, Clone, Copy, PartialEq, Eq, Structural)]
pub enum ModSortOrder {
    Desc,
    Asc,
}

/// The direction named by `s`, if any.
pub open spec fn spec_sort_order(s: Seq<char>) -> Option<ModSortOrder> {
    if s == "desc"@ {
        Some(ModSortOrder::Desc)
    } else if s == "asc"@ {
        Some(ModSortOrder::Asc)
    } else {
        None
    }
}

impl ModSortOrder {
    /// The direction named by `s`.
    pub fn parse(s: &str) -> (r: Option<ModSortOrder>)
        ensures
            r == spec_sort_order(s@),
    {
        if same_text(s, "desc") {
            Some(ModSortOrder::Desc)
        } else if same_text(s, "asc") {
            Some(ModSortOrder::Asc)
        } else {
            None
        }
    }
}

impl std::str::FromStr for ModSortOrder {
    type Err = &'static str;

    fn from_str(s: &str) -> (r: Result<Self, Self::Err>)
        ensures
            r == match spec_sort_order(s@) {
                Some(k) => Ok(k),
                None => Err("unknown sort order"),
            },
    {
        match ModSortOrder::parse(s) {
            Some(k) => Ok(k),
            None => Err("unknown sort order"),
        }
    }
}

/// A request to remove the mod file `modpath` from the installation at `path`.
#[derive(Debug, Clone)]
pub struct ModRemoveParams {
    pub path: String,
    pub modpath: String,
}

/// A search of the mod database.
#[derive(Debug, Clone)]
pub struct FetchModsParams {
    pub versions: Vec<String>,
    pub search: String,
}

/// A mod as the mod database lists it.
#[derive(Debug)]
pub struct Mod {
    pub modid: i64,
    pub assetid: i64,
    pub downloads: i64,
    pub follows: i64,
    pub trendingpoints: i64,
    pub comments: i64,
    pub name: String,
    pub summary: String,
    pub modidstrs: Vec<String>,
    pub author: String,
    pub urlalias: Option<String>,
    pub side: String,
    pub mod_type: String,
    pub logo: Option<String>,
    pub tags: Vec<String>,
    pub lastreleased: String,
}

/// A page of the mod database.
#[derive(Debug)]
pub struct ModsResponse {
    pub statuscode: String,
    pub mods: Vec<Mod>,
}

/// A tag of the mod database.
#[derive(Debug)]
pub struct ModTags {
    pub tagid: i64,
    pub name: String,
    pub color: String,
}

/// The tag list of the mod database.
#[derive(Debug)]
pub struct ModTagsResponse {
    pub statuscode: String,
    pub tags: Vec<ModTags>,
}

/// A mod installed in an installation, as its `modinfo.json` describes it.
#[derive(Debug, Clone)]
pub struct OutputMod {
    pub modid: String,
    pub name: String,
    pub authors: Vec<String>,
    pub version: String,
    pub path: String,
}

/// The installed mods, and what went wrong reading the others.
#[derive(Debug, Clone)]
pub struct ModsResult {
    pub mods: Vec<OutputMod>,
    pub errors: Vec<ModError>,
}

/// A mod archive, or an entry in it, that could not be read, with the stage
/// that failed.
#[derive(Debug, Clone)]
pub struct ModError {
    pub file: String,
    pub stage: String,
    pub message: String,
}

fn text_or(v: Option<String>, fallback: &str) -> (r: String)
    ensures
        r@ == match v {
            Some(s) => s@,
            None => fallback@,
        },
{
    match v {
        Some(s) => s,
        None => String::from_str(fallback),
    }
}

/// The record of an installed mod from the fields of its `modinfo.json`
/// (each absent when missing or not of the expected kind), with the defaults
/// `0`, `Unknown Mod`, `Unknown` and `0.0.0`.
pub fn output_mod(
    modid: Option<String>,
    name: Option<String>,
    authors: Option<Vec<String>>,
    version: Option<String>,
    path: String,
) -> (r: OutputMod)
    ensures
        r.modid@ == match modid {
            Some(s) => s@,
            None => "0"@,
        },
        r.name@ == match name {
            Some(s) => s@,
            None => "Unknown Mod"@,
        },
        match authors {
            Some(a) => r.authors@ == a@,
            None => r.authors@.len() == 1 && r.authors@[0]@ == "Unknown"@,
        },
        r.version@ == match version {
            Some(s) => s@,
            None => "0.0.0"@,
        },
        r.path@ == path@,
{
    let authors = match authors {
        Some(a) => a,
        None => {
            let mut v: Vec<String> = Vec::new();
            v.push(String::from_str("Unknown"));
            v
        },
    };
    OutputMod {
        modid: text_or(modid, "0"),
        name: text_or(name, "Unknown Mod"),
        authors,
        version: text_or(version, "0.0.0"),
        path,
    }
}

/// Whether an archive entry's file name (its last `/`-separated part) is
/// `modinfo.json` in any ASCII case.
pub open spec fn spec_is_modinfo_entry(name: Seq<char>) -> bool {
    ascii_ci_eq(split_parts(name, '/').last(), "modinfo.json"@)
}

/// Whether the archive entry `name` is a mod's `modinfo.json`.
pub fn is_modinfo_entry(name: &str) -> (r: bool)
    ensures
        r == spec_is_modinfo_entry(name@),
{
    let mut parts = split_on(name, '/');
    proof {
        lemma_split_parts_nonempty(name@, '/');
    }
    let last = match parts.pop() {
        Some(p) => p,
        None => String::new(),
    };
    eq_ignore_ascii_case(last.as_str(), "modinfo.json")
}

/// The closing note for a mod archive after its scan: one naming a missing
/// `modinfo.json`, or one naming copies that could all not be read, or none.
pub fn archive_summary(file: &str, found_any: bool, found_valid: bool) -> (r: Option<ModError>)
    ensures
        !found_any ==> r is Some && r->Some_0.stage@ == "missing_modinfo"@ && r->Some_0.file@
            == file@ && r->Some_0.message@ == "No modinfo.json found in archive"@,
        found_any && !found_valid ==> r is Some && r->Some_0.stage@ == "zip_summary"@
            && r->Some_0.file@ == file@ && r->Some_0.message@
            == "Found modinfo.json but failed to read/parse any"@,
        found_any && found_valid ==> r is None,
{
    if !found_any {
        Some(
            ModError {
                file: String::from_str(file),
                stage: String::from_str("missing_modinfo"),
                message: String::from_str("No modinfo.json found in archive"),
            },
        )
    } else if !found_valid {
        Some(
            ModError {
                file: String::from_str(file),
                stage: String::from_str("zip_summary"),
                message: String::from_str("Found modinfo.json but failed to read/parse any"),
            },
        )
    } else {
        None
    }
}

/// The file name a mod download is saved under: what follows the last `=` of
/// its URL.
pub fn mod_file_name(url: &str) -> (r: String)
    ensures
        r@ == split_parts(url@, '=').last(),
{
    let mut parts = split_on(url, '=');
    proof {
        lemma_split_parts_nonempty(url@, '=');
    }
    match parts.pop() {
        Some(p) => p,
        None => String::new(),
    }
}

/// The query of a mod search: one `gameversions[]` pair per version, in order,
/// then a `text` pair when the search text is not empty.
pub fn mod_query_params(options: &FetchModsParams) -> (r: Vec<(String, String)>)
    ensures
        r@.len() == options.versions@.len() + if options.search@.len() > 0 {
            1int
        } else {
            0int
        },
        forall|i: int|
            0 <= i < options.versions@.len() ==> (#[trigger] r@[i]).0@ == "gameversions[]"@
                && r@[i].1@ == options.versions@[i]@,
        options.search@.len() > 0 ==> r@.last().0@ == "text"@ && r@.last().1@
            == options.search@,
{
    let mut params: Vec<(String, String)> = Vec::new();
    let mut i: usize = 0;
    while i < options.versions.len()
        invariant
            i <= options.versions@.len(),
            params@.len() == i,
            forall|k: int|
                0 <= k < i ==> (#[trigger] params@[k]).0@ == "gameversions[]"@ && params@[k].1@
                    == options.versions@[k]@,
        decreases options.versions.len() - i,
    {
        let v = String::from_str(options.versions[i].as_str());
        params.push((String::from_str("gameversions[]"), v));
        i = i + 1;
    }
    if options.search.as_str().unicode_len() > 0 {
        params.push((String::from_str("text"), String::from_str(options.search.as_str())));
    }
    params
}

} // verus!
