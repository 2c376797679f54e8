//! Extraction of a zip archive, decided entry by entry: a counting pass over
//! the entry names fixes the total before the first notification, then each
//! entry, in archive order, is skipped or placed with its notification.
use vstd::prelude::*;
use crate::paths::{
    lexically_inside, make_output_path, output_candidate, normalize_prefix, relative_part, selects,
    should_extract, spec_normalized_prefix, PathError,
};
use crate::progress::{extract_progress, ProgressPayload};

verus! {

/// How many of `names` pass the subfolder filter `prefix`.
pub open spec fn count_selected(names: Seq<Seq<char>>, prefix: Seq<char>) -> nat
    decreases names.len(),
{
    if names.len() == 0 {
        0
    } else {
        count_selected(names.drop_last(), prefix) + if selects(names.last(), prefix) {
            1nat
        } else {
            0nat
        }
    }
}

pub open spec fn names_view(names: Seq<String>) -> Seq<Seq<char>> {
    names.map_values(|s: String| s@)
}

pub proof fn lemma_count_le_len(names: Seq<Seq<char>>, prefix: Seq<char>)
    ensures
        count_selected(names, prefix) <= names.len(),
    decreases names.len(),
{
    if names.len() > 0 {
        lemma_count_le_len(names.drop_last(), prefix);
    }
}

/// Counting the entries of a leading part of the archive never gives more than
/// counting them all.
pub proof fn lemma_count_prefix_le(names: Seq<Seq<char>>, prefix: Seq<char>, k: int)
    requires
        0 <= k <= names.len(),
    ensures
        count_selected(names.take(k), prefix) <= count_selected(names, prefix),
    decreases names.len(),
{
    if k == names.len() {
        assert(names.take(k) == names);
    } else {
        assert(names.drop_last().take(k) == names.take(k));
        lemma_count_prefix_le(names.drop_last(), prefix, k);
    }
}

/// With nothing selected under the filter, no entry is selected.
pub proof fn lemma_empty_selection(names: Seq<Seq<char>>, prefix: Seq<char>, i: int)
    requires
        count_selected(names, prefix) == 0,
        0 <= i < names.len(),
    ensures
        !selects(names[i], prefix),
    decreases names.len(),
{
    if i < names.len() - 1 {
        lemma_empty_selection(names.drop_last(), prefix, i);
    }
}

proof fn lemma_count_take_step(names: Seq<Seq<char>>, prefix: Seq<char>, k: int)
    requires
        0 <= k < names.len(),
    ensures
        count_selected(names.take(k + 1), prefix) == count_selected(names.take(k), prefix) + if selects(
            names[k],
            prefix,
        ) {
            1nat
        } else {
            0nat
        },
{
    assert(names.take(k + 1).drop_last() == names.take(k));
}

/// What to do with one entry.
#[derive(Debug, Clone)]
pub enum EntryStep {
    /// The entry is outside the subfolder: nothing is written or reported.
    Skip,
    /// Create the directory `path` (with its parents), or write the file `path`
    /// (creating its parents) and then apply `unix_mode` where given; then
    /// emit `progress`.
    Extract { path: String, is_dir: bool, unix_mode: Option<u32>, progress: ProgressPayload },
}

/// The state of one zip extraction.
pub struct ZipExtraction {
    names: Vec<String>,
    prefix: String,
    total: u64,
    next: usize,
    processed: u64,
}

impl ZipExtraction {
    pub closed spec fn spec_names(&self) -> Seq<Seq<char>> {
        names_view(self.names@)
    }

    pub closed spec fn spec_prefix(&self) -> Seq<char> {
        self.prefix@
    }

    pub closed spec fn spec_total(&self) -> nat {
        self.total as nat
    }

    pub closed spec fn spec_next(&self) -> nat {
        self.next as nat
    }

    pub closed spec fn spec_processed(&self) -> nat {
        self.processed as nat
    }

    /// The counters agree with the entries: the total counts every selected
    /// entry, the processed count those before the next one.
    pub closed spec fn wf(&self) -> bool {
        &&& self.next <= self.names@.len()
        &&& self.total as nat == count_selected(self.spec_names(), self.prefix@)
        &&& self.processed as nat == count_selected(
            self.spec_names().take(self.next as int),
            self.prefix@,
        )
    }

    /// Starts an extraction over the entries `names`, in archive order, with
    /// the optional subfolder filter; this is the counting pass.
    pub fn new(names: Vec<String>, subfolder: Option<String>) -> (r: Self)
        ensures
            r.wf(),
            r.spec_names() == names_view(names@),
            r.spec_prefix() == match subfolder {
                Some(p) => spec_normalized_prefix(p@),
                None => Seq::<char>::empty(),
            },
            r.spec_total() == count_selected(r.spec_names(), r.spec_prefix()),
            r.spec_next() == 0,
            r.spec_processed() == 0,
    {
        let prefix = normalize_prefix(subfolder);
        let ghost nv = names_view(names@);
        assert(nv.len() == names@.len());
        let mut total: u64 = 0;
        let mut i: usize = 0;
        while i < names.len()
            invariant
                nv == names_view(names@),
                nv.len() == names@.len(),
                i <= names@.len(),
                total as nat == count_selected(nv.take(i as int), prefix@),
            decreases names.len() - i,
        {
            proof {
                lemma_count_take_step(nv, prefix@, i as int);
                lemma_count_le_len(nv.take(i as int), prefix@);
            }
            if should_extract(names[i].as_str(), prefix.as_str()) {
                total = total + 1;
            }
            i = i + 1;
        }
        assert(nv.take(names@.len() as int) == nv);
        assert(nv.take(0) == Seq::<Seq<char>>::empty());
        ZipExtraction { names, prefix, total, next: 0, processed: 0 }
    }

    /// The number of selected entries.
    pub fn total(&self) -> (r: u64)
        ensures
            r == self.spec_total(),
    {
        self.total
    }

    /// The number of selected entries handled so far.
    pub fn processed(&self) -> (r: u64)
        ensures
            r == self.spec_processed(),
    {
        self.processed
    }

    /// The subfolder filter in use.
    pub fn prefix(&self) -> (r: &str)
        ensures
            r@ == self.spec_prefix(),
    {
        self.prefix.as_str()
    }

    /// Whether every entry has been handled.
    pub fn is_finished(&self) -> (r: bool)
        requires
            self.wf(),
        ensures
            r == (self.spec_next() == self.spec_names().len()),
    {
        self.next == self.names.len()
    }

    /// Decides the next entry, which is a directory when `is_dir`, with the
    /// permission bits `unix_mode` where the archive records them. A selected
    /// entry is placed under `base` and counted; one that would land outside
    /// `base` stops the extraction with `UnsafePath`. Drive letters mark an
    /// absolute path only when `windows`.
    pub fn step(&mut self, base: &str, is_dir: bool, unix_mode: Option<u32>, windows: bool) -> (r:
        Result<
        EntryStep,
        PathError,
    >)
        requires
            old(self).wf(),
            old(self).spec_next() < old(self).spec_names().len(),
        ensures
            final(self).wf(),
            final(self).spec_names() == old(self).spec_names(),
            final(self).spec_prefix() == old(self).spec_prefix(),
            final(self).spec_total() == old(self).spec_total(),
            r is Ok ==> final(self).spec_next() == old(self).spec_next() + 1,
            r is Err ==> final(self).spec_next() == old(self).spec_next()
                && final(self).spec_processed() == old(self).spec_processed(),
            final(self).spec_processed() <= final(self).spec_total(),
            ({
                let name = old(self).spec_names()[old(self).spec_next() as int];
                let prefix = old(self).spec_prefix();
                &&& !selects(name, prefix) ==> r is Ok && r->Ok_0 is Skip
                    && final(self).spec_processed() == old(self).spec_processed()
                &&& old(self).spec_total() == 0 ==> r is Ok && r->Ok_0 is Skip
                &&& selects(name, prefix) && !lexically_inside(
                    output_candidate(base@, relative_part(name, prefix), windows),
                    base@,
                    windows,
                ) ==> r == Err::<EntryStep, PathError>(PathError::UnsafePath)
                &&& selects(name, prefix) ==> (r is Ok && r->Ok_0 is Extract) || r
                    == Err::<EntryStep, PathError>(PathError::UnsafePath)
                &&& r is Ok && r->Ok_0 is Extract ==> {
                    let progress = r->Ok_0->progress;
                    &&& selects(name, prefix)
                    &&& r->Ok_0->path@ == output_candidate(base@, relative_part(name, prefix), windows)
                    &&& lexically_inside(r->Ok_0->path@, base@, windows)
                    &&& r->Ok_0->is_dir == is_dir
                    &&& r->Ok_0->unix_mode == unix_mode
                    &&& final(self).spec_processed() == old(self).spec_processed() + 1
                    &&& progress.phase == crate::progress::Phase::Extract
                    &&& progress.downloaded is None
                    &&& progress.total is None
                    &&& progress.current == Some(final(self).spec_processed() as u64)
                    &&& progress.count == Some(old(self).spec_total() as u64)
                    &&& progress.percent == Some(
                        crate::progress::Ratio {
                            part: final(self).spec_processed() as u64,
                            whole: old(self).spec_total() as u64,
                        },
                    )
                    &&& progress.message is Some && progress.message->Some_0@ == "Extracted "@ + name
                }
            }),
    {
        let ghost nv = self.spec_names();
        let ghost k = self.next as int;
        assert(nv.len() == self.names@.len());
        proof {
            lemma_count_take_step(nv, self.prefix@, k);
            lemma_count_prefix_le(nv, self.prefix@, k + 1);
            if self.total == 0 {
                lemma_empty_selection(nv, self.prefix@, k);
            }
        }
        let i = self.next;
        let len = self.names.len();
        assert(i < len);
        assert(self.names@[i as int]@ == nv[k]);
        let selected = should_extract(self.names[i].as_str(), self.prefix.as_str());
        if !selected {
            self.next = i + 1;
            return Ok(EntryStep::Skip);
        }
        match make_output_path(base, self.names[i].as_str(), self.prefix.as_str(), windows) {
            Err(_) => Err(PathError::UnsafePath),
            Ok(path) => {
                self.next = i + 1;
                self.processed = self.processed + 1;
                let progress = extract_progress(
                    self.processed,
                    self.total,
                    self.names[i].as_str(),
                );
                Ok(EntryStep::Extract { path, is_dir, unix_mode, progress })
            },
        }
    }
}

/// The processed count never exceeds the total: entries outside the subfolder
/// are left out of both.
pub proof fn lemma_processed_within_total(x: &ZipExtraction)
    requires
        x.wf(),
    ensures
        x.spec_processed() <= x.spec_total(),
{
    reveal(ZipExtraction::wf);
    lemma_count_prefix_le(x.spec_names(), x.spec_prefix(), x.spec_next() as int);
}

} // verus!
