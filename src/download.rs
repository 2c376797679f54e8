//! The decisions of a streamed download: whether the response is usable, the
//! name of the file it is saved under, and the running byte count.
use vstd::prelude::*;
use crate::text::{
    ascii_ci_eq, is_prefix_of, split_on, split_parts, starts_with, suffix_from, trim,
    trim_quote_marks, trim_quotes, trim_ws, eq_ignore_ascii_case, lemma_split_parts_nonempty,
};
use crate::paths::{join, join_path};
use crate::progress::{download_progress, ProgressPayload};

verus! {

/// Whether an HTTP status code reports success (2xx).
pub fn is_success_status(code: u16) -> (r: bool)
    ensures
        r == (200 <= code && code <= 299),
{
    200 <= code && code <= 299
}

pub open spec fn filename_key() -> Seq<char> {
    seq!['f', 'i', 'l', 'e', 'n', 'a', 'm', 'e', '=']
}

/// `s` with every leading repetition of `filename=` removed.
pub open spec fn strip_filename_keys(s: Seq<char>) -> Seq<char>
    decreases s.len(),
{
    if is_prefix_of(filename_key(), s) {
        strip_filename_keys(s.subrange(9, s.len() as int))
    } else {
        s
    }
}

/// The file name that the `;`-separated parts of a `Content-Disposition`
/// header give, from part `i` on: the first part that, trimmed, starts with
/// `filename=`, with the key and surrounding quotes removed.
pub open spec fn filename_from_parts(parts: Seq<Seq<char>>, i: int) -> Option<Seq<char>>
    decreases parts.len() - i,
{
    if i < 0 || i >= parts.len() {
        None
    } else if is_prefix_of(filename_key(), trim_ws(parts[i])) {
        Some(trim_quotes(strip_filename_keys(trim_ws(parts[i]))))
    } else {
        filename_from_parts(parts, i + 1)
    }
}

/// The file name that a `Content-Disposition` header gives, if any.
pub open spec fn spec_disposition_filename(cd: Seq<char>) -> Option<Seq<char>> {
    filename_from_parts(split_parts(cd, ';'), 0)
}

fn strip_keys(s: &str) -> (r: String)
    ensures
        r@ == strip_filename_keys(s@),
{
    proof {
        reveal_strlit("filename=");
    }
    assert("filename="@ == filename_key());
    let mut cur = String::from_str(s);
    while starts_with(cur.as_str(), "filename=")
        invariant
            "filename="@ == filename_key(),
            strip_filename_keys(s@) == strip_filename_keys(cur@),
        decreases cur@.len(),
    {
        cur = suffix_from(cur.as_str(), 9);
    }
    cur
}

/// The file name given by a `Content-Disposition` header value.
pub fn disposition_filename(cd: &str) -> (r: Option<String>)
    ensures
        match r {
            Some(f) => spec_disposition_filename(cd@) == Some(f@),
            None => spec_disposition_filename(cd@) is None,
        },
{
    proof {
        reveal_strlit("filename=");
    }
    assert("filename="@ == filename_key());
    let parts = split_on(cd, ';');
    let ghost gp = split_parts(cd@, ';');
    let mut i: usize = 0;
    while i < parts.len()
        invariant
            "filename="@ == filename_key(),
            gp == split_parts(cd@, ';'),
            parts@.len() == gp.len(),
            forall|k: int| 0 <= k < parts@.len() ==> #[trigger] parts@[k]@ == gp[k],
            i <= parts@.len(),
            filename_from_parts(gp, 0) == filename_from_parts(gp, i as int),
        decreases parts.len() - i,
    {
        assert(parts@[i as int]@ == gp[i as int]);
        let p = trim(parts[i].as_str());
        if starts_with(p.as_str(), "filename=") {
            let v = strip_keys(p.as_str());
            return Some(trim_quote_marks(v.as_str()));
        }
        i = i + 1;
    }
    None
}

/// The last `/`-separated segment of a URL.
pub open spec fn spec_url_last_segment(url: Seq<char>) -> Seq<char> {
    split_parts(url, '/').last()
}

/// The name used when neither the header nor the URL gives one.
pub open spec fn spec_default_archive_name(windows: bool) -> Seq<char> {
    if windows {
        "downloaded_file.zip"@
    } else {
        "downloaded_file.tar.gz"@
    }
}

/// The name a download is saved under: the `Content-Disposition` file name
/// when there is a non-empty one, else the URL's last segment when it is not
/// empty, else the platform's default.
pub open spec fn spec_archive_name(cd: Option<Seq<char>>, url: Seq<char>, windows: bool) -> Seq<
    char,
> {
    let from_header = match cd {
        Some(h) => spec_disposition_filename(h),
        None => None,
    };
    if from_header is Some && from_header->Some_0.len() > 0 {
        from_header->Some_0
    } else if spec_url_last_segment(url).len() > 0 {
        spec_url_last_segment(url)
    } else {
        spec_default_archive_name(windows)
    }
}

/// The last `/`-separated segment of `url`.
pub fn url_last_segment(url: &str) -> (r: String)
    ensures
        r@ == spec_url_last_segment(url@),
{
    let mut parts = split_on(url, '/');
    proof {
        lemma_split_parts_nonempty(url@, '/');
    }
    let last = parts.pop();
    match last {
        Some(s) => s,
        None => String::new(),
    }
}

/// The name a download is saved under, from the `Content-Disposition` header
/// (when present), the URL and whether the platform is Windows.
pub fn archive_file_name(cd: Option<&str>, url: &str, windows: bool) -> (r: String)
    ensures
        r@ == spec_archive_name(
            match cd {
                Some(h) => Some(h@),
                None => None,
            },
            url@,
            windows,
        ),
{
    let from_header = match cd {
        Some(h) => disposition_filename(h),
        None => None,
    };
    match from_header {
        Some(f) => {
            if f.as_str().unicode_len() > 0 {
                return f;
            }
        },
        None => {},
    }
    let seg = url_last_segment(url);
    if seg.as_str().unicode_len() > 0 {
        seg
    } else if windows {
        String::from_str("downloaded_file.zip")
    } else {
        String::from_str("downloaded_file.tar.gz")
    }
}

/// The path a download is saved to: its name joined onto the destination.
pub fn archive_path(dest: &str, cd: Option<&str>, url: &str, windows: bool) -> (r: String)
    ensures
        r@ == join_path(
            dest@,
            spec_archive_name(
                match cd {
                    Some(h) => Some(h@),
                    None => None,
                },
                url@,
                windows,
            ),
        ),
{
    let name = archive_file_name(cd, url, windows);
    join(dest, name.as_str())
}

/// Whether the last component of `path` has the extension `zip`, in any case.
/// A leading dot alone (`.zip`) is no extension.
pub open spec fn spec_has_zip_extension(path: Seq<char>) -> bool {
    let file = split_parts(path, '/').last();
    let ps = split_parts(file, '.');
    ps.len() >= 2 && !(ps.len() == 2 && ps[0].len() == 0) && ascii_ci_eq(ps.last(), "zip"@)
}

/// Whether the file at `path` is taken for a zip archive.
pub fn has_zip_extension(path: &str) -> (r: bool)
    ensures
        r == spec_has_zip_extension(path@),
{
    let mut comps = split_on(path, '/');
    proof {
        lemma_split_parts_nonempty(path@, '/');
    }
    let file = match comps.pop() {
        Some(f) => f,
        None => String::new(),
    };
    let mut ps = split_on(file.as_str(), '.');
    let n = ps.len();
    if n < 2 {
        return false;
    }
    if n == 2 && ps[0].as_str().unicode_len() == 0 {
        return false;
    }
    let ext = match ps.pop() {
        Some(e) => e,
        None => String::new(),
    };
    eq_ignore_ascii_case(ext.as_str(), "zip")
}

/// The running byte count of one download.
pub struct DownloadCounter {
    downloaded: u64,
    total: Option<u64>,
}

impl DownloadCounter {
    pub closed spec fn spec_downloaded(&self) -> nat {
        self.downloaded as nat
    }

    pub closed spec fn spec_total(&self) -> Option<u64> {
        self.total
    }

    /// A counter at zero, for a response of length `total` when it is known.
    pub fn new(total: Option<u64>) -> (r: Self)
        ensures
            r.spec_downloaded() == 0,
            r.spec_total() == total,
    {
        DownloadCounter { downloaded: 0, total }
    }

    /// The bytes written so far.
    pub fn downloaded(&self) -> (r: u64)
        ensures
            r == self.spec_downloaded(),
    {
        self.downloaded
    }

    /// Counts a chunk of `len` bytes that has been written, and returns the
    /// notification to emit for it.
    pub fn record_chunk(&mut self, len: u64) -> (r: ProgressPayload)
        requires
            old(self).spec_downloaded() + len <= u64::MAX,
        ensures
            final(self).spec_downloaded() == old(self).spec_downloaded() + len,
            final(self).spec_total() == old(self).spec_total(),
            r.phase == crate::progress::Phase::Download,
            r.downloaded == Some(final(self).spec_downloaded() as u64),
            r.total == old(self).spec_total(),
            r.percent == match old(self).spec_total() {
                Some(t) => Some(
                    crate::progress::Ratio { part: final(self).spec_downloaded() as u64, whole: t },
                ),
                None => None,
            },
            r.current is None,
            r.count is None,
            r.message is None,
    {
        self.downloaded = self.downloaded + len;
        download_progress(self.downloaded, self.total)
    }
}

} // verus!
