//! Character-level helpers on strings, stated over `Seq<char>`.
use vstd::prelude::*;

verus! {

/// Relies on `String::push`: the character is appended at the end.
#[verifier::external_body]
pub(crate) fn push_char(s: &mut String, c: char)
    ensures
        final(s)@ == old(s)@.push(c),
{
    s.push(c);
}

/// Maps each backslash to a forward slash.
pub open spec fn sep_of(c: char) -> char {
    if c == '\\' {
        '/'
    } else {
        c
    }
}

/// The path with a single separator convention: `\` becomes `/`.
pub open spec fn normalize_seps(s: Seq<char>) -> Seq<char> {
    s.map_values(|c: char| sep_of(c))
}

/// Whether `p` is a prefix of `s`.
pub open spec fn is_prefix_of(p: Seq<char>, s: Seq<char>) -> bool {
    p.len() <= s.len() && s.subrange(0, p.len() as int) == p
}

/// The parts of `s` between occurrences of `sep`, read left to right: there is
/// always one more part than there are separators.
pub open spec fn split_parts(s: Seq<char>, sep: char) -> Seq<Seq<char>>
    decreases s.len(),
{
    if s.len() == 0 {
        seq![Seq::<char>::empty()]
    } else {
        let prev = split_parts(s.drop_last(), sep);
        if s.last() == sep {
            prev.push(Seq::<char>::empty())
        } else {
            prev.update(prev.len() - 1, prev.last().push(s.last()))
        }
    }
}

pub proof fn lemma_split_parts_nonempty(s: Seq<char>, sep: char)
    ensures
        split_parts(s, sep).len() >= 1,
    decreases s.len(),
{
    if s.len() > 0 {
        lemma_split_parts_nonempty(s.drop_last(), sep);
    }
}

/// Returns `s` with every `\` replaced by `/`.
pub fn normalize_separators(s: &str) -> (r: String)
    ensures
        r@ == normalize_seps(s@),
{
    let n = s.unicode_len();
    let mut out = String::new();
    let mut i: usize = 0;
    while i < n
        invariant
            n == s@.len(),
            i <= n,
            out@ == normalize_seps(s@.subrange(0, i as int)),
        decreases n - i,
    {
        let c = s.get_char(i);
        if c == '\\' {
            push_char(&mut out, '/');
        } else {
            push_char(&mut out, c);
        }
        assert(s@.subrange(0, i + 1) == s@.subrange(0, i as int).push(c));
        i = i + 1;
    }
    assert(s@.subrange(0, n as int) == s@);
    out
}

/// Whether `s` begins with `p`.
pub fn starts_with(s: &str, p: &str) -> (r: bool)
    ensures
        r == is_prefix_of(p@, s@),
{
    let n = s.unicode_len();
    let m = p.unicode_len();
    if m > n {
        return false;
    }
    let mut i: usize = 0;
    while i < m
        invariant
            m <= n,
            n == s@.len(),
            m == p@.len(),
            i <= m,
            s@.subrange(0, i as int) == p@.subrange(0, i as int),
        decreases m - i,
    {
        if s.get_char(i) != p.get_char(i) {
            assert(s@.subrange(0, m as int)[i as int] != p@[i as int]);
            return false;
        }
        assert(s@.subrange(0, i + 1) == s@.subrange(0, i as int).push(s@[i as int]));
        assert(p@.subrange(0, i + 1) == p@.subrange(0, i as int).push(p@[i as int]));
        i = i + 1;
    }
    assert(p@.subrange(0, m as int) == p@);
    true
}

/// The characters of `s` from index `from` on.
pub fn suffix_from(s: &str, from: usize) -> (r: String)
    requires
        from <= s@.len(),
    ensures
        r@ == s@.subrange(from as int, s@.len() as int),
{
    let n = s.unicode_len();
    let mut out = String::new();
    let mut i: usize = from;
    while i < n
        invariant
            n == s@.len(),
            from <= i <= n,
            out@ == s@.subrange(from as int, i as int),
        decreases n - i,
    {
        let c = s.get_char(i);
        push_char(&mut out, c);
        assert(s@.subrange(from as int, i + 1) == s@.subrange(from as int, i as int).push(c));
        i = i + 1;
    }
    out
}

/// Splits `s` at every occurrence of `sep`.
pub fn split_on(s: &str, sep: char) -> (r: Vec<String>)
    ensures
        r@.len() == split_parts(s@, sep).len(),
        forall|k: int| 0 <= k < r@.len() ==> #[trigger] r@[k]@ == split_parts(s@, sep)[k],
{
    let n = s.unicode_len();
    let mut done: Vec<String> = Vec::new();
    let mut cur = String::new();
    let mut i: usize = 0;
    while i < n
        invariant
            n == s@.len(),
            i <= n,
            done@.len() + 1 == split_parts(s@.subrange(0, i as int), sep).len(),
            forall|k: int|
                0 <= k < done@.len() ==> #[trigger] done@[k]@ == split_parts(
                    s@.subrange(0, i as int),
                    sep,
                )[k],
            cur@ == split_parts(s@.subrange(0, i as int), sep).last(),
        decreases n - i,
    {
        let c = s.get_char(i);
        let ghost pre = s@.subrange(0, i as int);
        let ghost next = s@.subrange(0, i + 1);
        assert(next.drop_last() == pre);
        assert(next.last() == c);
        proof {
            lemma_split_parts_nonempty(pre, sep);
        }
        if c == sep {
            let finished = cur;
            done.push(finished);
            cur = String::new();
        } else {
            push_char(&mut cur, c);
        }
        i = i + 1;
    }
    assert(s@.subrange(0, n as int) == s@);
    done.push(cur);
    done
}

/// The characters with the Unicode `White_Space` property.
pub open spec fn white_space(c: char) -> bool {
    ('\u{9}' <= c && c <= '\u{d}') || c == ' ' || c == '\u{85}' || c == '\u{a0}' || c
        == '\u{1680}' || ('\u{2000}' <= c && c <= '\u{200a}') || c == '\u{2028}' || c
        == '\u{2029}' || c == '\u{202f}' || c == '\u{205f}' || c == '\u{3000}'
}

/// Whether `c` is Unicode white space.
pub fn is_white_space(c: char) -> (r: bool)
    ensures
        r == white_space(c),
{
    ('\u{9}' <= c && c <= '\u{d}') || c == ' ' || c == '\u{85}' || c == '\u{a0}' || c
        == '\u{1680}' || ('\u{2000}' <= c && c <= '\u{200a}') || c == '\u{2028}' || c
        == '\u{2029}' || c == '\u{202f}' || c == '\u{205f}' || c == '\u{3000}'
}

/// `s` without the leading characters that satisfy `strip`.
pub open spec fn trim_start_by(s: Seq<char>, strip: spec_fn(char) -> bool) -> Seq<char>
    decreases s.len(),
{
    if s.len() > 0 && strip(s[0]) {
        trim_start_by(s.drop_first(), strip)
    } else {
        s
    }
}

/// `s` without the trailing characters that satisfy `strip`.
pub open spec fn trim_end_by(s: Seq<char>, strip: spec_fn(char) -> bool) -> Seq<char>
    decreases s.len(),
{
    if s.len() > 0 && strip(s.last()) {
        trim_end_by(s.drop_last(), strip)
    } else {
        s
    }
}

/// `s` without leading and trailing white space.
pub open spec fn trim_ws(s: Seq<char>) -> Seq<char> {
    trim_end_by(trim_start_by(s, |c: char| white_space(c)), |c: char| white_space(c))
}

/// `s` without leading and trailing `"`.
pub open spec fn trim_quotes(s: Seq<char>) -> Seq<char> {
    trim_end_by(trim_start_by(s, |c: char| c == '"'), |c: char| c == '"')
}

proof fn lemma_trim_start_at(s: Seq<char>, strip: spec_fn(char) -> bool, i: int)
    requires
        0 <= i < s.len(),
        strip(s[i]),
    ensures
        trim_start_by(s.subrange(i, s.len() as int), strip) == trim_start_by(
            s.subrange(i + 1, s.len() as int),
            strip,
        ),
{
    assert(s.subrange(i, s.len() as int).drop_first() == s.subrange(i + 1, s.len() as int));
}

proof fn lemma_trim_end_at(s: Seq<char>, strip: spec_fn(char) -> bool, j: int)
    requires
        0 < j <= s.len(),
        strip(s[j - 1]),
    ensures
        trim_end_by(s.subrange(0, j), strip) == trim_end_by(s.subrange(0, j - 1), strip),
{
    assert(s.subrange(0, j).drop_last() == s.subrange(0, j - 1));
}

/// The characters of `s` from `from` up to `to`.
pub fn substring(s: &str, from: usize, to: usize) -> (r: String)
    requires
        from <= to <= s@.len(),
    ensures
        r@ == s@.subrange(from as int, to as int),
{
    let mut out = String::new();
    let mut i: usize = from;
    while i < to
        invariant
            from <= i <= to,
            to <= s@.len(),
            out@ == s@.subrange(from as int, i as int),
        decreases to - i,
    {
        let c = s.get_char(i);
        push_char(&mut out, c);
        assert(s@.subrange(from as int, i + 1) == s@.subrange(from as int, i as int).push(c));
        i = i + 1;
    }
    out
}

/// `s` without leading and trailing white space.
pub fn trim(s: &str) -> (r: String)
    ensures
        r@ == trim_ws(s@),
{
    let ghost ws = |c: char| white_space(c);
    let n = s.unicode_len();
    let mut a: usize = 0;
    assert(s@.subrange(0, n as int) == s@);
    while a < n && is_white_space(s.get_char(a))
        invariant
            ws == (|c: char| white_space(c)),
            n == s@.len(),
            a <= n,
            trim_start_by(s@, ws) == trim_start_by(s@.subrange(a as int, n as int), ws),
        decreases n - a,
    {
        proof {
            lemma_trim_start_at(s@, ws, a as int);
        }
        a = a + 1;
    }
    let ghost t = s@.subrange(a as int, n as int);
    assert(trim_start_by(t, ws) == t);
    let mut b: usize = n;
    assert(t.subrange(0, (n - a) as int) == t);
    while b > a && is_white_space(s.get_char(b - 1))
        invariant
            ws == (|c: char| white_space(c)),
            n == s@.len(),
            a <= b <= n,
            t == s@.subrange(a as int, n as int),
            trim_end_by(t, ws) == trim_end_by(t.subrange(0, (b - a) as int), ws),
        decreases b - a,
    {
        proof {
            assert(t[(b - a - 1) as int] == s@[b - 1]);
            lemma_trim_end_at(t, ws, (b - a) as int);
        }
        b = b - 1;
    }
    let ghost u = t.subrange(0, (b - a) as int);
    assert(u.len() > 0 ==> u.last() == s@[b - 1]);
    assert(trim_end_by(u, ws) == u);
    assert(u == s@.subrange(a as int, b as int));
    substring(s, a, b)
}

/// `s` without leading and trailing `"`.
pub fn trim_quote_marks(s: &str) -> (r: String)
    ensures
        r@ == trim_quotes(s@),
{
    let ghost q = |c: char| c == '"';
    let n = s.unicode_len();
    let mut a: usize = 0;
    assert(s@.subrange(0, n as int) == s@);
    while a < n && s.get_char(a) == '"'
        invariant
            q == (|c: char| c == '"'),
            n == s@.len(),
            a <= n,
            trim_start_by(s@, q) == trim_start_by(s@.subrange(a as int, n as int), q),
        decreases n - a,
    {
        proof {
            lemma_trim_start_at(s@, q, a as int);
        }
        a = a + 1;
    }
    let ghost t = s@.subrange(a as int, n as int);
    assert(trim_start_by(t, q) == t);
    let mut b: usize = n;
    assert(t.subrange(0, (n - a) as int) == t);
    while b > a && s.get_char(b - 1) == '"'
        invariant
            q == (|c: char| c == '"'),
            n == s@.len(),
            a <= b <= n,
            t == s@.subrange(a as int, n as int),
            trim_end_by(t, q) == trim_end_by(t.subrange(0, (b - a) as int), q),
        decreases b - a,
    {
        proof {
            assert(t[(b - a - 1) as int] == s@[b - 1]);
            lemma_trim_end_at(t, q, (b - a) as int);
        }
        b = b - 1;
    }
    let ghost u = t.subrange(0, (b - a) as int);
    assert(u.len() > 0 ==> u.last() == s@[b - 1]);
    assert(trim_end_by(u, q) == u);
    assert(u == s@.subrange(a as int, b as int));
    substring(s, a, b)
}

/// Whether two characters are equal once ASCII letters are folded to one case.
pub open spec fn ascii_ci_char_eq(a: char, b: char) -> bool {
    a == b || ('A' <= a && a <= 'Z' && b as u32 == a as u32 + 32) || ('a' <= a && a <= 'z'
        && a as u32 == b as u32 + 32)
}

/// Whether `a` and `b` are equal once ASCII letters are folded to one case.
pub open spec fn ascii_ci_eq(a: Seq<char>, b: Seq<char>) -> bool {
    a.len() == b.len() && forall|i: int| 0 <= i < a.len() ==> ascii_ci_char_eq(#[trigger] a[i], b[i])
}

/// Whether `a` and `b` are equal once ASCII letters are folded to one case.
pub fn eq_ignore_ascii_case(a: &str, b: &str) -> (r: bool)
    ensures
        r == ascii_ci_eq(a@, b@),
{
    let n = a.unicode_len();
    if n != b.unicode_len() {
        return false;
    }
    let mut i: usize = 0;
    while i < n
        invariant
            n == a@.len(),
            n == b@.len(),
            i <= n,
            forall|k: int| 0 <= k < i ==> ascii_ci_char_eq(#[trigger] a@[k], b@[k]),
        decreases n - i,
    {
        let x = a.get_char(i);
        let y = b.get_char(i);
        let same = x == y || ('A' <= x && x <= 'Z' && y as u32 == x as u32 + 32) || ('a' <= x
            && x <= 'z' && x as u32 == y as u32 + 32);
        if !same {
            return false;
        }
        i = i + 1;
    }
    true
}

/// Whether `a` and `b` hold the same characters.
pub fn same_text(a: &str, b: &str) -> (r: bool)
    ensures
        r == (a@ == b@),
{
    let n = a.unicode_len();
    if n != b.unicode_len() {
        return false;
    }
    let mut i: usize = 0;
    while i < n
        invariant
            n == a@.len(),
            n == b@.len(),
            i <= n,
            a@.subrange(0, i as int) == b@.subrange(0, i as int),
        decreases n - i,
    {
        if a.get_char(i) != b.get_char(i) {
            return false;
        }
        assert(a@.subrange(0, i + 1) == a@.subrange(0, i as int).push(a@[i as int]));
        assert(b@.subrange(0, i + 1) == b@.subrange(0, i as int).push(b@[i as int]));
        i = i + 1;
    }
    assert(a@ == a@.subrange(0, n as int));
    assert(b@ == b@.subrange(0, n as int));
    true
}

/// The words of `s` read so far, and the word being read.
pub open spec fn words_state(s: Seq<char>) -> (Seq<Seq<char>>, Seq<char>)
    decreases s.len(),
{
    if s.len() == 0 {
        (Seq::empty(), Seq::empty())
    } else {
        let (done, cur) = words_state(s.drop_last());
        if white_space(s.last()) {
            if cur.len() > 0 {
                (done.push(cur), Seq::empty())
            } else {
                (done, cur)
            }
        } else {
            (done, cur.push(s.last()))
        }
    }
}

/// The maximal runs of characters other than white space, in order.
pub open spec fn words(s: Seq<char>) -> Seq<Seq<char>> {
    let (done, cur) = words_state(s);
    if cur.len() > 0 {
        done.push(cur)
    } else {
        done
    }
}

/// The words of `s`: its maximal runs of characters other than white space.
pub fn split_words(s: &str) -> (r: Vec<String>)
    ensures
        r@.len() == words(s@).len(),
        forall|k: int| 0 <= k < r@.len() ==> #[trigger] r@[k]@ == words(s@)[k],
{
    let n = s.unicode_len();
    let mut done: Vec<String> = Vec::new();
    let mut cur = String::new();
    let mut i: usize = 0;
    while i < n
        invariant
            n == s@.len(),
            i <= n,
            done@.len() == words_state(s@.subrange(0, i as int)).0.len(),
            forall|k: int|
                0 <= k < done@.len() ==> #[trigger] done@[k]@ == words_state(
                    s@.subrange(0, i as int),
                ).0[k],
            cur@ == words_state(s@.subrange(0, i as int)).1,
        decreases n - i,
    {
        let c = s.get_char(i);
        let ghost next = s@.subrange(0, i + 1);
        assert(next.drop_last() == s@.subrange(0, i as int));
        assert(next.last() == c);
        if is_white_space(c) {
            if cur.as_str().unicode_len() > 0 {
                let w = cur;
                done.push(w);
                cur = String::new();
            }
        } else {
            push_char(&mut cur, c);
        }
        i = i + 1;
    }
    assert(s@.subrange(0, n as int) == s@);
    if cur.as_str().unicode_len() > 0 {
        done.push(cur);
    }
    done
}

} // verus!
