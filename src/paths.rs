//! Placement of archive entries under a destination root, with the defence
//! against entries that would land outside it.
use vstd::prelude::*;
use crate::text::{
    is_prefix_of, normalize_separators, normalize_seps, push_char, split_on, split_parts,
    starts_with, suffix_from, same_text, lemma_split_parts_nonempty,
};

verus! {

/// Why an entry cannot be placed.
#[derive(Debug, Clone, Copy, PartialEq, Eq, Structural)]
pub enum PathError {
    /// The entry lies outside the selected subfolder of the archive.
    NotInPrefix,
    /// The entry would resolve outside the destination root.
    UnsafePath,
}

/// The subfolder filter as used against entry names: `/` separators, and a
/// trailing `/` unless it is empty.
pub open spec fn spec_normalized_prefix(p: Seq<char>) -> Seq<char> {
    let q = normalize_seps(p);
    if q.len() == 0 || q.last() == '/' {
        q
    } else {
        q.push('/')
    }
}

/// Whether an entry passes the subfolder filter `prefix` (already normalized).
pub open spec fn selects(name: Seq<char>, prefix: Seq<char>) -> bool {
    prefix.len() == 0 || is_prefix_of(prefix, normalize_seps(name))
}

/// The entry's path below the subfolder: normalized, with the prefix removed.
pub open spec fn relative_part(name: Seq<char>, prefix: Seq<char>) -> Seq<char> {
    let n = normalize_seps(name);
    n.subrange(prefix.len() as int, n.len() as int)
}

pub open spec fn is_dotdot(seg: Seq<char>) -> bool {
    seg == seq!['.', '.']
}

pub open spec fn is_dot_or_empty(seg: Seq<char>) -> bool {
    seg.len() == 0 || seg == seq!['.']
}

/// How a path segment moves the depth below the root.
pub open spec fn seg_step(seg: Seq<char>) -> int {
    if is_dotdot(seg) {
        -1
    } else if is_dot_or_empty(seg) {
        0
    } else {
        1
    }
}

/// A drive letter and a colon at the start (`C:`).
pub open spec fn has_drive(p: Seq<char>) -> bool {
    p.len() >= 2 && p[1] == ':' && (('a' <= p[0] && p[0] <= 'z') || ('A' <= p[0] && p[0]
        <= 'Z'))
}

/// How a path (with `/` separators) is anchored: 0 relative, 1 at the root
/// `/`, 2 at a drive, which only Windows has.
pub open spec fn path_kind(p: Seq<char>, windows: bool) -> int {
    if p.len() > 0 && p[0] == '/' {
        1
    } else if windows && has_drive(p) {
        2
    } else {
        0
    }
}

/// Whether a path replaces, rather than extends, a base it is joined to.
pub open spec fn is_absolute(p: Seq<char>, windows: bool) -> bool {
    path_kind(p, windows) != 0
}

/// The segments of a normalized path after one more segment: `.` and empty
/// segments change nothing; `..` removes the last name above `floor`, or is
/// kept on a relative path that has none, or is dropped at a root.
pub open spec fn seg_after(stack: Seq<Seq<char>>, seg: Seq<char>, floor: int, rooted: bool) -> Seq<
    Seq<char>,
> {
    if is_dot_or_empty(seg) {
        stack
    } else if is_dotdot(seg) {
        if stack.len() > floor && !is_dotdot(stack.last()) {
            stack.drop_last()
        } else if rooted {
            stack
        } else {
            stack.push(seg)
        }
    } else {
        stack.push(seg)
    }
}

/// The segments after walking `segs` from `stack`.
pub open spec fn walk(stack: Seq<Seq<char>>, segs: Seq<Seq<char>>, floor: int, rooted: bool) -> Seq<
    Seq<char>,
>
    decreases segs.len(),
{
    if segs.len() == 0 {
        stack
    } else {
        walk(seg_after(stack, segs[0], floor, rooted), segs.drop_first(), floor, rooted)
    }
}

/// The segments of the path `p` (with `/` separators) once `.` and `..` are
/// resolved by its text; a drive stays the first segment.
pub open spec fn norm_segments(p: Seq<char>, windows: bool) -> Seq<Seq<char>> {
    let segs = split_parts(p, '/');
    if path_kind(p, windows) == 2 {
        walk(seq![segs[0]], segs.drop_first(), 1, true)
    } else {
        walk(Seq::empty(), segs, 0, path_kind(p, windows) == 1)
    }
}

/// Whether `a` is a leading part of `b`.
pub open spec fn seq_is_prefix(a: Seq<Seq<char>>, b: Seq<Seq<char>>) -> bool {
    a.len() <= b.len() && b.subrange(0, a.len() as int) == a
}

/// Whether no segment of `segs` from index `from` on is `..`.
pub open spec fn no_parent_from(segs: Seq<Seq<char>>, from: int) -> bool {
    forall|k: int| from <= k < segs.len() ==> !is_dotdot(#[trigger] segs[k])
}

/// Whether the path `cand`, resolved by its text, is `base` or lies below it:
/// its segments start with those of `base`, and none of the ones that follow
/// goes back up (which a relative `base` such as `.` or `..` would otherwise
/// let through). Both are read with `\` as `/`.
pub open spec fn lexically_inside(cand: Seq<char>, base: Seq<char>, windows: bool) -> bool {
    let c = normalize_seps(cand);
    let b = normalize_seps(base);
    &&& path_kind(c, windows) == path_kind(b, windows)
    &&& seq_is_prefix(norm_segments(b, windows), norm_segments(c, windows))
    &&& no_parent_from(norm_segments(c, windows), norm_segments(b, windows).len() as int)
}

/// Where an entry with the path `rel` goes under `base`: `rel` itself when it
/// is absolute, else `rel` joined onto `base`.
pub open spec fn output_candidate(base: Seq<char>, rel: Seq<char>, windows: bool) -> Seq<char> {
    if is_absolute(rel, windows) {
        rel
    } else {
        join_path(base, rel)
    }
}

/// `rel` joined onto `base` with one separator between them.
pub open spec fn join_path(base: Seq<char>, rel: Seq<char>) -> Seq<char> {
    if base.len() == 0 {
        rel
    } else if base.last() == '/' || base.last() == '\\' {
        base + rel
    } else {
        base + seq!['/'] + rel
    }
}

/// Whether the path `c` is `b` or lies below it, segment-wise (both with `/`).
pub open spec fn is_within(c: Seq<char>, b: Seq<char>) -> bool {
    c == b || (is_prefix_of(b, c) && ((b.len() > 0 && b.last() == '/') || (c.len() > b.len()
        && c[b.len() as int] == '/')))
}

/// Whether the canonical forms of a candidate and of its base (either absent
/// when it could not be had) leave the candidate inside the base. With no
/// canonical candidate (the entry is not on disk yet) the textual check stands.
pub open spec fn spec_canonical_ok(
    canon_cand: Option<Seq<char>>,
    canon_base: Option<Seq<char>>,
    base: Seq<char>,
) -> bool {
    match canon_cand {
        None => true,
        Some(c) => {
            let b = match canon_base {
                Some(cb) => cb,
                None => base,
            };
            is_within(normalize_seps(c), normalize_seps(b))
        },
    }
}

/// Separator style does not matter: two entry names that agree once `\\` is
/// read as `/` pass the filter alike and go to the same place, so one that
/// lands outside the root is refused whichever separators it is written with.
pub proof fn lemma_separator_style_irrelevant(
    a: Seq<char>,
    b: Seq<char>,
    prefix: Seq<char>,
    base: Seq<char>,
    windows: bool,
)
    requires
        normalize_seps(a) == normalize_seps(b),
    ensures
        selects(a, prefix) == selects(b, prefix),
        relative_part(a, prefix) == relative_part(b, prefix),
        lexically_inside(output_candidate(base, relative_part(a, prefix), windows), base, windows)
            == lexically_inside(
            output_candidate(base, relative_part(b, prefix), windows),
            base,
            windows,
        ),
{
}

/// An entry written as the subfolder followed by a relative path (both with
/// `/` separators) passes the filter and resolves to that relative path: it
/// is placed at `join_path(base, rel)` unless that lies outside `base`.
pub proof fn lemma_prefix_stripped(prefix: Seq<char>, rel: Seq<char>)
    requires
        normalize_seps(prefix) == prefix,
        normalize_seps(rel) == rel,
    ensures
        selects(prefix + rel, prefix),
        relative_part(prefix + rel, prefix) == rel,
{
    assert(normalize_seps(prefix + rel) =~= normalize_seps(prefix) + normalize_seps(rel));
    assert((prefix + rel).subrange(0, prefix.len() as int) =~= prefix);
    assert((prefix + rel).subrange(prefix.len() as int, (prefix + rel).len() as int) =~= rel);
}

/// Splitting `a/b` gives the parts of `a` followed by those of `b`.
pub proof fn lemma_split_join(a: Seq<char>, b: Seq<char>)
    ensures
        split_parts(a + seq!['/'] + b, '/') == split_parts(a, '/') + split_parts(b, '/'),
    decreases b.len(),
{
    let s = a + seq!['/'] + b;
    if b.len() == 0 {
        assert(s.drop_last() =~= a);
        assert(s.last() == '/');
        assert(split_parts(b, '/') =~= seq![Seq::<char>::empty()]);
        assert(split_parts(a, '/').push(Seq::<char>::empty()) =~= split_parts(a, '/') + seq![
            Seq::<char>::empty(),
        ]);
    } else {
        assert(s.drop_last() =~= a + seq!['/'] + b.drop_last());
        assert(s.last() == b.last());
        lemma_split_join(a, b.drop_last());
        crate::text::lemma_split_parts_nonempty(b.drop_last(), '/');
        let pa = split_parts(a, '/');
        let pb = split_parts(b.drop_last(), '/');
        if b.last() == '/' {
            assert((pa + pb).push(Seq::<char>::empty()) =~= pa + pb.push(Seq::<char>::empty()));
        } else {
            let w = pa + pb;
            assert(w.last() == pb.last());
            assert(w.update(w.len() - 1, w.last().push(b.last())) =~= pa + pb.update(
                pb.len() - 1,
                pb.last().push(b.last()),
            ));
        }
    }
}

/// Walking two runs of segments one after the other is walking them joined.
pub proof fn lemma_walk_concat(
    st: Seq<Seq<char>>,
    x: Seq<Seq<char>>,
    y: Seq<Seq<char>>,
    floor: int,
    rooted: bool,
)
    ensures
        walk(st, x + y, floor, rooted) == walk(walk(st, x, floor, rooted), y, floor, rooted),
    decreases x.len(),
{
    if x.len() == 0 {
        assert(x + y =~= y);
    } else {
        assert((x + y).drop_first() =~= x.drop_first() + y);
        assert((x + y)[0] == x[0]);
        lemma_walk_concat(seg_after(st, x[0], floor, rooted), x.drop_first(), y, floor, rooted);
    }
}

/// Walking segments with no `..` only adds segments, none of them `..`.
pub proof fn lemma_walk_descends(st: Seq<Seq<char>>, y: Seq<Seq<char>>, floor: int, rooted: bool)
    requires
        no_parent_from(y, 0),
    ensures
        seq_is_prefix(st, walk(st, y, floor, rooted)),
        no_parent_from(walk(st, y, floor, rooted), st.len() as int),
    decreases y.len(),
{
    let w = walk(st, y, floor, rooted);
    if y.len() == 0 {
        assert(w.subrange(0, st.len() as int) =~= st);
    } else {
        let st1 = seg_after(st, y[0], floor, rooted);
        assert(!is_dotdot(y[0]));
        assert forall|k: int| 0 <= k < y.drop_first().len() implies !is_dotdot(
            #[trigger] y.drop_first()[k],
        ) by {
            assert(y.drop_first()[k] == y[k + 1]);
        }
        lemma_walk_descends(st1, y.drop_first(), floor, rooted);
        assert(st1.len() >= st.len());
        assert(st1.subrange(0, st.len() as int) =~= st);
        assert(w.subrange(0, st.len() as int) =~= st) by {
            assert(w.subrange(0, st1.len() as int) == st1);
            assert forall|k: int| 0 <= k < st.len() implies w[k] == st[k] by {
                assert(w[k] == w.subrange(0, st1.len() as int)[k]);
                assert(st1[k] == st1.subrange(0, st.len() as int)[k]);
            }
        }
        assert forall|k: int| st.len() <= k < w.len() implies !is_dotdot(#[trigger] w[k]) by {
            if k < st1.len() {
                assert(w[k] == w.subrange(0, st1.len() as int)[k]);
                assert(st1[k] == y[0]);
            }
        }
    }
}

proof fn lemma_walk_one_empty(st: Seq<Seq<char>>, floor: int, rooted: bool)
    ensures
        walk(st, seq![Seq::<char>::empty()], floor, rooted) == st,
{
    let e = seq![Seq::<char>::empty()];
    assert(e.drop_first() =~= Seq::<Seq<char>>::empty());
    assert(is_dot_or_empty(e[0]));
    reveal_with_fuel(walk, 2);
}

/// The normalized segments of `a/b` are those of `b` walked on from `a`'s.
proof fn lemma_norm_join(a: Seq<char>, b: Seq<char>, windows: bool)
    requires
        a.len() > 0,
    ensures
        path_kind(a + seq!['/'] + b, windows) == path_kind(a, windows),
        norm_segments(a + seq!['/'] + b, windows) == walk(
            norm_segments(a, windows),
            split_parts(b, '/'),
            if path_kind(a, windows) == 2 {
                1int
            } else {
                0int
            },
            path_kind(a, windows) != 0,
        ),
{
    let c = a + seq!['/'] + b;
    assert(c[0] == a[0]);
    if a.len() >= 2 {
        assert(c[1] == a[1]);
    } else {
        assert(c[1] == '/');
    }
    lemma_split_join(a, b);
    crate::text::lemma_split_parts_nonempty(a, '/');
    let sa = split_parts(a, '/');
    let sb = split_parts(b, '/');
    if path_kind(a, windows) == 2 {
        assert((sa + sb)[0] == sa[0]);
        assert((sa + sb).drop_first() =~= sa.drop_first() + sb);
        lemma_walk_concat(seq![sa[0]], sa.drop_first(), sb, 1, true);
    } else {
        lemma_walk_concat(Seq::empty(), sa, sb, 0, path_kind(a, windows) == 1);
    }
}

/// An entry whose path below the subfolder is relative, uses `/`, and has no
/// `..` segment always passes the textual containment check, whatever the
/// destination: only what is on disk can still refuse it.
pub proof fn lemma_safe_entry_inside(base: Seq<char>, rel: Seq<char>, windows: bool)
    requires
        normalize_seps(rel) == rel,
        !is_absolute(rel, windows),
        no_parent_from(split_parts(rel, '/'), 0),
    ensures
        lexically_inside(output_candidate(base, rel, windows), base, windows),
{
    let nb = normalize_seps(base);
    let cand = output_candidate(base, rel, windows);
    let nc = normalize_seps(cand);
    let sr = split_parts(rel, '/');
    if base.len() == 0 {
        assert(nb =~= Seq::<char>::empty());
        assert(nc == rel);
        assert(split_parts(nb, '/') =~= seq![Seq::<char>::empty()]);
        lemma_walk_one_empty(Seq::empty(), 0, false);
        assert(norm_segments(nb, windows) == Seq::<Seq<char>>::empty());
        lemma_walk_descends(Seq::empty(), sr, 0, false);
        assert(seq_is_prefix(Seq::empty(), norm_segments(nc, windows)));
    } else if base.last() == '/' || base.last() == '\\' {
        let nb0 = nb.drop_last();
        assert(nb =~= nb0 + seq!['/'] + Seq::<char>::empty());
        assert(cand == base + rel);
        assert(nc =~= nb0 + seq!['/'] + rel);
        if nb0.len() == 0 {
            // The base is the root `/` itself.
            assert(nb =~= seq!['/']);
            assert(nc[0] == '/');
            lemma_split_join(nb0, rel);
            lemma_split_join(nb0, Seq::<char>::empty());
            assert(split_parts(nb0, '/') =~= seq![Seq::<char>::empty()]);
            assert(split_parts(Seq::<char>::empty(), '/') =~= seq![Seq::<char>::empty()]);
            let e = seq![Seq::<char>::empty()];
            lemma_walk_concat(Seq::empty(), e, e, 0, true);
            lemma_walk_concat(Seq::empty(), e, sr, 0, true);
            lemma_walk_one_empty(Seq::empty(), 0, true);
            lemma_walk_descends(Seq::empty(), sr, 0, true);
        } else {
            let e = Seq::<char>::empty();
            lemma_norm_join(nb0, e, windows);
            lemma_norm_join(nb0, rel, windows);
            assert(split_parts(e, '/') =~= seq![e]);
            let fl = if path_kind(nb0, windows) == 2 { 1int } else { 0int };
            let ro = path_kind(nb0, windows) != 0;
            lemma_walk_one_empty(norm_segments(nb0, windows), fl, ro);
            lemma_walk_descends(norm_segments(nb0, windows), sr, fl, ro);
        }
    } else {
        assert(cand == base + seq!['/'] + rel);
        assert(nc =~= nb + seq!['/'] + rel);
        assert(nb.len() > 0);
        lemma_norm_join(nb, rel, windows);
        let fl = if path_kind(nb, windows) == 2 { 1int } else { 0int };
        lemma_walk_descends(norm_segments(nb, windows), sr, fl, path_kind(nb, windows) != 0);
    }
}

/// Returns the subfolder filter in the form `should_extract` expects.
pub fn normalize_prefix(prefix: Option<String>) -> (r: String)
    ensures
        r@ == match prefix {
            Some(p) => spec_normalized_prefix(p@),
            None => Seq::<char>::empty(),
        },
{
    match prefix {
        None => String::new(),
        Some(p) => {
            let mut q = normalize_separators(p.as_str());
            let n = q.as_str().unicode_len();
            if n > 0 && q.as_str().get_char(n - 1) != '/' {
                push_char(&mut q, '/');
            }
            q
        },
    }
}

/// Whether the entry `entry_name` lies in the subfolder `prefix` (normalized,
/// see `normalize_prefix`); an empty prefix selects every entry.
pub fn should_extract(entry_name: &str, prefix: &str) -> (r: bool)
    ensures
        r == selects(entry_name@, prefix@),
{
    if prefix.unicode_len() == 0 {
        true
    } else {
        let n = normalize_separators(entry_name);
        starts_with(n.as_str(), prefix)
    }
}

fn is_ascii_letter(c: char) -> (r: bool)
    ensures
        r == (('a' <= c && c <= 'z') || ('A' <= c && c <= 'Z')),
{
    ('a' <= c && c <= 'z') || ('A' <= c && c <= 'Z')
}

fn segment_step(seg: &str) -> (r: i8)
    ensures
        r as int == seg_step(seg@),
{
    let n = seg.unicode_len();
    if n == 2 && seg.get_char(0) == '.' && seg.get_char(1) == '.' {
        assert(seg@ == seq!['.', '.']);
        -1
    } else if n == 0 || (n == 1 && seg.get_char(0) == '.') {
        assert(n == 1 ==> seg@ == seq!['.']);
        0
    } else {
        assert(seg@ != seq!['.', '.']);
        assert(seg@ != seq!['.']);
        1
    }
}

/// The segments a vector of strings holds.
pub open spec fn seg_views(v: Seq<String>) -> Seq<Seq<char>> {
    v.map_values(|s: String| s@)
}

proof fn lemma_walk_step(
    stack: Seq<Seq<char>>,
    segs: Seq<Seq<char>>,
    i: int,
    floor: int,
    rooted: bool,
)
    requires
        0 <= i < segs.len(),
    ensures
        walk(stack, segs.subrange(i, segs.len() as int), floor, rooted) == walk(
            seg_after(stack, segs[i], floor, rooted),
            segs.subrange(i + 1, segs.len() as int),
            floor,
            rooted,
        ),
{
    assert(segs.subrange(i, segs.len() as int).drop_first() == segs.subrange(
        i + 1,
        segs.len() as int,
    ));
}

/// How the path `p` (with `/` separators) is anchored (see `path_kind`).
pub fn path_kind_of(p: &str, windows: bool) -> (r: u8)
    ensures
        r as int == path_kind(p@, windows),
{
    let n = p.unicode_len();
    if n > 0 && p.get_char(0) == '/' {
        1
    } else if windows && n >= 2 && p.get_char(1) == ':' && is_ascii_letter(p.get_char(0)) {
        2
    } else {
        0
    }
}

/// The segments of the path `p` (with `/` separators) with `.` and `..`
/// resolved by its text.
pub fn normalized_segments(p: &str, windows: bool) -> (r: Vec<String>)
    ensures
        seg_views(r@) == norm_segments(p@, windows),
{
    let segs = split_on(p, '/');
    let ghost gs = split_parts(p@, '/');
    proof {
        lemma_split_parts_nonempty(p@, '/');
    }
    let kind = path_kind_of(p, windows);
    let rooted = kind != 0;
    let mut stack: Vec<String> = Vec::new();
    let mut floor: usize = 0;
    let mut i: usize = 0;
    if kind == 2 {
        stack.push(String::from_str(segs[0].as_str()));
        floor = 1;
        i = 1;
        assert(segs@[0]@ == gs[0]);
        assert(seg_views(stack@) =~= seq![gs[0]]);
        assert(gs.subrange(1, gs.len() as int) == gs.drop_first());
    } else {
        assert(seg_views(stack@) =~= Seq::<Seq<char>>::empty());
        assert(gs.subrange(0, gs.len() as int) == gs);
    }
    while i < segs.len()
        invariant
            gs == split_parts(p@, '/'),
            segs@.len() == gs.len(),
            forall|k: int| 0 <= k < segs@.len() ==> #[trigger] segs@[k]@ == gs[k],
            i <= segs@.len(),
            floor <= stack@.len(),
            rooted == (path_kind(p@, windows) != 0),
            floor == (if path_kind(p@, windows) == 2 { 1usize } else { 0usize }),
            norm_segments(p@, windows) == walk(
                seg_views(stack@),
                gs.subrange(i as int, gs.len() as int),
                floor as int,
                rooted,
            ),
        decreases segs.len() - i,
    {
        proof {
            lemma_walk_step(seg_views(stack@), gs, i as int, floor as int, rooted);
        }
        assert(segs@[i as int]@ == gs[i as int]);
        let ghost before = seg_views(stack@);
        let step = segment_step(segs[i].as_str());
        if step < 0 {
            let n = stack.len();
            let can_pop = n > floor && segment_step(stack[n - 1].as_str()) >= 0;
            assert(n > 0 ==> stack@[n - 1]@ == before.last());
            if can_pop {
                stack.pop();
                assert(seg_views(stack@) =~= before.drop_last());
            } else if !rooted {
                stack.push(String::from_str(segs[i].as_str()));
                assert(seg_views(stack@) =~= before.push(gs[i as int]));
            }
        } else if step > 0 {
            stack.push(String::from_str(segs[i].as_str()));
            assert(seg_views(stack@) =~= before.push(gs[i as int]));
        }
        i = i + 1;
    }
    assert(gs.subrange(gs.len() as int, gs.len() as int) =~= Seq::<Seq<char>>::empty());
    stack
}

/// Whether the segments `a` are a leading part of the segments `b`.
pub fn segments_prefix(a: &Vec<String>, b: &Vec<String>) -> (r: bool)
    ensures
        r == seq_is_prefix(seg_views(a@), seg_views(b@)),
{
    let ghost av = seg_views(a@);
    let ghost bv = seg_views(b@);
    if a.len() > b.len() {
        return false;
    }
    let mut i: usize = 0;
    while i < a.len()
        invariant
            av == seg_views(a@),
            bv == seg_views(b@),
            a@.len() <= b@.len(),
            i <= a@.len(),
            forall|k: int| 0 <= k < i ==> #[trigger] bv[k] == av[k],
        decreases a.len() - i,
    {
        if !same_text(a[i].as_str(), b[i].as_str()) {
            assert(bv.subrange(0, av.len() as int)[i as int] != av[i as int]);
            return false;
        }
        i = i + 1;
    }
    assert(bv.subrange(0, av.len() as int) =~= av);
    true
}

/// Whether the path `cand`, resolved by its text, is `base` or lies below it.
pub fn is_inside(cand: &str, base: &str, windows: bool) -> (r: bool)
    ensures
        r == lexically_inside(cand@, base@, windows),
{
    let c = normalize_separators(cand);
    let b = normalize_separators(base);
    if path_kind_of(c.as_str(), windows) != path_kind_of(b.as_str(), windows) {
        return false;
    }
    let cs = normalized_segments(c.as_str(), windows);
    let bs = normalized_segments(b.as_str(), windows);
    if !segments_prefix(&bs, &cs) {
        return false;
    }
    let ghost cv = seg_views(cs@);
    let mut i: usize = bs.len();
    while i < cs.len()
        invariant
            cv == seg_views(cs@),
            cv == norm_segments(normalize_seps(cand@), windows),
            bs@.len() == norm_segments(normalize_seps(base@), windows).len(),
            bs@.len() <= i <= cs@.len(),
            forall|k: int| bs@.len() <= k < i ==> !is_dotdot(#[trigger] cv[k]),
        decreases cs.len() - i,
    {
        assert(cs@[i as int]@ == cv[i as int]);
        if segment_step(cs[i].as_str()) < 0 {
            assert(!no_parent_from(cv, bs@.len() as int));
            return false;
        }
        i = i + 1;
    }
    true
}

/// Where an entry with the path `rel` goes under `base` (see
/// `output_candidate`).
pub fn output_path_for(base: &str, rel: &str, windows: bool) -> (r: String)
    ensures
        r@ == output_candidate(base@, rel@, windows),
{
    if path_kind_of(rel, windows) != 0 {
        String::from_str(rel)
    } else {
        join(base, rel)
    }
}

/// Joins `rel` onto `base` with one separator between them.
pub fn join(base: &str, rel: &str) -> (r: String)
    ensures
        r@ == join_path(base@, rel@),
{
    let n = base.unicode_len();
    let mut out = String::from_str(base);
    if n > 0 {
        let last = base.get_char(n - 1);
        assert(base@.last() == last);
        if last != '/' && last != '\\' {
            push_char(&mut out, '/');
        }
    }
    out.append(rel);
    out
}

/// Whether the path `c` is `b` or lies below it; both use `/` separators.
pub fn path_within(c: &str, b: &str) -> (r: bool)
    ensures
        r == is_within(c@, b@),
{
    let n = c.unicode_len();
    let m = b.unicode_len();
    if !starts_with(c, b) {
        assert(c@ != b@ ==> !is_within(c@, b@));
        assert(c@.subrange(0, c@.len() as int) == c@);
        assert(c@ == b@ ==> is_prefix_of(b@, c@));
        return false;
    }
    if n == m {
        assert(c@ == c@.subrange(0, m as int));
        return true;
    }
    (m > 0 && b.get_char(m - 1) == '/') || c.get_char(m) == '/'
}

/// Relies on `dunce::canonicalize`: the absolute form of a path that exists on
/// disk, or nothing when it cannot be resolved. It depends on the file system,
/// so nothing is promised of the value.
#[verifier::external_body]
fn canonicalize(p: &str) -> (r: Option<String>) {
    dunce::canonicalize(p).ok().map(|pb| pb.to_string_lossy().into_owned())
}

/// Decides containment from the canonical forms of a candidate and of its base,
/// each absent when it could not be resolved.
pub fn canonical_ok(canon_cand: Option<String>, canon_base: Option<String>, base: &str) -> (r:
    bool)
    ensures
        r == spec_canonical_ok(
            match canon_cand {
                Some(c) => Some(c@),
                None => None,
            },
            match canon_base {
                Some(c) => Some(c@),
                None => None,
            },
            base@,
        ),
{
    match canon_cand {
        None => true,
        Some(c) => {
            let b = match canon_base {
                Some(cb) => normalize_separators(cb.as_str()),
                None => normalize_separators(base),
            };
            let cn = normalize_separators(c.as_str());
            path_within(cn.as_str(), b.as_str())
        },
    }
}

/// Resolves the archive entry `entry_name` to its output path under `base`,
/// with the subfolder `prefix` (normalized) stripped. Entries outside the
/// subfolder give `NotInPrefix`; entries that would land outside `base`, by
/// their text or by what is on disk, give `UnsafePath`. Drive letters mark an
/// absolute path only when `windows`.
pub fn make_output_path(base: &str, entry_name: &str, prefix: &str, windows: bool) -> (r: Result<
    String,
    PathError,
>)
    ensures
        !selects(entry_name@, prefix@) ==> r == Err::<String, PathError>(PathError::NotInPrefix),
        selects(entry_name@, prefix@) && !lexically_inside(
            output_candidate(base@, relative_part(entry_name@, prefix@), windows),
            base@,
            windows,
        ) ==> r == Err::<String, PathError>(PathError::UnsafePath),
        selects(entry_name@, prefix@) ==> r is Ok || r == Err::<String, PathError>(
            PathError::UnsafePath,
        ),
        r is Ok ==> r->Ok_0@ == output_candidate(base@, relative_part(entry_name@, prefix@), windows)
            && lexically_inside(r->Ok_0@, base@, windows),
{
    let n = normalize_separators(entry_name);
    let plen = prefix.unicode_len();
    if plen > 0 && !starts_with(n.as_str(), prefix) {
        return Err(PathError::NotInPrefix);
    }
    assert(plen <= n@.len());
    let rel = suffix_from(n.as_str(), plen);
    assert(rel@ == relative_part(entry_name@, prefix@));
    let candidate = output_path_for(base, rel.as_str(), windows);
    if !is_inside(candidate.as_str(), base, windows) {
        return Err(PathError::UnsafePath);
    }
    let canon_base = canonicalize(base);
    let canon_cand = canonicalize(candidate.as_str());
    if !canonical_ok(canon_cand, canon_base, base) {
        return Err(PathError::UnsafePath);
    }
    Ok(candidate)
}

} // verus!
