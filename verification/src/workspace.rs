//! The workspace snapshot of the desktop app: which files git reports as
//! changed, with their line counts, in path order.
use vstd::prelude::*;

use crate::flags::names;
use crate::store::Keyed;
use crate::text::{
    append_str, char_utf8_width, chars_of, contains_char, decimal, decimal_string, holds_char,
    lemma_split_len, lines, lines_of, parse_u32, parse_u32_chars, split, split_chars, str_eq,
    string_of, string_of_range, utf8_len, utf8_width,
};

verus! {

/// The request for a snapshot: the workspace directory.
pub struct WorkspaceSnapshotRequest {
    pub path: String,
}

/// One changed file.
pub struct WorkspaceSnapshotFile {
    pub path: String,
    pub status: String,
    pub additions: u32,
    pub deletions: u32,
    pub fingerprint: String,
}

/// The changed files of a workspace, in path order.
pub struct WorkspaceSnapshot {
    pub files: Vec<WorkspaceSnapshotFile>,
}

// ---------------------------------------------------------------------------
// Status labels
// ---------------------------------------------------------------------------

/// The label of a two-letter `git status --porcelain` code.
pub open spec fn status_label_of(code: Seq<char>) -> Seq<char> {
    if holds_char(code, 'A') || holds_char(code, '?') {
        "Added"@
    } else if holds_char(code, 'D') {
        "Deleted"@
    } else if holds_char(code, 'R') {
        "Renamed"@
    } else if holds_char(code, 'M') {
        "Modified"@
    } else {
        "Changed"@
    }
}

fn status_label_chars(code: &[char]) -> (r: &'static str)
    ensures
        r@ == status_label_of(code@),
{
    if contains_char(code, 'A') || contains_char(code, '?') {
        return "Added";
    }
    if contains_char(code, 'D') {
        return "Deleted";
    }
    if contains_char(code, 'R') {
        return "Renamed";
    }
    if contains_char(code, 'M') {
        return "Modified";
    }
    "Changed"
}

/// The label of a `git status --porcelain` code: added (or untracked), deleted,
/// renamed, modified, else changed.
pub fn status_label(code: &str) -> (r: &'static str)
    ensures
        r@ == status_label_of(code@),
{
    let c = chars_of(code);
    status_label_chars(c.as_slice())
}

// ---------------------------------------------------------------------------
// Byte offsets in a line
// ---------------------------------------------------------------------------

/// `k` characters of `l` take exactly `b` bytes.
pub open spec fn at_byte(l: Seq<char>, k: int, b: int) -> bool {
    0 <= k <= l.len() && utf8_len(l.take(k)) == b
}

/// Byte offset `b` of `l` falls between two characters.
pub open spec fn is_boundary(l: Seq<char>, b: int) -> bool {
    exists|k: int| at_byte(l, k, b)
}

/// The character index at byte offset `b`.
pub open spec fn char_index(l: Seq<char>, b: int) -> int {
    choose|k: int| at_byte(l, k, b)
}

/// A status line that is long enough can be cut at bytes 2 and 3, as the
/// snapshot reads it (the cut would panic inside a character).
pub open spec fn status_line_ok(l: Seq<char>) -> bool {
    utf8_len(l) >= 4 ==> is_boundary(l, 2) && is_boundary(l, 3)
}

proof fn lemma_utf8_len_step(s: Seq<char>, i: int)
    requires
        0 <= i < s.len(),
    ensures
        utf8_len(s.take(i + 1)) == utf8_len(s.take(i)) + utf8_width(s[i]),
{
    assert(s.take(i + 1).drop_last() =~= s.take(i));
}

proof fn lemma_utf8_len_increasing(s: Seq<char>, i: int, j: int)
    requires
        0 <= i < j <= s.len(),
    ensures
        utf8_len(s.take(i)) < utf8_len(s.take(j)),
    decreases j - i,
{
    lemma_utf8_len_step(s, j - 1);
    if i < j - 1 {
        lemma_utf8_len_increasing(s, i, j - 1);
    }
}

proof fn lemma_at_byte_unique(l: Seq<char>, k: int, b: int)
    requires
        at_byte(l, k, b),
    ensures
        char_index(l, b) == k,
{
    let c = char_index(l, b);
    assert(at_byte(l, c, b));
    if c < k {
        lemma_utf8_len_increasing(l, c, k);
    } else if k < c {
        lemma_utf8_len_increasing(l, k, c);
    }
}

proof fn lemma_utf8_len_full(l: Seq<char>)
    ensures
        utf8_len(l.take(l.len() as int)) == utf8_len(l),
{
    assert(l.take(l.len() as int) =~= l);
}

/// Whether `l` takes at least four bytes.
fn at_least_four_bytes(l: &[char]) -> (r: bool)
    ensures
        r == (utf8_len(l@) >= 4),
{
    let mut acc: usize = 0;
    let mut i: usize = 0;
    while i < l.len() && acc < 4
        invariant
            i <= l@.len(),
            acc == utf8_len(l@.take(i as int)),
            acc < 8,
        decreases l@.len() - i,
    {
        proof {
            lemma_utf8_len_step(l@, i as int);
        }
        acc = acc + char_utf8_width(l[i]);
        i = i + 1;
    }
    proof {
        lemma_utf8_len_full(l@);
        if i < l@.len() {
            lemma_utf8_len_increasing(l@, i as int, l@.len() as int);
        }
    }
    acc >= 4
}

/// The character index at byte offset `b`, which must fall between characters.
fn index_at_byte(l: &[char], b: usize) -> (k: usize)
    requires
        is_boundary(l@, b as int),
        b <= 4,
    ensures
        at_byte(l@, k as int, b as int),
        k as int == char_index(l@, b as int),
{
    let ghost w = choose|k: int| at_byte(l@, k, b as int);
    let mut acc: usize = 0;
    let mut i: usize = 0;
    while acc < b
        invariant
            i <= l@.len(),
            acc == utf8_len(l@.take(i as int)),
            acc <= b || (acc > b && i > w),
            at_byte(l@, w, b as int),
            i <= w,
            b <= 4,
        decreases b - acc,
    {
        proof {
            if i == w {
                assert(false);
            }
            lemma_utf8_len_step(l@, i as int);
            if i + 1 < w {
                lemma_utf8_len_increasing(l@, i + 1, w);
            }
        }
        acc = acc + char_utf8_width(l[i]);
        i = i + 1;
    }
    proof {
        lemma_at_byte_unique(l@, i as int, b as int);
    }
    i
}

// ---------------------------------------------------------------------------
// git status
// ---------------------------------------------------------------------------

/// The path and label that a long enough status line gives: the path after byte
/// 3, the label of the code in bytes 0 and 1.
pub open spec fn status_entry(l: Seq<char>) -> (Seq<char>, Seq<char>) {
    (l.skip(char_index(l, 3)), status_label_of(l.take(char_index(l, 2))))
}

/// The label of each path in `git status --porcelain=v1` lines; lines shorter
/// than four bytes are skipped, and a later line for a path wins.
pub open spec fn statuses_from(ls: Seq<Seq<char>>) -> Map<Seq<char>, Seq<char>>
    decreases ls.len(),
{
    if ls.len() == 0 {
        Map::empty()
    } else {
        let m = statuses_from(ls.drop_last());
        let l = ls.last();
        if utf8_len(l) >= 4 {
            m.insert(status_entry(l).0, status_entry(l).1)
        } else {
            m
        }
    }
}

/// The labels of the paths that `git status --porcelain=v1` reports.
pub fn git_statuses(output: &str) -> (r: Keyed<String>)
    requires
        forall|i: int|
            0 <= i < lines(output@).len() ==> status_line_ok(#[trigger] lines(output@)[i]),
    ensures
        r.wf(),
        r.map().map_values(|v: String| v@) == statuses_from(lines(output@)),
{
    let text = chars_of(output);
    let ls = lines_of(text.as_slice());
    let ghost lv = lines(output@);
    let mut statuses: Keyed<String> = Keyed::new();
    let mut i: usize = 0;
    assert(lv.take(0) =~= Seq::<Seq<char>>::empty());
    assert(statuses.map().map_values(|v: String| v@) =~= Map::<Seq<char>, Seq<char>>::empty());
    while i < ls.len()
        invariant
            lv == lines(output@),
            ls@.len() == lv.len(),
            forall|k: int| 0 <= k < ls@.len() ==> #[trigger] ls@[k]@ == lv[k],
            forall|k: int| 0 <= k < lv.len() ==> status_line_ok(#[trigger] lv[k]),
            i <= ls@.len(),
            statuses.wf(),
            statuses.map().map_values(|v: String| v@) == statuses_from(lv.take(i as int)),
        decreases ls@.len() - i,
    {
        let line = ls[i].as_slice();
        assert(lv.take(i + 1).drop_last() =~= lv.take(i as int));
        assert(line@ == lv[i as int]);
        assert(status_line_ok(lv[i as int]));
        if at_least_four_bytes(line) {
            let k2 = index_at_byte(line, 2);
            let k3 = index_at_byte(line, 3);
            let ghost before = statuses.map();
            let path = string_of_range(line, k3, line.len());
            let code = string_of_range(line, 0, k2);
            let label = status_label(code.as_str());
            proof {
                assert(line@.subrange(k3 as int, line@.len() as int) =~= line@.skip(k3 as int));
                assert(line@.subrange(0, k2 as int) =~= line@.take(k2 as int));
            }
            let ghost pv = path@;
            statuses.insert(path, String::from_str(label));
            proof {
                assert(statuses.map().map_values(|v: String| v@) =~= before.map_values(
                    |v: String| v@,
                ).insert(status_entry(lv[i as int]).0, status_entry(lv[i as int]).1));
            }
        }
        i = i + 1;
    }
    assert(lv.take(ls@.len() as int) =~= lv);
    statuses
}

// ---------------------------------------------------------------------------
// git diff --numstat
// ---------------------------------------------------------------------------

/// The lines added and removed by each path in `git diff --numstat` lines: only
/// lines of exactly three tab-separated fields count, a count that is not a
/// number is 0, and a later line for a path wins.
pub open spec fn stats_from(ls: Seq<Seq<char>>) -> Map<Seq<char>, (u32, u32)>
    decreases ls.len(),
{
    if ls.len() == 0 {
        Map::empty()
    } else {
        let m = stats_from(ls.drop_last());
        let parts = split(ls.last(), '\t');
        if parts.len() == 3 {
            m.insert(
                parts[2],
                (
                    match parse_u32(parts[0]) {
                        Some(n) => n,
                        None => 0,
                    },
                    match parse_u32(parts[1]) {
                        Some(n) => n,
                        None => 0,
                    },
                ),
            )
        } else {
            m
        }
    }
}

/// The line counts of the paths that `git diff --numstat HEAD` reports.
pub fn git_stats(output: &str) -> (r: Keyed<(u32, u32)>)
    ensures
        r.wf(),
        r.map() == stats_from(lines(output@)),
{
    let text = chars_of(output);
    let ls = lines_of(text.as_slice());
    let ghost lv = lines(output@);
    let mut stats: Keyed<(u32, u32)> = Keyed::new();
    let mut i: usize = 0;
    assert(lv.take(0) =~= Seq::<Seq<char>>::empty());
    while i < ls.len()
        invariant
            lv == lines(output@),
            ls@.len() == lv.len(),
            forall|k: int| 0 <= k < ls@.len() ==> #[trigger] ls@[k]@ == lv[k],
            i <= ls@.len(),
            stats.wf(),
            stats.map() == stats_from(lv.take(i as int)),
        decreases ls@.len() - i,
    {
        let line = ls[i].as_slice();
        assert(lv.take(i + 1).drop_last() =~= lv.take(i as int));
        assert(line@ == lv[i as int]);
        let parts = split_chars(line, '\t');
        if parts.len() == 3 {
            let added = match parse_u32_chars(parts[0].as_slice()) {
                Some(n) => n,
                None => 0,
            };
            let removed = match parse_u32_chars(parts[1].as_slice()) {
                Some(n) => n,
                None => 0,
            };
            stats.insert(string_of(parts[2].as_slice()), (added, removed));
        }
        i = i + 1;
    }
    assert(lv.take(ls@.len() as int) =~= lv);
    stats
}

// ---------------------------------------------------------------------------
// Path order
// ---------------------------------------------------------------------------

/// `a` sorts before `b`: the order of `String`'s `Ord`, which compares UTF-8 bytes
/// and so code points.
pub open spec fn lex_lt(a: Seq<char>, b: Seq<char>) -> bool
    decreases a.len(),
{
    if a.len() == 0 {
        b.len() > 0
    } else if b.len() == 0 {
        false
    } else if a[0] != b[0] {
        (a[0] as int) < (b[0] as int)
    } else {
        lex_lt(a.drop_first(), b.drop_first())
    }
}

proof fn lemma_lex_irreflexive(a: Seq<char>)
    ensures
        !lex_lt(a, a),
    decreases a.len(),
{
    if a.len() > 0 {
        lemma_lex_irreflexive(a.drop_first());
    }
}

proof fn lemma_lex_transitive(a: Seq<char>, b: Seq<char>, c: Seq<char>)
    requires
        lex_lt(a, b),
        lex_lt(b, c),
    ensures
        lex_lt(a, c),
    decreases a.len(),
{
    if a.len() > 0 && b.len() > 0 && c.len() > 0 && a[0] == b[0] && b[0] == c[0] {
        lemma_lex_transitive(a.drop_first(), b.drop_first(), c.drop_first());
    }
}

proof fn lemma_lex_total(a: Seq<char>, b: Seq<char>)
    requires
        a != b,
    ensures
        lex_lt(a, b) || lex_lt(b, a),
    decreases a.len(),
{
    if a.len() == 0 {
        assert(b.len() > 0) by {
            if b.len() == 0 {
                assert(a =~= b);
            }
        }
    } else if b.len() == 0 {
    } else if a[0] == b[0] {
        if a.drop_first() == b.drop_first() {
            assert(a =~= seq![a[0]] + a.drop_first());
            assert(b =~= seq![b[0]] + b.drop_first());
        }
        lemma_lex_total(a.drop_first(), b.drop_first());
    }
}

/// Whether `a` sorts before `b`.
fn lex_less(a: &[char], b: &[char]) -> (r: bool)
    ensures
        r == lex_lt(a@, b@),
{
    let mut i: usize = 0;
    assert(a@.skip(0) =~= a@);
    assert(b@.skip(0) =~= b@);
    while i < a.len() && i < b.len() && a[i] == b[i]
        invariant
            i <= a@.len(),
            i <= b@.len(),
            lex_lt(a@, b@) == lex_lt(a@.skip(i as int), b@.skip(i as int)),
        decreases a@.len() - i,
    {
        assert(a@.skip(i as int).drop_first() =~= a@.skip(i + 1));
        assert(b@.skip(i as int).drop_first() =~= b@.skip(i + 1));
        i = i + 1;
    }
    if i == a.len() {
        assert(a@.skip(i as int).len() == 0);
        assert(b@.skip(i as int).len() == b@.len() - i);
        i < b.len()
    } else if i == b.len() {
        assert(b@.skip(i as int).len() == 0);
        assert(a@.skip(i as int).len() > 0);
        false
    } else {
        assert(a@.skip(i as int)[0] == a@[i as int]);
        assert(b@.skip(i as int)[0] == b@[i as int]);
        assert(a@.skip(i as int).len() > 0 && b@.skip(i as int).len() > 0);
        a[i] < b[i]
    }
}

/// Strictly increasing in path order (so without repeats).
pub open spec fn sorted_paths(s: Seq<Seq<char>>) -> bool {
    forall|i: int, j: int| 0 <= i < j < s.len() ==> lex_lt(#[trigger] s[i], #[trigger] s[j])
}

/// The paths in `v`, each once, in path order.
fn sort_paths(v: &Vec<String>) -> (r: Vec<String>)
    requires
        names(v@).no_duplicates(),
    ensures
        sorted_paths(names(r@)),
        forall|x: Seq<char>| names(r@).contains(x) <==> names(v@).contains(x),
{
    let mut r: Vec<String> = Vec::new();
    let mut i: usize = 0;
    while i < v.len()
        invariant
            i <= v@.len(),
            names(v@).no_duplicates(),
            sorted_paths(names(r@)),
            forall|x: Seq<char>|
                names(r@).contains(x) <==> names(v@.take(i as int)).contains(x),
        decreases v@.len() - i,
    {
        let x = chars_of(v[i].as_str());
        let mut p: usize = 0;
        let mut found = false;
        while p < r.len() && !found
            invariant
                p <= r@.len(),
                x@ == v@[i as int]@,
                found ==> (p < r@.len() && lex_lt(x@, r@[p as int]@)),
                forall|k: int| 0 <= k < p ==> !lex_lt(x@, #[trigger] r@[k]@),
            decreases r@.len() - p + (if found {
                0int
            } else {
                1int
            }),
        {
            let y = chars_of(r[p].as_str());
            if lex_less(x.as_slice(), y.as_slice()) {
                found = true;
            } else {
                p = p + 1;
            }
        }
        let ghost before = names(r@);
        proof {
            assert(!before.contains(x@)) by {
                if before.contains(x@) {
                    assert(names(v@.take(i as int)).contains(x@));
                    let m = choose|m: int|
                        0 <= m < names(v@.take(i as int)).len() && names(v@.take(i as int))[m]
                            == x@;
                    assert(names(v@)[m] == names(v@)[i as int]);
                }
            }
        }
        r.insert(p, v[i].clone());
        proof {
            let after = names(r@);
            assert(after =~= before.insert(p as int, x@));
            assert forall|a: int, b: int| 0 <= a < b < after.len() implies lex_lt(
                #[trigger] after[a],
                #[trigger] after[b],
            ) by {
                if b < p {
                    assert(after[a] == before[a] && after[b] == before[b]);
                } else if b == p {
                    assert(after[a] == before[a]);
                    assert(after[b] == x@);
                    assert(!lex_lt(x@, r@[a]@));
                    assert(before[a] != x@) by {
                        assert(before.contains(before[a]));
                    }
                    lemma_lex_total(before[a], x@);
                } else if a == p {
                    assert(after[a] == x@);
                    assert(after[b] == before[b - 1]);
                    assert(found);
                    assert(lex_lt(x@, before[p as int]));
                    if b - 1 > p {
                        assert(lex_lt(before[p as int], before[b - 1]));
                    }
                    lemma_lex_transitive_or_equal(x@, before[p as int], before[b - 1]);
                } else if a < p {
                    assert(after[a] == before[a] && after[b] == before[b - 1]);
                } else {
                    assert(after[a] == before[a - 1] && after[b] == before[b - 1]);
                }
            }
            let t1 = names(v@.take(i + 1));
            let t0 = names(v@.take(i as int));
            assert(v@.take(i + 1) =~= v@.take(i as int).push(v@[i as int]));
            assert forall|y: Seq<char>| after.contains(y) <==> t1.contains(y) by {
                assert(t1 =~= t0.push(x@));
                if after.contains(y) {
                    let m = choose|m: int| 0 <= m < after.len() && after[m] == y;
                    if m < p {
                        assert(before[m] == y);
                        assert(before.contains(y));
                    } else if m > p {
                        assert(before[m - 1] == y);
                        assert(before.contains(y));
                    }
                    if y != x@ {
                        assert(t0.contains(y));
                        let n = choose|n: int|
                            0 <= n < t0.len() && t0[n]
                                == y;
                        assert(t1[n] == y);
                    } else {
                        assert(t1[i as int] == y);
                    }
                }
                if t1.contains(y) {
                    let n = choose|n: int|
                        0 <= n < t1.len() && t1[n] == y;
                    if n < i {
                        assert(t0[n] == y);
                        assert(before.contains(y));
                        let m = choose|m: int| 0 <= m < before.len() && before[m] == y;
                        if m < p {
                            assert(after[m] == y);
                        } else {
                            assert(after[m + 1] == y);
                        }
                    } else {
                        assert(after[p as int] == y);
                    }
                }
            }
        }
        i = i + 1;
    }
    assert(v@.take(v@.len() as int) =~= v@);
    r
}

proof fn lemma_lex_transitive_or_equal(a: Seq<char>, b: Seq<char>, c: Seq<char>)
    requires
        lex_lt(a, b),
        b == c || lex_lt(b, c),
    ensures
        lex_lt(a, c),
{
    if b != c {
        lemma_lex_transitive(a, b, c);
    }
}

/// The paths that either report names, each once, in path order.
pub fn snapshot_paths(statuses: &Keyed<String>, stats: &Keyed<(u32, u32)>) -> (r: Vec<String>)
    requires
        statuses.wf(),
        stats.wf(),
    ensures
        sorted_paths(names(r@)),
        forall|x: Seq<char>|
            names(r@).contains(x) <==> (statuses.map().contains_key(x) || stats.map().contains_key(
                x,
            )),
{
    let mut paths = statuses.keys();
    let extra = stats.keys();
    let mut i: usize = 0;
    while i < extra.len()
        invariant
            i <= extra@.len(),
            names(paths@).no_duplicates(),
            forall|k: Seq<char>| names(extra@).contains(k) <==> stats.map().contains_key(k),
            forall|x: Seq<char>|
                #![trigger names(paths@).contains(x)]
                #![trigger statuses.map().contains_key(x)]
                #![trigger names(extra@.take(i as int)).contains(x)]
                names(paths@).contains(x) <==> (statuses.map().contains_key(x) || names(
                    extra@.take(i as int),
                ).contains(x)),
        decreases extra@.len() - i,
    {
        let ghost before = names(paths@);
        let ghost e = extra@[i as int]@;
        let ghost t1 = names(extra@.take(i + 1));
        let ghost t0 = names(extra@.take(i as int));
        assert(t1 =~= t0.push(e));
        if !crate::flags::contains_string(&paths, extra[i].as_str()) {
            paths.push(extra[i].clone());
            proof {
                assert(names(paths@) =~= before.push(e));
                assert forall|a: int, b: int|
                    0 <= a < names(paths@).len() && 0 <= b < names(paths@).len() && a != b implies names(
                    paths@,
                )[a] != names(paths@)[b] by {
                    if a < before.len() && b < before.len() {
                    } else if a < before.len() {
                        assert(before.contains(before[a]));
                    } else {
                        assert(before.contains(before[b]));
                    }
                }
                assert forall|x: Seq<char>|
                    #![trigger names(paths@).contains(x)]
                    #![trigger statuses.map().contains_key(x)]
                    #![trigger t1.contains(x)]
                    names(paths@).contains(x) <==> (statuses.map().contains_key(x) || t1.contains(
                        x,
                    )) by {
                    if names(paths@).contains(x) {
                        let m = choose|m: int| 0 <= m < names(paths@).len() && names(paths@)[m] == x;
                        if m < before.len() {
                            assert(before[m] == x);
                            assert(before.contains(x));
                            if t0.contains(x) {
                                let n = choose|n: int|
                                    0 <= n < t0.len() && t0[n] == x;
                                assert(t1[n] == x);
                            }
                        } else {
                            assert(t1[i as int] == x);
                        }
                    }
                    if t1.contains(x) && !statuses.map().contains_key(x) {
                        let n = choose|n: int|
                            0 <= n < t1.len() && t1[n]
                                == x;
                        if n < i {
                            assert(t0[n] == x);
                            assert(before.contains(x));
                            let m = choose|m: int| 0 <= m < before.len() && before[m] == x;
                            assert(names(paths@)[m] == x);
                        } else {
                            assert(names(paths@)[before.len() as int] == x);
                        }
                    }
                    if statuses.map().contains_key(x) {
                        assert(before.contains(x));
                        let m = choose|m: int| 0 <= m < before.len() && before[m] == x;
                        assert(names(paths@)[m] == x);
                    }
                }
            }
        } else {
            proof {
                assert forall|x: Seq<char>|
                    #![trigger names(paths@).contains(x)]
                    #![trigger statuses.map().contains_key(x)]
                    #![trigger t1.contains(x)]
                    names(paths@).contains(x) <==> (statuses.map().contains_key(x) || t1.contains(
                        x,
                    )) by {
                    if t1.contains(x) {
                        let n = choose|n: int|
                            0 <= n < t1.len() && t1[n]
                                == x;
                        if n < i {
                            assert(t0[n] == x);
                        } else {
                            assert(x == e);
                        }
                    }
                    if t0.contains(x) {
                        let n = choose|n: int|
                            0 <= n < t0.len() && t0[n] == x;
                        assert(t1[n] == x);
                    }
                }
            }
        }
        i = i + 1;
        assert(t1 == names(extra@.take(i as int)));
    }
    proof {
        assert(extra@.take(extra@.len() as int) =~= extra@);
    }
    sort_paths(&paths)
}

// ---------------------------------------------------------------------------
// Files
// ---------------------------------------------------------------------------

/// The line counts of a file that git does not diff yet: its lines as additions
/// when it is newly added and readable, else nothing.
pub open spec fn added_stat(status: Seq<char>, text: Option<Seq<char>>) -> (u32, u32) {
    if status != "Added"@ {
        (0, 0)
    } else {
        match text {
            Some(t) => ((lines(t).len() % 0x1_0000_0000) as u32, 0),
            None => (0, 0),
        }
    }
}

/// The line counts of a file git does not diff yet, from its text if it could be read.
pub fn added_file_stat(status: &str, text: Option<&str>) -> (r: (u32, u32))
    ensures
        r == added_stat(
            status@,
            match text {
                Some(t) => Some(t@),
                None => None,
            },
        ),
{
    if !str_eq(status, "Added") {
        return (0, 0);
    }
    match text {
        Some(t) => {
            let c = chars_of(t);
            let ls = lines_of(c.as_slice());
            let n = ls.len();
            (((n as u64) % 0x1_0000_0000u64) as u32, 0)
        },
        None => (0, 0),
    }
}

/// What identifies a file's version: its size and modification second, or
/// `"missing"` when it cannot be read.
pub open spec fn fingerprint_of(meta: Option<(u64, u64)>) -> Seq<char> {
    match meta {
        Some((len, modified)) => decimal(len as nat) + ":"@ + decimal(modified as nat),
        None => "missing"@,
    }
}

/// The fingerprint of a file from its size and modification second.
pub fn fingerprint(meta: Option<(u64, u64)>) -> (r: String)
    ensures
        r@ == fingerprint_of(meta),
{
    match meta {
        Some((len, modified)) => {
            let mut s = decimal_string(len);
            append_str(&mut s, ":");
            let m = decimal_string(modified);
            append_str(&mut s, m.as_str());
            s
        },
        None => String::from_str("missing"),
    }
}

/// One file of the snapshot: its status (`Modified` when git status does not
/// name it), its line counts (from the diff, else from its text when added),
/// and its fingerprint.
pub fn snapshot_file(
    statuses: &Keyed<String>,
    stats: &Keyed<(u32, u32)>,
    path: String,
    text: Option<&str>,
    fingerprint: String,
) -> (r: WorkspaceSnapshotFile)
    requires
        statuses.wf(),
        stats.wf(),
    ensures
        r.path == path,
        r.fingerprint == fingerprint,
        r.status@ == (if statuses.map().contains_key(path@) {
            statuses.map()[path@]@
        } else {
            "Modified"@
        }),
        (r.additions, r.deletions) == (if stats.map().contains_key(path@) {
            stats.map()[path@]
        } else {
            added_stat(
                r.status@,
                match text {
                    Some(t) => Some(t@),
                    None => None,
                },
            )
        }),
{
    let status = match statuses.get(path.as_str()) {
        Some(s) => s.clone(),
        None => String::from_str("Modified"),
    };
    let stat = match stats.get(path.as_str()) {
        Some(s) => *s,
        None => added_file_stat(status.as_str(), text),
    };
    WorkspaceSnapshotFile { fingerprint, path, status, additions: stat.0, deletions: stat.1 }
}

/// How a status code is labelled, by what it holds: an added or untracked mark
/// wins, then a deletion, then a rename, then a modification; anything else is
/// "Changed".
pub proof fn law_status_label_priority(code: Seq<char>)
    ensures
        holds_char(code, 'A') || holds_char(code, '?') ==> status_label_of(code) == "Added"@,
        !holds_char(code, 'A') && !holds_char(code, '?') && holds_char(code, 'D')
            ==> status_label_of(code) == "Deleted"@,
        !holds_char(code, 'A') && !holds_char(code, '?') && !holds_char(code, 'D') && holds_char(
            code,
            'R',
        ) ==> status_label_of(code) == "Renamed"@,
        !holds_char(code, 'A') && !holds_char(code, '?') && !holds_char(code, 'D') && !holds_char(
            code,
            'R',
        ) && holds_char(code, 'M') ==> status_label_of(code) == "Modified"@,
        !holds_char(code, 'A') && !holds_char(code, '?') && !holds_char(code, 'D') && !holds_char(
            code,
            'R',
        ) && !holds_char(code, 'M') ==> status_label_of(code) == "Changed"@,
{
}

} // verus!
