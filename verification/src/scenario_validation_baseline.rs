//! Compares a scenario validation report against a checked-in list of accepted diagnostics.
//!
//! Some validator diagnostics are accepted inherited debt. The accepted lines are listed in a
//! baseline file, and a run is clean only when the report matches that list exactly, as a
//! multiset: a new diagnostic fails, and so does a listed one that no longer appears.
//! Lines are compared by their exact rendered text.

use vstd::multiset::Multiset;
use vstd::prelude::*;

verus! {

/// The characters of each line, in order.
pub open spec fn line_views(lines: Seq<String>) -> Seq<Seq<char>> {
    lines.map_values(|l: String| l@)
}

/// The order `String` compares in: lexicographic by character, a proper prefix first.
/// (UTF-8 preserves code-point order, so this is also the byte order `Ord` uses.)
pub open spec fn line_le(a: Seq<char>, b: Seq<char>) -> bool
    decreases a.len(),
{
    if a.len() == 0 {
        true
    } else if b.len() == 0 {
        false
    } else if a[0] != b[0] {
        (a[0] as int) < (b[0] as int)
    } else {
        line_le(a.drop_first(), b.drop_first())
    }
}

/// Every line is ordered no later than each line after it.
pub open spec fn lines_sorted(s: Seq<Seq<char>>) -> bool {
    forall|i: int, j: int| 0 <= i < j < s.len() ==> line_le(#[trigger] s[i], #[trigger] s[j])
}

/// Either of two lines is ordered no later than the other.
pub proof fn lemma_line_le_total(a: Seq<char>, b: Seq<char>)
    ensures
        line_le(a, b) || line_le(b, a),
    decreases a.len(),
{
    if a.len() > 0 && b.len() > 0 {
        if a[0] == b[0] {
            lemma_line_le_total(a.drop_first(), b.drop_first());
        } else {
            assert((a[0] as int) != (b[0] as int));
        }
    }
}

/// The line order is transitive.
pub proof fn lemma_line_le_transitive(a: Seq<char>, b: Seq<char>, c: Seq<char>)
    requires
        line_le(a, b),
        line_le(b, c),
    ensures
        line_le(a, c),
    decreases a.len(),
{
    if a.len() > 0 && b.len() > 0 && c.len() > 0 && a[0] == b[0] && b[0] == c[0] {
        lemma_line_le_transitive(a.drop_first(), b.drop_first(), c.drop_first());
    }
}

/// Two lines each ordered no later than the other are the same line.
pub proof fn lemma_line_le_antisymmetric(a: Seq<char>, b: Seq<char>)
    requires
        line_le(a, b),
        line_le(b, a),
    ensures
        a == b,
    decreases a.len(),
{
    if a.len() > 0 {
        lemma_line_le_antisymmetric(a.drop_first(), b.drop_first());
        assert(a =~= seq![a[0]] + a.drop_first());
        assert(b =~= seq![b[0]] + b.drop_first());
    }
}

/// Whether `a` is ordered no later than `b`.
pub fn line_in_order(a: &str, b: &str) -> (r: bool)
    ensures
        r == line_le(a@, b@),
{
    let n = a.unicode_len();
    let m = b.unicode_len();
    let mut i: usize = 0;
    assert(a@.skip(0) =~= a@ && b@.skip(0) =~= b@);
    while i < n && i < m
        invariant
            n == a@.len(),
            m == b@.len(),
            i <= n,
            i <= m,
            line_le(a@, b@) == line_le(a@.skip(i as int), b@.skip(i as int)),
        decreases n - i,
    {
        let x = a.get_char(i);
        let y = b.get_char(i);
        assert(a@.skip(i as int)[0] == x && b@.skip(i as int)[0] == y);
        if x != y {
            return (x as u32) < (y as u32);
        }
        assert(a@.skip(i as int).drop_first() =~= a@.skip(i + 1));
        assert(b@.skip(i as int).drop_first() =~= b@.skip(i + 1));
        i = i + 1;
    }
    i == n
}

/// The outcome of checking reported diagnostics against the accepted set.
#[derive(Clone, Debug, Default, PartialEq, Eq)]
pub struct BaselineComparison {
    /// Reported diagnostics that the baseline accounts for.
    pub matched: usize,
    /// Reported diagnostics the baseline does not list: regressions.
    pub unexpected: Vec<String>,
    /// Baseline entries the report no longer produces: paid debt not yet deleted.
    pub resolved: Vec<String>,
}

impl BaselineComparison {
    /// True when the report and the baseline describe the same multiset of diagnostics.
    pub fn is_clean(&self) -> (r: bool)
        ensures
            r == (self.unexpected@.len() == 0 && self.resolved@.len() == 0),
    {
        self.unexpected.len() == 0 && self.resolved.len() == 0
    }
}

/// Unicode `White_Space`, the characters `str::trim` removes.
pub open spec fn is_white(c: char) -> bool {
    let u = c as u32;
    (0x09 <= u <= 0x0d) || u == 0x20 || u == 0x85 || u == 0xa0 || u == 0x1680 || (0x2000 <= u
        <= 0x200a) || u == 0x2028 || u == 0x2029 || u == 0x202f || u == 0x205f || u == 0x3000
}

/// Whether `c` is Unicode whitespace.
pub fn is_white_char(c: char) -> (r: bool)
    ensures
        r == is_white(c),
{
    let u = c as u32;
    (0x09 <= u && u <= 0x0d) || u == 0x20 || u == 0x85 || u == 0xa0 || u == 0x1680 || (0x2000
        <= u && u <= 0x200a) || u == 0x2028 || u == 0x2029 || u == 0x202f || u == 0x205f || u
        == 0x3000
}

/// `s` without its leading whitespace.
pub open spec fn trim_start(s: Seq<char>) -> Seq<char>
    decreases s.len(),
{
    if s.len() > 0 && is_white(s[0]) {
        trim_start(s.drop_first())
    } else {
        s
    }
}

/// `s` without its trailing whitespace.
pub open spec fn trim_end(s: Seq<char>) -> Seq<char>
    decreases s.len(),
{
    if s.len() > 0 && is_white(s.last()) {
        trim_end(s.drop_last())
    } else {
        s
    }
}

/// `s` without leading or trailing whitespace.
pub open spec fn trim(s: Seq<char>) -> Seq<char> {
    trim_end(trim_start(s))
}

/// `s` without leading or trailing whitespace, as `str::trim` gives it.
pub fn trim_text(s: &str) -> (r: String)
    ensures
        r@ == trim(s@),
{
    let n = s.unicode_len();
    let mut lo: usize = 0;
    while lo < n && is_white_char(s.get_char(lo))
        invariant
            n == s@.len(),
            lo <= n,
            forall|k: int| 0 <= k < lo ==> is_white(s@[k]),
        decreases n - lo,
    {
        lo = lo + 1;
    }
    let mut hi: usize = n;
    while hi > lo && is_white_char(s.get_char(hi - 1))
        invariant
            n == s@.len(),
            lo <= hi <= n,
            forall|k: int| hi <= k < n ==> is_white(s@[k]),
        decreases hi - lo,
    {
        hi = hi - 1;
    }
    proof {
        lemma_trim_start_at(s@, lo as int);
        let started = s@.skip(lo as int);
        lemma_trim_end_at(started, hi - lo);
        assert(started.take(hi - lo) =~= s@.subrange(lo as int, hi as int));
    }
    s.substring_char(lo, hi).to_owned()
}

/// The index of the first line feed in `s`, or its length when it has none.
pub open spec fn first_newline(s: Seq<char>) -> int
    decreases s.len(),
{
    if s.len() == 0 || s[0] == '\n' {
        0
    } else {
        1 + first_newline(s.drop_first())
    }
}

/// Whether a trimmed line is an accepted diagnostic: neither blank nor a `#` comment.
pub open spec fn is_entry(line: Seq<char>) -> bool {
    line.len() > 0 && line[0] != '#'
}

/// The accepted diagnostics of a baseline file: its lines (split at line feeds, a final line
/// feed ending the last line), each trimmed of whitespace, blank lines and `#` comments left
/// out, in file order.
pub open spec fn baseline_entries(s: Seq<char>) -> Seq<Seq<char>>
    decreases s.len(),
{
    if s.len() == 0 {
        seq![]
    } else {
        let i = first_newline(s);
        let line = trim(s.take(i));
        let rest = if i < s.len() {
            proof {
                lemma_first_newline_bounds(s);
            }
            baseline_entries(s.skip(i + 1))
        } else {
            seq![]
        };
        if is_entry(line) {
            seq![line] + rest
        } else {
            rest
        }
    }
}

proof fn lemma_trim_start_clean(s: Seq<char>)
    ensures
        trim_start(s).len() > 0 ==> !is_white(trim_start(s)[0]),
    decreases s.len(),
{
    if s.len() > 0 && is_white(s[0]) {
        lemma_trim_start_clean(s.drop_first());
    }
}

proof fn lemma_trim_end_clean(s: Seq<char>)
    ensures
        trim_end(s).len() <= s.len(),
        forall|k: int| 0 <= k < trim_end(s).len() ==> trim_end(s)[k] == s[k],
        trim_end(s).len() > 0 ==> !is_white(trim_end(s).last()),
    decreases s.len(),
{
    if s.len() > 0 && is_white(s.last()) {
        lemma_trim_end_clean(s.drop_last());
        assert forall|k: int| 0 <= k < trim_end(s).len() implies trim_end(s)[k] == s[k] by {
            assert(s.drop_last()[k] == s[k]);
        }
    }
}

/// Trimming a trimmed line changes nothing.
pub proof fn lemma_trim_idempotent(s: Seq<char>)
    ensures
        trim(trim(s)) == trim(s),
{
    let t = trim_start(s);
    let u = trim_end(t);
    lemma_trim_start_clean(s);
    lemma_trim_end_clean(t);
    if u.len() > 0 {
        assert(u[0] == t[0]);
        assert(trim_start(u) == u);
        assert(trim_end(u) == u);
    } else {
        assert(trim_start(u) == u);
        assert(trim_end(u) == u);
    }
}

/// Every entry read from a baseline file is trimmed, not blank and not a `#` comment.
pub proof fn lemma_baseline_entries_clean(s: Seq<char>)
    ensures
        forall|i: int|
            0 <= i < baseline_entries(s).len() ==> trim(#[trigger] baseline_entries(s)[i])
                == baseline_entries(s)[i] && is_entry(baseline_entries(s)[i]),
    decreases s.len(),
{
    if s.len() > 0 {
        let i = first_newline(s);
        lemma_first_newline_bounds(s);
        let line = trim(s.take(i));
        lemma_trim_idempotent(s.take(i));
        let rest = if i < s.len() {
            baseline_entries(s.skip(i + 1))
        } else {
            seq![]
        };
        if i < s.len() {
            lemma_baseline_entries_clean(s.skip(i + 1));
        }
        if is_entry(line) {
            assert(baseline_entries(s) == seq![line] + rest);
            assert forall|k: int| 0 <= k < baseline_entries(s).len() implies trim(
                #[trigger] baseline_entries(s)[k],
            ) == baseline_entries(s)[k] && is_entry(baseline_entries(s)[k]) by {
                if k > 0 {
                    assert(baseline_entries(s)[k] == rest[k - 1]);
                }
            }
        } else {
            assert(baseline_entries(s) == rest);
        }
    }
}

/// The lines joined by line feeds.
pub open spec fn newline_joined(lines: Seq<Seq<char>>) -> Seq<char>
    decreases lines.len(),
{
    if lines.len() == 0 {
        Seq::empty()
    } else if lines.len() == 1 {
        lines[0]
    } else {
        lines[0] + seq!['\n'] + newline_joined(lines.drop_first())
    }
}

/// Whether `line` reads back as itself from a baseline file: trimmed, neither blank nor a `#`
/// comment, and without a line feed.
pub open spec fn plain_entry(line: Seq<char>) -> bool {
    trim(line) == line && is_entry(line) && !line.contains('\n')
}

/// A baseline file written as its entries joined by line feeds reads back as those entries.
pub proof fn lemma_baseline_round_trip(lines: Seq<Seq<char>>)
    requires
        forall|i: int| 0 <= i < lines.len() ==> plain_entry(#[trigger] lines[i]),
    ensures
        baseline_entries(newline_joined(lines)) == lines,
    decreases lines.len(),
{
    if lines.len() == 0 {
        assert(lines =~= Seq::<Seq<char>>::empty());
    } else {
        let l0 = lines[0];
        assert(plain_entry(l0));
        let s = newline_joined(lines);
        assert forall|k: int| 0 <= k < l0.len() implies s[k] != '\n' by {
            assert(s[k] == l0[k]);
            if l0[k] == '\n' {
                assert(l0.contains('\n'));
            }
        }
        if lines.len() == 1 {
            lemma_first_newline_at(s, l0.len() as int);
            assert(s.take(l0.len() as int) =~= l0);
            assert(lines =~= seq![l0]);
        } else {
            let rest = lines.drop_first();
            assert forall|i: int| 0 <= i < rest.len() implies plain_entry(#[trigger] rest[i]) by {
                assert(rest[i] == lines[i + 1]);
            }
            lemma_baseline_round_trip(rest);
            assert(s == l0 + seq!['\n'] + newline_joined(rest));
            assert(s[l0.len() as int] == '\n');
            lemma_first_newline_at(s, l0.len() as int);
            assert(s.take(l0.len() as int) =~= l0);
            assert(s.skip(l0.len() as int + 1) =~= newline_joined(rest));
            assert(lines =~= seq![l0] + rest);
        }
    }
}

pub proof fn lemma_first_newline_bounds(s: Seq<char>)
    ensures
        0 <= first_newline(s) <= s.len(),
        first_newline(s) < s.len() ==> s[first_newline(s)] == '\n',
    decreases s.len(),
{
    if s.len() > 0 && s[0] != '\n' {
        lemma_first_newline_bounds(s.drop_first());
    }
}

proof fn lemma_first_newline_at(s: Seq<char>, j: int)
    requires
        0 <= j <= s.len(),
        forall|k: int| 0 <= k < j ==> s[k] != '\n',
        j == s.len() || s[j] == '\n',
    ensures
        first_newline(s) == j,
    decreases j,
{
    if j > 0 {
        lemma_first_newline_at(s.drop_first(), j - 1);
    }
}

proof fn lemma_trim_start_at(s: Seq<char>, lo: int)
    requires
        0 <= lo <= s.len(),
        forall|k: int| 0 <= k < lo ==> is_white(s[k]),
        lo == s.len() || !is_white(s[lo]),
    ensures
        trim_start(s) == s.skip(lo),
    decreases lo,
{
    if lo > 0 {
        lemma_trim_start_at(s.drop_first(), lo - 1);
        assert(s.drop_first().skip(lo - 1) =~= s.skip(lo));
    } else {
        assert(s.skip(0) =~= s);
    }
}

proof fn lemma_trim_end_at(s: Seq<char>, hi: int)
    requires
        0 <= hi <= s.len(),
        forall|k: int| hi <= k < s.len() ==> is_white(s[k]),
        hi == 0 || !is_white(s[hi - 1]),
    ensures
        trim_end(s) == s.take(hi),
    decreases s.len() - hi,
{
    if hi < s.len() {
        lemma_trim_end_at(s.drop_last(), hi);
        assert(s.drop_last().take(hi) =~= s.take(hi));
    } else {
        assert(s.take(hi) =~= s);
    }
}

/// Reads accepted diagnostic lines from a baseline file's contents: every line, trimmed of
/// surrounding whitespace, that is neither blank nor a `#` comment.
pub fn parse_baseline(contents: &str) -> (r: Vec<String>)
    ensures
        line_views(r@) == baseline_entries(contents@),
{
    let n = contents.unicode_len();
    let ghost s = contents@;
    let mut out: Vec<String> = Vec::new();
    let mut p: usize = 0;
    assert(s.skip(0) =~= s);
    assert(line_views(out@) + baseline_entries(s) =~= baseline_entries(s));
    while p < n
        invariant
            n == s.len(),
            s == contents@,
            p <= n,
            line_views(out@) + baseline_entries(s.skip(p as int)) == baseline_entries(s),
        decreases n - p,
    {
        let mut j: usize = p;
        while j < n && contents.get_char(j) != '\n'
            invariant
                n == s.len(),
                s == contents@,
                p <= j <= n,
                forall|k: int| p <= k < j ==> s[k] != '\n',
            decreases n - j,
        {
            j = j + 1;
        }
        let mut lo: usize = p;
        while lo < j && is_white_char(contents.get_char(lo))
            invariant
                n == s.len(),
                s == contents@,
                p <= lo <= j <= n,
                forall|k: int| p <= k < lo ==> is_white(s[k]),
            decreases j - lo,
        {
            lo = lo + 1;
        }
        let mut hi: usize = j;
        while hi > lo && is_white_char(contents.get_char(hi - 1))
            invariant
                n == s.len(),
                s == contents@,
                p <= lo <= hi <= j <= n,
                forall|k: int| hi <= k < j ==> is_white(s[k]),
            decreases hi - lo,
        {
            hi = hi - 1;
        }
        let ghost rest = s.skip(p as int);
        proof {
            lemma_first_newline_at(rest, j - p);
            let seg = rest.take(j - p);
            assert(seg =~= s.subrange(p as int, j as int));
            lemma_trim_start_at(seg, lo - p);
            let started = seg.skip(lo - p);
            assert(started =~= s.subrange(lo as int, j as int));
            lemma_trim_end_at(started, hi - lo);
            assert(started.take(hi - lo) =~= s.subrange(lo as int, hi as int));
            assert(trim(rest.take(first_newline(rest))) == s.subrange(lo as int, hi as int));
            if j < n {
                assert(rest.skip(j - p + 1) =~= s.skip(j + 1));
            }
        }
        let line = contents.substring_char(lo, hi);
        let keep = lo < hi && contents.get_char(lo) != '#';
        let ghost before = line_views(out@);
        if keep {
            out.push(line.to_owned());
            assert(line_views(out@) =~= before.push(line@));
        }
        if j < n {
            p = j + 1;
        } else {
            p = n;
        }
        proof {
            let next = if j < n {
                baseline_entries(s.skip((j + 1) as int))
            } else {
                seq![]
            };
            if j >= n {
                assert(s.skip(n as int) =~= Seq::<char>::empty());
            }
            assert(s.skip(p as int) == s.skip(p as int));
            if keep {
                assert(baseline_entries(rest) == seq![line@] + next);
                assert(line_views(out@) + baseline_entries(s.skip(p as int)) =~= before
                    + baseline_entries(rest));
            } else {
                assert(baseline_entries(rest) == next);
            }
        }
    }
    assert(s.skip(n as int) =~= Seq::<char>::empty());
    assert(line_views(out@) =~= line_views(out@) + Seq::<Seq<char>>::empty());
    out
}

/// Two multisets have nothing beyond each other exactly when they are equal.
pub proof fn lemma_differences_empty_iff_equal<A>(a: Multiset<A>, b: Multiset<A>)
    ensures
        (a.sub(b).len() == 0 && b.sub(a).len() == 0) <==> a == b,
{
    broadcast use vstd::multiset::group_multiset_axioms;

    vstd::multiset::lemma_multiset_empty_len(a.sub(b));
    vstd::multiset::lemma_multiset_empty_len(b.sub(a));
    if a.sub(b).len() == 0 && b.sub(a).len() == 0 {
        assert forall|x: A| a.count(x) == b.count(x) by {
            assert(a.sub(b).count(x) == Multiset::<A>::empty().count(x));
            assert(b.sub(a).count(x) == Multiset::<A>::empty().count(x));
        }
        assert(a =~= b);
    }
    if a == b {
        assert(a.sub(b) =~= Multiset::<A>::empty());
        assert(b.sub(a) =~= Multiset::<A>::empty());
    }
}

/// The same lines, in `String` order.
fn sort_lines(lines: &Vec<String>) -> (r: Vec<String>)
    ensures
        line_views(r@).to_multiset() == line_views(lines@).to_multiset(),
        lines_sorted(line_views(r@)),
{
    broadcast use vstd::seq_lib::group_to_multiset_ensures;

    let mut out: Vec<String> = Vec::new();
    let mut i: usize = 0;
    while i < lines.len()
        invariant
            i <= lines.len(),
            line_views(out@).to_multiset() == line_views(lines@.take(i as int)).to_multiset(),
            lines_sorted(line_views(out@)),
        decreases lines.len() - i,
    {
        let x = lines[i].clone();
        let mut pos: usize = 0;
        while pos < out.len() && line_in_order(out[pos].as_str(), x.as_str())
            invariant
                pos <= out.len(),
                forall|k: int| 0 <= k < pos ==> line_le(#[trigger] out@[k]@, x@),
            decreases out.len() - pos,
        {
            pos = pos + 1;
        }
        let ghost old_views = line_views(out@);
        proof {
            if pos < out.len() {
                lemma_line_le_total(x@, out@[pos as int]@);
            }
        }
        out.insert(pos, x);
        proof {
            let nv = line_views(out@);
            assert(nv =~= old_views.insert(pos as int, x@));
            assert forall|a: int, b: int| 0 <= a < b < nv.len() implies line_le(
                #[trigger] nv[a],
                #[trigger] nv[b],
            ) by {
                if a < pos && b == pos {
                } else if a < pos && b > pos {
                    assert(line_le(old_views[a], old_views[b - 1]));
                } else if a == pos && b > pos {
                    assert(line_le(x@, old_views[pos as int]));
                    if b - 1 > pos {
                        assert(line_le(old_views[pos as int], old_views[b - 1]));
                        lemma_line_le_transitive(x@, old_views[pos as int], old_views[b - 1]);
                    }
                } else if a > pos {
                    assert(line_le(old_views[a - 1], old_views[b - 1]));
                } else {
                    assert(line_le(old_views[a], old_views[b]));
                }
            }
            assert(line_views(lines@.take(i + 1)) =~= line_views(lines@.take(i as int)).push(
                x@,
            ));
            vstd::seq_lib::to_multiset_insert(old_views, pos as int, x@);
            vstd::seq_lib::to_multiset_build(line_views(lines@.take(i as int)), x@);
        }
        i = i + 1;
    }
    assert(lines@.take(lines.len() as int) =~= lines@);
    out
}

/// Whether `c` is the comparison of `reported` against `baseline`: what each has beyond the
/// other, each in `String` order, and how many reported lines the baseline accounts for.
pub open spec fn compares(reported: Seq<String>, baseline: Seq<String>, c: BaselineComparison) -> bool {
    &&& line_views(c.unexpected@).to_multiset() == line_views(reported).to_multiset().sub(
        line_views(baseline).to_multiset(),
    )
    &&& line_views(c.resolved@).to_multiset() == line_views(baseline).to_multiset().sub(
        line_views(reported).to_multiset(),
    )
    &&& lines_sorted(line_views(c.unexpected@))
    &&& lines_sorted(line_views(c.resolved@))
    &&& c.matched + c.unexpected@.len() == reported.len()
}

/// Two lists of lines in `String` order with the same lines are the same list.
pub proof fn lemma_sorted_lines_unique(a: Seq<Seq<char>>, b: Seq<Seq<char>>)
    requires
        lines_sorted(a),
        lines_sorted(b),
        a.to_multiset() == b.to_multiset(),
    ensures
        a == b,
    decreases a.len(),
{
    broadcast use vstd::seq_lib::group_to_multiset_ensures;

    assert(a.len() == a.to_multiset().len());
    assert(b.len() == b.to_multiset().len());
    if a.len() > 0 {
        assert(a.contains(a[0]) && b.to_multiset().count(a[0]) > 0);
        assert(b.contains(b[0]) && a.to_multiset().count(b[0]) > 0);
        let k = choose|k: int| 0 <= k < b.len() && b[k] == a[0];
        let m = choose|m: int| 0 <= m < a.len() && a[m] == b[0];
        if k > 0 {
            assert(line_le(b[0], b[k]));
        } else {
            lemma_line_le_total(b[0], a[0]);
        }
        if m > 0 {
            assert(line_le(a[0], a[m]));
        } else {
            lemma_line_le_total(a[0], b[0]);
        }
        lemma_line_le_antisymmetric(a[0], b[0]);
        assert(a.remove(0) =~= a.drop_first());
        assert(b.remove(0) =~= b.drop_first());
        assert(a.drop_first().to_multiset() == b.drop_first().to_multiset());
        assert(lines_sorted(a.drop_first())) by {
            assert forall|i: int, j: int| 0 <= i < j < a.drop_first().len() implies line_le(
                #[trigger] a.drop_first()[i],
                #[trigger] a.drop_first()[j],
            ) by {
                assert(a.drop_first()[i] == a[i + 1] && a.drop_first()[j] == a[j + 1]);
            }
        }
        assert(lines_sorted(b.drop_first())) by {
            assert forall|i: int, j: int| 0 <= i < j < b.drop_first().len() implies line_le(
                #[trigger] b.drop_first()[i],
                #[trigger] b.drop_first()[j],
            ) by {
                assert(b.drop_first()[i] == b[i + 1] && b.drop_first()[j] == b[j + 1]);
            }
        }
        lemma_sorted_lines_unique(a.drop_first(), b.drop_first());
        assert(a =~= seq![a[0]] + a.drop_first());
        assert(b =~= seq![b[0]] + b.drop_first());
    } else {
        assert(a =~= b);
    }
}

/// The comparison does not depend on the order of either input: reordering the reported
/// lines or the baseline gives the same unexpected and resolved lists and the same count.
pub proof fn lemma_comparison_ignores_order(
    reported1: Seq<String>,
    baseline1: Seq<String>,
    c1: BaselineComparison,
    reported2: Seq<String>,
    baseline2: Seq<String>,
    c2: BaselineComparison,
)
    requires
        compares(reported1, baseline1, c1),
        compares(reported2, baseline2, c2),
        line_views(reported1).to_multiset() == line_views(reported2).to_multiset(),
        line_views(baseline1).to_multiset() == line_views(baseline2).to_multiset(),
    ensures
        line_views(c1.unexpected@) == line_views(c2.unexpected@),
        line_views(c1.resolved@) == line_views(c2.resolved@),
        c1.matched == c2.matched,
{
    broadcast use vstd::seq_lib::group_to_multiset_ensures;

    lemma_sorted_lines_unique(line_views(c1.unexpected@), line_views(c2.unexpected@));
    lemma_sorted_lines_unique(line_views(c1.resolved@), line_views(c2.resolved@));
    assert(line_views(reported1).len() == line_views(reported1).to_multiset().len());
    assert(line_views(reported2).len() == line_views(reported2).to_multiset().len());
    assert(line_views(c1.unexpected@).len() == c1.unexpected@.len());
    assert(line_views(c2.unexpected@).len() == c2.unexpected@.len());
}

/// The baseline accounts for as many reported lines as the two share: for each line, the
/// smaller of its counts in the report and in the baseline, summed.
pub proof fn lemma_matched_is_shared_count(reported: Seq<String>, baseline: Seq<String>, c: BaselineComparison)
    requires
        compares(reported, baseline, c),
    ensures
        c.matched == line_views(reported).to_multiset().intersection_with(
            line_views(baseline).to_multiset(),
        ).len(),
{
    broadcast use vstd::seq_lib::group_to_multiset_ensures;
    broadcast use vstd::multiset::group_multiset_axioms;
    broadcast use vstd::multiset::lemma_intersection_count;

    let r = line_views(reported).to_multiset();
    let b = line_views(baseline).to_multiset();
    assert(r =~= r.sub(b).add(r.intersection_with(b)));
    assert(line_views(reported).len() == r.len());
    assert(line_views(c.unexpected@).len() == line_views(c.unexpected@).to_multiset().len());
    assert(line_views(c.unexpected@).len() == c.unexpected@.len());
}

/// Compares rendered report lines against accepted baseline lines, both taken as multisets:
/// two identical diagnostics need two baseline lines. `unexpected` holds what the report has
/// beyond the baseline, `resolved` what the baseline has beyond the report, each in `String`
/// order; `matched` counts the reported lines the baseline accounts for.
pub fn compare_to_baseline(reported: &[String], baseline: &[String]) -> (r: BaselineComparison)
    ensures
        line_views(r.unexpected@).to_multiset() == line_views(reported@).to_multiset().sub(
            line_views(baseline@).to_multiset(),
        ),
        line_views(r.resolved@).to_multiset() == line_views(baseline@).to_multiset().sub(
            line_views(reported@).to_multiset(),
        ),
        lines_sorted(line_views(r.unexpected@)),
        lines_sorted(line_views(r.resolved@)),
        r.matched + r.unexpected@.len() == reported@.len(),
        (r.unexpected@.len() == 0 && r.resolved@.len() == 0) <==> line_views(
            reported@,
        ).to_multiset() == line_views(baseline@).to_multiset(),
        compares(reported@, baseline@, r),
{
    broadcast use vstd::seq_lib::group_to_multiset_ensures;

    let ghost bm = line_views(baseline@).to_multiset();
    let mut remaining: Vec<String> = Vec::new();
    let mut b: usize = 0;
    while b < baseline.len()
        invariant
            b <= baseline@.len(),
            line_views(remaining@) == line_views(baseline@.take(b as int)),
        decreases baseline.len() - b,
    {
        remaining.push(baseline[b].clone());
        assert(line_views(baseline@.take(b + 1)) =~= line_views(baseline@.take(b as int)).push(
            baseline@[b as int]@,
        ));
        assert(line_views(remaining@) =~= line_views(baseline@.take(b + 1)));
        b = b + 1;
    }
    assert(baseline@.take(baseline@.len() as int) =~= baseline@);
    let mut unexpected: Vec<String> = Vec::new();
    let mut matched: usize = 0;
    let mut k: usize = 0;
    assert(line_views(reported@.take(0)) =~= Seq::<Seq<char>>::empty());
    assert(line_views(remaining@).to_multiset() =~= bm.sub(
        line_views(reported@.take(0)).to_multiset(),
    ));
    assert(line_views(unexpected@).to_multiset() =~= line_views(
        reported@.take(0),
    ).to_multiset().sub(bm));
    while k < reported.len()
        invariant
            k <= reported@.len(),
            bm == line_views(baseline@).to_multiset(),
            line_views(remaining@).to_multiset() == bm.sub(
                line_views(reported@.take(k as int)).to_multiset(),
            ),
            line_views(unexpected@).to_multiset() == line_views(
                reported@.take(k as int),
            ).to_multiset().sub(bm),
            matched + unexpected@.len() == k,
        decreases reported.len() - k,
    {
        let ghost pm = line_views(reported@.take(k as int)).to_multiset();
        let ghost x = reported@[k as int]@;
        let ghost rv = line_views(remaining@);
        let ghost uv = line_views(unexpected@);
        assert(line_views(reported@.take(k + 1)) =~= line_views(reported@.take(k as int)).push(
            x,
        ));
        proof {
            vstd::seq_lib::to_multiset_build(line_views(reported@.take(k as int)), x);
            vstd::seq_lib::to_multiset_build(uv, x);
        }
        let mut j: usize = 0;
        let mut found = false;
        while !found && j < remaining.len()
            invariant
                j <= remaining@.len(),
                found ==> j < remaining@.len() && remaining@[j as int]@ == x,
                !found ==> forall|q: int| 0 <= q < j ==> (#[trigger] remaining@[q])@ != x,
                x == reported@[k as int]@,
                k < reported@.len(),
            decreases remaining.len() - j, (if found { 0int } else { 1int }),
        {
            if remaining[j] == reported[k] {
                found = true;
            } else {
                j = j + 1;
            }
        }
        if found {
            assert(rv[j as int] == x);
            let _ = remaining.remove(j);
            assert(line_views(remaining@) =~= rv.remove(j as int));
            matched = matched + 1;
            proof {
                rv.to_multiset_ensures();
                assert(rv.to_multiset().count(x) > 0) by {
                    assert(rv.contains(x));
                }
                assert(line_views(remaining@).to_multiset() =~= bm.sub(pm.insert(x)));
                assert(uv.to_multiset() =~= pm.insert(x).sub(bm));
            }
        } else {
            proof {
                rv.to_multiset_ensures();
                assert(!rv.contains(x));
                assert(rv.to_multiset().count(x) == 0);
            }
            unexpected.push(reported[k].clone());
            proof {
                assert(line_views(unexpected@) =~= uv.push(x));
                assert(line_views(unexpected@).to_multiset() =~= pm.insert(x).sub(bm));
                assert(rv.to_multiset() =~= bm.sub(pm.insert(x)));
            }
        }
        k = k + 1;
    }
    assert(reported@.take(reported@.len() as int) =~= reported@);
    let sorted_unexpected = sort_lines(&unexpected);
    let resolved = sort_lines(&remaining);
    assert(line_views(sorted_unexpected@).to_multiset().len() == line_views(
        unexpected@,
    ).to_multiset().len());
    let unexpected = sorted_unexpected;
    proof {
        lemma_differences_empty_iff_equal(
            line_views(reported@).to_multiset(),
            line_views(baseline@).to_multiset(),
        );
        line_views(unexpected@).to_multiset_ensures();
        line_views(resolved@).to_multiset_ensures();
    }
    BaselineComparison { matched, unexpected, resolved }
}

} // verus!
