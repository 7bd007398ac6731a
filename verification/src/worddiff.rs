//! The word-change detector: within each hunk, a maximal run of deleted
//! lines immediately followed by a maximal run of added lines forms a
//! replace block; the i-th deleted line is paired with the i-th added line,
//! a word-granularity minimal edit script is computed for each pair, and
//! the changed byte ranges are merged into the pair's highlight spans.

use vstd::prelude::*;

use crate::model::{
    hunks_view, lines_view, spans_view, DiffLine, DiffLineV, HighlightSpan, Hunk, HunkV, SpanV,
};
use crate::span::{byte_len, merge_word_highlights, spec_fuse};

verus! {

/// The kind of one segment of a word-level edit script.
#[derive(Debug, Clone, Copy, PartialEq, Eq)]
pub enum WordTag {
    Delete,
    Insert,
    Equal,
}

/// One segment of a word-level edit script: its kind and the byte length of
/// the slice it covers.
#[derive(Debug, Clone, Copy, PartialEq, Eq)]
pub struct WordChange {
    pub tag: WordTag,
    pub len: usize,
}

/// What the word-granularity minimal edit script of two lines is. The
/// script is a pure function of the two texts; delete and equal segments
/// partition the old line, insert and equal segments the new one.
pub uninterp spec fn word_changes_of(old_line: Seq<char>, new_line: Seq<char>) -> Seq<
    WordChange,
>;

/// Relies on similar's `TextDiff` with the Myers algorithm at word
/// granularity: `diff_words` computes a deterministic edit script from the
/// two lines alone, and each change's `value` is the covered slice.
#[verifier::external_body]
fn word_diff_changes(old_line: &str, new_line: &str) -> (r: Vec<WordChange>)
    ensures
        r@ == word_changes_of(old_line@, new_line@),
{
    let d = similar::TextDiff::configure().algorithm(similar::Algorithm::Myers).diff_words(
        old_line,
        new_line,
    );
    d.iter_all_changes().map(|c| WordChange {
        tag: match c.tag() {
            similar::ChangeTag::Delete => WordTag::Delete,
            similar::ChangeTag::Insert => WordTag::Insert,
            similar::ChangeTag::Equal => WordTag::Equal,
        },
        len: c.value().len(),
    }).collect()
}

/// Clamp a wide byte position into a `usize`.
pub open spec fn spec_sat_usize(n: int) -> usize {
    if n > usize::MAX {
        usize::MAX
    } else if n < 0 {
        0usize
    } else {
        n as usize
    }
}

/// Clamp a wide byte position into a `usize` (executable).
fn sat_usize(n: u128) -> (r: usize)
    ensures
        r == spec_sat_usize(n as int),
{
    if n > usize::MAX as u128 {
        usize::MAX
    } else {
        n as usize
    }
}

/// The byte position in the old line after the first `n` script segments.
pub open spec fn spec_old_pos(cs: Seq<WordChange>, n: int) -> int
    decreases n,
{
    if n <= 0 {
        0
    } else {
        spec_old_pos(cs, n - 1) + match cs[n - 1].tag {
            WordTag::Delete => cs[n - 1].len as int,
            WordTag::Equal => cs[n - 1].len as int,
            WordTag::Insert => 0,
        }
    }
}

/// The byte position in the new line after the first `n` script segments.
pub open spec fn spec_new_pos(cs: Seq<WordChange>, n: int) -> int
    decreases n,
{
    if n <= 0 {
        0
    } else {
        spec_new_pos(cs, n - 1) + match cs[n - 1].tag {
            WordTag::Insert => cs[n - 1].len as int,
            WordTag::Equal => cs[n - 1].len as int,
            WordTag::Delete => 0,
        }
    }
}

/// The deleted byte ranges of the old line after the first `n` segments.
pub open spec fn spec_old_ranges(cs: Seq<WordChange>, n: int) -> Seq<(usize, usize)>
    decreases n,
{
    if n <= 0 {
        Seq::empty()
    } else {
        let prev = spec_old_ranges(cs, n - 1);
        if cs[n - 1].tag is Delete && cs[n - 1].len > 0 {
            prev.push(
                (
                    spec_sat_usize(spec_old_pos(cs, n - 1)),
                    spec_sat_usize(spec_old_pos(cs, n - 1) + cs[n - 1].len),
                ),
            )
        } else {
            prev
        }
    }
}

/// The inserted byte ranges of the new line after the first `n` segments.
pub open spec fn spec_new_ranges(cs: Seq<WordChange>, n: int) -> Seq<(usize, usize)>
    decreases n,
{
    if n <= 0 {
        Seq::empty()
    } else {
        let prev = spec_new_ranges(cs, n - 1);
        if cs[n - 1].tag is Insert && cs[n - 1].len > 0 {
            prev.push(
                (
                    spec_sat_usize(spec_new_pos(cs, n - 1)),
                    spec_sat_usize(spec_new_pos(cs, n - 1) + cs[n - 1].len),
                ),
            )
        } else {
            prev
        }
    }
}

/// Stable insertion of a range into a start-sorted list, after any ranges
/// with the same start.
pub open spec fn spec_insert_by_start(sorted: Seq<(usize, usize)>, r: (usize, usize)) -> Seq<
    (usize, usize),
>
    decreases sorted.len(),
{
    if sorted.len() == 0 {
        seq![r]
    } else if sorted[0].0 <= r.0 {
        seq![sorted[0]] + spec_insert_by_start(sorted.drop_first(), r)
    } else {
        seq![r] + sorted
    }
}

/// Stable sort of ranges by their start offset, as `sort_by_key` orders
/// them.
pub open spec fn spec_sort_by_start(s: Seq<(usize, usize)>) -> Seq<(usize, usize)>
    decreases s.len(),
{
    if s.len() == 0 {
        Seq::empty()
    } else {
        spec_insert_by_start(spec_sort_by_start(s.drop_last()), s.last())
    }
}

/// One pass of merging over a start-sorted list, carrying the range being
/// grown: a range that starts at or before the current end extends it.
pub open spec fn spec_merge_loop(
    s: Seq<(usize, usize)>,
    n: int,
    cur: (usize, usize),
) -> Seq<(usize, usize)>
    decreases s.len() - n,
{
    if n < 0 || n >= s.len() {
        seq![cur]
    } else if s[n].0 <= cur.1 {
        spec_merge_loop(
            s,
            n + 1,
            (cur.0, if s[n].1 > cur.1 {
                s[n].1
            } else {
                cur.1
            }),
        )
    } else {
        seq![cur] + spec_merge_loop(s, n + 1, s[n])
    }
}

/// What merging a range list means: sort by start, then coalesce every
/// range that starts at or before the running end.
pub open spec fn spec_merge_ranges(s: Seq<(usize, usize)>) -> Seq<(usize, usize)> {
    if s.len() == 0 {
        Seq::empty()
    } else {
        let sorted = spec_sort_by_start(s);
        spec_merge_loop(sorted, 1, sorted[0])
    }
}

/// Inserting into a sorted list places the element after every entry with a
/// start at or below its own.
proof fn lemma_insert_split(sorted: Seq<(usize, usize)>, r: (usize, usize), idx: int)
    requires
        0 <= idx <= sorted.len(),
        forall|m: int| 0 <= m < idx ==> #[trigger] sorted[m].0 <= r.0,
        idx < sorted.len() ==> sorted[idx].0 > r.0,
    ensures
        spec_insert_by_start(sorted, r) == sorted.take(idx) + seq![r] + sorted.skip(idx),
    decreases sorted.len(),
{
    if sorted.len() == 0 {
        assert(spec_insert_by_start(sorted, r) =~= sorted.take(idx) + seq![r] + sorted.skip(
            idx,
        ));
    } else if sorted[0].0 <= r.0 {
        assert(idx > 0);
        lemma_insert_split(sorted.drop_first(), r, idx - 1);
        assert(sorted.drop_first().take(idx - 1) =~= sorted.take(idx).drop_first());
        assert(sorted.drop_first().skip(idx - 1) =~= sorted.skip(idx));
        assert(seq![sorted[0]] + (sorted.take(idx).drop_first() + seq![r] + sorted.skip(idx))
            =~= sorted.take(idx) + seq![r] + sorted.skip(idx));
    } else {
        assert(idx == 0);
        assert(spec_insert_by_start(sorted, r) =~= sorted.take(0) + seq![r] + sorted.skip(0));
    }
}

/// Is a range list sorted by start?
pub open spec fn ranges_sorted(s: Seq<(usize, usize)>) -> bool {
    forall|m: int, n: int| 0 <= m < n < s.len() ==> #[trigger] s[m].0 <= #[trigger] s[n].0
}

/// Insertion keeps a list sorted.
proof fn lemma_insert_sorted(sorted: Seq<(usize, usize)>, r: (usize, usize))
    requires
        ranges_sorted(sorted),
    ensures
        ranges_sorted(spec_insert_by_start(sorted, r)),
        spec_insert_by_start(sorted, r).len() == sorted.len() + 1,
    decreases sorted.len(),
{
    if sorted.len() == 0 {
    } else if sorted[0].0 <= r.0 {
        assert(ranges_sorted(sorted.drop_first()));
        lemma_insert_sorted(sorted.drop_first(), r);
        let rest = spec_insert_by_start(sorted.drop_first(), r);
        assert forall|m: int, n: int|
            0 <= m < n < (seq![sorted[0]] + rest).len() implies (seq![sorted[0]] + rest)[m].0
            <= (seq![sorted[0]] + rest)[n].0 by {
            if m == 0 {
                assert((seq![sorted[0]] + rest)[n] == rest[n - 1]);
                lemma_insert_lower_bound(sorted.drop_first(), r, sorted[0].0 as int, n - 1);
            } else {
                assert((seq![sorted[0]] + rest)[m] == rest[m - 1]);
                assert((seq![sorted[0]] + rest)[n] == rest[n - 1]);
            }
        }
    } else {
    }
}

/// A lower bound on every start in a list is kept by insertion when the
/// inserted range respects it too.
proof fn lemma_insert_lower_bound(s: Seq<(usize, usize)>, r: (usize, usize), b: int, n: int)
    requires
        forall|k: int| 0 <= k < s.len() ==> #[trigger] s[k].0 >= b,
        r.0 >= b,
        0 <= n < spec_insert_by_start(s, r).len(),
    ensures
        spec_insert_by_start(s, r)[n].0 >= b,
    decreases s.len(),
{
    if s.len() == 0 {
    } else if s[0].0 <= r.0 {
        if n > 0 {
            let rest = s.drop_first();
            assert(forall|k: int| 0 <= k < rest.len() ==> #[trigger] rest[k].0 >= b);
            lemma_insert_lower_bound(rest, r, b, n - 1);
            assert(spec_insert_by_start(s, r)[n] == spec_insert_by_start(rest, r)[n - 1]);
        }
    } else {
        if n > 0 {
            assert(spec_insert_by_start(s, r)[n] == s[n - 1]);
        }
    }
}

/// Merge overlapping or touching ranges after sorting them by start, as the
/// word-change detector needs: the result covers the same bytes with the
/// fewest start-sorted ranges the original algorithm produces.
pub fn merge_ranges(ranges: Vec<(usize, usize)>) -> (r: Vec<(usize, usize)>)
    ensures
        r@ == spec_merge_ranges(ranges@),
{
    if ranges.len() == 0 {
        let r: Vec<(usize, usize)> = Vec::new();
        return r;
    }
    // Stable insertion sort by start offset.
    let mut sorted: Vec<(usize, usize)> = Vec::new();
    let mut i: usize = 0;
    proof {
        assert(ranges@.take(0) =~= Seq::<(usize, usize)>::empty());
    }
    while i < ranges.len()
        invariant
            i <= ranges@.len(),
            sorted@ == spec_sort_by_start(ranges@.take(i as int)),
            ranges_sorted(sorted@),
            sorted@.len() == i,
        decreases ranges@.len() - i,
    {
        let r = ranges[i];
        let mut idx: usize = 0;
        while idx < sorted.len() && sorted[idx].0 <= r.0
            invariant
                idx <= sorted@.len(),
                forall|m: int| 0 <= m < idx ==> #[trigger] sorted@[m].0 <= r.0,
            decreases sorted@.len() - idx,
        {
            idx = idx + 1;
        }
        let ghost sorted0 = sorted@;
        sorted.insert(idx, r);
        proof {
            lemma_insert_split(sorted0, r, idx as int);
            assert(sorted@ =~= sorted0.take(idx as int) + seq![r] + sorted0.skip(idx as int));
            lemma_insert_sorted(sorted0, r);
            assert(ranges@.take(i as int + 1).drop_last() =~= ranges@.take(i as int));
            assert(ranges@.take(i as int + 1).last() == ranges@[i as int]);
        }
        i = i + 1;
    }
    proof {
        assert(ranges@.take(ranges@.len() as int) =~= ranges@);
    }
    // Coalescing pass.
    let mut merged: Vec<(usize, usize)> = Vec::new();
    let mut cur: (usize, usize) = sorted[0];
    let mut j: usize = 1;
    while j < sorted.len()
        invariant
            1 <= j <= sorted@.len(),
            spec_merge_ranges(ranges@) == merged@ + spec_merge_loop(sorted@, j as int, cur),
        decreases sorted@.len() - j,
    {
        let (s, e) = sorted[j];
        if s <= cur.1 {
            cur = (cur.0, if e > cur.1 {
                e
            } else {
                cur.1
            });
        } else {
            let ghost merged0 = merged@;
            merged.push(cur);
            proof {
                assert(merged@ =~= merged0.push(cur));
                assert(merged0 + (seq![cur] + spec_merge_loop(sorted@, j as int + 1, (s, e)))
                    =~= merged@ + spec_merge_loop(sorted@, j as int + 1, (s, e)));
            }
            cur = (s, e);
        }
        j = j + 1;
    }
    let ghost merged0 = merged@;
    merged.push(cur);
    proof {
        assert(spec_merge_loop(sorted@, sorted@.len() as int, cur) == seq![cur]);
        assert(merged@ =~= merged0 + seq![cur]);
    }
    merged
}

/// The merged word-level change ranges of a line pair: deleted ranges
/// against the old line, inserted ranges against the new line.
pub open spec fn spec_word_ranges(old_line: Seq<char>, new_line: Seq<char>) -> (
    Seq<(usize, usize)>,
    Seq<(usize, usize)>,
) {
    let cs = word_changes_of(old_line, new_line);
    (
        spec_merge_ranges(spec_old_ranges(cs, cs.len() as int)),
        spec_merge_ranges(spec_new_ranges(cs, cs.len() as int)),
    )
}

/// Compute the word-level changed byte ranges of a line pair: the byte
/// ranges deleted from the old line and those inserted in the new line,
/// each merged into start-sorted, coalesced form.
pub fn compute_word_change_ranges(old_line: &str, new_line: &str) -> (r: (
    Vec<(usize, usize)>,
    Vec<(usize, usize)>,
))
    ensures
        r.0@ == spec_word_ranges(old_line@, new_line@).0,
        r.1@ == spec_word_ranges(old_line@, new_line@).1,
{
    let cs = word_diff_changes(old_line, new_line);
    let mut old_ranges: Vec<(usize, usize)> = Vec::new();
    let mut new_ranges: Vec<(usize, usize)> = Vec::new();
    let mut old_pos: u128 = 0;
    let mut new_pos: u128 = 0;
    let mut n: usize = 0;
    while n < cs.len()
        invariant
            n <= cs@.len(),
            old_pos as int == spec_old_pos(cs@, n as int),
            new_pos as int == spec_new_pos(cs@, n as int),
            old_ranges@ == spec_old_ranges(cs@, n as int),
            new_ranges@ == spec_new_ranges(cs@, n as int),
            old_pos <= n * (usize::MAX as u128),
            new_pos <= n * (usize::MAX as u128),
        decreases cs@.len() - n,
    {
        let c = cs[n];
        proof {
            assert(cs@.len() * (usize::MAX as int) + (usize::MAX as int) <= u128::MAX) by (nonlinear_arith)
                requires cs@.len() <= usize::MAX as int,
            ;
            assert(n * (usize::MAX as int) + (usize::MAX as int) <= u128::MAX) by (nonlinear_arith)
                requires n <= usize::MAX as int,
            ;
            assert((n + 1) * (usize::MAX as int) == n * (usize::MAX as int) + (
            usize::MAX as int)) by (nonlinear_arith);
        }
        match c.tag {
            WordTag::Delete => {
                if c.len > 0 {
                    let lo = sat_usize(old_pos);
                    let hi = sat_usize(old_pos + c.len as u128);
                    old_ranges.push((lo, hi));
                    proof {
                        assert(old_ranges@ =~= spec_old_ranges(cs@, n as int).push((lo, hi)));
                    }
                }
                old_pos = old_pos + c.len as u128;
            },
            WordTag::Insert => {
                if c.len > 0 {
                    let lo = sat_usize(new_pos);
                    let hi = sat_usize(new_pos + c.len as u128);
                    new_ranges.push((lo, hi));
                    proof {
                        assert(new_ranges@ =~= spec_new_ranges(cs@, n as int).push((lo, hi)));
                    }
                }
                new_pos = new_pos + c.len as u128;
            },
            WordTag::Equal => {
                old_pos = old_pos + c.len as u128;
                new_pos = new_pos + c.len as u128;
            },
        }
        n = n + 1;
    }
    (merge_ranges(old_ranges), merge_ranges(new_ranges))
}

/// Is line `i` a deleted line?
pub open spec fn is_del_line(ls: Seq<DiffLineV>, i: int) -> bool {
    0 <= i < ls.len() && ls[i].line_type == "deleted"@
}

/// Is line `i` an added line?
pub open spec fn is_add_line(ls: Seq<DiffLineV>, i: int) -> bool {
    0 <= i < ls.len() && ls[i].line_type == "added"@
}

/// The first index of the maximal deleted run containing `i`.
pub open spec fn del_run_start(ls: Seq<DiffLineV>, i: int) -> int
    decreases i,
{
    if i <= 0 || !is_del_line(ls, i - 1) {
        i
    } else {
        del_run_start(ls, i - 1)
    }
}

/// The index one past the maximal deleted run starting at or containing
/// `i`.
pub open spec fn del_run_end(ls: Seq<DiffLineV>, i: int) -> int
    decreases ls.len() - i,
{
    if i < 0 || i >= ls.len() || !is_del_line(ls, i) {
        i
    } else {
        del_run_end(ls, i + 1)
    }
}

/// The first index of the maximal added run containing `i`.
pub open spec fn add_run_start(ls: Seq<DiffLineV>, i: int) -> int
    decreases i,
{
    if i <= 0 || !is_add_line(ls, i - 1) {
        i
    } else {
        add_run_start(ls, i - 1)
    }
}

/// The index one past the maximal added run starting at or containing `i`.
pub open spec fn add_run_end(ls: Seq<DiffLineV>, i: int) -> int
    decreases ls.len() - i,
{
    if i < 0 || i >= ls.len() || !is_add_line(ls, i) {
        i
    } else {
        add_run_end(ls, i + 1)
    }
}

/// The added line paired with deleted line `i`: position `i - start` of the
/// added run that immediately follows `i`'s deleted run, when that run
/// reaches so far. Lines with no positional partner stay unmarked.
pub open spec fn del_partner(ls: Seq<DiffLineV>, i: int) -> Option<int> {
    let ds = del_run_start(ls, i);
    let de = del_run_end(ls, i);
    let ae = add_run_end(ls, de);
    let j = de + (i - ds);
    if j < ae {
        Option::Some(j)
    } else {
        Option::None
    }
}

/// The deleted line paired with added line `i`: position `i - start` of the
/// deleted run immediately before `i`'s added run, when that run reaches so
/// far.
pub open spec fn add_partner(ls: Seq<DiffLineV>, i: int) -> Option<int> {
    let as0 = add_run_start(ls, i);
    if as0 > 0 && is_del_line(ls, as0 - 1) {
        let ds = del_run_start(ls, as0 - 1);
        let p = ds + (i - as0);
        if p < as0 {
            Option::Some(p)
        } else {
            Option::None
        }
    } else {
        Option::None
    }
}

/// The highlight spans of line `i` after the word-level pass: a paired
/// deleted line gains its deleted byte ranges as `word-deleted`, a paired
/// added line its inserted ranges as `word-added`; a pair with no changed
/// ranges on that side, and every unpaired line, keeps its spans.
pub open spec fn spec_line_word_spans(ls: Seq<DiffLineV>, i: int) -> Seq<SpanV> {
    if is_del_line(ls, i) {
        match del_partner(ls, i) {
            Option::Some(j) => {
                let dr = spec_word_ranges(ls[i].content, ls[j].content).0;
                if dr.len() > 0 {
                    spec_fuse(byte_len(ls[i].content), ls[i].highlights, dr, "word-deleted"@)
                } else {
                    ls[i].highlights
                }
            },
            Option::None => ls[i].highlights,
        }
    } else if is_add_line(ls, i) {
        match add_partner(ls, i) {
            Option::Some(p) => {
                let ar = spec_word_ranges(ls[p].content, ls[i].content).1;
                if ar.len() > 0 {
                    spec_fuse(byte_len(ls[i].content), ls[i].highlights, ar, "word-added"@)
                } else {
                    ls[i].highlights
                }
            },
            Option::None => ls[i].highlights,
        }
    } else {
        ls[i].highlights
    }
}

/// One hunk's lines after the word-level pass: texts, kinds and numbers
/// unchanged, spans as [`spec_line_word_spans`] gives them.
pub open spec fn spec_apply_word_lines(ls: Seq<DiffLineV>) -> Seq<DiffLineV> {
    Seq::new(
        ls.len(),
        |i: int|
            DiffLineV {
                line_type: ls[i].line_type,
                content: ls[i].content,
                old_line_num: ls[i].old_line_num,
                new_line_num: ls[i].new_line_num,
                highlights: spec_line_word_spans(ls, i),
            },
    )
}

/// One hunk after the word-level pass.
pub open spec fn spec_apply_word_hunk(h: HunkV) -> HunkV {
    HunkV {
        header: h.header,
        old_start: h.old_start,
        old_lines: h.old_lines,
        new_start: h.new_start,
        new_lines: h.new_lines,
        lines: spec_apply_word_lines(h.lines),
    }
}

/// All hunks after the word-level pass.
pub open spec fn spec_apply_word(hs: Seq<HunkV>) -> Seq<HunkV> {
    hs.map_values(|h: HunkV| spec_apply_word_hunk(h))
}

/// Does this line carry the given kind?
fn line_is(l: &DiffLine, kind: &str) -> (r: bool)
    ensures
        r == (l@.line_type == kind@),
{
    crate::text::str_eq(l.line_type.as_str(), kind)
}

/// Find the first index of the deleted run containing `i`.
fn scan_del_start(lines: &Vec<DiffLine>, i: usize) -> (r: usize)
    requires
        i <= lines@.len(),
    ensures
        r == del_run_start(lines_view(lines@), i as int),
        r <= i,
{
    let ghost lsv = lines_view(lines@);
    let mut s: usize = i;
    let mut go: bool = s > 0 && line_is(&lines[s - 1], "deleted");
    while go
        invariant
            s <= i,
            del_run_start(lsv, i as int) == del_run_start(lsv, s as int),
            go == (s > 0 && is_del_line(lsv, s as int - 1)),
        decreases s,
    {
        s = s - 1;
        go = s > 0 && line_is(&lines[s - 1], "deleted");
    }
    s
}

/// Find the index one past the deleted run containing `i`.
fn scan_del_end(lines: &Vec<DiffLine>, i: usize) -> (r: usize)
    requires
        i <= lines@.len(),
    ensures
        r == del_run_end(lines_view(lines@), i as int),
        i <= r <= lines@.len(),
{
    let ghost lsv = lines_view(lines@);
    let mut e: usize = i;
    let mut go: bool = e < lines.len() && line_is(&lines[e], "deleted");
    while go
        invariant
            i <= e <= lines@.len(),
            del_run_end(lsv, i as int) == del_run_end(lsv, e as int),
            go == (e < lines@.len() && is_del_line(lsv, e as int)),
        decreases lines@.len() - e,
    {
        e = e + 1;
        go = e < lines.len() && line_is(&lines[e], "deleted");
    }
    e
}

/// Find the first index of the added run containing `i`.
fn scan_add_start(lines: &Vec<DiffLine>, i: usize) -> (r: usize)
    requires
        i <= lines@.len(),
    ensures
        r == add_run_start(lines_view(lines@), i as int),
        r <= i,
{
    let ghost lsv = lines_view(lines@);
    let mut s: usize = i;
    let mut go: bool = s > 0 && line_is(&lines[s - 1], "added");
    while go
        invariant
            s <= i,
            add_run_start(lsv, i as int) == add_run_start(lsv, s as int),
            go == (s > 0 && is_add_line(lsv, s as int - 1)),
        decreases s,
    {
        s = s - 1;
        go = s > 0 && line_is(&lines[s - 1], "added");
    }
    s
}

/// Find the index one past the added run containing `i`.
fn scan_add_end(lines: &Vec<DiffLine>, i: usize) -> (r: usize)
    requires
        i <= lines@.len(),
    ensures
        r == add_run_end(lines_view(lines@), i as int),
        i <= r <= lines@.len(),
{
    let ghost lsv = lines_view(lines@);
    let mut e: usize = i;
    let mut go: bool = e < lines.len() && line_is(&lines[e], "added");
    while go
        invariant
            i <= e <= lines@.len(),
            add_run_end(lsv, i as int) == add_run_end(lsv, e as int),
            go == (e < lines@.len() && is_add_line(lsv, e as int)),
        decreases lines@.len() - e,
    {
        e = e + 1;
        go = e < lines.len() && line_is(&lines[e], "added");
    }
    e
}


/// The word-level pass over one hunk.
fn apply_word_hunk(h: &Hunk) -> (r: Hunk)
    ensures
        r@ == spec_apply_word_hunk(h@),
{
    let ghost lsv = lines_view(h.lines@);
    let mut newlines: Vec<DiffLine> = Vec::new();
    let mut i: usize = 0;
    while i < h.lines.len()
        invariant
            i <= h.lines@.len(),
            newlines@.len() == i,
            forall|m: int|
                0 <= m < i ==> #[trigger] newlines@[m]@ == spec_apply_word_lines(lsv)[m],
        decreases h.lines@.len() - i,
    {
        let line = &h.lines[i];
        proof {
            assert(line@ == lsv[i as int]);
        }
        let is_d = line_is(line, "deleted");
        let is_a = line_is(line, "added");
        let hl: Vec<HighlightSpan>;
        if is_d {
            let ds = scan_del_start(&h.lines, i);
            let de = scan_del_end(&h.lines, i);
            let ae = scan_add_end(&h.lines, de);
            if i - ds < ae - de {
                let j = de + (i - ds);
                proof {
                    assert(del_partner(lsv, i as int) == Option::Some(j as int));
                    assert(h.lines@[j as int]@ == lsv[j as int]);
                }
                let pr = compute_word_change_ranges(
                    line.content.as_str(),
                    h.lines[j].content.as_str(),
                );
                if pr.0.len() > 0 {
                    hl = merge_word_highlights(
                        line.content.as_str(),
                        &line.highlights,
                        &pr.0,
                        "word-deleted",
                    );
                } else {
                    hl = crate::model::clone_spans(&line.highlights);
                }
            } else {
                proof {
                    assert(del_partner(lsv, i as int) is None);
                }
                hl = crate::model::clone_spans(&line.highlights);
            }
        } else if is_a {
            let as0 = scan_add_start(&h.lines, i);
            if as0 > 0 && line_is(&h.lines[as0 - 1], "deleted") {
                let ds = scan_del_start(&h.lines, as0 - 1);
                if i - as0 < as0 - ds {
                    let p = ds + (i - as0);
                    proof {
                        assert(add_partner(lsv, i as int) == Option::Some(p as int));
                        assert(h.lines@[p as int]@ == lsv[p as int]);
                    }
                    let pr = compute_word_change_ranges(
                        h.lines[p].content.as_str(),
                        line.content.as_str(),
                    );
                    if pr.1.len() > 0 {
                        hl = merge_word_highlights(
                            line.content.as_str(),
                            &line.highlights,
                            &pr.1,
                            "word-added",
                        );
                    } else {
                        hl = crate::model::clone_spans(&line.highlights);
                    }
                } else {
                    proof {
                        assert(add_partner(lsv, i as int) is None);
                    }
                    hl = crate::model::clone_spans(&line.highlights);
                }
            } else {
                proof {
                    assert(add_partner(lsv, i as int) is None);
                }
                hl = crate::model::clone_spans(&line.highlights);
            }
        } else {
            hl = crate::model::clone_spans(&line.highlights);
        }
        let nl = DiffLine {
            line_type: line.line_type.clone(),
            content: line.content.clone(),
            old_line_num: line.old_line_num,
            new_line_num: line.new_line_num,
            highlights: hl,
        };
        proof {
            assert(spans_view(nl.highlights@) == spec_line_word_spans(lsv, i as int));
            assert(nl@ == spec_apply_word_lines(lsv)[i as int]);
        }
        newlines.push(nl);
        i = i + 1;
    }
    let out = Hunk {
        header: h.header.clone(),
        old_start: h.old_start,
        old_lines: h.old_lines,
        new_start: h.new_start,
        new_lines: h.new_lines,
        lines: newlines,
    };
    proof {
        assert(lines_view(out.lines@) =~= spec_apply_word_lines(lsv));
        assert(out@ == spec_apply_word_hunk(h@));
    }
    out
}

/// Overlay word-level change markers on every replace block of every hunk:
/// each paired deleted and added line gets its changed byte ranges fused
/// into its spans, with the word-change category winning over syntax.
pub fn apply_word_level_highlights(hunks: &mut Vec<Hunk>)
    ensures
        hunks_view(final(hunks)@) == spec_apply_word(hunks_view(old(hunks)@)),
{
    let ghost hv0 = hunks_view(old(hunks)@);
    let mut out: Vec<Hunk> = Vec::new();
    let mut k: usize = 0;
    while k < hunks.len()
        invariant
            hunks@ == old(hunks)@,
            k <= hunks@.len(),
            out@.len() == k,
            forall|m: int| 0 <= m < k ==> #[trigger] out@[m]@ == spec_apply_word(hv0)[m],
        decreases hunks@.len() - k,
    {
        proof {
            assert(hunks@[k as int]@ == hv0[k as int]);
        }
        let nh = apply_word_hunk(&hunks[k]);
        out.push(nh);
        k = k + 1;
    }
    *hunks = out;
    proof {
        assert(hunks_view(hunks@) =~= spec_apply_word(hv0));
    }
}

} // verus!
