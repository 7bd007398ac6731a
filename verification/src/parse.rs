//! The hunk parser: raw unified-diff text in, structured hunks out. Headers
//! of the form `@@ -a,b +c,d @@` open a hunk; `+`, `-`, space and empty
//! lines become added, deleted and context lines with running line numbers;
//! other lines are metadata and are skipped. A malformed header drops its
//! hunk. Highlight spans are pulled from caller-supplied per-line tables.

use vstd::prelude::*;

use crate::model::{
    hunks_view, lines_view, spans_view, DiffLine, DiffLineV, DiffStats, HighlightSpan, Hunk,
    HunkV, SpanV,
};
use crate::spec_sat_u32;
use crate::text::{
    chars_of, parse_u32_chars, spec_lines, spec_parse_u32, spec_split, spec_trim_leading,
    split_chars, split_lines_chars, string_from_chars, trim_leading,
};

verus! {

/// Index of the first occurrence of `c` in `s`, or `s.len()` if there is
/// none.
pub open spec fn spec_find(s: Seq<char>, c: char) -> int
    decreases s.len(),
{
    if s.len() == 0 {
        0
    } else if s[0] == c {
        0
    } else {
        1 + spec_find(s.drop_first(), c)
    }
}

/// Find the first occurrence of `c` in a character vector.
fn find_char(s: &Vec<char>, c: char) -> (r: usize)
    ensures
        r == spec_find(s@, c),
{
    let mut i: usize = 0;
    proof {
        assert(s@.skip(0) =~= s@);
    }
    while i < s.len()
        invariant
            i <= s@.len(),
            spec_find(s@, c) == i + spec_find(s@.skip(i as int), c),
            forall|j: int| 0 <= j < i ==> s@[j] != c,
        decreases s@.len() - i,
    {
        proof {
            let pre = s@.skip(i as int);
            assert(pre[0] == s@[i as int]);
            assert(pre.drop_first() =~= s@.skip(i as int + 1));
        }
        if s[i] == c {
            return i;
        }
        i = i + 1;
    }
    i
}

/// What one side of a hunk header denotes: `start,count`, or `start` alone
/// with the count defaulting to one.
pub open spec fn spec_parse_range(s: Seq<char>) -> Option<(u32, u32)> {
    let k = spec_find(s, ',');
    if k == s.len() {
        match spec_parse_u32(s) {
            Option::Some(v) => Option::Some((v, 1u32)),
            Option::None => Option::None,
        }
    } else {
        match (spec_parse_u32(s.take(k)), spec_parse_u32(s.skip(k + 1))) {
            (Option::Some(a), Option::Some(b)) => Option::Some((a, b)),
            _ => Option::None,
        }
    }
}

/// Copy `v[from..]` into a fresh vector.
fn copy_from(v: &Vec<char>, from: usize) -> (r: Vec<char>)
    requires
        from <= v@.len(),
    ensures
        r@ == v@.skip(from as int),
{
    let mut r: Vec<char> = Vec::new();
    let mut j: usize = from;
    while j < v.len()
        invariant
            from <= j <= v@.len(),
            r@ == v@.subrange(from as int, j as int),
        decreases v@.len() - j,
    {
        let c = v[j];
        r.push(c);
        assert(r@ =~= v@.subrange(from as int, j as int + 1));
        j = j + 1;
    }
    assert(r@ =~= v@.skip(from as int));
    r
}

/// Copy `v[..to]` into a fresh vector.
fn copy_to(v: &Vec<char>, to: usize) -> (r: Vec<char>)
    requires
        to <= v@.len(),
    ensures
        r@ == v@.take(to as int),
{
    let mut r: Vec<char> = Vec::new();
    let mut j: usize = 0;
    while j < to
        invariant
            j <= to <= v@.len(),
            r@ == v@.take(j as int),
        decreases to - j,
    {
        let c = v[j];
        r.push(c);
        assert(r@ =~= v@.take(j as int + 1));
        j = j + 1;
    }
    r
}

/// Parse one side of a hunk header: `start,count` or a bare `start` whose
/// count defaults to one.
pub fn parse_range(range: &str) -> (r: Option<(u32, u32)>)
    ensures
        r == spec_parse_range(range@),
{
    let v = chars_of(range);
    parse_range_chars(&v)
}

/// [`parse_range`] on an already-split character vector.
pub fn parse_range_chars(v: &Vec<char>) -> (r: Option<(u32, u32)>)
    ensures
        r == spec_parse_range(v@),
{
    let k = find_char(v, ',');
    proof {
        lemma_find_le_len(v@, ',');
    }
    if k == v.len() {
        match parse_u32_chars(v) {
            Some(n) => Some((n, 1)),
            None => None,
        }
    } else {
        let left = copy_to(v, k);
        let right = copy_from(v, k + 1);
        match (parse_u32_chars(&left), parse_u32_chars(&right)) {
            (Some(a), Some(b)) => Some((a, b)),
            _ => None,
        }
    }
}

/// The first-occurrence index never exceeds the length, and marks a real
/// occurrence when it is below it.
proof fn lemma_find_le_len(s: Seq<char>, c: char)
    ensures
        0 <= spec_find(s, c) <= s.len(),
        spec_find(s, c) < s.len() ==> s[spec_find(s, c)] == c,
    decreases s.len(),
{
    if s.len() > 0 && s[0] != c {
        lemma_find_le_len(s.drop_first(), c);
    }
}

/// What a whole `@@ -a,b +c,d @@` header line denotes, or nothing when it
/// is malformed: the second and third space-separated fields, stripped of
/// their `-` and `+` signs, each parsed as a range.
pub open spec fn spec_parse_hunk_header(l: Seq<char>) -> Option<(u32, u32, u32, u32)> {
    let parts = spec_split(l, ' ');
    if parts.len() < 3 {
        Option::None
    } else {
        let old_part = spec_trim_leading(parts[1], '-');
        let new_part = spec_trim_leading(parts[2], '+');
        match (spec_parse_range(old_part), spec_parse_range(new_part)) {
            (Option::Some((a, b)), Option::Some((c, d))) => Option::Some((a, b, c, d)),
            _ => Option::None,
        }
    }
}

/// Parse a hunk header line into `(old_start, old_count, new_start,
/// new_count)`.
pub fn parse_hunk_header(line: &str) -> (r: Option<(u32, u32, u32, u32)>)
    ensures
        r == spec_parse_hunk_header(line@),
{
    let v = chars_of(line);
    parse_hunk_header_chars(&v)
}

/// [`parse_hunk_header`] on a character vector.
pub fn parse_hunk_header_chars(v: &Vec<char>) -> (r: Option<(u32, u32, u32, u32)>)
    ensures
        r == spec_parse_hunk_header(v@),
{
    let parts = split_chars(v, ' ');
    proof {
        assert(parts.deep_view().len() == parts@.len());
    }
    if parts.len() < 3 {
        return None;
    }
    proof {
        assert(parts.deep_view()[1] == parts@[1].deep_view());
        assert(parts.deep_view()[2] == parts@[2].deep_view());
        assert(parts@[1].deep_view() =~= parts@[1]@);
        assert(parts@[2].deep_view() =~= parts@[2]@);
    }
    let old_part = trim_leading(&parts[1], '-');
    let new_part = trim_leading(&parts[2], '+');
    match (parse_range_chars(&old_part), parse_range_chars(&new_part)) {
        (Some(a), Some(b)) => Some((a.0, a.1, b.0, b.1)),
        _ => None,
    }
}

/// Is this raw line a hunk header?
pub open spec fn spec_is_header(l: Seq<char>) -> bool {
    l.len() >= 2 && l[0] == '@' && l[1] == '@'
}

/// Is this raw line an added line (not a `+++` file header)?
pub open spec fn spec_is_added(l: Seq<char>) -> bool {
    l.len() >= 1 && l[0] == '+' && !(l.len() >= 3 && l[1] == '+' && l[2] == '+')
}

/// Is this raw line a deleted line (not a `---` file header)?
pub open spec fn spec_is_deleted(l: Seq<char>) -> bool {
    l.len() >= 1 && l[0] == '-' && !(l.len() >= 3 && l[1] == '-' && l[2] == '-')
}

/// Is this raw line a context line?
pub open spec fn spec_is_context(l: Seq<char>) -> bool {
    l.len() == 0 || l[0] == ' '
}

/// The spans recorded for one-based line number `ln` in a per-line table;
/// numbers past the table (or a table left empty) yield no spans.
pub open spec fn spec_line_spans(tbl: Seq<Seq<SpanV>>, ln: int) -> Seq<SpanV> {
    let st = spec_sat_u32(ln) as int;
    let idx = if st == 0 {
        0
    } else {
        st - 1
    };
    if 0 <= idx < tbl.len() {
        tbl[idx]
    } else {
        Seq::empty()
    }
}

/// The parser's running state: finished hunks, the open hunk if any, the
/// next line number on each side, and the running tallies.
pub struct ParseSt {
    pub hunks: Seq<HunkV>,
    pub cur: Option<HunkV>,
    pub old_ln: int,
    pub new_ln: int,
    pub adds: int,
    pub dels: int,
}

/// The parser's starting state.
pub open spec fn spec_parse_init() -> ParseSt {
    ParseSt {
        hunks: Seq::empty(),
        cur: Option::None,
        old_ln: 0,
        new_ln: 0,
        adds: 0,
        dels: 0,
    }
}

/// One parser step: how a single raw line transforms the state.
pub open spec fn spec_parse_step(
    st: ParseSt,
    l: Seq<char>,
    headt: Seq<Seq<SpanV>>,
    baset: Seq<Seq<SpanV>>,
) -> ParseSt {
    if spec_is_header(l) {
        let closed = match st.cur {
            Option::Some(h) => st.hunks.push(h),
            Option::None => st.hunks,
        };
        match spec_parse_hunk_header(l) {
            Option::Some((os, oc, ns, nc)) => ParseSt {
                hunks: closed,
                cur: Option::Some(
                    HunkV {
                        header: l,
                        old_start: os,
                        old_lines: oc,
                        new_start: ns,
                        new_lines: nc,
                        lines: Seq::empty(),
                    },
                ),
                old_ln: os as int,
                new_ln: ns as int,
                adds: st.adds,
                dels: st.dels,
            },
            Option::None => ParseSt {
                hunks: closed,
                cur: Option::None,
                old_ln: st.old_ln,
                new_ln: st.new_ln,
                adds: st.adds,
                dels: st.dels,
            },
        }
    } else {
        match st.cur {
            Option::None => st,
            Option::Some(h) => {
                if spec_is_added(l) {
                    let line = DiffLineV {
                        line_type: "added"@,
                        content: l.drop_first(),
                        old_line_num: Option::None,
                        new_line_num: Option::Some(spec_sat_u32(st.new_ln)),
                        highlights: spec_line_spans(headt, st.new_ln),
                    };
                    ParseSt {
                        hunks: st.hunks,
                        cur: Option::Some(HunkV { lines: h.lines.push(line), ..h }),
                        old_ln: st.old_ln,
                        new_ln: st.new_ln + 1,
                        adds: st.adds + 1,
                        dels: st.dels,
                    }
                } else if spec_is_deleted(l) {
                    let line = DiffLineV {
                        line_type: "deleted"@,
                        content: l.drop_first(),
                        old_line_num: Option::Some(spec_sat_u32(st.old_ln)),
                        new_line_num: Option::None,
                        highlights: spec_line_spans(baset, st.old_ln),
                    };
                    ParseSt {
                        hunks: st.hunks,
                        cur: Option::Some(HunkV { lines: h.lines.push(line), ..h }),
                        old_ln: st.old_ln + 1,
                        new_ln: st.new_ln,
                        adds: st.adds,
                        dels: st.dels + 1,
                    }
                } else if spec_is_context(l) {
                    let line = DiffLineV {
                        line_type: "context"@,
                        content: if l.len() == 0 {
                            Seq::empty()
                        } else {
                            l.drop_first()
                        },
                        old_line_num: Option::Some(spec_sat_u32(st.old_ln)),
                        new_line_num: Option::Some(spec_sat_u32(st.new_ln)),
                        highlights: spec_line_spans(headt, st.new_ln),
                    };
                    ParseSt {
                        hunks: st.hunks,
                        cur: Option::Some(HunkV { lines: h.lines.push(line), ..h }),
                        old_ln: st.old_ln + 1,
                        new_ln: st.new_ln + 1,
                        adds: st.adds,
                        dels: st.dels,
                    }
                } else {
                    st
                }
            },
        }
    }
}

/// The parser state after the first `n` raw lines.
pub open spec fn spec_parse_fold(
    lines: Seq<Seq<char>>,
    n: int,
    headt: Seq<Seq<SpanV>>,
    baset: Seq<Seq<SpanV>>,
) -> ParseSt
    decreases n,
{
    if n <= 0 {
        spec_parse_init()
    } else {
        spec_parse_step(spec_parse_fold(lines, n - 1, headt, baset), lines[n - 1], headt, baset)
    }
}

/// The hunks a raw diff parses to: the folded state's finished hunks, with
/// the still-open hunk appended.
pub open spec fn spec_parse_hunks(
    lines: Seq<Seq<char>>,
    headt: Seq<Seq<SpanV>>,
    baset: Seq<Seq<SpanV>>,
) -> Seq<HunkV> {
    let st = spec_parse_fold(lines, lines.len() as int, headt, baset);
    match st.cur {
        Option::Some(h) => st.hunks.push(h),
        Option::None => st.hunks,
    }
}

/// The totals a raw diff parses to.
pub open spec fn spec_parse_stats(
    lines: Seq<Seq<char>>,
    headt: Seq<Seq<SpanV>>,
    baset: Seq<Seq<SpanV>>,
) -> (u32, u32) {
    let st = spec_parse_fold(lines, lines.len() as int, headt, baset);
    (spec_sat_u32(st.adds), spec_sat_u32(st.dels))
}

/// View of a per-line highlight table.
pub open spec fn table_view(t: Seq<Vec<HighlightSpan>>) -> Seq<Seq<SpanV>> {
    t.map_values(|v: Vec<HighlightSpan>| spans_view(v@))
}

/// View of an optional open hunk.
pub open spec fn opt_hunk_view(c: Option<Hunk>) -> Option<HunkV> {
    match c {
        Option::None => Option::None,
        Option::Some(h) => Option::Some(h@),
    }
}


/// Fetch the spans recorded for one-based line number `ln` from a per-line
/// table, or none when the table does not reach it.
fn lookup_spans(tbl: &Vec<Vec<HighlightSpan>>, ln: u128) -> (r: Vec<HighlightSpan>)
    ensures
        spans_view(r@) == spec_line_spans(table_view(tbl@), ln as int),
{
    let st: u32 = crate::sat_u32(ln);
    let idx: usize = if st == 0 {
        0
    } else {
        (st - 1) as usize
    };
    if idx < tbl.len() {
        proof {
            assert(table_view(tbl@)[idx as int] == spans_view(tbl@[idx as int]@));
        }
        crate::model::clone_spans(&tbl[idx])
    } else {
        let r: Vec<HighlightSpan> = Vec::new();
        proof {
            assert(spans_view(r@) =~= Seq::<SpanV>::empty());
        }
        r
    }
}

/// Parse raw unified-diff text into hunks and totals, pulling each line's
/// highlight spans from the caller-supplied per-line tables for the new and
/// old file contents. This is the classification pass alone; word-level
/// markers are layered on afterwards.
pub fn parse_diff_core(
    diff: &str,
    head_highlights: &Vec<Vec<HighlightSpan>>,
    base_highlights: &Vec<Vec<HighlightSpan>>,
) -> (r: (Vec<Hunk>, DiffStats))
    ensures
        hunks_view(r.0@) == spec_parse_hunks(
            spec_lines(diff@),
            table_view(head_highlights@),
            table_view(base_highlights@),
        ),
        r.1.additions == spec_parse_stats(
            spec_lines(diff@),
            table_view(head_highlights@),
            table_view(base_highlights@),
        ).0,
        r.1.deletions == spec_parse_stats(
            spec_lines(diff@),
            table_view(head_highlights@),
            table_view(base_highlights@),
        ).1,
{
    let dchars = chars_of(diff);
    let lines = split_lines_chars(&dchars);
    let ghost linesv = spec_lines(diff@);
    let ghost headt = table_view(head_highlights@);
    let ghost baset = table_view(base_highlights@);
    proof {
        assert(lines.deep_view() == linesv);
    }
    let mut hunks: Vec<Hunk> = Vec::new();
    let mut cur: Option<Hunk> = None;
    let mut old_ln: u128 = 0;
    let mut new_ln: u128 = 0;
    let mut adds: u128 = 0;
    let mut dels: u128 = 0;
    let mut i: usize = 0;
    proof {
        assert(hunks_view(hunks@) =~= Seq::<HunkV>::empty());
    }
    while i < lines.len()
        invariant
            i <= lines@.len(),
            hunks_view(hunks@) == spec_parse_fold(linesv, i as int, headt, baset).hunks,
            opt_hunk_view(cur) == spec_parse_fold(linesv, i as int, headt, baset).cur,
            old_ln as int == spec_parse_fold(linesv, i as int, headt, baset).old_ln,
            new_ln as int == spec_parse_fold(linesv, i as int, headt, baset).new_ln,
            adds as int == spec_parse_fold(linesv, i as int, headt, baset).adds,
            dels as int == spec_parse_fold(linesv, i as int, headt, baset).dels,
            adds <= i,
            dels <= i,
            old_ln <= u32::MAX + i,
            new_ln <= u32::MAX + i,
        decreases lines@.len() - i,
    {
        let ghost st0 = spec_parse_fold(linesv, i as int, headt, baset);
        let ghost st1 = spec_parse_fold(linesv, i as int + 1, headt, baset);
        let ghost l = linesv[i as int];
        proof {
            assert(lines@[i as int].deep_view() =~= lines@[i as int]@);
            assert(l == lines@[i as int]@);
            assert(st1 == spec_parse_step(st0, l, headt, baset));
        }
        let line = &lines[i];
        if line.len() >= 2 && line[0] == '@' && line[1] == '@' {
            assert(spec_is_header(l));
            let prev = cur;
            cur = None;
            let ghost closed = match st0.cur {
                Option::Some(h) => st0.hunks.push(h),
                Option::None => st0.hunks,
            };
            if let Some(h) = prev {
                let ghost hunks0 = hunks@;
                hunks.push(h);
                proof {
                    assert(hunks_view(hunks@) =~= hunks_view(hunks0).push(h@));
                }
            }
            proof {
                assert(hunks_view(hunks@) == closed);
            }
            if let Some(q) = parse_hunk_header_chars(line) {
                let header_string = string_from_chars(line);
                cur = Some(
                    Hunk {
                        header: header_string,
                        old_start: q.0,
                        old_lines: q.1,
                        new_start: q.2,
                        new_lines: q.3,
                        lines: Vec::new(),
                    },
                );
                old_ln = q.0 as u128;
                new_ln = q.2 as u128;
                proof {
                    match &cur {
                        Option::Some(h) => {
                            assert(lines_view(h.lines@) =~= Seq::<DiffLineV>::empty());
                            assert(h@ == st1.cur->Some_0);
                        },
                        Option::None => {
                        },
                    }
                }
            }
        } else {
            let prev = cur;
            match prev {
                None => {
                    cur = None;
                },
                Some(mut h) => {
                    let ghost h0 = h@;
                    let is_plus = line.len() >= 1 && line[0] == '+';
                    let is_minus = line.len() >= 1 && line[0] == '-';
                    let triple_plus = line.len() >= 3 && line[1] == '+' && line[2] == '+';
                    let triple_minus = line.len() >= 3 && line[1] == '-' && line[2] == '-';
                    if is_plus && !triple_plus {
                        assert(spec_is_added(l));
                        let content_chars = copy_from(line, 1);
                        let content = string_from_chars(&content_chars);
                        let hl = lookup_spans(head_highlights, new_ln);
                        let dl = DiffLine {
                            line_type: "added".to_owned(),
                            content,
                            old_line_num: None,
                            new_line_num: Some(crate::sat_u32(new_ln)),
                            highlights: hl,
                        };
                        proof {
                            assert(content_chars@ =~= l.drop_first());
                        }
                        let ghost lines0 = h.lines@;
                        h.lines.push(dl);
                        proof {
                            assert(lines_view(h.lines@) =~= lines_view(lines0).push(dl@));
                        }
                        new_ln = new_ln + 1;
                        adds = adds + 1;
                    } else if is_minus && !triple_minus {
                        assert(spec_is_deleted(l));
                        let content_chars = copy_from(line, 1);
                        let content = string_from_chars(&content_chars);
                        let hl = lookup_spans(base_highlights, old_ln);
                        let dl = DiffLine {
                            line_type: "deleted".to_owned(),
                            content,
                            old_line_num: Some(crate::sat_u32(old_ln)),
                            new_line_num: None,
                            highlights: hl,
                        };
                        proof {
                            assert(content_chars@ =~= l.drop_first());
                        }
                        let ghost lines0 = h.lines@;
                        h.lines.push(dl);
                        proof {
                            assert(lines_view(h.lines@) =~= lines_view(lines0).push(dl@));
                        }
                        old_ln = old_ln + 1;
                        dels = dels + 1;
                    } else if line.len() == 0 || line[0] == ' ' {
                        assert(spec_is_context(l));
                        let content = if line.len() == 0 {
                            String::new()
                        } else {
                            let content_chars = copy_from(line, 1);
                            string_from_chars(&content_chars)
                        };
                        let hl = lookup_spans(head_highlights, new_ln);
                        let dl = DiffLine {
                            line_type: "context".to_owned(),
                            content,
                            old_line_num: Some(crate::sat_u32(old_ln)),
                            new_line_num: Some(crate::sat_u32(new_ln)),
                            highlights: hl,
                        };
                        let ghost lines0 = h.lines@;
                        h.lines.push(dl);
                        proof {
                            assert(lines_view(h.lines@) =~= lines_view(lines0).push(dl@));
                        }
                        old_ln = old_ln + 1;
                        new_ln = new_ln + 1;
                    } else {
                        proof {
                            assert(!spec_is_header(l));
                            assert(!spec_is_added(l));
                            assert(!spec_is_deleted(l));
                            assert(!spec_is_context(l));
                        }
                    }
                    cur = Some(h);
                },
            }
        }
        i = i + 1;
    }
    proof {
        assert(i as int == linesv.len());
    }
    if let Some(h) = cur {
        let ghost hunks0 = hunks@;
        hunks.push(h);
        proof {
            assert(hunks_view(hunks@) =~= hunks_view(hunks0).push(h@));
        }
    }
    let stats = DiffStats { additions: crate::sat_u32(adds), deletions: crate::sat_u32(dels) };
    (hunks, stats)
}

/// Parse raw unified-diff text into hunks with fused highlight spans, and
/// the running totals: the classification pass of [`parse_diff_core`]
/// followed by the word-level pass of
/// [`crate::worddiff::apply_word_level_highlights`].
pub fn parse_diff_with_highlights(
    diff: &str,
    head_highlights: &Vec<Vec<HighlightSpan>>,
    base_highlights: &Vec<Vec<HighlightSpan>>,
) -> (r: (Vec<Hunk>, DiffStats))
    ensures
        hunks_view(r.0@) == crate::worddiff::spec_apply_word(
            spec_parse_hunks(
                spec_lines(diff@),
                table_view(head_highlights@),
                table_view(base_highlights@),
            ),
        ),
        r.1.additions == spec_parse_stats(
            spec_lines(diff@),
            table_view(head_highlights@),
            table_view(base_highlights@),
        ).0,
        r.1.deletions == spec_parse_stats(
            spec_lines(diff@),
            table_view(head_highlights@),
            table_view(base_highlights@),
        ).1,
{
    let (mut hunks, stats) = parse_diff_core(diff, head_highlights, base_highlights);
    crate::worddiff::apply_word_level_highlights(&mut hunks);
    (hunks, stats)
}

/// How many of the first `n` raw lines are added-marker lines inside a
/// hunk.
pub open spec fn spec_added_count(
    lines: Seq<Seq<char>>,
    n: int,
    headt: Seq<Seq<SpanV>>,
    baset: Seq<Seq<SpanV>>,
) -> int
    decreases n,
{
    if n <= 0 {
        0
    } else {
        spec_added_count(lines, n - 1, headt, baset) + if spec_parse_fold(
            lines,
            n - 1,
            headt,
            baset,
        ).cur is Some && spec_is_added(lines[n - 1]) {
            1int
        } else {
            0int
        }
    }
}

/// How many of the first `n` raw lines are deleted-marker lines inside a
/// hunk.
pub open spec fn spec_deleted_count(
    lines: Seq<Seq<char>>,
    n: int,
    headt: Seq<Seq<SpanV>>,
    baset: Seq<Seq<SpanV>>,
) -> int
    decreases n,
{
    if n <= 0 {
        0
    } else {
        spec_deleted_count(lines, n - 1, headt, baset) + if spec_parse_fold(
            lines,
            n - 1,
            headt,
            baset,
        ).cur is Some && spec_is_deleted(lines[n - 1]) {
            1int
        } else {
            0int
        }
    }
}

/// The running tallies are exactly the declarative counts: after any number
/// of lines, the parser's `adds` equals the number of added-marker lines
/// seen inside hunks, and `dels` likewise for deleted-marker lines. In a
/// unified diff every content line lies inside a hunk, so the totals are
/// the counts of `+` and `-` lines, `+++` and `---` excluded.
pub proof fn lemma_parse_counts(
    lines: Seq<Seq<char>>,
    n: int,
    headt: Seq<Seq<SpanV>>,
    baset: Seq<Seq<SpanV>>,
)
    requires
        0 <= n <= lines.len(),
    ensures
        spec_parse_fold(lines, n, headt, baset).adds == spec_added_count(lines, n, headt, baset),
        spec_parse_fold(lines, n, headt, baset).dels == spec_deleted_count(
            lines,
            n,
            headt,
            baset,
        ),
    decreases n,
{
    if n > 0 {
        lemma_parse_counts(lines, n - 1, headt, baset);
        let st = spec_parse_fold(lines, n - 1, headt, baset);
        let l = lines[n - 1];
        if spec_is_header(l) {
            assert(!spec_is_added(l));
            assert(!spec_is_deleted(l));
        }
    }
}

/// The parsed totals of a whole diff are exactly its declarative marker
/// counts, clamped into the record's fields: `additions` counts the `+`
/// lines inside hunks and `deletions` the `-` lines, with `+++` and `---`
/// file headers excluded.
pub proof fn lemma_stats_are_counts(
    lines: Seq<Seq<char>>,
    headt: Seq<Seq<SpanV>>,
    baset: Seq<Seq<SpanV>>,
)
    ensures
        spec_parse_stats(lines, headt, baset).0 == spec_sat_u32(
            spec_added_count(lines, lines.len() as int, headt, baset),
        ),
        spec_parse_stats(lines, headt, baset).1 == spec_sat_u32(
            spec_deleted_count(lines, lines.len() as int, headt, baset),
        ),
{
    lemma_parse_counts(lines, lines.len() as int, headt, baset);
}

} // verus!
