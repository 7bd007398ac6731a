//! The synthetic diff builder: when a file is wholly new or wholly deleted
//! there is no diff text to parse, so one hunk is built directly from the
//! file's content, every line classified uniformly and numbered from one.

use vstd::prelude::*;

use crate::model::{
    hunks_view, lines_view, spans_view, DiffLine, DiffLineV, DiffStats, HighlightSpan, Hunk,
    HunkV, SpanV,
};
use crate::parse::table_view;
use crate::spec_sat_u32;
use crate::text::{chars_of, spec_lines, spec_u32_dec, split_lines_chars, string_from_chars,
    u32_dec_string};

verus! {

/// The spans for zero-based line `i` of a whole-file table; lines past the
/// table get none.
pub open spec fn spec_tbl_at(tbl: Seq<Seq<SpanV>>, i: int) -> Seq<SpanV> {
    if 0 <= i < tbl.len() {
        tbl[i]
    } else {
        Seq::empty()
    }
}

/// The lines of a synthetic diff over `ls`: all added when `added` holds,
/// all deleted otherwise, numbered from one on the corresponding side, with
/// each line's spans taken from the whole-file table.
pub open spec fn spec_synth_lines(ls: Seq<Seq<char>>, tbl: Seq<Seq<SpanV>>, added: bool) -> Seq<
    DiffLineV,
> {
    Seq::new(
        ls.len(),
        |i: int|
            DiffLineV {
                line_type: if added {
                    "added"@
                } else {
                    "deleted"@
                },
                content: ls[i],
                old_line_num: if added {
                    Option::None
                } else {
                    Option::Some(spec_sat_u32(i + 1))
                },
                new_line_num: if added {
                    Option::Some(spec_sat_u32(i + 1))
                } else {
                    Option::None
                },
                highlights: spec_tbl_at(tbl, i),
            },
    )
}

/// The header of a synthetic new-file hunk over `n` lines.
pub open spec fn spec_new_file_header(n: u32) -> Seq<char> {
    "@@ -0,0 +1,"@ + spec_u32_dec(n as int) + " @@ New file"@
}

/// The header of a synthetic deleted-file hunk over `n` lines.
pub open spec fn spec_deleted_file_header(n: u32) -> Seq<char> {
    "@@ -1,"@ + spec_u32_dec(n as int) + " +0,0 @@ Deleted file"@
}

/// The one hunk of a synthetic new-file diff over the lines `ls`.
pub open spec fn spec_new_file_hunk(ls: Seq<Seq<char>>, tbl: Seq<Seq<SpanV>>) -> HunkV {
    let n = spec_sat_u32(ls.len() as int);
    HunkV {
        header: spec_new_file_header(n),
        old_start: 0,
        old_lines: 0,
        new_start: 1,
        new_lines: n,
        lines: spec_synth_lines(ls, tbl, true),
    }
}

/// The one hunk of a synthetic deleted-file diff over the lines `ls`.
pub open spec fn spec_deleted_file_hunk(ls: Seq<Seq<char>>, tbl: Seq<Seq<SpanV>>) -> HunkV {
    let n = spec_sat_u32(ls.len() as int);
    HunkV {
        header: spec_deleted_file_header(n),
        old_start: 1,
        old_lines: n,
        new_start: 0,
        new_lines: 0,
        lines: spec_synth_lines(ls, tbl, false),
    }
}

/// Build the diff lines of a synthetic hunk.
fn build_synth_lines(lines: &Vec<Vec<char>>, tbl: &Vec<Vec<HighlightSpan>>, added: bool) -> (r:
    Vec<DiffLine>)
    ensures
        lines_view(r@) == spec_synth_lines(lines.deep_view(), table_view(tbl@), added),
{
    let ghost lsv = lines.deep_view();
    let ghost tblv = table_view(tbl@);
    let mut r: Vec<DiffLine> = Vec::new();
    let mut i: usize = 0;
    while i < lines.len()
        invariant
            i <= lines@.len(),
            r@.len() == i,
            forall|m: int| 0 <= m < i ==> #[trigger] r@[m]@ == spec_synth_lines(lsv, tblv, added)[m],
        decreases lines@.len() - i,
    {
        let content = string_from_chars(&lines[i]);
        proof {
            assert(lines@[i as int].deep_view() =~= lines@[i as int]@);
            assert(content@ == lsv[i as int]);
        }
        let hl: Vec<HighlightSpan> = if i < tbl.len() {
            proof {
                assert(tblv[i as int] == spans_view(tbl@[i as int]@));
            }
            crate::model::clone_spans(&tbl[i])
        } else {
            let e: Vec<HighlightSpan> = Vec::new();
            proof {
                assert(spans_view(e@) =~= Seq::<SpanV>::empty());
            }
            e
        };
        let ln: u32 = crate::sat_u32((i + 1) as u128);
        let dl = DiffLine {
            line_type: if added {
                "added".to_owned()
            } else {
                "deleted".to_owned()
            },
            content,
            old_line_num: if added {
                None
            } else {
                Some(ln)
            },
            new_line_num: if added {
                Some(ln)
            } else {
                None
            },
            highlights: hl,
        };
        proof {
            assert(dl@ == spec_synth_lines(lsv, tblv, added)[i as int]);
        }
        r.push(dl);
        i = i + 1;
    }
    proof {
        assert(lines_view(r@) =~= spec_synth_lines(lsv, tblv, added));
    }
    r
}


/// Build a synthetic diff for a wholly new file: one hunk covering every
/// line of the content, all lines added and numbered from one, header
/// `@@ -0,0 +1,N @@`; an empty file yields no hunks and zero totals. Spans
/// come from the caller-supplied whole-file table.
pub fn generate_new_file_diff(content: &str, file_highlights: &Vec<Vec<HighlightSpan>>) -> (r: (
    Vec<Hunk>,
    DiffStats,
))
    ensures
        spec_lines(content@).len() == 0 ==> r.0@.len() == 0,
        spec_lines(content@).len() > 0 ==> hunks_view(r.0@) == seq![
            spec_new_file_hunk(spec_lines(content@), table_view(file_highlights@)),
        ],
        r.1.additions == spec_sat_u32(spec_lines(content@).len() as int),
        r.1.deletions == 0,
{
    let cs = chars_of(content);
    let lines = split_lines_chars(&cs);
    let n: u32 = crate::sat_u32(lines.len() as u128);
    if lines.len() == 0 {
        let hunks: Vec<Hunk> = Vec::new();
        return (hunks, DiffStats { additions: 0, deletions: 0 });
    }
    let diff_lines = build_synth_lines(&lines, file_highlights, true);
    let mut header = String::new();
    header.append("@@ -0,0 +1,");
    let ns = u32_dec_string(n);
    header.append(ns.as_str());
    header.append(" @@ New file");
    let hunk = Hunk {
        header,
        old_start: 0,
        old_lines: 0,
        new_start: 1,
        new_lines: n,
        lines: diff_lines,
    };
    proof {
        assert(hunk@ == spec_new_file_hunk(spec_lines(content@), table_view(file_highlights@)));
    }
    let mut hunks: Vec<Hunk> = Vec::new();
    hunks.push(hunk);
    proof {
        assert(hunks_view(hunks@) =~= seq![
            spec_new_file_hunk(spec_lines(content@), table_view(file_highlights@)),
        ]);
    }
    (hunks, DiffStats { additions: n, deletions: 0 })
}

/// Build a synthetic diff for a wholly deleted file: one hunk covering
/// every line, all lines deleted and numbered from one, header
/// `@@ -1,N +0,0 @@`; an empty file yields no hunks and zero totals.
pub fn generate_deleted_file_diff(content: &str, file_highlights: &Vec<Vec<HighlightSpan>>) -> (r:
    (Vec<Hunk>, DiffStats))
    ensures
        spec_lines(content@).len() == 0 ==> r.0@.len() == 0,
        spec_lines(content@).len() > 0 ==> hunks_view(r.0@) == seq![
            spec_deleted_file_hunk(spec_lines(content@), table_view(file_highlights@)),
        ],
        r.1.deletions == spec_sat_u32(spec_lines(content@).len() as int),
        r.1.additions == 0,
{
    let cs = chars_of(content);
    let lines = split_lines_chars(&cs);
    let n: u32 = crate::sat_u32(lines.len() as u128);
    if lines.len() == 0 {
        let hunks: Vec<Hunk> = Vec::new();
        return (hunks, DiffStats { additions: 0, deletions: 0 });
    }
    let diff_lines = build_synth_lines(&lines, file_highlights, false);
    let mut header = String::new();
    header.append("@@ -1,");
    let ns = u32_dec_string(n);
    header.append(ns.as_str());
    header.append(" +0,0 @@ Deleted file");
    let hunk = Hunk {
        header,
        old_start: 1,
        old_lines: n,
        new_start: 0,
        new_lines: 0,
        lines: diff_lines,
    };
    proof {
        assert(hunk@ == spec_deleted_file_hunk(
            spec_lines(content@),
            table_view(file_highlights@),
        ));
    }
    let mut hunks: Vec<Hunk> = Vec::new();
    hunks.push(hunk);
    proof {
        assert(hunks_view(hunks@) =~= seq![
            spec_deleted_file_hunk(spec_lines(content@), table_view(file_highlights@)),
        ]);
    }
    (hunks, DiffStats { additions: 0, deletions: n })
}

/// A synthetic new-file diff over a `K`-line file has exactly one hunk of
/// `K` lines, every one `added` with new line numbers running 1..K and no
/// old number, and the hunk's old side is `0,0`.
pub proof fn lemma_new_file_shape(ls: Seq<Seq<char>>, tbl: Seq<Seq<SpanV>>)
    requires
        ls.len() > 0,
    ensures
        spec_new_file_hunk(ls, tbl).lines.len() == ls.len(),
        spec_new_file_hunk(ls, tbl).old_start == 0,
        spec_new_file_hunk(ls, tbl).old_lines == 0,
        spec_new_file_hunk(ls, tbl).new_start == 1,
        forall|i: int|
            0 <= i < ls.len() ==> #[trigger] spec_new_file_hunk(ls, tbl).lines[i].line_type
                == "added"@,
        forall|i: int|
            0 <= i < ls.len() ==> #[trigger] spec_new_file_hunk(ls, tbl).lines[i].new_line_num
                == Option::Some(spec_sat_u32(i + 1)),
        forall|i: int|
            0 <= i < ls.len() ==> #[trigger] spec_new_file_hunk(ls, tbl).lines[i].old_line_num
                is None,
{
}

/// A synthetic deleted-file diff over a `K`-line file has exactly one hunk
/// of `K` lines, every one `deleted` with old line numbers running 1..K and
/// no new number, and the hunk's new side is `0,0`.
pub proof fn lemma_deleted_file_shape(ls: Seq<Seq<char>>, tbl: Seq<Seq<SpanV>>)
    requires
        ls.len() > 0,
    ensures
        spec_deleted_file_hunk(ls, tbl).lines.len() == ls.len(),
        spec_deleted_file_hunk(ls, tbl).new_start == 0,
        spec_deleted_file_hunk(ls, tbl).new_lines == 0,
        spec_deleted_file_hunk(ls, tbl).old_start == 1,
        forall|i: int|
            0 <= i < ls.len() ==> #[trigger] spec_deleted_file_hunk(ls, tbl).lines[i].line_type
                == "deleted"@,
        forall|i: int|
            0 <= i < ls.len() ==> #[trigger] spec_deleted_file_hunk(
                ls,
                tbl,
            ).lines[i].old_line_num == Option::Some(spec_sat_u32(i + 1)),
        forall|i: int|
            0 <= i < ls.len() ==> #[trigger] spec_deleted_file_hunk(
                ls,
                tbl,
            ).lines[i].new_line_num is None,
{
}

} // verus!
