//! Data model of the diff engine: spans, lines, hunks, stats, and the
//! finished per-file diff record, together with their mathematical views.

use vstd::prelude::*;

verus! {

/// One byte-range annotation on a single line of text, tagged with a syntax
/// or change category such as `"keyword"` or `"word-added"`. `start` and
/// `end` are byte offsets into the line's UTF-8 encoding, half open.
#[derive(Debug, Clone, PartialEq, Eq)]
pub struct HighlightSpan {
    pub start: u32,
    pub end: u32,
    pub scope: String,
}

/// Mathematical view of a [`HighlightSpan`].
pub struct SpanV {
    pub start: int,
    pub end: int,
    pub scope: Seq<char>,
}

impl View for HighlightSpan {
    type V = SpanV;

    open spec fn view(&self) -> SpanV {
        SpanV { start: self.start as int, end: self.end as int, scope: self.scope@ }
    }
}

/// View of a whole span list.
pub open spec fn spans_view(s: Seq<HighlightSpan>) -> Seq<SpanV> {
    s.map_values(|h: HighlightSpan| h@)
}

/// Running totals of added and deleted lines across a diff.
#[derive(Debug, Clone, PartialEq, Eq)]
pub struct DiffStats {
    pub additions: u32,
    pub deletions: u32,
}

/// One emitted diff line: its classification (`"context"`, `"added"` or
/// `"deleted"`), the text with the leading marker stripped, the line numbers
/// on each side where present, and its fused highlight spans.
#[derive(Debug, Clone, PartialEq, Eq)]
pub struct DiffLine {
    pub line_type: String,
    pub content: String,
    pub old_line_num: Option<u32>,
    pub new_line_num: Option<u32>,
    pub highlights: Vec<HighlightSpan>,
}

/// Mathematical view of a [`DiffLine`].
pub struct DiffLineV {
    pub line_type: Seq<char>,
    pub content: Seq<char>,
    pub old_line_num: Option<u32>,
    pub new_line_num: Option<u32>,
    pub highlights: Seq<SpanV>,
}

impl View for DiffLine {
    type V = DiffLineV;

    open spec fn view(&self) -> DiffLineV {
        DiffLineV {
            line_type: self.line_type@,
            content: self.content@,
            old_line_num: self.old_line_num,
            new_line_num: self.new_line_num,
            highlights: spans_view(self.highlights@),
        }
    }
}

/// View of a list of diff lines.
pub open spec fn lines_view(s: Seq<DiffLine>) -> Seq<DiffLineV> {
    s.map_values(|l: DiffLine| l@)
}

/// One hunk of a unified diff: the `@@` header line, the four numbers parsed
/// from it, and the lines in source order.
#[derive(Debug, Clone, PartialEq, Eq)]
pub struct Hunk {
    pub header: String,
    pub old_start: u32,
    pub old_lines: u32,
    pub new_start: u32,
    pub new_lines: u32,
    pub lines: Vec<DiffLine>,
}

/// Mathematical view of a [`Hunk`].
pub struct HunkV {
    pub header: Seq<char>,
    pub old_start: u32,
    pub old_lines: u32,
    pub new_start: u32,
    pub new_lines: u32,
    pub lines: Seq<DiffLineV>,
}

impl View for Hunk {
    type V = HunkV;

    open spec fn view(&self) -> HunkV {
        HunkV {
            header: self.header@,
            old_start: self.old_start,
            old_lines: self.old_lines,
            new_start: self.new_start,
            new_lines: self.new_lines,
            lines: lines_view(self.lines@),
        }
    }
}

/// View of a list of hunks.
pub open spec fn hunks_view(s: Seq<Hunk>) -> Seq<HunkV> {
    s.map_values(|h: Hunk| h@)
}

/// The finished diff record for one file: its path, the hunks, a fingerprint
/// of the content the diff was computed from, and the line totals.
#[derive(Debug, Clone, PartialEq, Eq)]
pub struct FileDiff {
    pub path: String,
    pub hunks: Vec<Hunk>,
    pub content_hash: String,
    pub stats: DiffStats,
}

/// Mathematical view of a [`FileDiff`].
pub struct FileDiffV {
    pub path: Seq<char>,
    pub hunks: Seq<HunkV>,
    pub content_hash: Seq<char>,
    pub additions: u32,
    pub deletions: u32,
}

impl View for FileDiff {
    type V = FileDiffV;

    open spec fn view(&self) -> FileDiffV {
        FileDiffV {
            path: self.path@,
            hunks: hunks_view(self.hunks@),
            content_hash: self.content_hash@,
            additions: self.stats.additions,
            deletions: self.stats.deletions,
        }
    }
}

/// Copy a span list; the copy views the same, character for character.
pub fn clone_spans(v: &Vec<HighlightSpan>) -> (r: Vec<HighlightSpan>)
    ensures
        r@ == v@,
{
    let mut r: Vec<HighlightSpan> = Vec::new();
    let mut i: usize = 0;
    while i < v.len()
        invariant
            i <= v@.len(),
            r@ == v@.take(i as int),
        decreases v@.len() - i,
    {
        let s = &v[i];
        let copied = HighlightSpan { start: s.start, end: s.end, scope: s.scope.clone() };
        proof {
            assert(copied == v@[i as int]);
        }
        r.push(copied);
        assert(r@ =~= v@.take(i as int + 1));
        i = i + 1;
    }
    assert(r@ =~= v@);
    r
}

} // verus!
