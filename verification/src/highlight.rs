//! Indexing whole-file highlight spans by line. The syntax highlighter is
//! an external collaborator that tokenizes a whole file at once into flat
//! byte-range spans; this module distributes those spans to the lines they
//! start on, converting each to line-relative byte offsets.

use vstd::prelude::*;

use crate::model::{spans_view, HighlightSpan, SpanV};
use crate::parse::table_view;
use vstd::string::StringSliceAdditionalSpecFns;

verus! {

/// The byte offsets at which the lines of a file start: zero, and one past
/// each newline byte. A newline byte never occurs inside a multi-byte
/// character, so scanning bytes finds exactly the line breaks.
pub open spec fn spec_line_offsets(bytes: Seq<u8>, n: int) -> Seq<int>
    decreases n,
{
    if n <= 0 {
        seq![0int]
    } else {
        let prev = spec_line_offsets(bytes, n - 1);
        if bytes[n - 1] == 10u8 {
            prev.push(n)
        } else {
            prev
        }
    }
}

/// The index of the line a byte offset falls on: the last line starting at
/// or before it.
pub open spec fn spec_line_idx(offs: Seq<int>, x: int) -> int
    decreases offs.len(),
{
    if offs.len() <= 1 {
        0
    } else if offs.last() <= x {
        offs.len() - 1
    } else {
        spec_line_idx(offs.drop_last(), x)
    }
}

/// One span distributed onto the per-line tables: clamped to the line it
/// starts on and shifted to line-relative offsets; a span with nothing left
/// on that line is dropped.
pub open spec fn spec_place_span(
    tables: Seq<Seq<SpanV>>,
    offs: Seq<int>,
    blen: int,
    s: SpanV,
) -> Seq<Seq<SpanV>> {
    let idx = spec_line_idx(offs, s.start);
    let line_start = offs[idx];
    let line_end = if idx + 1 < offs.len() {
        offs[idx + 1]
    } else {
        blen
    };
    let rel_start = s.start - line_start;
    let clamped_end = if s.end < line_end {
        s.end
    } else {
        line_end
    };
    let rel_end = if clamped_end >= line_start {
        clamped_end - line_start
    } else {
        0
    };
    if rel_start < rel_end {
        tables.update(idx, tables[idx].push(SpanV { start: rel_start, end: rel_end, scope: s.scope }))
    } else {
        tables
    }
}

/// The per-line tables after distributing the first `n` spans.
pub open spec fn spec_tables_after(
    offs: Seq<int>,
    blen: int,
    spans: Seq<SpanV>,
    n: int,
) -> Seq<Seq<SpanV>>
    decreases n,
{
    if n <= 0 {
        Seq::new(offs.len(), |i: int| Seq::<SpanV>::empty())
    } else {
        spec_place_span(spec_tables_after(offs, blen, spans, n - 1), offs, blen, spans[n - 1])
    }
}

/// The per-line highlight tables of a whole file: empty when the
/// highlighter produced no spans at all (the unsupported-language
/// degradation), or when the file is too large for span offsets.
pub open spec fn spec_file_tables(bytes: Seq<u8>, spans: Seq<SpanV>) -> Seq<Seq<SpanV>> {
    if spans.len() == 0 || bytes.len() > u32::MAX {
        Seq::empty()
    } else {
        spec_tables_after(
            spec_line_offsets(bytes, bytes.len() as int),
            bytes.len() as int,
            spans,
            spans.len() as int,
        )
    }
}

/// Line offsets start at zero and increase strictly.
proof fn lemma_offsets_sorted(bytes: Seq<u8>, n: int)
    requires
        0 <= n <= bytes.len(),
    ensures
        spec_line_offsets(bytes, n).len() >= 1,
        spec_line_offsets(bytes, n)[0] == 0,
        forall|a: int, b: int|
            0 <= a < b < spec_line_offsets(bytes, n).len() ==> #[trigger] spec_line_offsets(
                bytes,
                n,
            )[a] < #[trigger] spec_line_offsets(bytes, n)[b],
        forall|a: int|
            0 <= a < spec_line_offsets(bytes, n).len() ==> #[trigger] spec_line_offsets(
                bytes,
                n,
            )[a] <= n,
    decreases n,
{
    if n > 0 {
        lemma_offsets_sorted(bytes, n - 1);
    }
}

/// The chosen line starts at or before the given offset.
proof fn lemma_line_idx_le(offs: Seq<int>, x: int)
    requires
        offs.len() >= 1,
        offs[0] <= x,
    ensures
        0 <= spec_line_idx(offs, x) < offs.len(),
        offs[spec_line_idx(offs, x)] <= x,
    decreases offs.len(),
{
    if offs.len() <= 1 {
    } else if offs.last() <= x {
    } else {
        assert(offs.drop_last()[0] == offs[0]);
        lemma_line_idx_le(offs.drop_last(), x);
    }
}

/// Build the line-start offset table of a text.
fn line_offsets(content: &str) -> (r: Vec<u32>)
    requires
        content@.len() >= 0,
    ensures
        content.spec_bytes().len() <= u32::MAX ==> r@.len() == spec_line_offsets(
            content.spec_bytes(),
            content.spec_bytes().len() as int,
        ).len() && (forall|i: int|
            0 <= i < r@.len() ==> #[trigger] r@[i] as int == spec_line_offsets(
                content.spec_bytes(),
                content.spec_bytes().len() as int,
            )[i]),
{
    let bytes = content.as_bytes();
    let n: usize = bytes.len();
    let ghost bv = content.spec_bytes();
    proof {
        assert(n == bv.len());
    }
    let mut r: Vec<u32> = Vec::new();
    r.push(0);
    if n > u32::MAX as usize {
        return r;
    }
    let mut i: usize = 0;
    while i < n
        invariant
            i <= n,
            n == bv.len() <= u32::MAX,
            r@.len() == spec_line_offsets(bv, i as int).len(),
            forall|m: int|
                0 <= m < r@.len() ==> #[trigger] r@[m] as int == spec_line_offsets(
                    bv,
                    i as int,
                )[m],
        decreases n - i,
    {
        if bytes[i] == 10u8 {
            r.push((i + 1) as u32);
        }
        i = i + 1;
    }
    r
}

/// Find the line a byte offset falls on: the last line starting at or
/// before it.
fn line_idx_for(offs: &Vec<u32>, x: u32) -> (r: usize)
    requires
        offs@.len() >= 1,
        offs@[0] == 0,
        forall|a: int, b: int|
            0 <= a < b < offs@.len() ==> #[trigger] offs@[a] < #[trigger] offs@[b],
    ensures
        r as int == spec_line_idx(offs@.map_values(|o: u32| o as int), x as int),
        r < offs@.len(),
{
    let ghost oi = offs@.map_values(|o: u32| o as int);
    let mut e: usize = offs.len();
    proof {
        assert(oi.take(oi.len() as int) =~= oi);
    }
    while e > 1 && offs[e - 1] > x
        invariant
            1 <= e <= offs@.len(),
            spec_line_idx(oi, x as int) == spec_line_idx(oi.take(e as int), x as int),
            e < offs@.len() ==> offs@[e as int] > x,
        decreases e,
    {
        proof {
            let cur = oi.take(e as int);
            assert(cur.last() == oi[e - 1]);
            assert(cur.drop_last() =~= oi.take(e as int - 1));
        }
        e = e - 1;
    }
    proof {
        let cur = oi.take(e as int);
        if e > 1 {
            assert(cur.last() == oi[e - 1]);
            assert(cur.last() <= x);
            assert(spec_line_idx(cur, x as int) == e - 1);
        } else {
            assert(cur.len() == 1);
            assert(spec_line_idx(cur, x as int) == 0);
        }
    }
    e - 1
}

/// Distribute whole-file highlight spans onto the lines they start on,
/// each clamped to its line and shifted to line-relative byte offsets. An
/// empty span list yields an empty table.
pub fn highlight_file_lines(content: &str, spans: &Vec<HighlightSpan>) -> (r: Vec<
    Vec<HighlightSpan>,
>)
    ensures
        table_view(r@) == spec_file_tables(content.spec_bytes(), spans_view(spans@)),
{
    let ghost bv = content.spec_bytes();
    let ghost sv = spans_view(spans@);
    let cbytes = content.as_bytes();
    let cn: usize = cbytes.len();
    proof {
        assert(cn == bv.len());
    }
    if spans.len() == 0 || cn > u32::MAX as usize {
        let r: Vec<Vec<HighlightSpan>> = Vec::new();
        proof {
            assert(table_view(r@) =~= Seq::<Seq<SpanV>>::empty());
        }
        return r;
    }
    let blen: u32 = cn as u32;
    let offs = line_offsets(content);
    let ghost oi = offs@.map_values(|o: u32| o as int);
    proof {
        lemma_offsets_sorted(bv, bv.len() as int);
        assert(oi =~= spec_line_offsets(bv, bv.len() as int));
    }
    let num_lines: usize = offs.len();
    let mut tables: Vec<Vec<HighlightSpan>> = Vec::new();
    let mut z: usize = 0;
    while z < num_lines
        invariant
            z <= num_lines,
            tables@.len() == z,
            forall|m: int| 0 <= m < z ==> #[trigger] tables@[m]@.len() == 0,
        decreases num_lines - z,
    {
        let e: Vec<HighlightSpan> = Vec::new();
        tables.push(e);
        z = z + 1;
    }
    proof {
        assert(table_view(tables@) =~~= spec_tables_after(oi, bv.len() as int, sv, 0));
    }
    let mut k: usize = 0;
    while k < spans.len()
        invariant
            k <= spans@.len(),
            tables@.len() == num_lines,
            num_lines == oi.len(),
            table_view(tables@) == spec_tables_after(oi, bv.len() as int, sv, k as int),
        decreases spans@.len() - k,
    {
        let s = &spans[k];
        proof {
            assert(sv[k as int] == spans@[k as int]@);
        }
        let idx = line_idx_for(&offs, s.start);
        proof {
            lemma_line_idx_le(oi, s.start as int);
        }
        let line_start: u32 = offs[idx];
        let line_end: u32 = if idx + 1 < offs.len() {
            offs[idx + 1]
        } else {
            blen
        };
        let rel_start: u32 = s.start - line_start;
        let clamped_end: u32 = if s.end < line_end {
            s.end
        } else {
            line_end
        };
        let rel_end: u32 = if clamped_end >= line_start {
            clamped_end - line_start
        } else {
            0
        };
        let ghost tv0 = table_view(tables@);
        let ghost t0 = tables@;
        if rel_start < rel_end {
            let ns = HighlightSpan { start: rel_start, end: rel_end, scope: s.scope.clone() };
            let ghost row0 = tables@[idx as int]@;
            let mut row = tables.remove(idx);
            row.push(ns);
            tables.insert(idx, row);
            proof {
                assert(tables@ =~= t0.update(idx as int, tables@[idx as int]));
                assert(tables@[idx as int]@ =~= row0.push(ns));
                assert(table_view(tables@) =~~= tv0.update(
                    idx as int,
                    tv0[idx as int].push(ns@),
                ));
                assert(ns@ == SpanV {
                    start: rel_start as int,
                    end: rel_end as int,
                    scope: sv[k as int].scope,
                });
            }
        }
        proof {
            assert(table_view(tables@) =~~= spec_place_span(tv0, oi, bv.len() as int, sv[k as int]));
        }
        k = k + 1;
    }
    proof {
        assert(table_view(tables@) == spec_file_tables(bv, sv));
    }
    tables
}

/// The span list of one line highlighted in isolation: the tokenization of
/// the line clamped to it, in line-relative byte offsets. This is the
/// per-line fallback when no whole-file tokenization exists; with no spans
/// it degrades to an empty list.
pub open spec fn spec_highlight_line(bytes: Seq<u8>, spans: Seq<SpanV>) -> Seq<SpanV> {
    let t = spec_file_tables(bytes, spans);
    if t.len() > 0 {
        t[0]
    } else {
        Seq::empty()
    }
}

/// Highlight a single line in isolation from the spans the highlighter
/// returned for its text: the first row of the per-line distribution.
pub fn highlight_line(line: &str, spans: &Vec<HighlightSpan>) -> (r: Vec<HighlightSpan>)
    ensures
        spans_view(r@) == spec_highlight_line(line.spec_bytes(), spans_view(spans@)),
{
    let mut tables = highlight_file_lines(line, spans);
    if tables.len() > 0 {
        let row = tables.remove(0);
        proof {
            assert(spans_view(row@) == table_view(tables@.insert(0, row))[0]);
        }
        row
    } else {
        let r: Vec<HighlightSpan> = Vec::new();
        proof {
            assert(spans_view(r@) =~= Seq::<SpanV>::empty());
        }
        r
    }
}

} // verus!
