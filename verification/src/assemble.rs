//! Diff assembly: decide between the parsed and the synthetic path, compute
//! the content fingerprint, and produce the finished per-file record. The
//! raw diff text and file contents come from the revision text provider and
//! the highlight spans from the syntax highlighter; both are collaborators
//! of the caller, and this module is a pure function of what they returned.

use vstd::prelude::*;

use crate::fingerprint::{compute_hash, spec_content_hash};
use crate::highlight::{highlight_file_lines, spec_file_tables};
use crate::model::{
    hunks_view, spans_view, DiffStats, FileDiff, FileDiffV, HighlightSpan, SpanV,
};
use crate::parse::{
    parse_diff_with_highlights, spec_parse_hunks, spec_parse_stats, table_view,
};
use crate::spec_sat_u32;
use crate::synthetic::{
    generate_deleted_file_diff, generate_new_file_diff, spec_deleted_file_hunk,
    spec_new_file_hunk,
};
use crate::text::spec_lines;
use crate::worddiff::spec_apply_word;
use vstd::string::StringSliceAdditionalSpecFns;

verus! {

/// Is this a White_Space character, as `char::is_whitespace` decides it?
pub open spec fn spec_is_ws(c: char) -> bool {
    ||| (9 <= c as u32 && c as u32 <= 13)
    ||| c as u32 == 0x20
    ||| c as u32 == 0x85
    ||| c as u32 == 0xA0
    ||| c as u32 == 0x1680
    ||| (0x2000 <= c as u32 && c as u32 <= 0x200A)
    ||| c as u32 == 0x2028
    ||| c as u32 == 0x2029
    ||| c as u32 == 0x202F
    ||| c as u32 == 0x205F
    ||| c as u32 == 0x3000
}

/// Is the text empty after trimming whitespace — that is, all whitespace?
pub open spec fn spec_is_blank(s: Seq<char>) -> bool {
    forall|i: int| 0 <= i < s.len() ==> spec_is_ws(#[trigger] s[i])
}

/// Whitespace test on one character.
fn is_ws(c: char) -> (r: bool)
    ensures
        r == spec_is_ws(c),
{
    let u: u32 = c as u32;
    (9 <= u && u <= 13) || u == 0x20 || u == 0x85 || u == 0xA0 || u == 0x1680 || (0x2000 <= u
        && u <= 0x200A) || u == 0x2028 || u == 0x2029 || u == 0x202F || u == 0x205F || u
        == 0x3000
}

/// Does the text hold only whitespace?
pub fn is_blank(s: &str) -> (r: bool)
    ensures
        r == spec_is_blank(s@),
{
    let n: usize = s.unicode_len();
    let mut i: usize = 0;
    while i < n
        invariant
            i <= n,
            n == s@.len(),
            forall|j: int| 0 <= j < i ==> spec_is_ws(#[trigger] s@[j]),
        decreases n - i,
    {
        let c = s.get_char(i);
        if !is_ws(c) {
            return false;
        }
        i = i + 1;
    }
    true
}

/// View of an optional text.
pub open spec fn opt_text_view(o: Option<String>) -> Option<Seq<char>> {
    match o {
        Option::None => Option::None,
        Option::Some(s) => Option::Some(s@),
    }
}

/// The per-line highlight tables of one side: built from that side's whole
/// file when its content exists, empty otherwise.
pub open spec fn spec_side_tables(content: Option<Seq<char>>, spans: Seq<SpanV>) -> Seq<
    Seq<SpanV>,
> {
    match content {
        Option::Some(c) => spec_file_tables(vstd::utf8::encode_utf8(c), spans),
        Option::None => Seq::empty(),
    }
}

/// The finished diff record of one request, as a pure function of what the
/// collaborators returned. A blank diff text together with content on
/// exactly one side takes the synthetic path — the file is wholly new or
/// wholly deleted; anything else parses the diff text. The fingerprint
/// covers the diff text on the parsed path and the whole file content on a
/// synthetic one.
pub open spec fn spec_assemble(
    path: Seq<char>,
    diff: Seq<char>,
    head: Option<Seq<char>>,
    base: Option<Seq<char>>,
    head_spans: Seq<SpanV>,
    base_spans: Seq<SpanV>,
) -> FileDiffV {
    let headt = spec_side_tables(head, head_spans);
    let baset = spec_side_tables(base, base_spans);
    if spec_is_blank(diff) && base is None && head is Some {
        let ls = spec_lines(head->0);
        FileDiffV {
            path,
            hunks: if ls.len() == 0 {
                Seq::empty()
            } else {
                seq![spec_new_file_hunk(ls, headt)]
            },
            content_hash: spec_content_hash(head->0),
            additions: spec_sat_u32(ls.len() as int),
            deletions: 0,
        }
    } else if spec_is_blank(diff) && head is None && base is Some {
        let ls = spec_lines(base->0);
        FileDiffV {
            path,
            hunks: if ls.len() == 0 {
                Seq::empty()
            } else {
                seq![spec_deleted_file_hunk(ls, baset)]
            },
            content_hash: spec_content_hash(base->0),
            additions: 0,
            deletions: spec_sat_u32(ls.len() as int),
        }
    } else {
        FileDiffV {
            path,
            hunks: spec_apply_word(spec_parse_hunks(spec_lines(diff), headt, baset)),
            content_hash: spec_content_hash(diff),
            additions: spec_parse_stats(spec_lines(diff), headt, baset).0,
            deletions: spec_parse_stats(spec_lines(diff), headt, baset).1,
        }
    }
}

/// Assemble the finished diff record for one file from the raw diff text,
/// the file content on each side where it exists, and the whole-file
/// highlight spans of each side.
pub fn assemble_file_diff(
    file_path: String,
    diff_text: &str,
    head_content: &Option<String>,
    base_content: &Option<String>,
    head_spans: &Vec<HighlightSpan>,
    base_spans: &Vec<HighlightSpan>,
) -> (r: FileDiff)
    ensures
        r@ == spec_assemble(
            file_path@,
            diff_text@,
            opt_text_view(*head_content),
            opt_text_view(*base_content),
            spans_view(head_spans@),
            spans_view(base_spans@),
        ),
{
    let ghost headv = opt_text_view(*head_content);
    let ghost basev = opt_text_view(*base_content);
    let head_tbl: Vec<Vec<HighlightSpan>> = match head_content {
        Some(c) => highlight_file_lines(c.as_str(), head_spans),
        None => Vec::new(),
    };
    let base_tbl: Vec<Vec<HighlightSpan>> = match base_content {
        Some(c) => highlight_file_lines(c.as_str(), base_spans),
        None => Vec::new(),
    };
    proof {
        assert(table_view(head_tbl@) =~~= spec_side_tables(headv, spans_view(head_spans@)));
        assert(table_view(base_tbl@) =~~= spec_side_tables(basev, spans_view(base_spans@)));
    }
    let blank = is_blank(diff_text);
    if blank && base_content.is_none() && head_content.is_some() {
        let hash: String;
        let hunks_stats: (Vec<crate::model::Hunk>, DiffStats);
        match head_content {
            Some(c) => {
                hash = compute_hash(c.as_str());
                hunks_stats = generate_new_file_diff(c.as_str(), &head_tbl);
            },
            None => {
                hash = String::new();
                hunks_stats = (Vec::new(), DiffStats { additions: 0, deletions: 0 });
            },
        }
        let (hunks, stats) = hunks_stats;
        let r = FileDiff { path: file_path, hunks, content_hash: hash, stats };
        proof {
            if spec_lines(headv->0).len() == 0 {
                assert(hunks_view(r.hunks@) =~= Seq::<crate::model::HunkV>::empty());
            }
        }
        r
    } else if blank && head_content.is_none() && base_content.is_some() {
        let hash: String;
        let hunks_stats: (Vec<crate::model::Hunk>, DiffStats);
        match base_content {
            Some(c) => {
                hash = compute_hash(c.as_str());
                hunks_stats = generate_deleted_file_diff(c.as_str(), &base_tbl);
            },
            None => {
                hash = String::new();
                hunks_stats = (Vec::new(), DiffStats { additions: 0, deletions: 0 });
            },
        }
        let (hunks, stats) = hunks_stats;
        let r = FileDiff { path: file_path, hunks, content_hash: hash, stats };
        proof {
            if spec_lines(basev->0).len() == 0 {
                assert(hunks_view(r.hunks@) =~= Seq::<crate::model::HunkV>::empty());
            }
        }
        r
    } else {
        let hash = compute_hash(diff_text);
        let (hunks, stats) = parse_diff_with_highlights(diff_text, &head_tbl, &base_tbl);
        FileDiff { path: file_path, hunks, content_hash: hash, stats }
    }
}

/// Assembling is deterministic: the finished record is a pure function of
/// the raw diff text, the file contents and the highlight spans, so two
/// computations over identical inputs yield equal records — structure and
/// fingerprint alike.
pub proof fn lemma_assemble_deterministic(
    r1: FileDiffV,
    r2: FileDiffV,
    path: Seq<char>,
    diff: Seq<char>,
    head: Option<Seq<char>>,
    base: Option<Seq<char>>,
    head_spans: Seq<SpanV>,
    base_spans: Seq<SpanV>,
)
    requires
        r1 == spec_assemble(path, diff, head, base, head_spans, base_spans),
        r2 == spec_assemble(path, diff, head, base, head_spans, base_spans),
    ensures
        r1 == r2,
{
}

} // verus!
