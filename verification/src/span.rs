//! Span fusion: merging whole-line syntax spans with word-level change
//! ranges into one ordered, non-overlapping span list per line. At any byte
//! covered by both layers the word-change category wins; bytes covered by
//! neither are omitted.

use vstd::prelude::*;

use crate::model::{spans_view, HighlightSpan, SpanV};

verus! {

/// Byte length of a string under its UTF-8 encoding, as the machine's
/// `str::len` reports it.
pub open spec fn byte_len(s: Seq<char>) -> int {
    (vstd::utf8::encode_utf8(s).len() as usize) as int
}

/// Clamp an offset to the line length.
pub open spec fn clamp_to(x: int, len: int) -> int {
    if x > len {
        len
    } else {
        x
    }
}

/// The syntax category of byte `i` after painting the first `n` spans in
/// order: the last span covering `i` wins, spans being clamped to the line.
pub open spec fn syntax_cat_upto(spans: Seq<SpanV>, len: int, n: int, i: int) -> Option<
    Seq<char>,
>
    decreases n,
{
    if n <= 0 || n > spans.len() {
        None
    } else {
        let s = spans[n - 1];
        let lo = clamp_to(s.start, len);
        let hi = clamp_to(s.end, len);
        if lo <= i < hi {
            Some(s.scope)
        } else {
            syntax_cat_upto(spans, len, n - 1, i)
        }
    }
}

/// The syntax category of byte `i` under a span list.
pub open spec fn syntax_cat(spans: Seq<SpanV>, len: int, i: int) -> Option<Seq<char>> {
    syntax_cat_upto(spans, len, spans.len() as int, i)
}

/// Is byte `i` inside one of the first `n` word-change ranges, each clamped
/// to the line?
pub open spec fn word_cov_upto(words: Seq<(usize, usize)>, len: int, n: int, i: int) -> bool
    decreases n,
{
    if n <= 0 || n > words.len() {
        false
    } else {
        let lo = clamp_to(words[n - 1].0 as int, len);
        let hi = clamp_to(words[n - 1].1 as int, len);
        (lo <= i < hi) || word_cov_upto(words, len, n - 1, i)
    }
}

/// Is byte `i` inside some word-change range?
pub open spec fn word_covered(words: Seq<(usize, usize)>, len: int, i: int) -> bool {
    word_cov_upto(words, len, words.len() as int, i)
}

/// The fused category of byte `i`: the word-change category at any byte a
/// word range covers, else the syntax category, else nothing.
pub open spec fn fused_cat(
    syntax: Seq<SpanV>,
    words: Seq<(usize, usize)>,
    wscope: Seq<char>,
    len: int,
    i: int,
) -> Option<Seq<char>> {
    if word_covered(words, len, i) {
        Some(wscope)
    } else {
        syntax_cat(syntax, len, i)
    }
}

/// The per-byte category table of a whole line.
pub open spec fn fused_cats(
    syntax: Seq<SpanV>,
    words: Seq<(usize, usize)>,
    wscope: Seq<char>,
    len: int,
) -> Seq<Option<Seq<char>>> {
    Seq::new(len as nat, |i: int| fused_cat(syntax, words, wscope, len, i))
}

/// Run-length encoding of a per-byte category table into spans, carrying the
/// currently open run. A `None` byte closes the run; a byte of another
/// category closes it and opens a new one.
pub open spec fn rle_core(cats: Seq<Option<Seq<char>>>, i: int, cur: Option<SpanV>) -> Seq<
    SpanV,
>
    decreases cats.len() - i,
{
    if i < 0 || i >= cats.len() {
        match cur {
            Option::None => Seq::empty(),
            Option::Some(s) => seq![s],
        }
    } else {
        match (cur, cats[i]) {
            (Option::None, Option::None) => rle_core(cats, i + 1, Option::None),
            (Option::None, Option::Some(c)) => rle_core(
                cats,
                i + 1,
                Option::Some(SpanV { start: i, end: i + 1, scope: c }),
            ),
            (Option::Some(s), Option::None) => seq![s] + rle_core(cats, i + 1, Option::None),
            (Option::Some(s), Option::Some(c)) => if c == s.scope {
                rle_core(
                    cats,
                    i + 1,
                    Option::Some(SpanV { start: s.start, end: i + 1, scope: s.scope }),
                )
            } else {
                seq![s] + rle_core(
                    cats,
                    i + 1,
                    Option::Some(SpanV { start: i, end: i + 1, scope: c }),
                )
            },
        }
    }
}

/// Run-length encoding of a category table.
pub open spec fn rle(cats: Seq<Option<Seq<char>>>) -> Seq<SpanV> {
    rle_core(cats, 0, Option::None)
}

/// The fused span list of one line: the run-length encoding of its per-byte
/// categories. A line longer than `u32::MAX` bytes cannot be represented in
/// span offsets and yields no spans.
pub open spec fn spec_fuse(
    len: int,
    syntax: Seq<SpanV>,
    words: Seq<(usize, usize)>,
    wscope: Seq<char>,
) -> Seq<SpanV> {
    if len > u32::MAX {
        Seq::empty()
    } else {
        rle(fused_cats(syntax, words, wscope, len))
    }
}

/// View of an optional owned scope string.
pub open spec fn opt_scope_view(o: Option<String>) -> Option<Seq<char>> {
    match o {
        Option::None => Option::None,
        Option::Some(s) => Option::Some(s@),
    }
}

/// The open run encoded by the merge loop's state.
pub open spec fn cur_view(scope: Option<String>, start: int, end: int) -> Option<SpanV> {
    match scope {
        Option::None => Option::None,
        Option::Some(s) => Option::Some(SpanV { start: start, end: end, scope: s@ }),
    }
}

/// Merge one line's syntax spans with its word-change byte ranges into a
/// single ordered, non-overlapping span list. Bytes covered by a word range
/// carry `word_scope`; other bytes keep their syntax category; bytes with
/// neither are omitted. Offsets are byte offsets into the line's UTF-8
/// encoding.
pub fn merge_word_highlights(
    content: &str,
    syntax_spans: &Vec<HighlightSpan>,
    word_ranges: &Vec<(usize, usize)>,
    word_scope: &str,
) -> (r: Vec<HighlightSpan>)
    ensures
        spans_view(r@) == spec_fuse(
            byte_len(content@),
            spans_view(syntax_spans@),
            word_ranges@,
            word_scope@,
        ),
{
    let ghost lenv = byte_len(content@);
    let ghost synv = spans_view(syntax_spans@);
    let ghost wordsv = word_ranges@;
    let ghost wsv = word_scope@;
    let len: usize = content.len();
    if len == 0 {
        let r: Vec<HighlightSpan> = Vec::new();
        proof {
            assert(fused_cats(synv, wordsv, wsv, 0).len() == 0);
            assert(spans_view(r@) =~= spec_fuse(0, synv, wordsv, wsv));
        }
        return r;
    }
    if len > u32::MAX as usize {
        let r: Vec<HighlightSpan> = Vec::new();
        proof {
            assert(spans_view(r@) =~= spec_fuse(lenv, synv, wordsv, wsv));
        }
        return r;
    }
    // Paint the syntax layer byte by byte; a later span overwrites an
    // earlier one.
    let mut cat: Vec<Option<String>> = Vec::new();
    let mut z: usize = 0;
    while z < len
        invariant
            z <= len,
            cat@.len() == z,
            forall|i: int| 0 <= i < z ==> cat@[i] is None,
        decreases len - z,
    {
        cat.push(None);
        z = z + 1;
    }
    proof {
        assert(forall|i: int|
            0 <= i < len ==> opt_scope_view(cat@[i]) == syntax_cat_upto(synv, lenv, 0, i));
    }
    let mut k: usize = 0;
    while k < syntax_spans.len()
        invariant
            k <= syntax_spans@.len(),
            cat@.len() == len,
            forall|i: int|
                0 <= i < len ==> opt_scope_view(cat@[i]) == syntax_cat_upto(
                    synv,
                    lenv,
                    k as int,
                    i,
                ),
        decreases syntax_spans@.len() - k,
    {
        let sp = &syntax_spans[k];
        let lo: usize = if sp.start as usize > len {
            len
        } else {
            sp.start as usize
        };
        let hi: usize = if sp.end as usize > len {
            len
        } else {
            sp.end as usize
        };
        proof {
            assert(synv[k as int] == syntax_spans@[k as int]@);
            assert(lo == clamp_to(synv[k as int].start, lenv));
            assert(hi == clamp_to(synv[k as int].end, lenv));
        }
        let ghost cat0 = cat@;
        if lo < hi {
            let mut p: usize = lo;
            while p < hi
                invariant
                    lo <= p <= hi <= len,
                    cat@.len() == len,
                    forall|i: int| 0 <= i < len && !(lo <= i < p) ==> cat@[i] == cat0[i],
                    forall|i: int|
                        lo <= i < p ==> opt_scope_view(cat@[i]) == Option::Some(
                            synv[k as int].scope,
                        ),
                decreases hi - p,
            {
                let scope_copy = sp.scope.clone();
                cat.set(p, Some(scope_copy));
                p = p + 1;
            }
        }
        proof {
            assert forall|i: int| 0 <= i < len implies opt_scope_view(cat@[i])
                == syntax_cat_upto(synv, lenv, k as int + 1, i) by {
                if lo <= i < hi {
                    assert(opt_scope_view(cat@[i]) == Option::Some(synv[k as int].scope));
                } else {
                    assert(cat@[i] == cat0[i]);
                    assert(opt_scope_view(cat0[i]) == syntax_cat_upto(synv, lenv, k as int, i));
                }
            }
        }
        k = k + 1;
    }
    // Paint the word-change mask.
    let mut mask: Vec<bool> = Vec::new();
    let mut z2: usize = 0;
    while z2 < len
        invariant
            z2 <= len,
            mask@.len() == z2,
            forall|i: int| 0 <= i < z2 ==> mask@[i] == false,
        decreases len - z2,
    {
        mask.push(false);
        z2 = z2 + 1;
    }
    proof {
        assert(forall|i: int| 0 <= i < len ==> mask@[i] == word_cov_upto(wordsv, lenv, 0, i));
    }
    let mut w: usize = 0;
    while w < word_ranges.len()
        invariant
            w <= wordsv.len(),
            mask@.len() == len,
            forall|i: int|
                0 <= i < len ==> mask@[i] == word_cov_upto(wordsv, lenv, w as int, i),
        decreases wordsv.len() - w,
    {
        let (ws, we) = word_ranges[w];
        let lo: usize = if ws > len {
            len
        } else {
            ws
        };
        let hi: usize = if we > len {
            len
        } else {
            we
        };
        proof {
            assert(wordsv[w as int] == (ws, we));
            assert(lo == clamp_to(wordsv[w as int].0 as int, lenv));
            assert(hi == clamp_to(wordsv[w as int].1 as int, lenv));
        }
        let ghost mask0 = mask@;
        if lo < hi {
            let mut p: usize = lo;
            while p < hi
                invariant
                    lo <= p <= hi <= len,
                    mask@.len() == len,
                    forall|i: int| 0 <= i < len && !(lo <= i < p) ==> mask@[i] == mask0[i],
                    forall|i: int| lo <= i < p ==> mask@[i] == true,
                decreases hi - p,
            {
                mask.set(p, true);
                p = p + 1;
            }
        }
        proof {
            assert forall|i: int| 0 <= i < len implies mask@[i] == word_cov_upto(
                wordsv,
                lenv,
                w as int + 1,
                i,
            ) by {
                if lo <= i < hi {
                    assert(mask@[i] == true);
                } else {
                    assert(mask@[i] == mask0[i]);
                    assert(mask0[i] == word_cov_upto(wordsv, lenv, w as int, i));
                }
            }
        }
        w = w + 1;
    }
    let ghost cats = fused_cats(synv, wordsv, wsv, lenv);
    proof {
        assert(cats.len() == lenv);
        assert(forall|i: int|
            0 <= i < len ==> cats[i] == (if mask@[i] {
                Option::Some(wsv)
            } else {
                opt_scope_view(cat@[i])
            }));
    }
    // Run-length encode the per-byte categories into spans.
    let mut merged: Vec<HighlightSpan> = Vec::new();
    let mut idx: usize = 0;
    let mut cur_start: usize = 0;
    let mut cur_scope: Option<String> = None;
    while idx < len
        invariant
            idx <= len <= u32::MAX,
            cur_start <= idx,
            cat@.len() == len,
            mask@.len() == len,
            rle(cats) == spans_view(merged@) + rle_core(
                cats,
                idx as int,
                cur_view(cur_scope, cur_start as int, idx as int),
            ),
            cur_scope is Some ==> cur_start < idx,
        decreases len - idx,
    {
        let here: Option<String> = if mask[idx] {
            Some(word_scope.to_owned())
        } else {
            match &cat[idx] {
                None => None,
                Some(sc) => Some(sc.clone()),
            }
        };
        proof {
            assert(opt_scope_view(here) == cats[idx as int]);
        }
        let ghost merged0 = merged@;
        let ghost curv0 = cur_view(cur_scope, cur_start as int, idx as int);
        let extend: bool = match (&cur_scope, &here) {
            (Some(a), Some(b)) => str_eq_strings(a, b),
            _ => false,
        };
        if extend {
            proof {
                assert(rle_core(cats, idx as int, curv0) == rle_core(
                    cats,
                    idx as int + 1,
                    cur_view(cur_scope, cur_start as int, idx as int + 1),
                ));
            }
        } else {
            let prev = cur_scope;
            if let Some(ps) = prev {
                let finished = HighlightSpan { start: cur_start as u32, end: idx as u32, scope: ps };
                merged.push(finished);
                proof {
                    assert(spans_view(merged@) =~= spans_view(merged0).push(curv0->Some_0));
                }
            }
            cur_start = idx;
            cur_scope = here;
            proof {
                let curv1 = cur_view(cur_scope, idx as int, idx as int + 1);
                match curv0 {
                    Option::None => {
                        assert(rle_core(cats, idx as int, curv0) == rle_core(
                            cats,
                            idx as int + 1,
                            curv1,
                        ));
                    },
                    Option::Some(s) => {
                        assert(rle_core(cats, idx as int, curv0) == seq![s] + rle_core(
                            cats,
                            idx as int + 1,
                            curv1,
                        ));
                        assert(spans_view(merged0) + (seq![s] + rle_core(
                            cats,
                            idx as int + 1,
                            curv1,
                        )) =~= spans_view(merged@) + rle_core(cats, idx as int + 1, curv1));
                    },
                }
            }
        }
        idx = idx + 1;
    }
    let ghost merged0 = merged@;
    let ghost curv0 = cur_view(cur_scope, cur_start as int, idx as int);
    if let Some(ps) = cur_scope {
        let finished = HighlightSpan { start: cur_start as u32, end: idx as u32, scope: ps };
        merged.push(finished);
        proof {
            assert(spans_view(merged@) =~= spans_view(merged0).push(curv0->Some_0));
            assert(rle_core(cats, len as int, curv0) == seq![curv0->Some_0]);
            assert(spans_view(merged0) + seq![curv0->Some_0] =~= spans_view(merged@));
        }
    } else {
        proof {
            assert(rle_core(cats, len as int, curv0) == Seq::<SpanV>::empty());
            assert(spans_view(merged@) + Seq::<SpanV>::empty() =~= spans_view(merged@));
        }
    }
    merged
}

/// The category that a span list reports for byte `i`: the scope of the
/// first span covering it.
pub open spec fn spans_cat_at(spans: Seq<SpanV>, i: int) -> Option<Seq<char>>
    decreases spans.len(),
{
    if spans.len() == 0 {
        Option::None
    } else if spans[0].start <= i < spans[0].end {
        Option::Some(spans[0].scope)
    } else {
        spans_cat_at(spans.drop_first(), i)
    }
}

/// A span list is well formed over `[lo, hi)`: every span is a non-empty
/// range inside those bounds, and the list is sorted without overlap.
pub open spec fn spans_wf_from(spans: Seq<SpanV>, lo: int, hi: int) -> bool {
    &&& forall|m: int|
        0 <= m < spans.len() ==> lo <= #[trigger] spans[m].start < spans[m].end <= hi
    &&& forall|m: int, n: int| 0 <= m < n < spans.len() ==> spans[m].end <= spans[n].start
}

/// The run-length encoding emits non-empty, sorted, non-overlapping spans.
proof fn lemma_rle_core_wf(cats: Seq<Option<Seq<char>>>, j: int, cur: Option<SpanV>)
    requires
        0 <= j <= cats.len(),
        cur is Some ==> cur->Some_0.start < cur->Some_0.end == j,
    ensures
        spans_wf_from(
            rle_core(cats, j, cur),
            match cur {
                Option::None => j,
                Option::Some(s) => s.start,
            },
            cats.len() as int,
        ),
    decreases cats.len() - j,
{
    if j >= cats.len() {
    } else {
        match (cur, cats[j]) {
            (Option::None, Option::None) => {
                lemma_rle_core_wf(cats, j + 1, Option::None);
            },
            (Option::None, Option::Some(c)) => {
                lemma_rle_core_wf(
                    cats,
                    j + 1,
                    Option::Some(SpanV { start: j, end: j + 1, scope: c }),
                );
            },
            (Option::Some(s), Option::None) => {
                lemma_rle_core_wf(cats, j + 1, Option::None);
                let rest = rle_core(cats, j + 1, Option::None);
                assert(rle_core(cats, j, cur) =~= seq![s] + rest);
                assert forall|m: int, n: int|
                    0 <= m < n < (seq![s] + rest).len() implies (seq![s] + rest)[m].end <= (
                seq![s] + rest)[n].start by {
                    if m > 0 {
                        assert((seq![s] + rest)[m] == rest[m - 1]);
                    }
                    assert((seq![s] + rest)[n] == rest[n - 1]);
                }
            },
            (Option::Some(s), Option::Some(c)) => {
                if c == s.scope {
                    lemma_rle_core_wf(
                        cats,
                        j + 1,
                        Option::Some(SpanV { start: s.start, end: j + 1, scope: s.scope }),
                    );
                } else {
                    lemma_rle_core_wf(
                        cats,
                        j + 1,
                        Option::Some(SpanV { start: j, end: j + 1, scope: c }),
                    );
                    let rest = rle_core(
                        cats,
                        j + 1,
                        Option::Some(SpanV { start: j, end: j + 1, scope: c }),
                    );
                    assert(rle_core(cats, j, cur) =~= seq![s] + rest);
                    assert forall|m: int, n: int|
                        0 <= m < n < (seq![s] + rest).len() implies (seq![s] + rest)[m].end
                        <= (seq![s] + rest)[n].start by {
                        if m > 0 {
                            assert((seq![s] + rest)[m] == rest[m - 1]);
                        }
                        assert((seq![s] + rest)[n] == rest[n - 1]);
                    }
                }
            },
        }
    }
}

/// The run-length encoding represents its category table pointwise: a byte
/// at or past the scan point reports exactly its table entry, and a byte
/// inside the open run reports the run's scope.
proof fn lemma_rle_core_pointwise(
    cats: Seq<Option<Seq<char>>>,
    j: int,
    cur: Option<SpanV>,
    i: int,
)
    requires
        0 <= j <= cats.len(),
        cur is Some ==> cur->Some_0.start < cur->Some_0.end == j,
        cur is Some ==> cur->Some_0.start <= i,
        cur is None ==> j <= i,
        0 <= i < cats.len(),
    ensures
        j <= i ==> spans_cat_at(rle_core(cats, j, cur), i) == cats[i],
        cur matches Option::Some(s) ==> (i < j ==> spans_cat_at(rle_core(cats, j, cur), i)
            == Option::Some(s.scope)),
    decreases cats.len() - j,
{
    lemma_rle_core_wf(cats, j, cur);
    if j >= cats.len() {
    } else {
        match (cur, cats[j]) {
            (Option::None, Option::None) => {
                if i == j {
                    let rest = rle_core(cats, j + 1, Option::None);
                    lemma_rle_core_wf(cats, j + 1, Option::None);
                    lemma_first_uncovered(rest, i, j + 1, cats.len() as int);
                } else {
                    lemma_rle_core_pointwise(cats, j + 1, Option::None, i);
                }
            },
            (Option::None, Option::Some(c)) => {
                lemma_rle_core_pointwise(
                    cats,
                    j + 1,
                    Option::Some(SpanV { start: j, end: j + 1, scope: c }),
                    i,
                );
            },
            (Option::Some(s), Option::None) => {
                let rest = rle_core(cats, j + 1, Option::None);
                assert(rle_core(cats, j, cur) =~= seq![s] + rest);
                assert((seq![s] + rest).drop_first() =~= rest);
                if s.start <= i < s.end {
                } else {
                    if i == j {
                        lemma_rle_core_wf(cats, j + 1, Option::None);
                        lemma_first_uncovered(rest, i, j + 1, cats.len() as int);
                    } else {
                        lemma_rle_core_pointwise(cats, j + 1, Option::None, i);
                    }
                }
            },
            (Option::Some(s), Option::Some(c)) => {
                if c == s.scope {
                    lemma_rle_core_pointwise(
                        cats,
                        j + 1,
                        Option::Some(SpanV { start: s.start, end: j + 1, scope: s.scope }),
                        i,
                    );
                } else {
                    let cur2 = Option::Some(SpanV { start: j, end: j + 1, scope: c });
                    let rest = rle_core(cats, j + 1, cur2);
                    assert(rle_core(cats, j, cur) =~= seq![s] + rest);
                    assert((seq![s] + rest).drop_first() =~= rest);
                    if s.start <= i < s.end {
                    } else {
                        lemma_rle_core_pointwise(cats, j + 1, cur2, i);
                    }
                }
            },
        }
    }
}

/// A well-formed span list whose spans all start at or after `lo` covers no
/// byte before `lo`.
proof fn lemma_first_uncovered(spans: Seq<SpanV>, i: int, lo: int, hi: int)
    requires
        spans_wf_from(spans, lo, hi),
        i < lo,
    ensures
        spans_cat_at(spans, i) == Option::<Seq<char>>::None,
    decreases spans.len(),
{
    if spans.len() > 0 {
        assert(lo <= spans[0].start);
        lemma_first_uncovered(spans.drop_first(), i, lo, hi);
    }
}

/// The word layer wins: at any byte inside a word-change range, the fused
/// span list of a line reports the word-change category, whatever syntax
/// spans also cover that byte. Together with [`lemma_fuse_wf`], the byte is
/// reported exactly once, tagged with the word-change category.
pub proof fn lemma_word_priority(
    len: int,
    syntax: Seq<SpanV>,
    words: Seq<(usize, usize)>,
    wscope: Seq<char>,
    i: int,
)
    requires
        0 <= i < len <= u32::MAX,
        word_covered(words, len, i),
    ensures
        spans_cat_at(spec_fuse(len, syntax, words, wscope), i) == Option::Some(wscope),
{
    let cats = fused_cats(syntax, words, wscope, len);
    lemma_rle_core_pointwise(cats, 0, Option::None, i);
}

/// The fused span list reports exactly the per-byte fused category at every
/// byte of the line: syntax where only syntax covers it, the word-change
/// category where a word range covers it, nothing where neither does.
pub proof fn lemma_fuse_pointwise(
    len: int,
    syntax: Seq<SpanV>,
    words: Seq<(usize, usize)>,
    wscope: Seq<char>,
    i: int,
)
    requires
        0 <= i < len <= u32::MAX,
    ensures
        spans_cat_at(spec_fuse(len, syntax, words, wscope), i) == fused_cat(
            syntax,
            words,
            wscope,
            len,
            i,
        ),
{
    let cats = fused_cats(syntax, words, wscope, len);
    lemma_rle_core_pointwise(cats, 0, Option::None, i);
}

/// The fused span list is sorted, non-overlapping, non-empty per span, and
/// stays within the line: each annotated byte appears in exactly one span.
pub proof fn lemma_fuse_wf(len: int, syntax: Seq<SpanV>, words: Seq<(usize, usize)>, wscope: Seq<char>)
    requires
        0 <= len <= u32::MAX,
    ensures
        spans_wf_from(spec_fuse(len, syntax, words, wscope), 0, len),
{
    let cats = fused_cats(syntax, words, wscope, len);
    lemma_rle_core_wf(cats, 0, Option::None);
}

/// Equality of two owned strings by their characters.
fn str_eq_strings(a: &String, b: &String) -> (r: bool)
    ensures
        r == (a@ == b@),
{
    crate::text::str_eq(a.as_str(), b.as_str())
}

} // verus!
