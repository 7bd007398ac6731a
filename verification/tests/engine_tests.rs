use revi_core::assemble::assemble_file_diff;
use revi_core::fingerprint::compute_content_hash;
use revi_core::highlight::{highlight_file_lines, highlight_line};
use revi_core::model::HighlightSpan;
use revi_core::parse::{parse_diff_with_highlights, parse_hunk_header, parse_range};
use revi_core::span::merge_word_highlights;
use revi_core::synthetic::{generate_deleted_file_diff, generate_new_file_diff};
use revi_core::worddiff::{compute_word_change_ranges, merge_ranges};

fn no_spans() -> Vec<Vec<HighlightSpan>> {
    Vec::new()
}

fn span(start: u32, end: u32, scope: &str) -> HighlightSpan {
    HighlightSpan { start, end, scope: scope.to_string() }
}

#[test]
fn hunk_header_parses_counts() {
    assert_eq!(parse_hunk_header("@@ -5,3 +5,4 @@"), Some((5, 3, 5, 4)));
    assert_eq!(parse_hunk_header("@@ -0,0 +1,1 @@"), Some((0, 0, 1, 1)));
    assert_eq!(parse_hunk_header("@@ -5 +5 @@"), Some((5, 1, 5, 1)));
    assert_eq!(parse_hunk_header("@@ -12,0 +13,7 @@ fn main()"), Some((12, 0, 13, 7)));
    assert_eq!(parse_hunk_header("not a header"), None);
    assert_eq!(parse_hunk_header("@@ -x,1 +2,3 @@"), None);
}

#[test]
fn range_count_defaults_to_one() {
    assert_eq!(parse_range("7"), Some((7, 1)));
    assert_eq!(parse_range("7,2"), Some((7, 2)));
    assert_eq!(parse_range(""), None);
    assert_eq!(parse_range("4294967295"), Some((4294967295, 1)));
    assert_eq!(parse_range("4294967296"), None);
}

#[test]
fn stats_count_marker_lines() {
    let diff = "@@ -1,3 +1,4 @@\n ctx\n-old line\n+new one\n+new two\n ctx2\n";
    let (hunks, stats) = parse_diff_with_highlights(diff, &no_spans(), &no_spans());
    assert_eq!(stats.additions, 2);
    assert_eq!(stats.deletions, 1);
    assert_eq!(hunks.len(), 1);
    let kinds: Vec<&str> = hunks[0].lines.iter().map(|l| l.line_type.as_str()).collect();
    assert_eq!(kinds, vec!["context", "deleted", "added", "added", "context"]);
}

#[test]
fn file_header_lines_are_not_counted() {
    let diff = "--- a/f\n+++ b/f\n@@ -1,1 +1,1 @@\n-a\n+b\n\\ No newline at end of file\n";
    let (hunks, stats) = parse_diff_with_highlights(diff, &no_spans(), &no_spans());
    assert_eq!(stats.additions, 1);
    assert_eq!(stats.deletions, 1);
    assert_eq!(hunks.len(), 1);
    assert_eq!(hunks[0].lines.len(), 2);
}

#[test]
fn malformed_header_drops_hunk() {
    let diff = "@@ bogus header\n+orphan\n";
    let (hunks, stats) = parse_diff_with_highlights(diff, &no_spans(), &no_spans());
    assert_eq!(hunks.len(), 0);
    assert_eq!(stats.additions, 0);
    assert_eq!(stats.deletions, 0);
}

#[test]
fn line_numbers_advance_per_side() {
    let diff = "@@ -10,2 +20,2 @@\n ctx\n-gone\n+here\n";
    let (hunks, _) = parse_diff_with_highlights(diff, &no_spans(), &no_spans());
    let lines = &hunks[0].lines;
    assert_eq!(lines[0].old_line_num, Some(10));
    assert_eq!(lines[0].new_line_num, Some(20));
    assert_eq!(lines[1].old_line_num, Some(11));
    assert_eq!(lines[1].new_line_num, None);
    assert_eq!(lines[2].old_line_num, None);
    assert_eq!(lines[2].new_line_num, Some(21));
}

#[test]
fn synthetic_new_file_shape() {
    let (hunks, stats) = generate_new_file_diff("one\ntwo\nthree\n", &no_spans());
    assert_eq!(hunks.len(), 1);
    let h = &hunks[0];
    assert_eq!(h.header, "@@ -0,0 +1,3 @@ New file");
    assert_eq!((h.old_start, h.old_lines, h.new_start, h.new_lines), (0, 0, 1, 3));
    assert_eq!(h.lines.len(), 3);
    for (i, l) in h.lines.iter().enumerate() {
        assert_eq!(l.line_type, "added");
        assert_eq!(l.new_line_num, Some(i as u32 + 1));
        assert_eq!(l.old_line_num, None);
    }
    assert_eq!(h.lines[1].content, "two");
    assert_eq!(stats.additions, 3);
    assert_eq!(stats.deletions, 0);
}

#[test]
fn synthetic_deleted_file_shape() {
    let (hunks, stats) = generate_deleted_file_diff("one\ntwo\n", &no_spans());
    assert_eq!(hunks.len(), 1);
    let h = &hunks[0];
    assert_eq!(h.header, "@@ -1,2 +0,0 @@ Deleted file");
    assert_eq!((h.old_start, h.old_lines, h.new_start, h.new_lines), (1, 2, 0, 0));
    for (i, l) in h.lines.iter().enumerate() {
        assert_eq!(l.line_type, "deleted");
        assert_eq!(l.old_line_num, Some(i as u32 + 1));
        assert_eq!(l.new_line_num, None);
    }
    assert_eq!(stats.additions, 0);
    assert_eq!(stats.deletions, 2);
}

#[test]
fn synthetic_empty_file_is_empty_diff() {
    let (hunks, stats) = generate_new_file_diff("", &no_spans());
    assert_eq!(hunks.len(), 0);
    assert_eq!(stats.additions, 0);
    let (hunks2, stats2) = generate_deleted_file_diff("", &no_spans());
    assert_eq!(hunks2.len(), 0);
    assert_eq!(stats2.deletions, 0);
}

#[test]
fn word_changes_mark_only_changed_word() {
    let (deleted, added) = compute_word_change_ranges("foo bar baz", "foo qux baz");
    assert_eq!(deleted, vec![(4, 7)]);
    assert_eq!(added, vec![(4, 7)]);
}

#[test]
fn word_changes_identical_lines_are_empty() {
    let (deleted, added) = compute_word_change_ranges("same text", "same text");
    assert!(deleted.is_empty());
    assert!(added.is_empty());
}

#[test]
fn merge_ranges_sorts_and_coalesces() {
    assert_eq!(merge_ranges(vec![(5, 7), (1, 3), (3, 5)]), vec![(1, 7)]);
    assert_eq!(merge_ranges(vec![(1, 2), (4, 6)]), vec![(1, 2), (4, 6)]);
    assert_eq!(merge_ranges(vec![]), vec![]);
    assert_eq!(merge_ranges(vec![(2, 9), (3, 4)]), vec![(2, 9)]);
}

#[test]
fn fusion_word_change_wins_over_syntax() {
    let syntax = vec![span(0, 5, "keyword")];
    let fused = merge_word_highlights("hello world", &syntax, &vec![(0, 5)], "word-added");
    assert_eq!(fused.len(), 1);
    assert_eq!(fused[0], span(0, 5, "word-added"));
}

#[test]
fn fusion_splits_overlap() {
    let syntax = vec![span(0, 11, "keyword")];
    let fused = merge_word_highlights("hello world", &syntax, &vec![(6, 11)], "word-added");
    assert_eq!(fused, vec![span(0, 6, "keyword"), span(6, 11, "word-added")]);
}

#[test]
fn fusion_omits_untagged_bytes() {
    let syntax = vec![span(0, 2, "k")];
    let fused = merge_word_highlights("abcdef", &syntax, &vec![(4, 5)], "w");
    assert_eq!(fused, vec![span(0, 2, "k"), span(4, 5, "w")]);
}

#[test]
fn fusion_merges_adjacent_same_category() {
    let syntax = vec![span(0, 3, "k"), span(3, 6, "k")];
    let empty: Vec<(usize, usize)> = Vec::new();
    let fused = merge_word_highlights("abcdef", &syntax, &empty, "w");
    assert_eq!(fused, vec![span(0, 6, "k")]);
}

#[test]
fn word_pass_marks_replaced_pair() {
    let diff = "@@ -1,1 +1,1 @@\n-foo bar baz\n+foo qux baz\n";
    let (hunks, _) = parse_diff_with_highlights(diff, &no_spans(), &no_spans());
    let lines = &hunks[0].lines;
    assert_eq!(lines[0].highlights, vec![span(4, 7, "word-deleted")]);
    assert_eq!(lines[1].highlights, vec![span(4, 7, "word-added")]);
}

#[test]
fn word_pass_skips_unpaired_deletions() {
    let diff = "@@ -1,2 +1,0 @@\n-gone one\n-gone two\n";
    let (hunks, _) = parse_diff_with_highlights(diff, &no_spans(), &no_spans());
    for l in &hunks[0].lines {
        assert!(l.highlights.is_empty());
    }
}

#[test]
fn fingerprint_known_values() {
    assert_eq!(
        compute_content_hash(String::new()),
        "e3b0c44298fc1c149afbf4c8996fb92427ae41e4649b934ca495991b7852b855"
    );
    assert_eq!(
        compute_content_hash("abc".to_string()),
        "ba7816bf8f01cfea414140de5dae2223b00361a396177a9cb410ff61f20015ad"
    );
}

#[test]
fn file_line_tables_distribute_spans() {
    let spans = vec![span(0, 5, "k"), span(3, 4, "s")];
    let tables = highlight_file_lines("ab\ncd", &spans);
    assert_eq!(tables.len(), 2);
    assert_eq!(tables[0], vec![span(0, 3, "k")]);
    assert_eq!(tables[1], vec![span(0, 1, "s")]);
}

#[test]
fn single_line_fallback_clamps_spans() {
    assert_eq!(highlight_line("ab", &vec![span(0, 5, "k")]), vec![span(0, 2, "k")]);
    assert!(highlight_line("ab", &Vec::new()).is_empty());
}

#[test]
fn file_line_tables_empty_without_spans() {
    let tables = highlight_file_lines("ab\ncd", &Vec::new());
    assert!(tables.is_empty());
}

#[test]
fn assembly_parses_when_diff_present() {
    let diff = "@@ -1,1 +1,1 @@\n-a\n+b\n";
    let head = Some("b\n".to_string());
    let base = Some("a\n".to_string());
    let d = assemble_file_diff(
        "f.rs".to_string(),
        diff,
        &head,
        &base,
        &Vec::new(),
        &Vec::new(),
    );
    assert_eq!(d.path, "f.rs");
    assert_eq!(d.stats.additions, 1);
    assert_eq!(d.stats.deletions, 1);
    assert_eq!(d.content_hash, compute_content_hash(diff.to_string()));
}

#[test]
fn assembly_takes_synthetic_path_for_new_file() {
    let head = Some("x\ny\n".to_string());
    let d = assemble_file_diff("n.rs".to_string(), "  \n", &head, &None, &Vec::new(), &Vec::new());
    assert_eq!(d.hunks.len(), 1);
    assert_eq!(d.stats.additions, 2);
    assert_eq!(d.stats.deletions, 0);
    assert_eq!(d.content_hash, compute_content_hash("x\ny\n".to_string()));
}

#[test]
fn assembly_takes_synthetic_path_for_deleted_file() {
    let base = Some("x\n".to_string());
    let d = assemble_file_diff("d.rs".to_string(), "", &None, &base, &Vec::new(), &Vec::new());
    assert_eq!(d.hunks.len(), 1);
    assert_eq!(d.stats.deletions, 1);
    assert_eq!(d.hunks[0].lines[0].line_type, "deleted");
}

#[test]
fn assembly_is_deterministic() {
    let diff = "@@ -1,2 +1,2 @@\n ctx\n-foo bar baz\n+foo qux baz\n";
    let head = Some("ctx\nfoo qux baz\n".to_string());
    let base = Some("ctx\nfoo bar baz\n".to_string());
    let spans = vec![span(0, 3, "keyword")];
    let d1 = assemble_file_diff("f.rs".to_string(), diff, &head, &base, &spans, &Vec::new());
    let d2 = assemble_file_diff("f.rs".to_string(), diff, &head, &base, &spans, &Vec::new());
    assert_eq!(d1, d2);
}

#[test]
fn parsed_lines_pull_spans_from_tables() {
    let head_tbl = vec![vec![span(0, 1, "h0")], vec![span(1, 2, "h1")]];
    let base_tbl = vec![vec![span(0, 2, "b0")]];
    let diff = "@@ -1,1 +1,2 @@\n ctx\n+added\n";
    let (hunks, _) = parse_diff_with_highlights(diff, &head_tbl, &base_tbl);
    let lines = &hunks[0].lines;
    // the context line is line 1 on the new side, the added line is line 2
    assert_eq!(lines[0].highlights, vec![span(0, 1, "h0")]);
    assert_eq!(lines[1].highlights, vec![span(1, 2, "h1")]);
}
