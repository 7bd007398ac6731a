use revi_core::editor::{detect_mime_type, make_binary_preview, substitute_token};
use revi_core::model::DiffStats;
use revi_core::session::{
    detect_default_base_branch, get_session_arg, lookup_status, parse_name_status,
    parse_rename_path, recover_file_states, CollapseState, FileState, FileWithStats,
};
use revi_core::watcher::{is_content_change, is_git_ref_path, should_ignore, FsEventKind};

#[test]
fn rename_paths_expand_braces() {
    assert_eq!(
        parse_rename_path("src/{old => new}/file.rs"),
        ("src/new/file.rs".to_string(), Some("src/old/file.rs".to_string()))
    );
    assert_eq!(
        parse_rename_path("a.rs => b.rs"),
        ("b.rs".to_string(), Some("a.rs".to_string()))
    );
    assert_eq!(parse_rename_path("plain.rs"), ("plain.rs".to_string(), None));
}

#[test]
fn name_status_maps_letters() {
    let pairs = parse_name_status("A\tfoo.rs\nD\tbar.rs\nR100\told.rs\tnew.rs\nC50\ta\tb\nX\tz\n");
    assert_eq!(
        pairs,
        vec![
            ("foo.rs".to_string(), "added".to_string()),
            ("bar.rs".to_string(), "deleted".to_string()),
            ("new.rs".to_string(), "renamed".to_string()),
            ("b".to_string(), "copied".to_string()),
            ("z".to_string(), "modified".to_string()),
        ]
    );
    assert_eq!(lookup_status(&pairs, "bar.rs"), Some("deleted".to_string()));
    assert_eq!(lookup_status(&pairs, "missing"), None);
}

#[test]
fn default_base_branch_takes_first_candidate() {
    assert_eq!(detect_default_base_branch(&vec![true, true, false, false]), "main");
    assert_eq!(detect_default_base_branch(&vec![false, true, false, false]), "master");
    assert_eq!(detect_default_base_branch(&vec![false, false, false, true]), "origin/master");
    assert_eq!(detect_default_base_branch(&vec![false, false, false, false]), "HEAD~10");
    assert_eq!(detect_default_base_branch(&Vec::new()), "HEAD~10");
}

#[test]
fn session_arg_scan() {
    let args = |v: &[&str]| v.iter().map(|s| s.to_string()).collect::<Vec<String>>();
    assert_eq!(
        get_session_arg(&args(&["prog", "--session", "/x.json"])),
        Some("/x.json".to_string())
    );
    assert_eq!(get_session_arg(&args(&["prog", "a.json"])), Some("a.json".to_string()));
    assert_eq!(get_session_arg(&args(&["a.json"])), None);
    assert_eq!(get_session_arg(&args(&["prog", "--session"])), None);
    assert_eq!(get_session_arg(&args(&["prog", "other"])), None);
}

fn old_file(path: &str, viewed: bool, adds: u32, dels: u32) -> (String, FileState) {
    (
        path.to_string(),
        FileState {
            viewed,
            last_viewed_sha: "s".to_string(),
            content_hash: "c".to_string(),
            diff_stats: DiffStats { additions: adds, deletions: dels },
            collapse_state: CollapseState { file: false, hunks: vec![1] },
            scroll_position: 42,
        },
    )
}

#[test]
fn recovery_keeps_viewed_only_when_stats_match() {
    let old = vec![old_file("same.rs", true, 3, 1), old_file("moved.rs", true, 2, 2)];
    let new = vec![
        FileWithStats { path: "same.rs".to_string(), additions: 3, deletions: 1 },
        FileWithStats { path: "moved.rs".to_string(), additions: 5, deletions: 0 },
    ];
    let rec = recover_file_states(&old, &new);
    assert_eq!(rec.len(), 2);
    let same = rec.iter().find(|(p, _)| p == "same.rs").unwrap();
    assert!(same.1.viewed);
    assert!(!same.1.changed_since_viewed);
    assert_eq!(same.1.scroll_position, 42);
    let moved = rec.iter().find(|(p, _)| p == "moved.rs").unwrap();
    assert!(!moved.1.viewed);
    assert!(moved.1.changed_since_viewed);
    assert_eq!(moved.1.new_stats, DiffStats { additions: 5, deletions: 0 });
}

#[test]
fn recovery_skips_files_gone_from_the_manifest() {
    let old = vec![old_file("gone.rs", true, 1, 1)];
    let rec = recover_file_states(&old, &Vec::new());
    assert!(rec.is_empty());
}

#[test]
fn git_ref_paths() {
    assert!(is_git_ref_path(".git/HEAD"));
    assert!(is_git_ref_path(".git/refs/heads/main"));
    assert!(!is_git_ref_path(".git/refs/heads/main.lock"));
    assert!(!is_git_ref_path("src/main.rs"));
}

#[test]
fn ignored_paths() {
    assert!(!should_ignore(".git/HEAD"));
    assert!(!should_ignore(".git/refs/heads/main"));
    assert!(should_ignore(".git/config"));
    assert!(should_ignore("node_modules/pkg/index.js"));
    assert!(should_ignore("web/node_modules/x.js"));
    assert!(should_ignore("target"));
    assert!(!should_ignore("src/main.rs"));
    assert!(!should_ignore(".gitignore"));
    assert!(should_ignore("src/#scratch"));
    assert!(should_ignore("notes.tmp"));
    assert!(should_ignore("a/b/file.swp"));
    assert!(should_ignore("backup~"));
    assert!(should_ignore(".DS_Store"));
}

#[test]
fn content_change_kinds() {
    assert!(is_content_change(&FsEventKind::CreateFile));
    assert!(is_content_change(&FsEventKind::ModifyData));
    assert!(is_content_change(&FsEventKind::ModifyName));
    assert!(is_content_change(&FsEventKind::RemoveAny));
    assert!(!is_content_change(&FsEventKind::ModifyMetadata));
    assert!(!is_content_change(&FsEventKind::Access));
    assert!(!is_content_change(&FsEventKind::CreateFolder));
}

#[test]
fn mime_types_by_extension() {
    assert_eq!(detect_mime_type("img/photo.PNG"), Some("image/png"));
    assert_eq!(detect_mime_type("a.jpeg"), Some("image/jpeg"));
    assert_eq!(detect_mime_type("doc.pdf"), Some("application/pdf"));
    assert_eq!(detect_mime_type("code.rs"), None);
    assert_eq!(detect_mime_type("noext"), None);
}

#[test]
fn preview_size_limit() {
    let small = make_binary_preview("image/png".to_string(), vec![1, 2, 3]).unwrap();
    assert_eq!(small.size_bytes, 3);
    assert_eq!(small.bytes, vec![1, 2, 3]);
    let big = vec![0u8; 10 * 1024 * 1024 + 1];
    assert!(make_binary_preview("image/png".to_string(), big).is_err());
}

#[test]
fn token_substitution_styles() {
    assert_eq!(
        substitute_token("{file}:{line}", "/f.rs", Some(3)),
        Some("/f.rs:3".to_string())
    );
    assert_eq!(substitute_token("$FILE", "/f.rs", None), Some("/f.rs".to_string()));
    assert_eq!(substitute_token("+{line}", "/f.rs", None), None);
    assert_eq!(substitute_token("{file}:{line}", "/f.rs", None), Some("/f.rs".to_string()));
}
