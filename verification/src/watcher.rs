//! The change-notification side of the engine's surroundings: deciding
//! which file-system paths and event kinds matter. The watching itself is
//! the embedding application's job; these are the pure rules it applies.

use vstd::prelude::*;

use crate::text::{chars_of, contains_sub, seq_starts_with, spec_contains_sub, str_starts_with};

verus! {

/// A change notification for the frontend: a file change or a ref change,
/// with the repository it concerns.
#[derive(Debug, Clone, PartialEq, Eq)]
pub struct ChangeEvent {
    pub event_type: String,
    pub repo_root: String,
    pub paths: Option<Vec<String>>,
    pub new_head_sha: Option<String>,
}

/// A file-system event kind, as the watching collaborator reports it.
#[derive(Debug, Clone, Copy, PartialEq, Eq)]
pub enum FsEventKind {
    CreateFile,
    CreateFolder,
    CreateAny,
    CreateOther,
    ModifyData,
    ModifyName,
    ModifyMetadata,
    ModifyAny,
    ModifyOther,
    RemoveFile,
    RemoveFolder,
    RemoveAny,
    RemoveOther,
    Access,
    Any,
    Other,
}

/// Does this event kind represent an actual content change? File creation,
/// data modification, renames, unqualified modifications, and removals do;
/// metadata changes and accesses do not.
pub open spec fn spec_is_content_change(k: FsEventKind) -> bool {
    match k {
        FsEventKind::CreateFile => true,
        FsEventKind::CreateAny => true,
        FsEventKind::ModifyData => true,
        FsEventKind::ModifyName => true,
        FsEventKind::ModifyAny => true,
        FsEventKind::RemoveFile => true,
        FsEventKind::RemoveAny => true,
        _ => false,
    }
}

/// Decide whether an event kind is an actual content change.
pub fn is_content_change(kind: &FsEventKind) -> (r: bool)
    ensures
        r == spec_is_content_change(*kind),
{
    match kind {
        FsEventKind::CreateFile => true,
        FsEventKind::CreateAny => true,
        FsEventKind::ModifyData => true,
        FsEventKind::ModifyName => true,
        FsEventKind::ModifyAny => true,
        FsEventKind::RemoveFile => true,
        FsEventKind::RemoveAny => true,
        _ => false,
    }
}

/// Is this repository-relative path a git ref path that must pass the
/// `.git` ignore rule: `HEAD` itself, or anything under `refs/` that is
/// not a lock file?
pub open spec fn spec_is_git_ref_path(p: Seq<char>) -> bool {
    p == ".git/HEAD"@ || (seq_starts_with(p, ".git/refs/"@) && !crate::language::spec_ends_with(
        p,
        ".lock"@,
    ))
}

/// Decide whether a repository-relative path is a watched git ref path.
pub fn is_git_ref_path(relative_path: &str) -> (r: bool)
    ensures
        r == spec_is_git_ref_path(relative_path@),
{
    if crate::text::str_eq(relative_path, ".git/HEAD") {
        return true;
    }
    let v = chars_of(relative_path);
    str_starts_with(relative_path, ".git/refs/") && !ends_with_str(&v, ".lock")
}

/// Does the character vector end with the literal?
pub fn ends_with_str(v: &Vec<char>, suffix: &str) -> (r: bool)
    ensures
        r == crate::language::spec_ends_with(v@, suffix@),
{
    let sv = chars_of(suffix);
    if v.len() < sv.len() {
        return false;
    }
    let mut i: usize = 0;
    let base: usize = v.len() - sv.len();
    while i < sv.len()
        invariant
            i <= sv@.len(),
            base + sv@.len() == v@.len(),
            forall|j: int| 0 <= j < i ==> v@[base + j] == sv@[j],
        decreases sv@.len() - i,
    {
        if v[base + i] != sv[i] {
            assert(v@.skip(base as int)[i as int] != sv@[i as int]);
            return false;
        }
        i = i + 1;
    }
    assert(v@.skip(base as int) =~= sv@);
    true
}

/// The directory names whose contents are wholly ignored.
pub open spec fn spec_ignored_dirs() -> Seq<Seq<char>> {
    seq![
        ".revi"@,
        ".git"@,
        "node_modules"@,
        ".next"@,
        "target"@,
        "dist"@,
        "build"@,
        "__pycache__"@,
        ".pytest_cache"@,
        ".venv"@,
        "venv"@,
        ".idea"@,
        ".vscode"@,
        ".turbo"@,
        ".cache"@,
        "coverage"@,
    ]
}

/// The exact file names that are ignored.
pub open spec fn spec_ignored_files() -> Seq<Seq<char>> {
    seq![".DS_Store"@, "Thumbs.db"@]
}

/// The file-name suffixes that are ignored.
pub open spec fn spec_ignored_suffixes() -> Seq<Seq<char>> {
    seq![".swp"@, ".swo"@, "~"@, ".tmp"@, ".temp"@, ".log"@, ".lock"@]
}

/// Is the path inside (or equal to) the ignored directory `d`?
pub open spec fn spec_in_ignored_dir(p: Seq<char>, d: Seq<char>) -> bool {
    ||| seq_starts_with(p, d + "/"@)
    ||| spec_contains_sub(p, "/"@ + d + "/"@)
    ||| p == d
}

/// Should a repository-relative path be ignored by the watcher? Git ref
/// paths always pass; paths in ignored directories, ignored file names,
/// names starting with `#`, and ignored suffixes are dropped.
pub open spec fn spec_should_ignore(p: Seq<char>) -> bool {
    if spec_is_git_ref_path(p) {
        false
    } else if exists|i: int|
        0 <= i < spec_ignored_dirs().len() && spec_in_ignored_dir(
            p,
            #[trigger] spec_ignored_dirs()[i],
        ) {
        true
    } else {
        let fname = p.skip(crate::language::spec_after_last(p, '/'));
        ||| (exists|i: int|
            0 <= i < spec_ignored_files().len() && fname == #[trigger] spec_ignored_files()[i])
        ||| seq_starts_with(fname, "#"@)
        ||| (exists|i: int|
            0 <= i < spec_ignored_suffixes().len() && crate::language::spec_ends_with(
                fname,
                #[trigger] spec_ignored_suffixes()[i],
            ))
    }
}

/// Decide whether the watcher should drop a repository-relative path.
pub fn should_ignore(relative_path: &str) -> (r: bool)
    ensures
        r == spec_should_ignore(relative_path@),
{
    if is_git_ref_path(relative_path) {
        return false;
    }
    let p = chars_of(relative_path);
    let mut dirs: Vec<String> = Vec::new();
    dirs.push(".revi".to_owned());
    dirs.push(".git".to_owned());
    dirs.push("node_modules".to_owned());
    dirs.push(".next".to_owned());
    dirs.push("target".to_owned());
    dirs.push("dist".to_owned());
    dirs.push("build".to_owned());
    dirs.push("__pycache__".to_owned());
    dirs.push(".pytest_cache".to_owned());
    dirs.push(".venv".to_owned());
    dirs.push("venv".to_owned());
    dirs.push(".idea".to_owned());
    dirs.push(".vscode".to_owned());
    dirs.push(".turbo".to_owned());
    dirs.push(".cache".to_owned());
    dirs.push("coverage".to_owned());
    proof {
        assert(crate::editor::strs_view(dirs@) =~= spec_ignored_dirs());
    }
    let mut i: usize = 0;
    while i < dirs.len()
        invariant
            i <= dirs@.len(),
            crate::editor::strs_view(dirs@) == spec_ignored_dirs(),
            p@ == relative_path@,
            forall|j: int|
                0 <= j < i ==> !spec_in_ignored_dir(p@, #[trigger] spec_ignored_dirs()[j]),
        decreases dirs@.len() - i,
    {
        let d = chars_of(dirs[i].as_str());
        let mut with_slash = chars_of(dirs[i].as_str());
        with_slash.push('/');
        let mut inner = Vec::new();
        inner.push('/');
        let mut k: usize = 0;
        while k < with_slash.len()
            invariant
                k <= with_slash@.len(),
                inner@ == seq!['/'] + with_slash@.take(k as int),
            decreases with_slash@.len() - k,
        {
            let c = with_slash[k];
            inner.push(c);
            assert(inner@ =~= seq!['/'] + with_slash@.take(k as int + 1));
            k = k + 1;
        }
        proof {
            reveal_strlit("/");
            assert("/"@ =~= seq!['/']);
            assert(with_slash@ =~= spec_ignored_dirs()[i as int] + "/"@);
            assert(with_slash@.take(with_slash@.len() as int) =~= with_slash@);
            assert(inner@ =~= "/"@ + spec_ignored_dirs()[i as int] + "/"@);
        }
        if crate::text::chars_start_with(&p, &with_slash) || contains_sub(&p, &inner)
            || crate::editor::chars_eq_pub(&p, &d) {
            assert(spec_in_ignored_dir(p@, spec_ignored_dirs()[i as int]));
            return true;
        }
        i = i + 1;
    }
    let slash = crate::language::after_last(&p, '/');
    let fname = crate::language::tail_from(&p, slash);
    if crate::editor::chars_eq_str(&fname, ".DS_Store") || crate::editor::chars_eq_str(
        &fname,
        "Thumbs.db",
    ) {
        proof {
            assert(fname@ == spec_ignored_files()[0] || fname@ == spec_ignored_files()[1]);
        }
        return true;
    }
    if fname.len() >= 1 && fname[0] == '#' {
        proof {
            assert(fname@.take(1) =~= "#"@) by {
                reveal_strlit("#");
            }
        }
        return true;
    }
    let suffix_hit = ends_with_str(&fname, ".swp") || ends_with_str(&fname, ".swo")
        || ends_with_str(&fname, "~") || ends_with_str(&fname, ".tmp") || ends_with_str(
        &fname,
        ".temp",
    ) || ends_with_str(&fname, ".log") || ends_with_str(&fname, ".lock");
    if suffix_hit {
        proof {
            assert(spec_ignored_suffixes()[0] == ".swp"@);
            assert(spec_ignored_suffixes()[1] == ".swo"@);
            assert(spec_ignored_suffixes()[2] == "~"@);
            assert(spec_ignored_suffixes()[3] == ".tmp"@);
            assert(spec_ignored_suffixes()[4] == ".temp"@);
            assert(spec_ignored_suffixes()[5] == ".log"@);
            assert(spec_ignored_suffixes()[6] == ".lock"@);
            assert(exists|i: int|
                0 <= i < spec_ignored_suffixes().len() && crate::language::spec_ends_with(
                    fname@,
                    #[trigger] spec_ignored_suffixes()[i],
                ));
        }
        return true;
    }
    proof {
        assert(seq_starts_with(fname@, "#"@) ==> fname@.len() >= 1 && fname@[0] == '#') by {
            reveal_strlit("#");
            if seq_starts_with(fname@, "#"@) {
                assert(fname@.take(1)[0] == fname@[0]);
            }
        }
        assert forall|i: int|
            0 <= i < spec_ignored_suffixes().len() implies !crate::language::spec_ends_with(
            fname@,
            #[trigger] spec_ignored_suffixes()[i],
        ) by {
            assert(spec_ignored_suffixes()[i] == ".swp"@ || spec_ignored_suffixes()[i]
                == ".swo"@ || spec_ignored_suffixes()[i] == "~"@ || spec_ignored_suffixes()[i]
                == ".tmp"@ || spec_ignored_suffixes()[i] == ".temp"@
                || spec_ignored_suffixes()[i] == ".log"@ || spec_ignored_suffixes()[i]
                == ".lock"@);
        }
    }
    false
}

} // verus!
