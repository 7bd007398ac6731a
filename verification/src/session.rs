//! Review-session data and the pure rules around it: the manifest and
//! persisted-state records, rename-path parsing for git's name-status
//! output, base-branch selection, command-line session arguments, and the
//! fuzzy recovery of per-file review state. All file, process and clock
//! work belongs to the embedding application.

use vstd::prelude::*;

use crate::model::DiffStats;
use crate::text::{chars_of, spec_lines, string_from_chars};

verus! {

/// The last opened session, persisted to application data.
#[derive(Debug, Clone, PartialEq, Eq)]
pub struct LastSession {
    pub repo_path: String,
    pub base_ref: Option<String>,
    pub saved_at: String,
}

/// A resolved revision: its name and commit id.
#[derive(Debug, Clone, PartialEq, Eq)]
pub struct RefInfo {
    pub ref_name: String,
    pub sha: String,
}

/// The checked-out worktree a session was created in.
#[derive(Debug, Clone, PartialEq, Eq)]
pub struct WorktreeInfo {
    pub path: String,
    pub branch: String,
}

/// One changed file of a session, with its totals and status.
#[derive(Debug, Clone, PartialEq, Eq)]
pub struct FileEntry {
    pub path: String,
    pub status: String,
    pub additions: u32,
    pub deletions: u32,
    pub renamed_from: Option<String>,
    pub binary: bool,
}

/// How a session compares revisions.
#[derive(Debug, Clone, PartialEq, Eq)]
pub enum ComparisonMode {
    Uncommitted,
    Branch { base_branch: String },
    Custom { base_ref: String, head_ref: String },
}

/// A review session's manifest.
#[derive(Debug, Clone, PartialEq, Eq)]
pub struct ReviewManifest {
    pub version: u32,
    pub session_id: String,
    pub repo_root: String,
    pub base: RefInfo,
    pub head: RefInfo,
    pub worktree: Option<WorktreeInfo>,
    pub files: Vec<FileEntry>,
    pub created_at: String,
    pub comparison_mode: Option<ComparisonMode>,
}

/// Which hunks of a file are collapsed.
#[derive(Debug, Clone, PartialEq, Eq)]
pub struct CollapseState {
    pub file: bool,
    pub hunks: Vec<u32>,
}

/// Per-file review state.
#[derive(Debug, Clone, PartialEq, Eq)]
pub struct FileState {
    pub viewed: bool,
    pub last_viewed_sha: String,
    pub content_hash: String,
    pub diff_stats: DiffStats,
    pub collapse_state: CollapseState,
    pub scroll_position: u32,
}

/// Frontend layout state.
#[derive(Debug, Clone, PartialEq, Eq)]
pub struct UiState {
    pub mode: String,
    pub sidebar_width: u32,
    pub sidebar_visible: bool,
}

/// Persisted review state for one comparison, keyed by file path.
#[derive(Debug, Clone, PartialEq, Eq)]
pub struct PersistedState {
    pub version: u32,
    pub session_id: String,
    pub base_sha: String,
    pub head_sha: String,
    pub files: Vec<(String, FileState)>,
    pub ui: UiState,
}

/// One commit of the history listing.
#[derive(Debug, Clone, PartialEq, Eq)]
pub struct CommitInfo {
    pub sha: String,
    pub short_sha: String,
    pub message: String,
    pub author: String,
    pub date: String,
}

/// A file of the new manifest with its totals, for recovery.
#[derive(Debug, Clone, PartialEq, Eq)]
pub struct FileWithStats {
    pub path: String,
    pub additions: u32,
    pub deletions: u32,
}

/// The recovered review state of one file.
#[derive(Debug, Clone, PartialEq, Eq)]
pub struct FileRecoveryResult {
    pub viewed: bool,
    pub changed_since_viewed: bool,
    pub old_stats: DiffStats,
    pub new_stats: DiffStats,
    pub scroll_position: u32,
    pub collapse_state: CollapseState,
}

/// The result of fuzzy state recovery: per-file results and the state file
/// they came from.
#[derive(Debug, Clone, PartialEq, Eq)]
pub struct RecoveredState {
    pub files: Vec<(String, FileRecoveryResult)>,
    pub recovered_from: String,
}

/// Index of the first occurrence of the pattern, or the length if none.
pub open spec fn spec_find_sub(s: Seq<char>, sub: Seq<char>) -> int
    decreases s.len(),
{
    if s.len() == 0 || s.len() < sub.len() {
        s.len() as int
    } else if s.take(sub.len() as int) == sub {
        0
    } else {
        1 + spec_find_sub(s.drop_first(), sub)
    }
}

/// A found occurrence lies wholly inside the text.
proof fn lemma_find_sub_match(s: Seq<char>, sub: Seq<char>)
    requires
        sub.len() > 0,
    ensures
        0 <= spec_find_sub(s, sub) <= s.len(),
        spec_find_sub(s, sub) < s.len() ==> spec_find_sub(s, sub) + sub.len() <= s.len(),
    decreases s.len(),
{
    if s.len() == 0 || s.len() < sub.len() {
    } else if s.take(sub.len() as int) == sub {
    } else {
        lemma_find_sub_match(s.drop_first(), sub);
    }
}

/// Find the first occurrence of the pattern, or the length if none.
fn find_sub(s: &Vec<char>, sub: &Vec<char>) -> (r: usize)
    requires
        sub@.len() > 0,
    ensures
        r as int == spec_find_sub(s@, sub@),
        r <= s@.len(),
{
    let mut i: usize = 0;
    proof {
        assert(s@.skip(0) =~= s@);
    }
    loop
        invariant
            i <= s@.len(),
            sub@.len() > 0,
            spec_find_sub(s@, sub@) == i + spec_find_sub(s@.skip(i as int), sub@),
        decreases s@.len() - i,
    {
        let ghost pre = s@.skip(i as int);
        if sub.len() <= s.len() - i {
            proof {
                assert(pre.take(sub@.len() as int) =~= s@.subrange(i as int, i + sub@.len()));
            }
            if crate::text::match_at(s, sub, i) {
                return i;
            }
        } else {
            proof {
                assert(pre.len() < sub@.len());
                assert(spec_find_sub(pre, sub@) == pre.len());
            }
            return s.len();
        }
        proof {
            assert(pre.drop_first() =~= s@.skip(i as int + 1));
        }
        i = i + 1;
    }
}

/// What parsing a rename path yields: for `{prefix/old => new}/suffix`
/// forms the braces are expanded on both sides; for a plain `old => new`
/// the two sides; otherwise the path alone.
pub open spec fn spec_parse_rename_path(p: Seq<char>) -> (Seq<char>, Option<Seq<char>>) {
    let bs = spec_find_sub(p, "{"@);
    let be = spec_find_sub(p, "}"@);
    let arrow = " => "@;
    if bs < p.len() && be < p.len() && bs + 1 <= be {
        let prefix = p.take(bs);
        let suffix = p.skip(be + 1);
        let inner = p.subrange(bs + 1, be);
        let k = spec_find_sub(inner, arrow);
        if k < inner.len() {
            let old_part = inner.take(k);
            let new_part = inner.skip(k + 4);
            (prefix + new_part + suffix, Option::Some(prefix + old_part + suffix))
        } else {
            plain_rename(p)
        }
    } else {
        plain_rename(p)
    }
}

/// The plain `old => new` form, or the path alone.
pub open spec fn plain_rename(p: Seq<char>) -> (Seq<char>, Option<Seq<char>>) {
    let arrow = " => "@;
    let k = spec_find_sub(p, arrow);
    if k < p.len() {
        (p.skip(k + 4), Option::Some(p.take(k)))
    } else {
        (p, Option::None)
    }
}

/// Copy `v[from..to]`.
fn copy_range(v: &Vec<char>, from: usize, to: usize) -> (r: Vec<char>)
    requires
        from <= to <= v@.len(),
    ensures
        r@ == v@.subrange(from as int, to as int),
{
    let mut r: Vec<char> = Vec::new();
    let mut j: usize = from;
    while j < to
        invariant
            from <= j <= to <= v@.len(),
            r@ == v@.subrange(from as int, j as int),
        decreases to - j,
    {
        let c = v[j];
        r.push(c);
        assert(r@ =~= v@.subrange(from as int, j as int + 1));
        j = j + 1;
    }
    r
}

/// Concatenate three character vectors into a string.
fn concat3(a: &Vec<char>, b: &Vec<char>, c: &Vec<char>) -> (r: String)
    ensures
        r@ == a@ + b@ + c@,
{
    let mut out: Vec<char> = Vec::new();
    let mut i: usize = 0;
    while i < a.len()
        invariant
            i <= a@.len(),
            out@ == a@.take(i as int),
        decreases a@.len() - i,
    {
        let ch = a[i];
        out.push(ch);
        assert(out@ =~= a@.take(i as int + 1));
        i = i + 1;
    }
    proof {
        assert(out@ =~= a@);
    }
    let mut j: usize = 0;
    while j < b.len()
        invariant
            j <= b@.len(),
            out@ == a@ + b@.take(j as int),
        decreases b@.len() - j,
    {
        let ch = b[j];
        out.push(ch);
        assert(out@ =~= a@ + b@.take(j as int + 1));
        j = j + 1;
    }
    proof {
        assert(out@ =~= a@ + b@);
    }
    let mut k: usize = 0;
    while k < c.len()
        invariant
            k <= c@.len(),
            out@ == a@ + b@ + c@.take(k as int),
        decreases c@.len() - k,
    {
        let ch = c[k];
        out.push(ch);
        assert(out@ =~= a@ + b@ + c@.take(k as int + 1));
        k = k + 1;
    }
    proof {
        assert(out@ =~= a@ + b@ + c@);
    }
    string_from_chars(&out)
}

/// Parse a rename path from git's output, in both the braced
/// `{prefix/old => new}/suffix` form and the plain `old => new` form,
/// yielding the new path and the old one when the path is a rename.
pub fn parse_rename_path(path: &str) -> (r: (String, Option<String>))
    ensures
        r.0@ == spec_parse_rename_path(path@).0,
        match r.1 {
            Option::Some(o) => spec_parse_rename_path(path@).1 == Option::Some(o@),
            Option::None => spec_parse_rename_path(path@).1 is None,
        },
{
    let p = chars_of(path);
    let brace_open = chars_of("{");
    let brace_close = chars_of("}");
    let arrow = chars_of(" => ");
    proof {
        reveal_strlit("{");
        reveal_strlit("}");
        reveal_strlit(" => ");
    }
    let bs = find_sub(&p, &brace_open);
    let be = find_sub(&p, &brace_close);
    if bs < p.len() && be < p.len() && bs + 1 <= be {
        let prefix = copy_range(&p, 0, bs);
        let suffix = copy_range(&p, be + 1, p.len());
        let inner = copy_range(&p, bs + 1, be);
        proof {
            assert(prefix@ =~= p@.take(bs as int));
            assert(suffix@ =~= p@.skip(be as int + 1));
        }
        let k = find_sub(&inner, &arrow);
        proof {
            lemma_find_sub_match(inner@, arrow@);
        }
        if k < inner.len() {
            let old_part = copy_range(&inner, 0, k);
            let new_part = copy_range(&inner, k + 4, inner.len());
            proof {
                assert(old_part@ =~= inner@.take(k as int));
                assert(new_part@ =~= inner@.skip(k as int + 4));
            }
            let new_path = concat3(&prefix, &new_part, &suffix);
            let old_path = concat3(&prefix, &old_part, &suffix);
            return (new_path, Some(old_path));
        }
    }
    let k2 = find_sub(&p, &arrow);
    proof {
        lemma_find_sub_match(p@, arrow@);
    }
    if k2 < p.len() {
        let old_part = copy_range(&p, 0, k2);
        let new_part = copy_range(&p, k2 + 4, p.len());
        let empty: Vec<char> = Vec::new();
        proof {
            assert(old_part@ =~= p@.take(k2 as int));
            assert(new_part@ =~= p@.skip(k2 as int + 4));
        }
        let new_path = concat3(&new_part, &empty, &empty);
        let old_path = concat3(&old_part, &empty, &empty);
        proof {
            assert(new_path@ =~= p@.skip(k2 as int + 4));
            assert(old_path@ =~= p@.take(k2 as int));
        }
        return (new_path, Some(old_path));
    }
    let whole = string_from_chars(&p);
    (whole, None)
}

/// The status word a `git diff --name-status` letter denotes.
pub open spec fn spec_status_word(c: char) -> Seq<char> {
    if c == 'A' {
        "added"@
    } else if c == 'D' {
        "deleted"@
    } else if c == 'M' {
        "modified"@
    } else if c == 'R' {
        "renamed"@
    } else if c == 'C' {
        "copied"@
    } else {
        "modified"@
    }
}

/// The `(path, status)` pairs of one name-status listing, in input order:
/// each non-empty line's first character is its status letter and its last
/// tab-separated field the path. A later line for the same path supersedes
/// an earlier one.
pub open spec fn spec_name_status_pairs(lines: Seq<Seq<char>>, n: int) -> Seq<
    (Seq<char>, Seq<char>),
>
    decreases n,
{
    if n <= 0 {
        Seq::empty()
    } else {
        let prev = spec_name_status_pairs(lines, n - 1);
        let l = lines[n - 1];
        if l.len() == 0 {
            prev
        } else {
            let parts = crate::text::spec_split(l, '\t');
            let letter = if l.len() > 0 {
                l[0]
            } else {
                'M'
            };
            prev.push((parts.last(), spec_status_word(letter)))
        }
    }
}

/// Parse `git diff --name-status` output into `(path, status)` pairs in
/// input order; look entries up with [`lookup_status`], which takes the
/// last match.
pub fn parse_name_status(output: &str) -> (r: Vec<(String, String)>)
    ensures
        pairs_view(r@) == spec_name_status_pairs(
            spec_lines(output@),
            spec_lines(output@).len() as int,
        ),
{
    let ov = chars_of(output);
    let lines = crate::text::split_lines_chars(&ov);
    let ghost linesv = spec_lines(output@);
    proof {
        assert(lines.deep_view() == linesv);
    }
    let mut r: Vec<(String, String)> = Vec::new();
    let mut i: usize = 0;
    proof {
        assert(pairs_view(r@) =~= Seq::<(Seq<char>, Seq<char>)>::empty());
    }
    while i < lines.len()
        invariant
            i <= lines@.len(),
            lines.deep_view() == linesv,
            pairs_view(r@) == spec_name_status_pairs(linesv, i as int),
        decreases lines@.len() - i,
    {
        let ghost r0 = pairs_view(r@);
        proof {
            assert(lines@[i as int].deep_view() =~= lines@[i as int]@);
            assert(linesv[i as int] == lines@[i as int]@);
        }
        let line = &lines[i];
        if line.len() > 0 {
            let parts = crate::text::split_chars(line, '\t');
            proof {
                crate::text::lemma_split_nonempty(line@, '\t', Seq::empty());
                assert(parts.deep_view().len() == parts@.len());
                assert(parts@.len() > 0);
                assert(parts@[parts@.len() - 1].deep_view() =~= parts@[parts@.len() - 1]@);
                assert(parts.deep_view().last() == parts@[parts@.len() - 1]@);
            }
            let path = string_from_chars(&parts[parts.len() - 1]);
            let letter = line[0];
            let status: String = if letter == 'A' {
                "added".to_owned()
            } else if letter == 'D' {
                "deleted".to_owned()
            } else if letter == 'M' {
                "modified".to_owned()
            } else if letter == 'R' {
                "renamed".to_owned()
            } else if letter == 'C' {
                "copied".to_owned()
            } else {
                "modified".to_owned()
            };
            let ghost pv = (path@, status@);
            r.push((path, status));
            proof {
                assert(pairs_view(r@) =~= r0.push(pv));
            }
        }
        i = i + 1;
    }
    r
}

/// View of a list of string pairs.
pub open spec fn pairs_view(s: Seq<(String, String)>) -> Seq<(Seq<char>, Seq<char>)> {
    s.map_values(|p: (String, String)| (p.0@, p.1@))
}

/// The status recorded for a path: the last matching entry.
pub open spec fn spec_lookup_status(pairs: Seq<(Seq<char>, Seq<char>)>, path: Seq<char>) -> Option<
    Seq<char>,
>
    decreases pairs.len(),
{
    if pairs.len() == 0 {
        Option::None
    } else if pairs.last().0 == path {
        Option::Some(pairs.last().1)
    } else {
        spec_lookup_status(pairs.drop_last(), path)
    }
}

/// Look a path's status up, taking the last matching entry as a map built
/// by insertion would.
pub fn lookup_status(pairs: &Vec<(String, String)>, path: &str) -> (r: Option<String>)
    ensures
        match r {
            Option::Some(s) => spec_lookup_status(pairs_view(pairs@), path@) == Option::Some(
                s@,
            ),
            Option::None => spec_lookup_status(pairs_view(pairs@), path@) is None,
        },
{
    let ghost pv = pairs_view(pairs@);
    let mut e: usize = pairs.len();
    proof {
        assert(pv.take(pv.len() as int) =~= pv);
    }
    while e > 0
        invariant
            e <= pairs@.len(),
            spec_lookup_status(pv, path@) == spec_lookup_status(pv.take(e as int), path@),
        decreases e,
    {
        proof {
            let cur = pv.take(e as int);
            assert(cur.last() == pv[e - 1]);
            assert(cur.drop_last() =~= pv.take(e as int - 1));
        }
        if crate::text::str_eq(pairs[e - 1].0.as_str(), path) {
            let found = pairs[e - 1].1.clone();
            return Some(found);
        }
        e = e - 1;
    }
    None
}

/// The default base branch, given which of the candidates `main`,
/// `master`, `origin/main`, `origin/master` (in that order) have a merge
/// base with the current head: the first that does, or `HEAD~10`.
pub open spec fn spec_default_base_branch(ok: Seq<bool>) -> Seq<char> {
    if ok.len() > 0 && ok[0] {
        "main"@
    } else if ok.len() > 1 && ok[1] {
        "master"@
    } else if ok.len() > 2 && ok[2] {
        "origin/main"@
    } else if ok.len() > 3 && ok[3] {
        "origin/master"@
    } else {
        "HEAD~10"@
    }
}

/// Pick the default base branch from the merge-base probes of the four
/// candidates, in their fixed order.
pub fn detect_default_base_branch(candidates_ok: &Vec<bool>) -> (r: String)
    ensures
        r@ == spec_default_base_branch(candidates_ok@),
{
    if candidates_ok.len() > 0 && candidates_ok[0] {
        "main".to_owned()
    } else if candidates_ok.len() > 1 && candidates_ok[1] {
        "master".to_owned()
    } else if candidates_ok.len() > 2 && candidates_ok[2] {
        "origin/main".to_owned()
    } else if candidates_ok.len() > 3 && candidates_ok[3] {
        "origin/master".to_owned()
    } else {
        "HEAD~10".to_owned()
    }
}

/// The session file named on a command line: the argument after
/// `--session`, or the first positional `.json` argument.
pub open spec fn spec_session_arg(args: Seq<Seq<char>>, i: int) -> Option<Seq<char>>
    decreases args.len() - i,
{
    if i < 0 || i >= args.len() {
        Option::None
    } else if args[i] == "--session"@ {
        if i + 1 < args.len() {
            Option::Some(args[i + 1])
        } else {
            Option::None
        }
    } else if i > 0 && crate::language::spec_ends_with(args[i], ".json"@) {
        Option::Some(args[i])
    } else {
        spec_session_arg(args, i + 1)
    }
}

/// Scan command-line arguments for a session file path: the value after a
/// `--session` flag, or a positional `.json` path.
pub fn get_session_arg(args: &Vec<String>) -> (r: Option<String>)
    ensures
        match r {
            Option::Some(s) => spec_session_arg(crate::editor::strs_view(args@), 0)
                == Option::Some(s@),
            Option::None => spec_session_arg(crate::editor::strs_view(args@), 0) is None,
        },
{
    let ghost av = crate::editor::strs_view(args@);
    let mut i: usize = 0;
    while i < args.len()
        invariant
            i <= args@.len(),
            spec_session_arg(av, 0) == spec_session_arg(av, i as int),
        decreases args@.len() - i,
    {
        proof {
            assert(av[i as int] == args@[i as int]@);
        }
        if crate::text::str_eq(args[i].as_str(), "--session") {
            if i + 1 < args.len() {
                proof {
                    assert(av[i as int + 1] == args@[i as int + 1]@);
                }
                let found = args[i + 1].clone();
                return Some(found);
            } else {
                return None;
            }
        }
        let iv = chars_of(args[i].as_str());
        if i > 0 && crate::watcher::ends_with_str(&iv, ".json") {
            let found = args[i].clone();
            return Some(found);
        }
        i = i + 1;
    }
    None
}

/// What recovering one old file against the new manifest yields, when the
/// new manifest still lists its path: viewed status kept only when the
/// totals match, a changed marker when a viewed file's totals moved, and
/// the scroll and collapse state carried over.
pub open spec fn spec_recover_one(old_f: FileState, new_adds: u32, new_dels: u32) -> (
    bool,
    bool,
) {
    let stats_match = old_f.diff_stats.additions == new_adds && old_f.diff_stats.deletions
        == new_dels;
    (
        if stats_match {
            old_f.viewed
        } else {
            false
        },
        old_f.viewed && !stats_match,
    )
}

/// The totals the new manifest lists for a path, taking the last entry as
/// a map built by insertion would.
pub open spec fn spec_lookup_new(nf: Seq<FileWithStats>, path: Seq<char>) -> Option<(u32, u32)>
    decreases nf.len(),
{
    if nf.len() == 0 {
        Option::None
    } else if nf.last().path@ == path {
        Option::Some((nf.last().additions, nf.last().deletions))
    } else {
        spec_lookup_new(nf.drop_last(), path)
    }
}

/// View of one recovered entry, as plain values.
pub open spec fn recovered_view(e: (String, FileRecoveryResult)) -> (
    Seq<char>,
    bool,
    bool,
    (u32, u32),
    (u32, u32),
    u32,
    bool,
    Seq<u32>,
) {
    (
        e.0@,
        e.1.viewed,
        e.1.changed_since_viewed,
        (e.1.old_stats.additions, e.1.old_stats.deletions),
        (e.1.new_stats.additions, e.1.new_stats.deletions),
        e.1.scroll_position,
        e.1.collapse_state.file,
        e.1.collapse_state.hunks@,
    )
}

/// View of a recovered entry list.
pub open spec fn recovered_list_view(s: Seq<(String, FileRecoveryResult)>) -> Seq<
    (Seq<char>, bool, bool, (u32, u32), (u32, u32), u32, bool, Seq<u32>),
> {
    s.map_values(|e: (String, FileRecoveryResult)| recovered_view(e))
}

/// The recovered entries of the first `n` old files, in their order: one
/// entry for each old file the new manifest still lists, with the viewed
/// flag kept only when the totals still match, a changed marker when a
/// viewed file's totals moved, and the scroll and collapse state carried
/// over.
pub open spec fn spec_recover(
    old: Seq<(String, FileState)>,
    nf: Seq<FileWithStats>,
    n: int,
) -> Seq<(Seq<char>, bool, bool, (u32, u32), (u32, u32), u32, bool, Seq<u32>)>
    decreases n,
{
    if n <= 0 {
        Seq::empty()
    } else {
        let prev = spec_recover(old, nf, n - 1);
        let f = old[n - 1].1;
        match spec_lookup_new(nf, old[n - 1].0@) {
            Option::Some((na, nd)) => {
                let stats_match = f.diff_stats.additions == na && f.diff_stats.deletions
                    == nd;
                prev.push(
                    (
                        old[n - 1].0@,
                        if stats_match {
                            f.viewed
                        } else {
                            false
                        },
                        f.viewed && !stats_match,
                        (f.diff_stats.additions, f.diff_stats.deletions),
                        (na, nd),
                        f.scroll_position,
                        f.collapse_state.file,
                        f.collapse_state.hunks@,
                    ),
                )
            },
            Option::None => prev,
        }
    }
}

/// Recover per-file review state from an older state file: for each old
/// entry whose path the new manifest still lists, keep the viewed flag
/// only when the diff totals still match, flag it changed when a viewed
/// file's totals moved, and carry scroll and collapse state over.
pub fn recover_file_states(
    old_files: &Vec<(String, FileState)>,
    new_files: &Vec<FileWithStats>,
) -> (r: Vec<(String, FileRecoveryResult)>)
    ensures
        recovered_list_view(r@) == spec_recover(
            old_files@,
            new_files@,
            old_files@.len() as int,
        ),
{
    let ghost oldv = old_files@;
    let ghost nfv = new_files@;
    let mut out: Vec<(String, FileRecoveryResult)> = Vec::new();
    let mut i: usize = 0;
    proof {
        assert(recovered_list_view(out@) =~= spec_recover(oldv, nfv, 0));
    }
    while i < old_files.len()
        invariant
            i <= old_files@.len(),
            recovered_list_view(out@) == spec_recover(oldv, nfv, i as int),
        decreases old_files@.len() - i,
    {
        let path = &old_files[i].0;
        let mut found: Option<(u32, u32)> = None;
        let mut j: usize = 0;
        proof {
            assert(nfv.take(0) =~= Seq::<FileWithStats>::empty());
        }
        while j < new_files.len()
            invariant
                j <= new_files@.len(),
                found == spec_lookup_new(nfv.take(j as int), path@),
            decreases new_files@.len() - j,
        {
            proof {
                assert(nfv.take(j as int + 1).last() == nfv[j as int]);
                assert(nfv.take(j as int + 1).drop_last() =~= nfv.take(j as int));
            }
            if crate::text::str_eq(new_files[j].path.as_str(), path.as_str()) {
                found = Some((new_files[j].additions, new_files[j].deletions));
            }
            j = j + 1;
        }
        proof {
            assert(nfv.take(nfv.len() as int) =~= nfv);
        }
        let ghost out0 = recovered_list_view(out@);
        if let Some((na, nd)) = found {
            let old_f = &old_files[i].1;
            let stats_match = old_f.diff_stats.additions == na && old_f.diff_stats.deletions
                == nd;
            let rec = FileRecoveryResult {
                viewed: if stats_match {
                    old_f.viewed
                } else {
                    false
                },
                changed_since_viewed: old_f.viewed && !stats_match,
                old_stats: DiffStats {
                    additions: old_f.diff_stats.additions,
                    deletions: old_f.diff_stats.deletions,
                },
                new_stats: DiffStats { additions: na, deletions: nd },
                scroll_position: old_f.scroll_position,
                collapse_state: CollapseState {
                    file: old_f.collapse_state.file,
                    hunks: old_f.collapse_state.hunks.clone(),
                },
            };
            let p = path.clone();
            let ghost recv = recovered_view((p, rec));
            proof {
                assert(rec.collapse_state.hunks@ =~= old_files@[i as int].1.collapse_state.hunks@);
            }
            out.push((p, rec));
            proof {
                assert(recovered_list_view(out@) =~~= out0.push(recv));
            }
        }
        i = i + 1;
    }
    out
}

} // verus!
