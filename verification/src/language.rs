//! Language detection from file paths: extension and filename heuristics
//! with a plain-text fallback. The identifier chosen here is handed to the
//! syntax highlighter collaborator; an unsupported identifier simply
//! degrades to an empty span list there.

use vstd::prelude::*;

use crate::editor::chars_eq_str;
use crate::text::chars_of;

verus! {

/// A language the highlighter knows, with the file extensions that select
/// it.
#[derive(Debug, Clone, PartialEq, Eq)]
pub struct LanguageInfo {
    pub name: String,
    pub extensions: Vec<String>,
}

/// Index one past the last occurrence of `c`, or zero if there is none.
pub open spec fn spec_after_last(s: Seq<char>, c: char) -> int
    decreases s.len(),
{
    if s.len() == 0 {
        0
    } else if s.last() == c {
        s.len() as int
    } else {
        spec_after_last(s.drop_last(), c)
    }
}

/// The file name of a path: everything after the last slash.
pub open spec fn spec_file_name(p: Seq<char>) -> Seq<char> {
    p.skip(spec_after_last(p, '/'))
}

/// The extension of a path: what follows the file name's last dot, when
/// that dot is not its first character; a name with no dot past its first
/// character has no extension.
pub open spec fn spec_extension_of(p: Seq<char>) -> Seq<char> {
    let name = spec_file_name(p);
    let k = spec_after_last(name, '.');
    if k > 1 {
        name.skip(k)
    } else {
        Seq::empty()
    }
}

/// ASCII lowercasing of a character.
pub open spec fn spec_lower_char(c: char) -> char {
    if 'A' as u32 <= c as u32 && c as u32 <= 'Z' as u32 {
        ((c as u32 + 32) as u8) as char
    } else {
        c
    }
}

/// ASCII lowercasing of a text.
pub open spec fn spec_ascii_lower(s: Seq<char>) -> Seq<char> {
    s.map_values(|c: char| spec_lower_char(c))
}

/// Does `s` end with the suffix `p`?
pub open spec fn spec_ends_with(s: Seq<char>, p: Seq<char>) -> bool {
    s.len() >= p.len() && s.skip(s.len() - p.len()) == p
}

/// Find one past the last occurrence of `c` in a character vector.
pub fn after_last(v: &Vec<char>, c: char) -> (r: usize)
    ensures
        r as int == spec_after_last(v@, c),
        r <= v@.len(),
{
    let mut e: usize = v.len();
    proof {
        assert(v@.take(v@.len() as int) =~= v@);
    }
    while e > 0 && v[e - 1] != c
        invariant
            e <= v@.len(),
            spec_after_last(v@, c) == spec_after_last(v@.take(e as int), c),
        decreases e,
    {
        proof {
            let cur = v@.take(e as int);
            assert(cur.last() == v@[e - 1]);
            assert(cur.drop_last() =~= v@.take(e as int - 1));
        }
        e = e - 1;
    }
    proof {
        let cur = v@.take(e as int);
        if e > 0 {
            assert(cur.last() == v@[e - 1]);
            assert(spec_after_last(cur, c) == e);
        } else {
            assert(cur.len() == 0);
        }
    }
    e
}

/// Copy `v[from..]`.
pub fn tail_from(v: &Vec<char>, from: usize) -> (r: Vec<char>)
    requires
        from <= v@.len(),
    ensures
        r@ == v@.skip(from as int),
{
    let mut r: Vec<char> = Vec::new();
    let mut j: usize = from;
    while j < v.len()
        invariant
            from <= j <= v@.len(),
            r@ == v@.subrange(from as int, j as int),
        decreases v@.len() - j,
    {
        let c = v[j];
        r.push(c);
        assert(r@ =~= v@.subrange(from as int, j as int + 1));
        j = j + 1;
    }
    assert(r@ =~= v@.skip(from as int));
    r
}

/// The extension of a file path, as characters.
pub fn extension_of(file_path: &str) -> (r: Vec<char>)
    ensures
        r@ == spec_extension_of(file_path@),
{
    let v = chars_of(file_path);
    let slash = after_last(&v, '/');
    let name = tail_from(&v, slash);
    let dot = after_last(&name, '.');
    if dot > 1 {
        tail_from(&name, dot)
    } else {
        let r: Vec<char> = Vec::new();
        proof {
            assert(r@ =~= Seq::<char>::empty());
        }
        r
    }
}

/// ASCII-lowercase a character vector.
pub fn ascii_lower(v: &Vec<char>) -> (r: Vec<char>)
    ensures
        r@ == spec_ascii_lower(v@),
{
    let mut r: Vec<char> = Vec::new();
    let mut i: usize = 0;
    while i < v.len()
        invariant
            i <= v@.len(),
            r@.len() == i,
            forall|j: int| 0 <= j < i ==> #[trigger] r@[j] == spec_lower_char(v@[j]),
        decreases v@.len() - i,
    {
        let c = v[i];
        let u: u32 = c as u32;
        if 65 <= u && u <= 90 {
            let lowered: char = ((u + 32) as u8) as char;
            r.push(lowered);
        } else {
            r.push(c);
        }
        i = i + 1;
    }
    proof {
        assert(r@ =~= spec_ascii_lower(v@));
    }
    r
}

/// The language identifier a file path denotes: `typescript` for `.d.ts`
/// files, then by exact extension, then by well-known lowercased file
/// names, and `text` as the fallback.
pub open spec fn spec_detect_language(p: Seq<char>) -> Seq<char> {
    let ext = spec_extension_of(p);
    if spec_ends_with(p, ".d.ts"@) {
        "typescript"@
    } else if ext == "ts"@ || ext == "tsx"@ || ext == "mts"@ || ext == "cts"@ {
        "typescript"@
    } else if ext == "js"@ || ext == "jsx"@ || ext == "mjs"@ || ext == "cjs"@ {
        "javascript"@
    } else if ext == "rs"@ {
        "rust"@
    } else if ext == "py"@ || ext == "pyi"@ || ext == "pyw"@ {
        "python"@
    } else if ext == "go"@ {
        "go"@
    } else if ext == "json"@ || ext == "jsonc"@ {
        "json"@
    } else if ext == "css"@ {
        "css"@
    } else if ext == "html"@ || ext == "htm"@ {
        "html"@
    } else if ext == "md"@ || ext == "markdown"@ {
        "markdown"@
    } else if ext == "toml"@ {
        "toml"@
    } else if ext == "yaml"@ || ext == "yml"@ {
        "yaml"@
    } else if ext == "sh"@ || ext == "bash"@ || ext == "zsh"@ {
        "bash"@
    } else {
        let fname = spec_ascii_lower(spec_file_name(p));
        if fname == "dockerfile"@ || fname == "makefile"@ || fname == ".bashrc"@ || fname
            == ".zshrc"@ || fname == ".bash_profile"@ {
            "bash"@
        } else {
            "text"@
        }
    }
}

/// Does the path end with the given suffix?
fn path_ends_with(v: &Vec<char>, suffix: &str) -> (r: bool)
    ensures
        r == spec_ends_with(v@, suffix@),
{
    let sv = chars_of(suffix);
    if v.len() < sv.len() {
        return false;
    }
    let tail = tail_from(v, v.len() - sv.len());
    crate::editor::chars_eq_pub(&tail, &sv)
}

/// Detect the language identifier of a file path by its extension and
/// filename.
pub fn detect_language_from_path(file_path: &str) -> (r: String)
    ensures
        r@ == spec_detect_language(file_path@),
{
    let v = chars_of(file_path);
    let ext = extension_of(file_path);
    if path_ends_with(&v, ".d.ts") {
        return "typescript".to_owned();
    }
    if chars_eq_str(&ext, "ts") || chars_eq_str(&ext, "tsx") || chars_eq_str(&ext, "mts")
        || chars_eq_str(&ext, "cts") {
        return "typescript".to_owned();
    }
    if chars_eq_str(&ext, "js") || chars_eq_str(&ext, "jsx") || chars_eq_str(&ext, "mjs")
        || chars_eq_str(&ext, "cjs") {
        return "javascript".to_owned();
    }
    if chars_eq_str(&ext, "rs") {
        return "rust".to_owned();
    }
    if chars_eq_str(&ext, "py") || chars_eq_str(&ext, "pyi") || chars_eq_str(&ext, "pyw") {
        return "python".to_owned();
    }
    if chars_eq_str(&ext, "go") {
        return "go".to_owned();
    }
    if chars_eq_str(&ext, "json") || chars_eq_str(&ext, "jsonc") {
        return "json".to_owned();
    }
    if chars_eq_str(&ext, "css") {
        return "css".to_owned();
    }
    if chars_eq_str(&ext, "html") || chars_eq_str(&ext, "htm") {
        return "html".to_owned();
    }
    if chars_eq_str(&ext, "md") || chars_eq_str(&ext, "markdown") {
        return "markdown".to_owned();
    }
    if chars_eq_str(&ext, "toml") {
        return "toml".to_owned();
    }
    if chars_eq_str(&ext, "yaml") || chars_eq_str(&ext, "yml") {
        return "yaml".to_owned();
    }
    if chars_eq_str(&ext, "sh") || chars_eq_str(&ext, "bash") || chars_eq_str(&ext, "zsh") {
        return "bash".to_owned();
    }
    let slash = after_last(&v, '/');
    let name = tail_from(&v, slash);
    let fname = ascii_lower(&name);
    if chars_eq_str(&fname, "dockerfile") || chars_eq_str(&fname, "makefile") || chars_eq_str(
        &fname,
        ".bashrc",
    ) || chars_eq_str(&fname, ".zshrc") || chars_eq_str(&fname, ".bash_profile") {
        return "bash".to_owned();
    }
    "text".to_owned()
}

} // verus!
