//! Editor command handling: splitting a configured command line into
//! tokens, substituting `{file}` / `{line}` / `$FILE` / `$LINE`
//! placeholders, and editor-name heuristics for adding line-number
//! arguments when no placeholders are present. The caller spawns the
//! resulting program; everything here is pure text.

use vstd::prelude::*;

use crate::text::{
    chars_of, contains_sub, replace_chars, spec_contains_sub, spec_replace, spec_trim_leading,
    spec_u32_dec, string_from_chars, trim_leading, u32_dec_chars,
};

verus! {

/// View of a list of owned strings.
pub open spec fn strs_view(s: Seq<String>) -> Seq<Seq<char>> {
    s.map_values(|x: String| x@)
}

/// Does a command string contain any template placeholder?
pub open spec fn spec_has_placeholders(s: Seq<char>) -> bool {
    ||| spec_contains_sub(s, "{file}"@)
    ||| spec_contains_sub(s, "{line}"@)
    ||| spec_contains_sub(s, "$FILE"@)
    ||| spec_contains_sub(s, "$LINE"@)
}

/// Check whether a command string contains template placeholders.
pub fn has_placeholders(cmd: &str) -> (r: bool)
    ensures
        r == spec_has_placeholders(cmd@),
{
    let v = chars_of(cmd);
    let p1 = chars_of("{file}");
    let p2 = chars_of("{line}");
    let p3 = chars_of("$FILE");
    let p4 = chars_of("$LINE");
    contains_sub(&v, &p1) || contains_sub(&v, &p2) || contains_sub(&v, &p3) || contains_sub(
        &v,
        &p4,
    )
}

/// Splitting a command string into tokens: unquoted spaces and tabs
/// separate tokens, double quotes toggle quoting and are dropped, and
/// empty tokens are never emitted.
pub open spec fn spec_shell_split_acc(s: Seq<char>, in_quotes: bool, cur: Seq<char>) -> Seq<
    Seq<char>,
>
    decreases s.len(),
{
    if s.len() == 0 {
        if cur.len() > 0 {
            seq![cur]
        } else {
            Seq::empty()
        }
    } else {
        let c = s[0];
        if c == '"' {
            spec_shell_split_acc(s.drop_first(), !in_quotes, cur)
        } else if (c == ' ' || c == '\t') && !in_quotes {
            if cur.len() > 0 {
                seq![cur] + spec_shell_split_acc(s.drop_first(), in_quotes, Seq::empty())
            } else {
                spec_shell_split_acc(s.drop_first(), in_quotes, Seq::empty())
            }
        } else {
            spec_shell_split_acc(s.drop_first(), in_quotes, cur.push(c))
        }
    }
}

/// The tokens of a command string.
pub open spec fn spec_shell_split(s: Seq<char>) -> Seq<Seq<char>> {
    spec_shell_split_acc(s, false, Seq::empty())
}

/// Split a command string into tokens, respecting double-quoted segments:
/// inside quotes whitespace is kept and the quotes themselves are dropped;
/// single quotes are ordinary characters.
pub fn shell_split(input: &str) -> (r: Vec<String>)
    ensures
        strs_view(r@) == spec_shell_split(input@),
{
    let s = chars_of(input);
    let mut out: Vec<String> = Vec::new();
    let mut cur: Vec<char> = Vec::new();
    let mut in_quotes: bool = false;
    let mut i: usize = 0;
    proof {
        assert(s@.skip(0) =~= s@);
        assert(strs_view(out@) + spec_shell_split_acc(s@, false, cur@) =~~= spec_shell_split_acc(
            s@,
            false,
            cur@,
        ));
    }
    while i < s.len()
        invariant
            i <= s@.len(),
            spec_shell_split(input@) == strs_view(out@) + spec_shell_split_acc(
                s@.skip(i as int),
                in_quotes,
                cur@,
            ),
            s@ == input@,
        decreases s@.len() - i,
    {
        let ghost pre = s@.skip(i as int);
        let ghost out0 = strs_view(out@);
        let ghost cur0 = cur@;
        proof {
            assert(pre[0] == s@[i as int]);
            assert(pre.drop_first() =~= s@.skip(i as int + 1));
        }
        let c = s[i];
        if c == '"' {
            in_quotes = !in_quotes;
        } else if (c == ' ' || c == '\t') && !in_quotes {
            if cur.len() > 0 {
                let tok = string_from_chars(&cur);
                out.push(tok);
                cur = Vec::new();
                proof {
                    assert(strs_view(out@) =~~= out0 + seq![cur0]);
                    assert((out0 + seq![cur0]) + spec_shell_split_acc(
                        pre.drop_first(),
                        in_quotes,
                        cur@,
                    ) =~~= out0 + (seq![cur0] + spec_shell_split_acc(
                        pre.drop_first(),
                        in_quotes,
                        cur@,
                    )));
                    assert(cur@ =~= Seq::<char>::empty());
                }
            } else {
                proof {
                    assert(cur@ =~= Seq::<char>::empty());
                }
            }
        } else {
            cur.push(c);
            proof {
                assert(cur@ == cur0.push(s@[i as int]));
            }
        }
        i = i + 1;
    }
    proof {
        assert(s@.skip(s@.len() as int) =~= Seq::<char>::empty());
    }
    if cur.len() > 0 {
        let ghost out0 = strs_view(out@);
        let ghost cur0 = cur@;
        let tok = string_from_chars(&cur);
        out.push(tok);
        proof {
            assert(strs_view(out@) =~~= out0 + seq![cur0]);
        }
    } else {
        proof {
            assert(strs_view(out@) + Seq::<Seq<char>>::empty() =~~= strs_view(out@));
        }
    }
    out
}

/// What substituting placeholders in one token yields. With no line
/// number, a token that is only a line placeholder (after leading `+` and
/// `-` signs) is dropped entirely, and inline `:{line}` / `:$LINE`
/// references are stripped.
pub open spec fn spec_substitute_token(
    token: Seq<char>,
    file: Seq<char>,
    line: Option<u32>,
) -> Option<Seq<char>> {
    let stripped = spec_trim_leading(spec_trim_leading(token, '+'), '-');
    if line is None && (stripped == "{line}"@ || stripped == "$LINE"@) {
        Option::None
    } else {
        let r2 = spec_replace(spec_replace(token, "{file}"@, file), "$FILE"@, file);
        match line {
            Option::Some(l) => {
                let ls = spec_u32_dec(l as int);
                Option::Some(spec_replace(spec_replace(r2, "{line}"@, ls), "$LINE"@, ls))
            },
            Option::None => Option::Some(
                spec_replace(
                    spec_replace(
                        spec_replace(
                            spec_replace(r2, ":{line}"@, Seq::empty()),
                            ":$LINE"@,
                            Seq::empty(),
                        ),
                        "{line}"@,
                        Seq::empty(),
                    ),
                    "$LINE"@,
                    Seq::empty(),
                ),
            ),
        }
    }
}

/// Substitute placeholders in a single token, in both `{file}` / `{line}`
/// and `$FILE` / `$LINE` styles.
pub fn substitute_token(token: &str, file: &str, line: Option<u32>) -> (r: Option<String>)
    ensures
        match r {
            Option::Some(s) => spec_substitute_token(token@, file@, line) == Option::Some(s@),
            Option::None => spec_substitute_token(token@, file@, line) is None,
        },
{
    proof {
        reveal_strlit("{file}");
        reveal_strlit("$FILE");
        reveal_strlit("{line}");
        reveal_strlit("$LINE");
        reveal_strlit(":{line}");
        reveal_strlit(":$LINE");
    }
    let tv = chars_of(token);
    let fv = chars_of(file);
    let brace_line = chars_of("{line}");
    let dollar_line = chars_of("$LINE");
    if line.is_none() {
        let stripped = trim_leading(&trim_leading(&tv, '+'), '-');
        if chars_eq_pub(&stripped, &brace_line) || chars_eq_pub(&stripped, &dollar_line) {
            return None;
        }
    }
    let brace_file = chars_of("{file}");
    let dollar_file = chars_of("$FILE");
    let r1 = replace_chars(&tv, &brace_file, &fv);
    let r2 = replace_chars(&r1, &dollar_file, &fv);
    match line {
        Some(l) => {
            let ls = u32_dec_chars(l);
            let r3 = replace_chars(&r2, &brace_line, &ls);
            let r4 = replace_chars(&r3, &dollar_line, &ls);
            Some(string_from_chars(&r4))
        },
        None => {
            let empty: Vec<char> = Vec::new();
            let colon_brace = chars_of(":{line}");
            let colon_dollar = chars_of(":$LINE");
            let r3 = replace_chars(&r2, &colon_brace, &empty);
            let r4 = replace_chars(&r3, &colon_dollar, &empty);
            let r5 = replace_chars(&r4, &brace_line, &empty);
            let r6 = replace_chars(&r5, &dollar_line, &empty);
            Some(string_from_chars(&r6))
        },
    }
}

/// The surviving substituted tokens, in order.
pub open spec fn spec_subst_all(
    tokens: Seq<Seq<char>>,
    file: Seq<char>,
    line: Option<u32>,
) -> Seq<Seq<char>>
    decreases tokens.len(),
{
    if tokens.len() == 0 {
        Seq::empty()
    } else {
        let rest = spec_subst_all(tokens.drop_last(), file, line);
        match spec_substitute_token(tokens.last(), file, line) {
            Option::Some(s) => rest.push(s),
            Option::None => rest,
        }
    }
}

/// What parsing an editor template yields: the substituted tokens, the
/// first as the program and the rest as arguments; an error when the
/// template has no tokens, or none survive substitution.
pub open spec fn spec_parse_editor_template(
    template: Seq<char>,
    file: Seq<char>,
    line: Option<u32>,
) -> Result<(Seq<char>, Seq<Seq<char>>), Seq<char>> {
    let tokens = spec_shell_split(template);
    if tokens.len() == 0 {
        Result::Err("Empty editor command"@)
    } else {
        let args = spec_subst_all(tokens, file, line);
        if args.len() == 0 {
            Result::Err("Editor command resolved to empty after substitution"@)
        } else {
            Result::Ok((args[0], args.drop_first()))
        }
    }
}

/// Parse an editor command template into a program and its arguments.
pub fn parse_editor_template(template: &str, file: &str, line: Option<u32>) -> (r: Result<
    (String, Vec<String>),
    String,
>)
    ensures
        match r {
            Result::Ok(pa) => spec_parse_editor_template(template@, file@, line)
                == Result::<(Seq<char>, Seq<Seq<char>>), Seq<char>>::Ok(
                (pa.0@, strs_view(pa.1@)),
            ),
            Result::Err(e) => spec_parse_editor_template(template@, file@, line)
                == Result::<(Seq<char>, Seq<Seq<char>>), Seq<char>>::Err(e@),
        },
{
    let tokens = shell_split(template);
    let ghost toksv = spec_shell_split(template@);
    if tokens.len() == 0 {
        return Err("Empty editor command".to_owned());
    }
    let mut args: Vec<String> = Vec::new();
    let mut i: usize = 0;
    proof {
        assert(toksv.take(0) =~= Seq::<Seq<char>>::empty());
        assert(spec_subst_all(toksv.take(0), file@, line) =~~= Seq::<Seq<char>>::empty());
        assert(strs_view(args@) =~~= Seq::<Seq<char>>::empty());
    }
    while i < tokens.len()
        invariant
            i <= tokens@.len(),
            strs_view(tokens@) == toksv,
            strs_view(args@) == spec_subst_all(toksv.take(i as int), file@, line),
        decreases tokens@.len() - i,
    {
        let ghost args0 = strs_view(args@);
        proof {
            assert(tokens@[i as int]@ == toksv[i as int]);
            assert(toksv.take(i as int + 1).drop_last() =~= toksv.take(i as int));
            assert(toksv.take(i as int + 1).last() == toksv[i as int]);
        }
        if let Some(substituted) = substitute_token(tokens[i].as_str(), file, line) {
            let ghost sv = substituted@;
            args.push(substituted);
            proof {
                assert(strs_view(args@) =~~= args0.push(sv));
            }
        }
        i = i + 1;
    }
    proof {
        assert(toksv.take(toksv.len() as int) =~= toksv);
    }
    if args.len() == 0 {
        return Err("Editor command resolved to empty after substitution".to_owned());
    }
    let program = args.remove(0);
    proof {
        assert(strs_view(args@) =~= spec_subst_all(toksv, file@, line).drop_first());
    }
    Ok((program, args))
}

/// The file argument and extra arguments the heuristics add for a known
/// editor: VS Code and Sublime get `-g` and `file:line`, the vi family and
/// Emacs get `+line`, anything else just the file.
pub open spec fn spec_heuristic_result(
    parts: Seq<Seq<char>>,
    file: Seq<char>,
    line: Option<u32>,
) -> (Seq<char>, Seq<Seq<char>>)
    recommends
        parts.len() > 0,
{
    let program = parts[0];
    let args0 = parts.drop_first();
    match line {
        Option::None => (program, args0.push(file)),
        Option::Some(l) => {
            let ls = spec_u32_dec(l as int);
            if spec_contains_sub(program, "code"@) || spec_contains_sub(program, "subl"@) {
                let with_g = if exists|i: int| 0 <= i < args0.len() && args0[i] == "-g"@ {
                    args0
                } else {
                    args0.push("-g"@)
                };
                (program, with_g.push(file + ":"@ + ls))
            } else if spec_contains_sub(program, "vim"@) || spec_contains_sub(program, "nvim"@)
                || spec_contains_sub(program, "vi"@) || spec_contains_sub(program, "emacs"@) {
                (program, args0.push("+"@ + ls).push(file))
            } else {
                (program, args0.push(file))
            }
        },
    }
}

/// Is some element of `args` exactly the text `w`?
fn args_contain(args: &Vec<String>, w: &str) -> (r: bool)
    ensures
        r == exists|i: int| 0 <= i < args@.len() && strs_view(args@)[i] == w@,
{
    let mut i: usize = 0;
    while i < args.len()
        invariant
            i <= args@.len(),
            forall|j: int| 0 <= j < i ==> strs_view(args@)[j] != w@,
        decreases args@.len() - i,
    {
        if crate::text::str_eq(args[i].as_str(), w) {
            assert(strs_view(args@)[i as int] == w@);
            return true;
        }
        i = i + 1;
    }
    false
}

/// Does `s` contain the text `w`?
fn str_contains(s: &str, w: &str) -> (r: bool)
    ensures
        r == spec_contains_sub(s@, w@),
{
    let sv = chars_of(s);
    let wv = chars_of(w);
    contains_sub(&sv, &wv)
}

/// Build a program and arguments for a plain editor command without
/// placeholders, using editor-name heuristics to place the file and line.
pub fn build_heuristic_args(editor_cmd: &str, file: &str, line: Option<u32>) -> (r: Result<
    (String, Vec<String>),
    String,
>)
    ensures
        spec_shell_split(editor_cmd@).len() == 0 ==> (r matches Result::Err(e) && e@
            == "Empty editor command"@),
        spec_shell_split(editor_cmd@).len() > 0 ==> (r matches Result::Ok(pa) && (
        pa.0@, strs_view(pa.1@)) == spec_heuristic_result(
            spec_shell_split(editor_cmd@),
            file@,
            line,
        )),
{
    let parts = shell_split(editor_cmd);
    let ghost partsv = spec_shell_split(editor_cmd@);
    if parts.len() == 0 {
        return Err("Empty editor command".to_owned());
    }
    let mut args: Vec<String> = Vec::new();
    let mut i: usize = 1;
    while i < parts.len()
        invariant
            1 <= i <= parts@.len(),
            strs_view(parts@) == partsv,
            strs_view(args@) == partsv.subrange(1, i as int),
        decreases parts@.len() - i,
    {
        let ghost args0 = strs_view(args@);
        let p = parts[i].clone();
        proof {
            assert(p@ == partsv[i as int]);
        }
        args.push(p);
        proof {
            assert(strs_view(args@) =~~= partsv.subrange(1, i as int + 1));
        }
        i = i + 1;
    }
    proof {
        assert(partsv.subrange(1, partsv.len() as int) =~= partsv.drop_first());
    }
    let program = parts[0].clone();
    proof {
        assert(program@ == partsv[0]);
    }
    let file_arg: String;
    match line {
        Some(line_num) => {
            let ls = crate::text::u32_dec_string(line_num);
            if str_contains(program.as_str(), "code") || str_contains(program.as_str(), "subl")
                {
                if !args_contain(&args, "-g") {
                    args.push("-g".to_owned());
                    proof {
                        assert(strs_view(args@) =~~= partsv.drop_first().push("-g"@));
                    }
                }
                let mut fa = String::new();
                fa.append(file);
                fa.append(":");
                fa.append(ls.as_str());
                file_arg = fa;
            } else if str_contains(program.as_str(), "vim") || str_contains(
                program.as_str(),
                "nvim",
            ) || str_contains(program.as_str(), "vi") || str_contains(
                program.as_str(),
                "emacs",
            ) {
                let ghost args1 = strs_view(args@);
                let mut plus = String::new();
                plus.append("+");
                plus.append(ls.as_str());
                args.push(plus);
                proof {
                    assert(strs_view(args@) =~~= args1.push("+"@ + spec_u32_dec(
                        line_num as int,
                    )));
                }
                file_arg = file.to_owned();
            } else {
                file_arg = file.to_owned();
            }
        },
        None => {
            file_arg = file.to_owned();
        },
    }
    let ghost args2 = strs_view(args@);
    let ghost fav = file_arg@;
    args.push(file_arg);
    proof {
        assert(strs_view(args@) =~~= args2.push(fav));
    }
    Ok((program, args))
}

/// The preview media type a file path's extension denotes, if any.
pub open spec fn spec_detect_mime(ext_lower: Seq<char>) -> Option<Seq<char>> {
    if ext_lower == "png"@ {
        Option::Some("image/png"@)
    } else if ext_lower == "jpg"@ || ext_lower == "jpeg"@ {
        Option::Some("image/jpeg"@)
    } else if ext_lower == "gif"@ {
        Option::Some("image/gif"@)
    } else if ext_lower == "webp"@ {
        Option::Some("image/webp"@)
    } else if ext_lower == "bmp"@ {
        Option::Some("image/bmp"@)
    } else if ext_lower == "svg"@ {
        Option::Some("image/svg+xml"@)
    } else if ext_lower == "ico"@ {
        Option::Some("image/x-icon"@)
    } else if ext_lower == "pdf"@ {
        Option::Some("application/pdf"@)
    } else {
        Option::None
    }
}

/// Media type detection from a file path, by its lowercased extension.
pub fn detect_mime_type(file_path: &str) -> (r: Option<&'static str>)
    ensures
        match r {
            Option::Some(m) => spec_detect_mime(
                crate::language::spec_ascii_lower(
                    crate::language::spec_extension_of(file_path@),
                ),
            ) == Option::Some(m@),
            Option::None => spec_detect_mime(
                crate::language::spec_ascii_lower(
                    crate::language::spec_extension_of(file_path@),
                ),
            ) is None,
        },
{
    let ext = crate::language::extension_of(file_path);
    let low = crate::language::ascii_lower(&ext);
    if chars_eq_str(&low, "png") {
        Some("image/png")
    } else if chars_eq_str(&low, "jpg") || chars_eq_str(&low, "jpeg") {
        Some("image/jpeg")
    } else if chars_eq_str(&low, "gif") {
        Some("image/gif")
    } else if chars_eq_str(&low, "webp") {
        Some("image/webp")
    } else if chars_eq_str(&low, "bmp") {
        Some("image/bmp")
    } else if chars_eq_str(&low, "svg") {
        Some("image/svg+xml")
    } else if chars_eq_str(&low, "ico") {
        Some("image/x-icon")
    } else if chars_eq_str(&low, "pdf") {
        Some("application/pdf")
    } else {
        None
    }
}

/// Compare a character vector against a literal.
pub fn chars_eq_str(a: &Vec<char>, b: &str) -> (r: bool)
    ensures
        r == (a@ == b@),
{
    let bv = chars_of(b);
    chars_eq_pub(a, &bv)
}

/// Equality of two character vectors.
pub fn chars_eq_pub(a: &Vec<char>, b: &Vec<char>) -> (r: bool)
    ensures
        r == (a@ == b@),
{
    if a.len() != b.len() {
        assert(a@ != b@);
        return false;
    }
    let mut i: usize = 0;
    while i < a.len()
        invariant
            i <= a@.len(),
            a@.len() == b@.len(),
            forall|j: int| 0 <= j < i ==> a@[j] == b@[j],
        decreases a@.len() - i,
    {
        if a[i] != b[i] {
            return false;
        }
        i = i + 1;
    }
    assert(a@ =~= b@);
    true
}

/// A binary preview handed to the frontend: the detected media type, the
/// byte size, and the bytes themselves.
#[derive(Debug, Clone, PartialEq, Eq)]
pub struct BinaryPreview {
    pub mime_type: String,
    pub size_bytes: usize,
    pub bytes: Vec<u8>,
}

/// The largest byte count a preview may carry.
pub const MAX_PREVIEW_BYTES: usize = 10485760;

/// Package fetched bytes as a preview record, refusing files over the
/// preview size limit.
pub fn make_binary_preview(mime_type: String, bytes: Vec<u8>) -> (r: Result<
    BinaryPreview,
    String,
>)
    ensures
        bytes@.len() > MAX_PREVIEW_BYTES ==> (r matches Result::Err(e) && e@
            == "Preview disabled for files larger than 10 MB"@),
        bytes@.len() <= MAX_PREVIEW_BYTES ==> (r matches Result::Ok(p) && p.mime_type@
            == mime_type@ && p.bytes@ == bytes@ && p.size_bytes == bytes@.len()),
{
    if bytes.len() > MAX_PREVIEW_BYTES {
        return Err("Preview disabled for files larger than 10 MB".to_owned());
    }
    let n = bytes.len();
    Ok(BinaryPreview { mime_type, size_bytes: n, bytes })
}

} // verus!
