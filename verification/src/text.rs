//! Character-level text utilities that the whole engine is built on:
//! conversions between `&str` and `Vec<char>`, equality and prefix tests,
//! splitting, searching, replacing, and decimal conversion.

use vstd::prelude::*;

verus! {

broadcast use vstd::string::group_string_axioms;

/// Collect the characters of a string slice into a vector.
pub fn chars_of(s: &str) -> (r: Vec<char>)
    ensures
        r@ == s@,
{
    let n: usize = s.unicode_len();
    let mut r: Vec<char> = Vec::new();
    let mut i: usize = 0;
    while i < n
        invariant
            i <= n,
            n == s@.len(),
            r@ == s@.take(i as int),
        decreases n - i,
    {
        let c = s.get_char(i);
        r.push(c);
        assert(r@ =~= s@.take(i + 1));
        i = i + 1;
    }
    assert(r@ =~= s@);
    r
}

/// Relies on `String`'s `FromIterator<char>` implementation: collecting an
/// iterator of characters yields the string of exactly those characters.
#[verifier::external_body]
pub(crate) fn string_from_chars(v: &Vec<char>) -> (r: String)
    ensures
        r@ == v@,
{
    v.iter().collect()
}

/// Character-for-character equality of two string slices.
pub fn str_eq(a: &str, b: &str) -> (r: bool)
    ensures
        r == (a@ == b@),
{
    let na: usize = a.unicode_len();
    let nb: usize = b.unicode_len();
    if na != nb {
        assert(a@ != b@);
        return false;
    }
    let mut i: usize = 0;
    while i < na
        invariant
            i <= na,
            na == a@.len(),
            na == b@.len(),
            forall|j: int| 0 <= j < i ==> a@[j] == b@[j],
        decreases na - i,
    {
        if a.get_char(i) != b.get_char(i) {
            return false;
        }
        i = i + 1;
    }
    assert(a@ =~= b@);
    true
}

/// Does `s` begin with the prefix `p`?
pub open spec fn seq_starts_with(s: Seq<char>, p: Seq<char>) -> bool {
    s.len() >= p.len() && s.take(p.len() as int) == p
}

/// Prefix test on string slices.
pub fn str_starts_with(s: &str, p: &str) -> (r: bool)
    ensures
        r == seq_starts_with(s@, p@),
{
    let ns: usize = s.unicode_len();
    let np: usize = p.unicode_len();
    if ns < np {
        return false;
    }
    let mut i: usize = 0;
    while i < np
        invariant
            i <= np,
            np <= ns,
            ns == s@.len(),
            np == p@.len(),
            forall|j: int| 0 <= j < i ==> s@[j] == p@[j],
        decreases np - i,
    {
        if s.get_char(i) != p.get_char(i) {
            assert(s@.take(np as int)[i as int] != p@[i as int]);
            return false;
        }
        i = i + 1;
    }
    assert(s@.take(np as int) =~= p@);
    true
}

/// Does `s` begin with the prefix `p` (character vectors)?
pub fn chars_start_with(s: &Vec<char>, p: &Vec<char>) -> (r: bool)
    ensures
        r == seq_starts_with(s@, p@),
{
    if s.len() < p.len() {
        return false;
    }
    let mut i: usize = 0;
    while i < p.len()
        invariant
            i <= p@.len() <= s@.len(),
            forall|j: int| 0 <= j < i ==> s@[j] == p@[j],
        decreases p@.len() - i,
    {
        if s[i] != p[i] {
            assert(s@.take(p@.len() as int)[i as int] != p@[i as int]);
            return false;
        }
        i = i + 1;
    }
    assert(s@.take(p@.len() as int) =~= p@);
    true
}

/// Splitting on a separator character, keeping empty fields, as Rust's
/// `str::split(sep)` does: the result always has one more field than there
/// are separators.
pub open spec fn spec_split_acc(s: Seq<char>, sep: char, cur: Seq<char>) -> Seq<Seq<char>>
    decreases s.len(),
{
    if s.len() == 0 {
        seq![cur]
    } else if s[0] == sep {
        seq![cur] + spec_split_acc(s.drop_first(), sep, Seq::empty())
    } else {
        spec_split_acc(s.drop_first(), sep, cur.push(s[0]))
    }
}

/// The fields of `s` split on `sep`.
pub open spec fn spec_split(s: Seq<char>, sep: char) -> Seq<Seq<char>> {
    spec_split_acc(s, sep, Seq::empty())
}

/// Splitting always yields at least one field.
pub proof fn lemma_split_nonempty(s: Seq<char>, sep: char, cur: Seq<char>)
    ensures
        spec_split_acc(s, sep, cur).len() >= 1,
    decreases s.len(),
{
    if s.len() > 0 {
        if s[0] == sep {
            lemma_split_nonempty(s.drop_first(), sep, Seq::empty());
        } else {
            lemma_split_nonempty(s.drop_first(), sep, cur.push(s[0]));
        }
    }
}

/// Split a character vector on a separator, keeping empty fields.
pub fn split_chars(s: &Vec<char>, sep: char) -> (r: Vec<Vec<char>>)
    ensures
        r.deep_view() == spec_split(s@, sep),
{
    let mut out: Vec<Vec<char>> = Vec::new();
    let mut cur: Vec<char> = Vec::new();
    let mut i: usize = 0;
    proof {
        assert(s@.skip(0) =~= s@);
        assert(out.deep_view() + spec_split_acc(s@, sep, cur@) =~~= spec_split_acc(
            s@,
            sep,
            cur@,
        ));
    }
    while i < s.len()
        invariant
            i <= s@.len(),
            spec_split(s@, sep) == out.deep_view() + spec_split_acc(
                s@.skip(i as int),
                sep,
                cur@,
            ),
        decreases s@.len() - i,
    {
        let ghost pre = s@.skip(i as int);
        let ghost out0 = out.deep_view();
        let ghost cur0 = cur@;
        proof {
            assert(pre.len() > 0);
            assert(pre[0] == s@[i as int]);
            assert(pre.drop_first() =~= s@.skip(i as int + 1));
        }
        if s[i] == sep {
            out.push(cur);
            cur = Vec::new();
            proof {
                assert(out.deep_view() =~~= out0 + seq![cur0]);
                assert((out0 + seq![cur0]) + spec_split_acc(pre.drop_first(), sep, cur@)
                    =~~= out0 + (seq![cur0] + spec_split_acc(pre.drop_first(), sep, cur@)));
                assert(spec_split_acc(pre, sep, cur0) == seq![cur0] + spec_split_acc(
                    pre.drop_first(),
                    sep,
                    Seq::empty(),
                ));
                assert(cur@ =~= Seq::<char>::empty());
            }
        } else {
            let c = s[i];
            cur.push(c);
            proof {
                assert(cur@ == cur0.push(s@[i as int]));
                assert(spec_split_acc(pre, sep, cur0) == spec_split_acc(
                    pre.drop_first(),
                    sep,
                    cur0.push(pre[0]),
                ));
            }
        }
        i = i + 1;
    }
    proof {
        assert(s@.skip(s@.len() as int) =~= Seq::<char>::empty());
        assert(spec_split_acc(Seq::empty(), sep, cur@) == seq![cur@]);
    }
    let ghost out0 = out.deep_view();
    let ghost cur0 = cur@;
    out.push(cur);
    proof {
        assert(out.deep_view() =~~= out0 + seq![cur0]);
    }
    out
}

/// Strip one trailing carriage return, as Rust's `str::lines` does.
pub open spec fn spec_strip_cr(l: Seq<char>) -> Seq<char> {
    if l.len() > 0 && l.last() == '\r' {
        l.drop_last()
    } else {
        l
    }
}

/// The lines of `s`, split at newline characters, each with one trailing
/// carriage return removed; text after the final newline forms a last line
/// only when it is non-empty. This matches Rust's `str::lines`.
pub open spec fn spec_lines_acc(s: Seq<char>, cur: Seq<char>) -> Seq<Seq<char>>
    decreases s.len(),
{
    if s.len() == 0 {
        if cur.len() == 0 {
            Seq::empty()
        } else {
            seq![spec_strip_cr(cur)]
        }
    } else if s[0] == '\n' {
        seq![spec_strip_cr(cur)] + spec_lines_acc(s.drop_first(), Seq::empty())
    } else {
        spec_lines_acc(s.drop_first(), cur.push(s[0]))
    }
}

/// The lines of `s`.
pub open spec fn spec_lines(s: Seq<char>) -> Seq<Seq<char>> {
    spec_lines_acc(s, Seq::empty())
}

/// Remove one trailing carriage return from a character vector.
fn strip_cr(mut l: Vec<char>) -> (r: Vec<char>)
    ensures
        r@ == spec_strip_cr(l@),
{
    if l.len() > 0 && l[l.len() - 1] == '\r' {
        l.pop();
    }
    l
}

/// Split a character vector into its lines, as Rust's `str::lines` would.
pub fn split_lines_chars(s: &Vec<char>) -> (r: Vec<Vec<char>>)
    ensures
        r.deep_view() == spec_lines(s@),
{
    let mut out: Vec<Vec<char>> = Vec::new();
    let mut cur: Vec<char> = Vec::new();
    let mut i: usize = 0;
    proof {
        assert(s@.skip(0) =~= s@);
        assert(out.deep_view() + spec_lines_acc(s@, cur@) =~~= spec_lines_acc(s@, cur@));
    }
    while i < s.len()
        invariant
            i <= s@.len(),
            spec_lines(s@) == out.deep_view() + spec_lines_acc(s@.skip(i as int), cur@),
        decreases s@.len() - i,
    {
        let ghost pre = s@.skip(i as int);
        let ghost out0 = out.deep_view();
        let ghost cur0 = cur@;
        proof {
            assert(pre.len() > 0);
            assert(pre[0] == s@[i as int]);
            assert(pre.drop_first() =~= s@.skip(i as int + 1));
        }
        if s[i] == '\n' {
            let finished = strip_cr(cur);
            out.push(finished);
            cur = Vec::new();
            proof {
                assert(out.deep_view() =~~= out0 + seq![spec_strip_cr(cur0)]);
                assert((out0 + seq![spec_strip_cr(cur0)]) + spec_lines_acc(
                    pre.drop_first(),
                    cur@,
                ) =~~= out0 + (seq![spec_strip_cr(cur0)] + spec_lines_acc(
                    pre.drop_first(),
                    cur@,
                )));
                assert(spec_lines_acc(pre, cur0) == seq![spec_strip_cr(cur0)]
                    + spec_lines_acc(pre.drop_first(), Seq::empty()));
                assert(cur@ =~= Seq::<char>::empty());
            }
        } else {
            let c = s[i];
            cur.push(c);
            proof {
                assert(cur@ == cur0.push(s@[i as int]));
                assert(spec_lines_acc(pre, cur0) == spec_lines_acc(
                    pre.drop_first(),
                    cur0.push(pre[0]),
                ));
            }
        }
        i = i + 1;
    }
    proof {
        assert(s@.skip(s@.len() as int) =~= Seq::<char>::empty());
    }
    if cur.len() > 0 {
        let ghost out0 = out.deep_view();
        let ghost cur0 = cur@;
        let finished = strip_cr(cur);
        out.push(finished);
        proof {
            assert(spec_lines_acc(Seq::empty(), cur0) == seq![spec_strip_cr(cur0)]);
            assert(out.deep_view() =~~= out0 + seq![spec_strip_cr(cur0)]);
        }
    } else {
        proof {
            assert(spec_lines_acc(Seq::empty(), cur@) == Seq::<Seq<char>>::empty());
            assert(out.deep_view() + Seq::<Seq<char>>::empty() =~~= out.deep_view());
        }
    }
    out
}

/// The characters left after removing every leading occurrence of `c`.
pub open spec fn spec_trim_leading(s: Seq<char>, c: char) -> Seq<char>
    decreases s.len(),
{
    if s.len() > 0 && s[0] == c {
        spec_trim_leading(s.drop_first(), c)
    } else {
        s
    }
}

/// Remove every leading occurrence of `c`, as `str::trim_start_matches` with
/// a single-character pattern does.
pub fn trim_leading(s: &Vec<char>, c: char) -> (r: Vec<char>)
    ensures
        r@ == spec_trim_leading(s@, c),
{
    let mut i: usize = 0;
    proof {
        assert(s@.skip(0) =~= s@);
    }
    while i < s.len() && s[i] == c
        invariant
            i <= s@.len(),
            spec_trim_leading(s@, c) == spec_trim_leading(s@.skip(i as int), c),
        decreases s@.len() - i,
    {
        proof {
            let pre = s@.skip(i as int);
            assert(pre[0] == s@[i as int]);
            assert(pre.drop_first() =~= s@.skip(i as int + 1));
        }
        i = i + 1;
    }
    let mut r: Vec<char> = Vec::new();
    let mut j: usize = i;
    while j < s.len()
        invariant
            i <= j <= s@.len(),
            r@ == s@.subrange(i as int, j as int),
        decreases s@.len() - j,
    {
        let c2 = s[j];
        r.push(c2);
        assert(r@ =~= s@.subrange(i as int, j as int + 1));
        j = j + 1;
    }
    proof {
        if i < s@.len() {
            assert(s@.skip(i as int).len() > 0);
            assert(s@.skip(i as int)[0] == s@[i as int]);
        }
        assert(spec_trim_leading(s@.skip(i as int), c) == s@.skip(i as int));
        assert(r@ =~= s@.skip(i as int));
    }
    r
}

/// Is `c` a decimal digit?
pub open spec fn spec_is_digit(c: char) -> bool {
    48 <= c as u32 && c as u32 <= 57
}

/// The numeric value of a digit character.
pub open spec fn spec_digit_val(c: char) -> int {
    c as u32 - 48
}

/// The number denoted by a sequence of digit characters, most significant
/// first.
pub open spec fn spec_digits_val(s: Seq<char>) -> int
    decreases s.len(),
{
    if s.len() == 0 {
        0
    } else {
        spec_digits_val(s.drop_last()) * 10 + spec_digit_val(s.last())
    }
}

/// Is `s` a non-empty all-digit sequence?
pub open spec fn spec_all_digits(s: Seq<char>) -> bool {
    s.len() > 0 && forall|i: int| 0 <= i < s.len() ==> spec_is_digit(#[trigger] s[i])
}

/// What `str::parse::<u32>` returns on `s`: the denoted number if `s` is an
/// optional `+` sign followed by digits and the value fits in a `u32`,
/// otherwise nothing.
pub open spec fn spec_parse_u32(s: Seq<char>) -> Option<u32> {
    let digits = if s.len() > 0 && s[0] == '+' {
        s.drop_first()
    } else {
        s
    };
    if spec_all_digits(digits) && spec_digits_val(digits) <= u32::MAX {
        Some(spec_digits_val(digits) as u32)
    } else {
        None
    }
}

proof fn lemma_digits_val_nonneg(s: Seq<char>)
    requires
        forall|i: int| 0 <= i < s.len() ==> spec_is_digit(#[trigger] s[i]),
    ensures
        spec_digits_val(s) >= 0,
    decreases s.len(),
{
    if s.len() > 0 {
        lemma_digits_val_nonneg(s.drop_last());
    }
}

/// Parse a non-negative decimal number from a character vector, as
/// `str::parse::<u32>` would.
pub fn parse_u32_chars(s: &Vec<char>) -> (r: Option<u32>)
    ensures
        r == spec_parse_u32(s@),
{
    let ghost orig = s@;
    let mut i: usize = 0;
    if s.len() > 0 && s[0] == '+' {
        i = 1;
    }
    let ghost digits = if orig.len() > 0 && orig[0] == '+' {
        orig.drop_first()
    } else {
        orig
    };
    proof {
        assert(digits =~= orig.skip(i as int));
    }
    if i == s.len() {
        assert(!spec_all_digits(digits));
        return None;
    }
    let mut val: u64 = 0;
    let mut j: usize = i;
    proof {
        assert(digits.take(0) =~= Seq::<char>::empty());
    }
    while j < s.len()
        invariant
            i <= j <= s@.len(),
            s@ == orig,
            i as int + digits.len() == orig.len(),
            digits =~= orig.skip(i as int),
            forall|k: int| 0 <= k < j - i ==> spec_is_digit(#[trigger] digits[k]),
            val == spec_digits_val(digits.take(j - i)),
            val <= u32::MAX,
        decreases s@.len() - j,
    {
        let c = s[j];
        let cu: u32 = c as u32;
        if !(48 <= cu && cu <= 57) {
            proof {
                assert(digits[j - i] == orig[j as int]);
                assert(!spec_is_digit(digits[j - i]));
                assert(!spec_all_digits(digits));
            }
            return None;
        }
        let d: u64 = (cu as u64) - 48;
        proof {
            assert(digits[j - i] == orig[j as int]);
            assert(spec_is_digit(digits[j - i]));
            assert(d == spec_digit_val(digits[j - i]));
            assert(digits.take(j - i + 1).drop_last() =~= digits.take(j - i));
            assert(digits.take(j - i + 1).last() == digits[j - i]);
        }
        let next: u64 = val * 10 + d;
        if next > u32::MAX as u64 {
            proof {
                let pref = digits.take(j - i + 1);
                assert(spec_digits_val(pref) == next);
                if spec_all_digits(digits) {
                    lemma_digits_prefix_monotone(digits, (j - i + 1) as int);
                    assert(spec_digits_val(digits) > u32::MAX);
                }
            }
            return None;
        }
        val = next;
        j = j + 1;
    }
    proof {
        assert(digits.take(digits.len() as int) =~= digits);
        assert(spec_all_digits(digits));
    }
    Some(val as u32)
}

/// A longer digit string denotes at least as large a number as any of its
/// prefixes.
proof fn lemma_digits_prefix_monotone(s: Seq<char>, n: int)
    requires
        0 <= n <= s.len(),
        forall|i: int| 0 <= i < s.len() ==> spec_is_digit(#[trigger] s[i]),
    ensures
        spec_digits_val(s) >= spec_digits_val(s.take(n)),
    decreases s.len() - n,
{
    if n == s.len() {
        assert(s.take(n) =~= s);
    } else {
        lemma_digits_prefix_monotone(s, n + 1);
        let p1 = s.take(n + 1);
        assert(p1.drop_last() =~= s.take(n));
        assert(p1.last() == s[n]);
        lemma_digits_val_nonneg(s.take(n));
        assert(spec_digits_val(p1) == spec_digits_val(s.take(n)) * 10 + spec_digit_val(s[n]));
        assert(spec_digits_val(s.take(n)) * 10 >= spec_digits_val(s.take(n))) by (nonlinear_arith)
            requires spec_digits_val(s.take(n)) >= 0,
        ;
    }
}

/// The decimal digit character for `d`.
pub open spec fn spec_digit_char(d: int) -> char {
    if d == 0 {
        '0'
    } else if d == 1 {
        '1'
    } else if d == 2 {
        '2'
    } else if d == 3 {
        '3'
    } else if d == 4 {
        '4'
    } else if d == 5 {
        '5'
    } else if d == 6 {
        '6'
    } else if d == 7 {
        '7'
    } else if d == 8 {
        '8'
    } else {
        '9'
    }
}

/// The decimal representation of `n`, most significant digit first.
pub open spec fn spec_u32_dec(n: int) -> Seq<char>
    decreases n,
{
    if n < 10 {
        seq![spec_digit_char(n)]
    } else {
        spec_u32_dec(n / 10).push(spec_digit_char(n % 10))
    }
}

/// The digit character for a value below ten.
fn digit_char_of(d: u32) -> (c: char)
    requires
        d < 10,
    ensures
        c == spec_digit_char(d as int),
{
    if d == 0 {
        '0'
    } else if d == 1 {
        '1'
    } else if d == 2 {
        '2'
    } else if d == 3 {
        '3'
    } else if d == 4 {
        '4'
    } else if d == 5 {
        '5'
    } else if d == 6 {
        '6'
    } else if d == 7 {
        '7'
    } else if d == 8 {
        '8'
    } else {
        '9'
    }
}

/// The decimal representation of `n` as characters.
pub fn u32_dec_chars(n: u32) -> (r: Vec<char>)
    ensures
        r@ == spec_u32_dec(n as int),
    decreases n,
{
    if n < 10 {
        let c = digit_char_of(n);
        let mut r: Vec<char> = Vec::new();
        r.push(c);
        assert(r@ =~= spec_u32_dec(n as int));
        r
    } else {
        let mut r = u32_dec_chars(n / 10);
        let c = digit_char_of(n % 10);
        r.push(c);
        r
    }
}

/// The decimal representation of `n` as a `String`.
pub fn u32_dec_string(n: u32) -> (r: String)
    ensures
        r@ == spec_u32_dec(n as int),
{
    let v = u32_dec_chars(n);
    string_from_chars(&v)
}

/// Does `sub` occur in `s` starting at position `i`?
pub open spec fn spec_match_at(s: Seq<char>, sub: Seq<char>, i: int) -> bool {
    0 <= i && i + sub.len() <= s.len() && s.subrange(i, i + sub.len()) == sub
}

/// Does `sub` occur anywhere in `s`?
pub open spec fn spec_contains_sub(s: Seq<char>, sub: Seq<char>) -> bool {
    exists|i: int| spec_match_at(s, sub, i)
}

/// Does `sub` occur in `s` starting at position `i` (executable)?
pub fn match_at(s: &Vec<char>, sub: &Vec<char>, i: usize) -> (r: bool)
    requires
        i + sub@.len() <= s@.len(),
    ensures
        r == spec_match_at(s@, sub@, i as int),
{
    let n: usize = s.len();
    let mut k: usize = 0;
    while k < sub.len()
        invariant
            k <= sub@.len(),
            i + sub@.len() <= s@.len(),
            n == s@.len(),
            forall|j: int| 0 <= j < k ==> s@[i + j] == sub@[j],
        decreases sub@.len() - k,
    {
        if s[i + k] != sub[k] {
            assert(s@.subrange(i as int, i + sub@.len())[k as int] != sub@[k as int]);
            return false;
        }
        k = k + 1;
    }
    assert(s@.subrange(i as int, i + sub@.len()) =~= sub@);
    true
}

/// Substring search, as `str::contains` with a string pattern.
pub fn contains_sub(s: &Vec<char>, sub: &Vec<char>) -> (r: bool)
    ensures
        r == spec_contains_sub(s@, sub@),
{
    if sub.len() > s.len() {
        assert(forall|i: int| !spec_match_at(s@, sub@, i));
        return false;
    }
    let mut i: usize = 0;
    let last: usize = s.len() - sub.len();
    loop
        invariant
            i <= last,
            last + sub@.len() == s@.len(),
            forall|j: int| 0 <= j < i ==> !spec_match_at(s@, sub@, j),
        decreases last - i,
    {
        if match_at(s, sub, i) {
            return true;
        }
        if i == last {
            assert(forall|j: int| !spec_match_at(s@, sub@, j));
            return false;
        }
        i = i + 1;
    }
}

/// Left-to-right, non-overlapping replacement of `pat` by `rep`, as
/// `str::replace` with a non-empty pattern.
pub open spec fn spec_replace(s: Seq<char>, pat: Seq<char>, rep: Seq<char>) -> Seq<char>
    recommends
        pat.len() > 0,
    decreases s.len(),
{
    if pat.len() == 0 || s.len() < pat.len() {
        s
    } else if s.take(pat.len() as int) == pat {
        rep + spec_replace(s.skip(pat.len() as int), pat, rep)
    } else {
        seq![s[0]] + spec_replace(s.drop_first(), pat, rep)
    }
}

/// Replace every occurrence of `pat` in `s` by `rep`, scanning left to
/// right without overlap.
pub fn replace_chars(s: &Vec<char>, pat: &Vec<char>, rep: &Vec<char>) -> (r: Vec<char>)
    requires
        pat@.len() > 0,
    ensures
        r@ == spec_replace(s@, pat@, rep@),
{
    let mut out: Vec<char> = Vec::new();
    let mut i: usize = 0;
    proof {
        assert(s@.skip(0) =~= s@);
        assert(out@ + spec_replace(s@, pat@, rep@) =~= spec_replace(s@, pat@, rep@));
    }
    while i < s.len()
        invariant
            i <= s@.len(),
            pat@.len() > 0,
            spec_replace(s@, pat@, rep@) == out@ + spec_replace(s@.skip(i as int), pat@, rep@),
        decreases s@.len() - i,
    {
        let ghost pre = s@.skip(i as int);
        let ghost out0 = out@;
        if pat.len() <= s.len() - i && match_at(s, pat, i) {
            proof {
                assert(pre.take(pat@.len() as int) =~= s@.subrange(
                    i as int,
                    i + pat@.len(),
                ));
                assert(pre.skip(pat@.len() as int) =~= s@.skip(i + pat@.len()));
            }
            let mut k: usize = 0;
            while k < rep.len()
                invariant
                    k <= rep@.len(),
                    out@ == out0 + rep@.take(k as int),
                decreases rep@.len() - k,
            {
                let c = rep[k];
                out.push(c);
                assert(out@ =~= out0 + rep@.take(k as int + 1));
                k = k + 1;
            }
            proof {
                assert(rep@.take(rep@.len() as int) =~= rep@);
                assert(out@ + spec_replace(s@.skip(i + pat@.len()), pat@, rep@)
                    =~= out0 + (rep@ + spec_replace(pre.skip(pat@.len() as int), pat@, rep@)));
            }
            i = i + pat.len();
        } else {
            let c = s[i];
            out.push(c);
            proof {
                assert(pre[0] == s@[i as int]);
                assert(pre.drop_first() =~= s@.skip(i as int + 1));
                if pre.len() >= pat@.len() {
                    assert(!spec_match_at(s@, pat@, i as int));
                    assert(pre.take(pat@.len() as int) =~= s@.subrange(
                        i as int,
                        i + pat@.len(),
                    ));
                }
                assert(out@ + spec_replace(s@.skip(i as int + 1), pat@, rep@)
                    =~= out0 + (seq![pre[0]] + spec_replace(pre.drop_first(), pat@, rep@)));
            }
            i = i + 1;
        }
    }
    proof {
        assert(s@.skip(s@.len() as int) =~= Seq::<char>::empty());
        assert(out@ + Seq::<char>::empty() =~= out@);
    }
    out
}

} // verus!
