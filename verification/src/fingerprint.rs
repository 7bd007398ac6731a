//! Content fingerprinting: a SHA-256 digest of raw text, rendered as 64
//! lowercase hexadecimal characters. Consumers compare fingerprints to
//! detect that a previously fetched diff went stale without re-fetching.

use vstd::prelude::*;

verus! {

/// What the SHA-256 digest of a text is: a pure function of the
/// characters alone, the same in every process and on every machine.
pub uninterp spec fn sha256_of(s: Seq<char>) -> Seq<u8>;

/// Relies on sha2's `Sha256` through the `Digest` trait: the digest is a
/// deterministic function of the input bytes, 32 bytes long.
#[verifier::external_body]
fn sha256_digest(content: &str) -> (r: Vec<u8>)
    ensures
        r@ == sha256_of(content@),
        r@.len() == 32,
{
    let mut h = <sha2::Sha256 as sha2::Digest>::new();
    sha2::Digest::update(&mut h, content.as_bytes());
    let out = sha2::Digest::finalize(h);
    out.as_slice().to_vec()
}

/// The lowercase hexadecimal digit for a value below sixteen.
pub open spec fn spec_hex_digit(d: int) -> char {
    if d == 0 {
        '0'
    } else if d == 1 {
        '1'
    } else if d == 2 {
        '2'
    } else if d == 3 {
        '3'
    } else if d == 4 {
        '4'
    } else if d == 5 {
        '5'
    } else if d == 6 {
        '6'
    } else if d == 7 {
        '7'
    } else if d == 8 {
        '8'
    } else if d == 9 {
        '9'
    } else if d == 10 {
        'a'
    } else if d == 11 {
        'b'
    } else if d == 12 {
        'c'
    } else if d == 13 {
        'd'
    } else if d == 14 {
        'e'
    } else {
        'f'
    }
}

/// The lowercase hexadecimal rendering of a byte string, two digits per
/// byte.
pub open spec fn spec_hex_of(bytes: Seq<u8>) -> Seq<char>
    decreases bytes.len(),
{
    if bytes.len() == 0 {
        Seq::empty()
    } else {
        seq![
            spec_hex_digit(bytes[0] as int / 16),
            spec_hex_digit(bytes[0] as int % 16),
        ] + spec_hex_of(bytes.drop_first())
    }
}

/// The hexadecimal digit character for a value below sixteen.
fn hex_digit(d: u8) -> (c: char)
    requires
        d < 16,
    ensures
        c == spec_hex_digit(d as int),
{
    if d == 0 {
        '0'
    } else if d == 1 {
        '1'
    } else if d == 2 {
        '2'
    } else if d == 3 {
        '3'
    } else if d == 4 {
        '4'
    } else if d == 5 {
        '5'
    } else if d == 6 {
        '6'
    } else if d == 7 {
        '7'
    } else if d == 8 {
        '8'
    } else if d == 9 {
        '9'
    } else if d == 10 {
        'a'
    } else if d == 11 {
        'b'
    } else if d == 12 {
        'c'
    } else if d == 13 {
        'd'
    } else if d == 14 {
        'e'
    } else {
        'f'
    }
}

/// Render a byte string as lowercase hexadecimal.
fn hex_string(bytes: &Vec<u8>) -> (r: String)
    ensures
        r@ == spec_hex_of(bytes@),
{
    let mut out: Vec<char> = Vec::new();
    let mut i: usize = 0;
    proof {
        assert(bytes@.skip(0) =~= bytes@);
        assert(out@ + spec_hex_of(bytes@) =~= spec_hex_of(bytes@));
    }
    while i < bytes.len()
        invariant
            i <= bytes@.len(),
            spec_hex_of(bytes@) == out@ + spec_hex_of(bytes@.skip(i as int)),
        decreases bytes@.len() - i,
    {
        let ghost pre = bytes@.skip(i as int);
        let ghost out0 = out@;
        let b = bytes[i];
        let hi = hex_digit(b / 16);
        let lo = hex_digit(b % 16);
        out.push(hi);
        out.push(lo);
        proof {
            assert(pre[0] == bytes@[i as int]);
            assert(pre.drop_first() =~= bytes@.skip(i as int + 1));
            assert(out@ =~= out0 + seq![
                spec_hex_digit(pre[0] as int / 16),
                spec_hex_digit(pre[0] as int % 16),
            ]);
            assert(out0 + (seq![
                spec_hex_digit(pre[0] as int / 16),
                spec_hex_digit(pre[0] as int % 16),
            ] + spec_hex_of(pre.drop_first())) =~= out@ + spec_hex_of(pre.drop_first()));
        }
        i = i + 1;
    }
    proof {
        assert(bytes@.skip(bytes@.len() as int) =~= Seq::<u8>::empty());
        assert(out@ + Seq::<char>::empty() =~= out@);
    }
    crate::text::string_from_chars(&out)
}

/// The content fingerprint of a text: its SHA-256 digest in lowercase
/// hexadecimal.
pub open spec fn spec_content_hash(s: Seq<char>) -> Seq<char> {
    spec_hex_of(sha256_of(s))
}

/// Fingerprint a text.
pub fn compute_hash(content: &str) -> (r: String)
    ensures
        r@ == spec_content_hash(content@),
{
    let digest = sha256_digest(content);
    hex_string(&digest)
}

/// Fingerprint arbitrary content for client-side change detection.
pub fn compute_content_hash(content: String) -> (r: String)
    ensures
        r@ == spec_content_hash(content@),
{
    compute_hash(content.as_str())
}

/// A fingerprint is 64 characters long: two hexadecimal digits for each of
/// the digest's 32 bytes.
pub proof fn lemma_hex_len(bytes: Seq<u8>)
    ensures
        spec_hex_of(bytes).len() == 2 * bytes.len(),
    decreases bytes.len(),
{
    if bytes.len() > 0 {
        lemma_hex_len(bytes.drop_first());
    }
}

} // verus!
