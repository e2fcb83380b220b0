//! SHA-256 content hashes, written as lowercase hexadecimal, and the
//! content-addressed file names built from them.

use vstd::prelude::*;
use sha2::{Digest, Sha256};
use crate::text::{chars_of, string_of, push_str_chars};

verus! {

/// The SHA-256 digest of some bytes, as `sha2::Sha256` computes it.
pub uninterp spec fn sha256_of(bytes: Seq<u8>) -> Seq<u8>;

/// Calls `sha2::Sha256::digest`. Trusted: the result is `sha256_of` the
/// input, and it is 32 bytes long (the output size that `sha2` declares for
/// `Sha256`).
#[verifier::external_body]
fn sha256(bytes: &[u8]) -> (r: Vec<u8>)
    ensures
        r@ == sha256_of(bytes@),
        r@.len() == 32,
{
    Sha256::digest(bytes).to_vec()
}

/// The lowercase hexadecimal digit of a value below 16.
pub open spec fn hex_digit(n: int) -> char {
    "0123456789abcdef"@[n]
}

/// Bytes written as lowercase hexadecimal, two digits per byte, high half
/// first (the `{:x}` form of a digest).
pub open spec fn lower_hex(bytes: Seq<u8>) -> Seq<char>
    decreases bytes.len(),
{
    if bytes.len() == 0 {
        Seq::empty()
    } else {
        let b = bytes.last() as int;
        lower_hex(bytes.drop_last()) + seq![hex_digit(b / 16), hex_digit(b % 16)]
    }
}

proof fn lemma_lower_hex_len(bytes: Seq<u8>)
    ensures
        lower_hex(bytes).len() == 2 * bytes.len(),
    decreases bytes.len(),
{
    if bytes.len() > 0 {
        lemma_lower_hex_len(bytes.drop_last());
    }
}

/// Writes bytes as lowercase hexadecimal.
pub fn lower_hex_string(bytes: &[u8]) -> (r: String)
    ensures
        r@ == lower_hex(bytes@),
        r@.len() == 2 * bytes@.len(),
{
    let digits = chars_of("0123456789abcdef");
    proof {
        reveal_strlit("0123456789abcdef");
    }
    let mut out: Vec<char> = Vec::new();
    let mut i: usize = 0;
    while i < bytes.len()
        invariant
            i <= bytes@.len(),
            digits@ == "0123456789abcdef"@,
            digits@.len() == 16,
            out@ == lower_hex(bytes@.take(i as int)),
        decreases bytes.len() - i,
    {
        let b = bytes[i];
        assert(bytes@.take(i + 1).drop_last() =~= bytes@.take(i as int));
        assert(bytes@.take(i + 1).last() == b);
        out.push(digits[(b / 16) as usize]);
        out.push(digits[(b % 16) as usize]);
        i = i + 1;
        assert(out@ =~= lower_hex(bytes@.take(i as int)));
    }
    assert(bytes@.take(i as int) =~= bytes@);
    proof {
        lemma_lower_hex_len(bytes@);
    }
    string_of(out.as_slice())
}

/// The SHA-256 digest of some bytes in lowercase hexadecimal (64 digits).
pub fn sha256_hex(bytes: &[u8]) -> (r: String)
    ensures
        r@ == lower_hex(sha256_of(bytes@)),
        r@.len() == 64,
{
    let d = sha256(bytes);
    lower_hex_string(d.as_slice())
}

/// The content-addressed name of an SVG file: the type prefix, `_`, the
/// first 16 hex digits of the content's SHA-256 digest, and `.svg`.
pub open spec fn content_name(bytes: Seq<u8>, type_prefix: Seq<char>) -> Seq<char> {
    type_prefix + "_"@ + lower_hex(sha256_of(bytes)).take(16) + ".svg"@
}

/// Generates a content-addressed file name from SVG bytes.
pub fn content_addressed_filename(bytes: &[u8], type_prefix: &str) -> (r: String)
    ensures
        r@ == content_name(bytes@, type_prefix@),
        r@.len() == type_prefix@.len() + 21,
{
    let h = sha256_hex(bytes);
    let hc = chars_of(h.as_str());
    let mut out = chars_of(type_prefix);
    push_str_chars(&mut out, "_");
    let mut i: usize = 0;
    let ghost start = out@;
    while i < 16
        invariant
            i <= 16,
            hc@ == lower_hex(sha256_of(bytes@)),
            hc@.len() == 64,
            out@ == start + hc@.take(i as int),
        decreases 16 - i,
    {
        out.push(hc[i]);
        i = i + 1;
        assert(out@ =~= start + hc@.take(i as int));
    }
    push_str_chars(&mut out, ".svg");
    proof {
        reveal_strlit("_");
        reveal_strlit(".svg");
    }
    string_of(out.as_slice())
}

} // verus!
