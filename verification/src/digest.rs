//! Checksum verification: SHA-256 digests (computed by the `sha2` crate),
//! lowercase hex rendering, and the case-insensitive comparison against a
//! declared checksum string with an optional `sha256:` tag.

use vstd::prelude::*;
use sha2::Digest;
use crate::text::{push_char, str_eq};

verus! {

/// The SHA-256 digest of a byte sequence. What it is on given bytes is
/// left to the implementation relied on below.
pub uninterp spec fn sha256_of(data: Seq<u8>) -> Seq<u8>;

/// Relies on sha2::Sha256::digest: the digest depends on the input bytes
/// alone and is 32 bytes long.
#[verifier::external_body]
pub(crate) fn sha256(data: &[u8]) -> (r: Vec<u8>)
    ensures
        r@ == sha256_of(data@),
        r@.len() == 32,
{
    let mut hasher = sha2::Sha256::new();
    hasher.update(data);
    hasher.finalize().to_vec()
}

/// The lowercase hex digit for a value below sixteen (and `f` above).
pub open spec fn spec_hex_digit(v: u8) -> char {
    if v < 10 {
        crate::text::spec_digit_char(v as nat)
    } else if v == 10 {
        'a'
    } else if v == 11 {
        'b'
    } else if v == 12 {
        'c'
    } else if v == 13 {
        'd'
    } else if v == 14 {
        'e'
    } else {
        'f'
    }
}

/// Lowercase hex encoding: two digits per byte, high nibble first.
pub open spec fn spec_hex_of(bytes: Seq<u8>) -> Seq<char> {
    Seq::new(
        bytes.len() * 2,
        |i: int|
            if i % 2 == 0 {
                spec_hex_digit(bytes[i / 2] / 16)
            } else {
                spec_hex_digit(bytes[i / 2] % 16)
            },
    )
}

fn hex_digit(v: u8) -> (c: char)
    requires
        v < 16,
    ensures
        c == spec_hex_digit(v),
{
    if v == 0 {
        '0'
    } else if v == 1 {
        '1'
    } else if v == 2 {
        '2'
    } else if v == 3 {
        '3'
    } else if v == 4 {
        '4'
    } else if v == 5 {
        '5'
    } else if v == 6 {
        '6'
    } else if v == 7 {
        '7'
    } else if v == 8 {
        '8'
    } else if v == 9 {
        '9'
    } else if v == 10 {
        'a'
    } else if v == 11 {
        'b'
    } else if v == 12 {
        'c'
    } else if v == 13 {
        'd'
    } else if v == 14 {
        'e'
    } else {
        'f'
    }
}

/// Renders bytes as lowercase hex.
pub fn hex_of(bytes: &Vec<u8>) -> (r: String)
    ensures
        r@ == spec_hex_of(bytes@),
{
    let mut out = String::new();
    let mut i: usize = 0;
    while i < bytes.len()
        invariant
            0 <= i <= bytes.len(),
            out@ =~= spec_hex_of(bytes@.take(i as int)),
        decreases bytes.len() - i,
    {
        let b = bytes[i];
        push_char(&mut out, hex_digit(b / 16));
        push_char(&mut out, hex_digit(b % 16));
        proof {
            let pre = bytes@.take(i as int);
            let post = bytes@.take(i + 1);
            assert forall|j: int| 0 <= j < post.len() * 2 implies spec_hex_of(post)[j]
                == spec_hex_of(pre).push(spec_hex_digit(b / 16)).push(spec_hex_digit(b % 16))[j] by {
                assert(post[j / 2] == bytes@[j / 2]);
                if j < pre.len() * 2 {
                    assert(pre[j / 2] == bytes@[j / 2]);
                }
            }
            assert(out@ =~= spec_hex_of(bytes@.take(i + 1)));
        }
        i += 1;
    }
    proof {
        assert(bytes@.take(bytes@.len() as int) =~= bytes@);
    }
    out
}

/// ASCII lowercase folding of a character's code point.
pub open spec fn spec_lower(c: char) -> u32 {
    if 65 <= c as u32 <= 90 {
        (c as u32 + 32) as u32
    } else {
        c as u32
    }
}

/// Case-insensitive equality of two character sequences, ASCII folding.
pub open spec fn spec_ci_eq(a: Seq<char>, b: Seq<char>) -> bool {
    a.len() == b.len() && forall|i: int| 0 <= i < a.len() ==> spec_lower(a[i]) == spec_lower(b[i])
}

/// Case-insensitive comparison of two string slices.
pub fn ci_eq(a: &str, b: &str) -> (r: bool)
    ensures
        r == spec_ci_eq(a@, b@),
{
    let na = a.unicode_len();
    let nb = b.unicode_len();
    if na != nb {
        return false;
    }
    let mut i: usize = 0;
    while i < na
        invariant
            na == a@.len(),
            na == b@.len(),
            0 <= i <= na,
            forall|j: int| 0 <= j < i ==> spec_lower(a@[j]) == spec_lower(b@[j]),
        decreases na - i,
    {
        let ca = a.get_char(i) as u32;
        let cb = b.get_char(i) as u32;
        let fa = if 65 <= ca && ca <= 90 { ca + 32 } else { ca };
        let fb = if 65 <= cb && cb <= 90 { cb + 32 } else { cb };
        if fa != fb {
            return false;
        }
        i += 1;
    }
    true
}

/// The declared checksum with an optional `sha256:` tag removed.
pub open spec fn spec_strip_tag(e: Seq<char>) -> Seq<char> {
    if e.len() >= 7 && e.take(7) == "sha256:"@ {
        e.skip(7)
    } else {
        e
    }
}

/// Removes a leading `sha256:` tag, if present.
pub fn strip_tag<'a>(e: &'a str) -> (r: &'a str)
    ensures
        r@ == spec_strip_tag(e@),
{
    let n = e.unicode_len();
    if n >= 7 {
        let head = e.substring_char(0, 7);
        proof {
            assert(head@ =~= e@.take(7));
        }
        if str_eq(head, "sha256:") {
            let tail = e.substring_char(7, n);
            proof {
                assert(tail@ =~= e@.skip(7));
            }
            return tail;
        }
    }
    e
}

/// Whether a declared checksum string names this digest: the optional
/// `sha256:` tag is removed and the hex digits compare case-insensitively.
pub open spec fn spec_digest_matches(digest: Seq<u8>, expected: Seq<char>) -> bool {
    spec_ci_eq(spec_hex_of(digest), spec_strip_tag(expected))
}

/// Compares an already-computed digest against a declared checksum string.
pub fn hex_digest_matches(digest: &Vec<u8>, expected: &str) -> (r: bool)
    ensures
        r == spec_digest_matches(digest@, expected@),
{
    let actual = hex_of(digest);
    let clean = strip_tag(expected);
    ci_eq(actual.as_str(), clean)
}

/// Checks downloaded bytes against a declared checksum string. On a
/// mismatch, returns the cleaned expected digest and the computed one.
pub fn verify_checksum(data: &Vec<u8>, expected: &str) -> (r: Result<(), (String, String)>)
    ensures
        r is Ok <==> spec_digest_matches(sha256_of(data@), expected@),
        r matches Err(e) ==> e.0@ == spec_strip_tag(expected@) && e.1@ == spec_hex_of(
            sha256_of(data@),
        ),
{
    let digest = sha256(data.as_slice());
    if hex_digest_matches(&digest, expected) {
        Ok(())
    } else {
        let clean = strip_tag(expected);
        Err((clean.to_owned(), hex_of(&digest)))
    }
}

} // verus!
