//! The digest of a block's fields: an unambiguous byte encoding of the fields,
//! hashed with SHA-256 and written as lowercase hexadecimal.

use sha2::{Digest, Sha256};
use vstd::prelude::*;
use vstd::string::StringSliceAdditionalSpecFns;

verus! {

/// Number of hexadecimal characters in a digest (SHA-256 gives 32 bytes).
pub const DIGEST_HEX_LEN: usize = 64;

/// The lowercase hexadecimal SHA-256 digest of a byte sequence.
pub uninterp spec fn sha256_hex_of(data: Seq<u8>) -> Seq<char>;

pub open spec fn is_lower_hex_digit(c: char) -> bool {
    ('0' <= c && c <= '9') || ('a' <= c && c <= 'f')
}

/// Relies on sha2's `Sha256::digest` and on generic-array's `LowerHex`, which
/// writes each of the 32 output bytes as two characters of "0123456789abcdef".
#[verifier::external_body]
fn sha256_hex(data: &[u8]) -> (r: String)
    ensures
        r@ == sha256_hex_of(data@),
        r@.len() == DIGEST_HEX_LEN,
        forall|i: int| 0 <= i < r@.len() ==> is_lower_hex_digit(#[trigger] r@[i]),
{
    format!("{:x}", Sha256::digest(data))
}

/// A `u64` as eight bytes, most significant first.
pub open spec fn u64_be(n: u64) -> Seq<u8> {
    seq![
        (n >> 56u64) as u8,
        (n >> 48u64) as u8,
        (n >> 40u64) as u8,
        (n >> 32u64) as u8,
        (n >> 24u64) as u8,
        (n >> 16u64) as u8,
        (n >> 8u64) as u8,
        n as u8,
    ]
}

/// A text field: its UTF-8 length as eight big-endian bytes, then its UTF-8 bytes.
pub open spec fn text_field(s: Seq<char>) -> Seq<u8> {
    u64_be(vstd::utf8::encode_utf8(s).len() as u64) + vstd::utf8::encode_utf8(s)
}

/// The bytes that a block's digest is taken over. Integers have a fixed width and
/// each text carries its length, so distinct field tuples give distinct bytes.
pub open spec fn preimage(
    index: u64,
    timestamp: Seq<char>,
    data: Seq<char>,
    previous_hash: Seq<char>,
    nonce: u64,
) -> Seq<u8> {
    u64_be(index) + text_field(timestamp) + text_field(data) + text_field(previous_hash)
        + u64_be(nonce)
}

/// The digest of a block with these fields.
pub open spec fn digest_of(
    index: u64,
    timestamp: Seq<char>,
    data: Seq<char>,
    previous_hash: Seq<char>,
    nonce: u64,
) -> Seq<char> {
    sha256_hex_of(preimage(index, timestamp, data, previous_hash, nonce))
}

/// Whether `h` begins with `difficulty` characters `'0'`.
pub open spec fn has_leading_zeros(h: Seq<char>, difficulty: nat) -> bool {
    difficulty <= h.len() && forall|i: int| 0 <= i < difficulty ==> #[trigger] h[i] == '0'
}

/// Some nonce gives a block with these fields a digest that begins with
/// `difficulty` zeros.
pub open spec fn sealable(
    index: u64,
    timestamp: Seq<char>,
    data: Seq<char>,
    previous_hash: Seq<char>,
    difficulty: nat,
) -> bool {
    exists|n: u64|
        #[trigger] has_leading_zeros(
            digest_of(index, timestamp, data, previous_hash, n),
            difficulty,
        )
}

fn push_u64_be(out: &mut Vec<u8>, n: u64)
    ensures
        final(out)@ == old(out)@ + u64_be(n),
{
    out.push((n >> 56u64) as u8);
    out.push((n >> 48u64) as u8);
    out.push((n >> 40u64) as u8);
    out.push((n >> 32u64) as u8);
    out.push((n >> 24u64) as u8);
    out.push((n >> 16u64) as u8);
    out.push((n >> 8u64) as u8);
    out.push(n as u8);
    assert(final(out)@ =~= old(out)@ + u64_be(n));
}

fn push_text_field(out: &mut Vec<u8>, s: &str)
    ensures
        final(out)@ == old(out)@ + text_field(s@),
{
    let bytes = s.as_bytes();
    let start = Ghost(out@);
    push_u64_be(out, bytes.len() as u64);
    let mut i: usize = 0;
    while i < bytes.len()
        invariant
            0 <= i <= bytes@.len(),
            bytes@ == s.spec_bytes(),
            out@ == start@ + u64_be(bytes@.len() as u64) + bytes@.subrange(0, i as int),
        decreases bytes@.len() - i,
    {
        out.push(bytes[i]);
        i = i + 1;
        assert(out@ =~= start@ + u64_be(bytes@.len() as u64) + bytes@.subrange(0, i as int));
    }
    assert(bytes@.subrange(0, bytes@.len() as int) =~= bytes@);
    assert(out@ =~= old(out)@ + text_field(s@));
}

/// The bytes that a block's digest is taken over, as [`preimage`] gives them.
pub fn encode_fields(
    index: u64,
    timestamp: &str,
    data: &str,
    previous_hash: &str,
    nonce: u64,
) -> (r: Vec<u8>)
    ensures
        r@ == preimage(index, timestamp@, data@, previous_hash@, nonce),
{
    let mut out: Vec<u8> = Vec::new();
    push_u64_be(&mut out, index);
    push_text_field(&mut out, timestamp);
    push_text_field(&mut out, data);
    push_text_field(&mut out, previous_hash);
    push_u64_be(&mut out, nonce);
    assert(out@ =~= preimage(index, timestamp@, data@, previous_hash@, nonce));
    out
}

/// The digest of a block with these fields: lowercase hexadecimal SHA-256 of
/// [`encode_fields`].
pub fn compute_digest(
    index: u64,
    timestamp: &str,
    data: &str,
    previous_hash: &str,
    nonce: u64,
) -> (r: String)
    ensures
        r@ == digest_of(index, timestamp@, data@, previous_hash@, nonce),
        r@.len() == DIGEST_HEX_LEN,
{
    let bytes = encode_fields(index, timestamp, data, previous_hash, nonce);
    sha256_hex(bytes.as_slice())
}

/// Whether `h` begins with `difficulty` characters `'0'`.
pub fn leading_zeros(h: &str, difficulty: usize) -> (r: bool)
    ensures
        r == has_leading_zeros(h@, difficulty as nat),
{
    let n = h.unicode_len();
    if difficulty > n {
        return false;
    }
    let mut i: usize = 0;
    while i < difficulty
        invariant
            difficulty <= n == h@.len(),
            0 <= i <= difficulty,
            forall|j: int| 0 <= j < i ==> #[trigger] h@[j] == '0',
        decreases difficulty - i,
    {
        if h.get_char(i) != '0' {
            return false;
        }
        i = i + 1;
    }
    true
}

} // verus!
