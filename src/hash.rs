//! Selector and topic derivation: the Keccak-256 digest of a canonical
//! signature, its four-byte prefix, and their rendering as Rust literals.
use vstd::prelude::*;
use vstd::utf8::encode_utf8;
use crate::text::{byte_literal, push_byte_literal, push_str, string_of};

verus! {

/// The Keccak-256 digest (the Ethereum variant, with Keccak padding rather than SHA-3 padding) of a byte string.
pub uninterp spec fn keccak256_of(data: Seq<u8>) -> Seq<u8>;

/// The 32-byte topic hash of a signature: the digest of its UTF-8 bytes.
pub open spec fn topic_of(signature: Seq<char>) -> Seq<u8> {
    keccak256_of(encode_utf8(signature))
}

/// The 4-byte selector of a signature: the first four bytes of its topic hash.
pub open spec fn selector_of(signature: Seq<char>) -> Seq<u8> {
    topic_of(signature).subrange(0, 4)
}

/// Relies on tiny_keccak's `Keccak::v256` with `update` and `finalize`: the
/// Keccak-256 digest of the UTF-8 bytes of `input`.
#[verifier::external_body]
pub(crate) fn keccak256(input: &str) -> (r: [u8; 32])
    ensures
        r@ == keccak256_of(encode_utf8(input@)),
{
    let mut hasher = tiny_keccak::Keccak::v256();
    let mut output = [0u8; 32];
    tiny_keccak::Hasher::update(&mut hasher, input.as_bytes());
    tiny_keccak::Hasher::finalize(hasher, &mut output);
    output
}

/// The 32-byte topic hash of a signature.
pub fn compute_topic(signature: &str) -> (r: [u8; 32])
    ensures
        r@ == topic_of(signature@),
{
    keccak256(signature)
}

/// The selector that a topic hash begins with: its first four bytes.
pub fn selector_from_topic(topic: &[u8; 32]) -> (r: [u8; 4])
    ensures
        r@ == topic@.subrange(0, 4),
{
    let r = [topic[0], topic[1], topic[2], topic[3]];
    assert(r@ =~= topic@.subrange(0, 4));
    r
}

/// The 4-byte function selector of a signature.
pub fn compute_selector(signature: &str) -> (r: [u8; 4])
    ensures
        r@ == selector_of(signature@),
{
    let hash = keccak256(signature);
    selector_from_topic(&hash)
}

/// What stands between the byte literals at `i - 1` and `i`: a comma, and a
/// line break before each new group of `group` bytes when `group` is positive.
pub open spec fn hex_separator(i: int, group: int) -> Seq<char> {
    if group > 0 && i % group == 0 {
        ",\n    "@
    } else {
        ", "@
    }
}

/// The bytes written as comma-separated two-digit literals, broken into lines
/// of `group` bytes when `group` is positive.
pub open spec fn hex_text(s: Seq<u8>, group: int) -> Seq<char>
    decreases s.len(),
{
    if s.len() == 0 {
        Seq::empty()
    } else if s.len() == 1 {
        byte_literal(s[0])
    } else {
        hex_text(s.drop_last(), group) + hex_separator(s.len() - 1, group) + byte_literal(s.last())
    }
}

fn hex_join(bytes: &[u8], group: usize) -> (r: Vec<char>)
    ensures
        r@ == hex_text(bytes@, group as int),
{
    let mut out: Vec<char> = Vec::new();
    let mut i: usize = 0;
    while i < bytes.len()
        invariant
            i <= bytes@.len(),
            out@ == hex_text(bytes@.subrange(0, i as int), group as int),
        decreases bytes@.len() - i,
    {
        let ghost before = out@;
        if i > 0 {
            if group > 0 && i % group == 0 {
                push_str(&mut out, ",\n    ");
            } else {
                push_str(&mut out, ", ");
            }
        }
        push_byte_literal(&mut out, bytes[i]);
        proof {
            let s = bytes@.subrange(0, i + 1);
            assert(s.drop_last() =~= bytes@.subrange(0, i as int));
            if i == 0 {
                assert(out@ =~= byte_literal(bytes@[0]));
            }
        }
        i = i + 1;
    }
    assert(bytes@.subrange(0, bytes@.len() as int) =~= bytes@);
    out
}

/// Formats bytes as a Rust array body of hexadecimal literals: `0xa9, 0x05, ...`.
pub fn format_bytes_as_hex(bytes: &[u8]) -> (r: String)
    ensures
        r@ == hex_text(bytes@, 0),
{
    let v = hex_join(bytes, 0);
    string_of(&v)
}

/// Formats a 32-byte hash as hexadecimal literals, eight to a line.
pub fn format_bytes32_multiline(bytes: &[u8; 32]) -> (r: String)
    ensures
        r@ == hex_text(bytes@, 8),
{
    let v = hex_join(bytes.as_slice(), 8);
    string_of(&v)
}

} // verus!
