//! Content fingerprints for change and duplicate detection.
use vstd::prelude::*;

verus! {

/// How many leading bytes the fast fingerprint covers.
pub const FAST_HASH_PREFIX: usize = 1_048_576;

/// The name of an outside function's result: the BLAKE3 digest of a byte
/// string in lowercase hexadecimal.
pub uninterp spec fn blake3_hex(b: Seq<u8>) -> Seq<char>;

/// Relies on `blake3::hash` and `blake3::Hash::to_hex`: the digest depends on
/// the bytes alone, and its hexadecimal form has two digits for each of its
/// 32 bytes.
#[verifier::external_body]
fn blake3_hex_of(b: &[u8]) -> (r: String)
    ensures
        r@ == blake3_hex(b@),
        r@.len() == 64,
{
    blake3::hash(b).to_hex().to_string()
}

/// The fingerprint of a whole content.
pub fn hash_content(content: &Vec<u8>) -> (r: String)
    ensures
        r@ == blake3_hex(content@),
        r@.len() == 64,
{
    blake3_hex_of(content.as_slice())
}

/// The bytes the fast fingerprint covers: at most `FAST_HASH_PREFIX` leading ones.
pub open spec fn fast_prefix(b: Seq<u8>) -> Seq<u8> {
    if b.len() <= FAST_HASH_PREFIX {
        b
    } else {
        b.take(FAST_HASH_PREFIX as int)
    }
}

/// The fast fingerprint of a content: the digest of its first mebibyte.
pub fn hash_content_fast(content: &Vec<u8>) -> (r: String)
    ensures
        r@ == blake3_hex(fast_prefix(content@)),
        r@.len() == 64,
{
    if content.len() <= FAST_HASH_PREFIX {
        return blake3_hex_of(content.as_slice());
    }
    let mut prefix: Vec<u8> = Vec::new();
    let mut i: usize = 0;
    while i < FAST_HASH_PREFIX
        invariant
            i <= FAST_HASH_PREFIX < content@.len(),
            prefix@ == content@.take(i as int),
        decreases FAST_HASH_PREFIX - i,
    {
        prefix.push(content[i]);
        assert(content@.take(i as int).push(content@[i as int]) =~= content@.take(i as int + 1));
        i = i + 1;
    }
    blake3_hex_of(prefix.as_slice())
}

} // verus!
