//! The stable hash that places keys and nodes on the ring and actors in
//! shards: 64-bit FNV-1a.

use vstd::prelude::*;

verus! {

pub const FNV_OFFSET: u64 = 0xcbf2_9ce4_8422_2325;

pub const FNV_PRIME: u64 = 0x0000_0100_0000_01b3;

/// One round: mix a byte into the hash.
pub open spec fn fnv1a_round(hash: u64, byte: u8) -> u64 {
    vstd::wrapping::u64_specs::wrapping_mul(hash ^ (byte as u64), FNV_PRIME)
}

/// The FNV-1a hash of `bytes`.
pub open spec fn fnv1a(bytes: Seq<u8>) -> u64
    decreases bytes.len(),
{
    if bytes.len() == 0 {
        FNV_OFFSET
    } else {
        fnv1a_round(fnv1a(bytes.drop_last()), bytes.last())
    }
}

/// The hash of a key: FNV-1a over its UTF-8 bytes.
pub open spec fn key_hash(key: Seq<char>) -> u64 {
    fnv1a(vstd::utf8::encode_utf8(key))
}

/// Computes [`fnv1a`].
pub fn hash_bytes(bytes: &[u8]) -> (hash: u64)
    ensures
        hash == fnv1a(bytes@),
{
    let mut hash: u64 = FNV_OFFSET;
    let mut i: usize = 0;
    while i < bytes.len()
        invariant
            i <= bytes@.len(),
            hash == fnv1a(bytes@.take(i as int)),
        decreases bytes@.len() - i,
    {
        proof {
            assert(bytes@.take(i + 1).drop_last() =~= bytes@.take(i as int));
        }
        hash = (hash ^ (bytes[i] as u64)).wrapping_mul(FNV_PRIME);
        i += 1;
    }
    proof {
        assert(bytes@.take(i as int) =~= bytes@);
    }
    hash
}

/// Computes [`key_hash`].
pub fn hash_key(key: &str) -> (hash: u64)
    ensures
        hash == key_hash(key@),
{
    hash_bytes(key.as_bytes())
}

} // verus!
