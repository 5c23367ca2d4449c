//! FNV-1a checksums for deterministic state validation, without heap
//! allocation or hash maps.

use vstd::prelude::*;
use crate::runtime::kv_cache::QKVCache;

verus! {

/// FNV-1a 32-bit offset basis.
pub const FNV_OFFSET: u32 = 2166136261;

/// FNV-1a 32-bit prime.
pub const FNV_PRIME: u32 = 16777619;

/// One FNV-1a step: xor in the byte, multiply by the prime modulo `2^32`.
pub open spec fn fnv_step(h: u32, b: i8) -> u32 {
    (((h ^ (b as u8 as u32)) * FNV_PRIME as nat) % 0x1_0000_0000) as u32
}

/// FNV-1a of the bytes `s`, starting from hash state `h`.
pub open spec fn fnv_extend(h: u32, s: Seq<i8>) -> u32
    decreases s.len(),
{
    if s.len() == 0 {
        h
    } else {
        fnv_step(fnv_extend(h, s.drop_last()), s.last())
    }
}

/// The first `n` key/value byte pairs of row `t`, interleaved
/// `k[t][0], v[t][0], k[t][1], v[t][1], …`.
pub open spec fn kv_row_stream<const SEQ: usize, const DIM: usize>(
    cache: QKVCache<SEQ, DIM>,
    t: int,
    n: int,
) -> Seq<i8>
    decreases n,
{
    if n <= 0 {
        Seq::empty()
    } else {
        kv_row_stream(cache, t, n - 1).push(cache.keys.data[t][n - 1]).push(
            cache.values.data[t][n - 1],
        )
    }
}

/// The interleaved key/value bytes of the first `len` cached rows.
pub open spec fn kv_stream<const SEQ: usize, const DIM: usize>(
    cache: QKVCache<SEQ, DIM>,
    len: int,
) -> Seq<i8>
    decreases len,
{
    if len <= 0 {
        Seq::empty()
    } else {
        kv_stream(cache, len - 1) + kv_row_stream(cache, len - 1, DIM as int)
    }
}

/// Hashing `a + b` is hashing `a`, then continuing with `b`.
proof fn lemma_fnv_extend_concat(h: u32, a: Seq<i8>, b: Seq<i8>)
    ensures
        fnv_extend(h, a + b) == fnv_extend(fnv_extend(h, a), b),
    decreases b.len(),
{
    if b.len() > 0 {
        lemma_fnv_extend_concat(h, a, b.drop_last());
        assert((a + b).drop_last() =~= a + b.drop_last());
    } else {
        assert(a + b =~= a);
    }
}

/// One FNV-1a step on the byte of `b`.
fn fnv_byte(h: u32, b: i8) -> (r: u32)
    ensures
        r == fnv_step(h, b),
{
    (h ^ (b as u8 as u32)).wrapping_mul(FNV_PRIME)
}

/// Hashing `s` with `b` pushed is one more step after hashing `s`.
proof fn lemma_fnv_push(h: u32, s: Seq<i8>, b: i8)
    ensures
        fnv_extend(h, s.push(b)) == fnv_step(fnv_extend(h, s), b),
{
    assert(s.push(b).drop_last() =~= s);
}

/// Continue hash state `h` over the interleaved key/value bytes of row `t`.
fn fnv_kv_row<const SEQ: usize, const DIM: usize>(
    h: u32,
    cache: &QKVCache<SEQ, DIM>,
    t: usize,
) -> (r: u32)
    requires
        t < SEQ,
    ensures
        r == fnv_extend(h, kv_row_stream(*cache, t as int, DIM as int)),
{
    let mut hash = h;
    for d in 0..DIM
        invariant
            t < SEQ,
            hash == fnv_extend(h, kv_row_stream(*cache, t as int, d as int)),
    {
        let ghost s = kv_row_stream(*cache, t as int, d as int);
        let ghost k = cache.keys.data[t as int][d as int];
        proof {
            lemma_fnv_push(h, s, k);
            lemma_fnv_push(h, s.push(k), cache.values.data[t as int][d as int]);
        }
        hash = fnv_byte(hash, cache.keys.data[t][d]);
        hash = fnv_byte(hash, cache.values.data[t][d]);
    }
    hash
}

/// FNV-1a checksum of `data` (each `i8` hashed as its byte).
pub fn rolling_checksum_i8(data: &[i8]) -> (hash: u32)
    ensures
        hash == fnv_extend(FNV_OFFSET, data@),
{
    let mut hash: u32 = FNV_OFFSET;
    for i in 0..data.len()
        invariant
            hash == fnv_extend(FNV_OFFSET, data@.take(i as int)),
    {
        proof {
            assert(data@.take(i + 1).drop_last() =~= data@.take(i as int));
        }
        hash = fnv_byte(hash, data[i]);
    }
    proof {
        assert(data@.take(data@.len() as int) =~= data@);
    }
    hash
}

/// FNV-1a over the valid cache region (keys and values interleaved per
/// channel, row by row), continued over `logits`.
///
/// `current_len <= SEQ` is required: the valid region lies inside the
/// storage.
pub fn runtime_state_hash<const SEQ: usize, const DIM: usize>(
    cache: &QKVCache<SEQ, DIM>,
    logits: &[i8],
) -> (hash: u32)
    requires
        cache.current_len <= SEQ,
    ensures
        hash == fnv_extend(fnv_extend(FNV_OFFSET, kv_stream(*cache, cache.current_len as int)), logits@),
{
    let mut hash: u32 = FNV_OFFSET;
    let len = cache.current_len();
    proof {
        assert(kv_stream(*cache, 0) =~= Seq::<i8>::empty());
    }
    for t in 0..len
        invariant
            len == cache.current_len,
            len <= SEQ,
            hash == fnv_extend(FNV_OFFSET, kv_stream(*cache, t as int)),
    {
        hash = fnv_kv_row(hash, cache, t);
        proof {
            lemma_fnv_extend_concat(
                FNV_OFFSET,
                kv_stream(*cache, t as int),
                kv_row_stream(*cache, t as int, DIM as int),
            );
        }
    }
    let ghost mid = hash;
    for i in 0..logits.len()
        invariant
            hash == fnv_extend(mid, logits@.take(i as int)),
    {
        proof {
            assert(logits@.take(i + 1).drop_last() =~= logits@.take(i as int));
        }
        hash = fnv_byte(hash, logits[i]);
    }
    proof {
        assert(logits@.take(logits@.len() as int) =~= logits@);
    }
    hash
}

/// One FNV-1a step hashes the element as its byte: the value xored into
/// the state is the element's two's-complement byte, in `0 ..= 255`
/// (`b + 256` for a negative `b`), and the product with the 32-bit FNV
/// prime 16777619 is taken modulo `2^32`.
pub proof fn lemma_fnv_step_hashes_byte(h: u32, b: i8)
    ensures
        ({
            let byte: u32 = if b < 0 {
                (b + 256) as u32
            } else {
                b as u32
            };
            &&& byte < 256
            &&& fnv_step(h, b) as int == ((h ^ byte) as int * 16777619) % 0x1_0000_0000
        }),
{
    let byte: u32 = if b < 0 {
        (b + 256) as u32
    } else {
        b as u32
    };
    assert(b < 0 ==> (b as u8) as u32 == (b + 256) as u32) by (bit_vector);
    assert(b >= 0 ==> (b as u8) as u32 == b as u32) by (bit_vector);
    assert((b as u8) as u32 == byte);
    assert(byte < 256);
}

/// FNV-1a over a sequence starts from the offset basis `0x811C9DC5` and
/// hashes the elements first to last, one step each.
pub proof fn lemma_fnv_extend_in_order(h: u32, s: Seq<i8>, b: i8)
    ensures
        FNV_OFFSET == 0x811C_9DC5,
        fnv_extend(h, Seq::<i8>::empty()) == h,
        fnv_extend(h, s.push(b)) == fnv_step(fnv_extend(h, s), b),
{
    lemma_fnv_push(h, s, b);
}

} // verus!
