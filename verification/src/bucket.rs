//! The bucketing primitive: a deterministic map from (feature name,
//! identifier value) to a stable fixed-point position in [0, BUCKET_SCALE).
//!
//! The position plays the role of a fraction of the unit interval: a
//! percentage rollout covering the fraction p of all identifiers is the
//! half-open range [0, p * BUCKET_SCALE). The hash is a 64-bit
//! Fowler-Noll-Vo chain over the characters of `feature:value`, followed
//! by a multiply-xorshift finalizer so that every bit of the input
//! disturbs the low bits that survive the final reduction. Renaming a
//! feature deliberately reshuffles its buckets.

use vstd::prelude::*;
use vstd::string::StrSliceExecFns;

verus! {

/// Number of fixed-point bucketing units that stand for the whole unit
/// interval. A range `[start, end)` in these units covers the fraction
/// `(end - start) / BUCKET_SCALE` of all identifier values.
pub const BUCKET_SCALE: u64 = 1_000_000;

/// Offset basis of the 64-bit Fowler-Noll-Vo hash.
pub const FNV_OFFSET: u64 = 0xcbf2_9ce4_8422_2325;

/// Multiplicative prime of the 64-bit Fowler-Noll-Vo hash.
pub const FNV_PRIME: u64 = 0x0000_0100_0000_01b3;

/// First multiplier of the finalizer.
pub const MIX_A: u64 = 0xff51_afd7_ed55_8ccd;

/// Second multiplier of the finalizer.
pub const MIX_B: u64 = 0xc4ce_b9fe_1a85_ec53;

/// One hash step: fold one character into the running state.
pub open spec fn mix_char(state: u64, c: char) -> u64 {
    (state ^ ((c as u32) as u64)).wrapping_mul(FNV_PRIME)
}

/// Hash state after folding every character of `s`, left to right,
/// into `state`.
pub open spec fn hash_from(state: u64, s: Seq<char>) -> u64
    decreases s.len(),
{
    if s.len() == 0 {
        state
    } else {
        mix_char(hash_from(state, s.drop_last()), s.last())
    }
}

/// The hash of a whole character sequence.
pub open spec fn hash_chars(s: Seq<char>) -> u64 {
    hash_from(FNV_OFFSET, s)
}

/// Final avalanche: spread every input bit over the low bits before
/// the reduction to bucket units.
pub open spec fn finalize_mix(h: u64) -> u64 {
    let h1 = (h ^ (h >> 33u64)).wrapping_mul(MIX_A);
    let h2 = (h1 ^ (h1 >> 33u64)).wrapping_mul(MIX_B);
    h2 ^ (h2 >> 33u64)
}

/// The character sequence that is hashed for a feature/identifier pair:
/// the feature name and the identifier value joined by a fixed separator.
pub open spec fn bucket_key(feature: Seq<char>, value: Seq<char>) -> Seq<char> {
    feature + seq![':'] + value
}

/// The bucket of an identifier value under a feature: a deterministic
/// position in [0, BUCKET_SCALE).
pub open spec fn bucket_of(feature: Seq<char>, value: Seq<char>) -> u64 {
    finalize_mix(hash_chars(bucket_key(feature, value))) % BUCKET_SCALE
}

/// Folding a concatenation equals folding the two parts in turn.
proof fn lemma_hash_from_concat(state: u64, a: Seq<char>, b: Seq<char>)
    ensures
        hash_from(state, a + b) == hash_from(hash_from(state, a), b),
    decreases b.len(),
{
    if b.len() == 0 {
        assert(a + b =~= a);
    } else {
        assert((a + b).drop_last() =~= a + b.drop_last());
        assert((a + b).last() == b.last());
        lemma_hash_from_concat(state, a, b.drop_last());
    }
}

/// Fold every character of `s` into `state`.
fn hash_append(state: u64, s: &str) -> (r: u64)
    ensures
        r == hash_from(state, s@),
{
    let n = s.unicode_len();
    let mut st = state;
    let mut i: usize = 0;
    while i < n
        invariant
            n == s@.len(),
            i <= n,
            st == hash_from(state, s@.take(i as int)),
        decreases n - i,
    {
        let c = s.get_char(i);
        proof {
            assert(s@.take(i + 1 as int).drop_last() =~= s@.take(i as int));
            assert(s@.take(i + 1 as int).last() == s@[i as int]);
        }
        st = (st ^ ((c as u32) as u64)).wrapping_mul(FNV_PRIME);
        i = i + 1;
    }
    proof {
        assert(s@.take(n as int) =~= s@);
    }
    st
}

/// The hash of a bucketing key, computed part by part: first the feature
/// name, then the separator, then the identifier value.
proof fn lemma_bucket_chain(feature: Seq<char>, value: Seq<char>)
    ensures
        hash_chars(bucket_key(feature, value)) == hash_from(
            mix_char(hash_from(FNV_OFFSET, feature), ':'),
            value,
        ),
{
    let sep = seq![':'];
    lemma_hash_from_concat(FNV_OFFSET, feature + sep, value);
    lemma_hash_from_concat(FNV_OFFSET, feature, sep);
    let base = hash_from(FNV_OFFSET, feature);
    assert(sep.len() == 1);
    assert(sep.last() == ':');
    assert(sep.drop_last() =~= Seq::<char>::empty());
    assert(hash_from(base, Seq::<char>::empty()) == base);
    assert(hash_from(base, sep) == mix_char(hash_from(base, sep.drop_last()), sep.last()));
}

/// Apply the final avalanche to a hash state.
fn finalize(h: u64) -> (r: u64)
    ensures
        r == finalize_mix(h),
{
    let h1 = (h ^ (h >> 33u64)).wrapping_mul(MIX_A);
    let h2 = (h1 ^ (h1 >> 33u64)).wrapping_mul(MIX_B);
    h2 ^ (h2 >> 33u64)
}

/// Compute the bucket of `value` under `feature`.
///
/// The result is a pure function of the two character sequences: equal
/// inputs give equal buckets in every process and on every machine.
#[verifier::rlimit(50)]
pub fn bucket(feature: &str, value: &str) -> (r: u64)
    ensures
        r == bucket_of(feature@, value@),
        r < BUCKET_SCALE,
{
    let h_feature = hash_append(FNV_OFFSET, feature);
    let h_sep = (h_feature ^ ((':' as u32) as u64)).wrapping_mul(FNV_PRIME);
    let h_all = hash_append(h_sep, value);
    proof {
        lemma_bucket_chain(feature@, value@);
        assert(h_sep == mix_char(h_feature, ':'));
        assert(h_all == hash_chars(bucket_key(feature@, value@)));
    }
    let mixed = finalize(h_all);
    mixed % BUCKET_SCALE
}

/// Law: bucketing is stable. Two bucket values computed from the same
/// feature name and identifier value — by any two engine instances, in
/// any two processes — are identical.
pub proof fn lemma_bucket_stable(b1: u64, b2: u64, feature: Seq<char>, value: Seq<char>)
    requires
        b1 == bucket_of(feature, value),
        b2 == bucket_of(feature, value),
    ensures
        b1 == b2,
{
}

/// Law: every bucket lies below `BUCKET_SCALE`.
pub proof fn lemma_bucket_in_range(feature: Seq<char>, value: Seq<char>)
    ensures
        bucket_of(feature, value) < BUCKET_SCALE,
{
}

} // verus!
