//! Heuristic difficulty estimates: the expected number of attempts
//! before a candidate matches, under a uniform-alphabet model.
//!
//! The estimate is advisory, used only for display; it takes no part
//! in any correctness decision.

use vstd::prelude::*;
use vstd::arithmetic::power::pow;
use vstd::arithmetic::power::lemma_pow_adds;
use vstd::arithmetic::power::lemma_pow_positive;
use vstd::arithmetic::power::lemma_pow_strictly_increases;
use crate::pattern::MatchSpec;

verus! {

/// The bech32 symbol alphabet has 32 characters.
pub open spec fn alphabet_size() -> int {
    32
}

/// Difficulty of a prefix/suffix criterion: each of the
/// `prefix_len + suffix_len` constrained positions is one symbol
/// drawn uniformly from the alphabet.
pub open spec fn spec_prefix_suffix_difficulty(prefix_len: nat, suffix_len: nat) -> int {
    pow(alphabet_size(), prefix_len + suffix_len)
}

/// Difficulty of requiring `min_count` occurrences of the fixed
/// three-symbol token: the first occurrence sits in the required
/// prefix; each further occurrence independently needs a specific
/// three-symbol run.
pub open spec fn spec_kek_difficulty(min_count: nat) -> int {
    if min_count <= 1 {
        pow(alphabet_size(), 3)
    } else {
        pow(alphabet_size(), 3) * pow(alphabet_size(), (3 * (min_count - 1)) as nat)
    }
}

/// `32^e`, for exponents whose value fits in a `u64`.
fn pow32(e: u32) -> (r: u64)
    requires
        pow(32, e as nat) <= u64::MAX,
    ensures
        r == pow(32, e as nat),
{
    let mut r: u64 = 1;
    let mut i: u32 = 0;
    proof {
        vstd::arithmetic::power::lemma_pow0(32);
    }
    while i < e
        invariant
            i <= e,
            r == pow(32, i as nat),
            pow(32, e as nat) <= u64::MAX,
        decreases e - i,
    {
        proof {
            lemma_pow_adds(32, i as nat, ((e - i) as nat));
            lemma_pow_positive(32, ((e - i - 1) as nat));
            lemma_pow_adds(32, (i + 1) as nat, ((e - i - 1) as nat));
            assert(pow(32, (i + 1) as nat) == pow(32, i as nat) * 32) by {
                reveal(pow);
            }
            assert(pow(32, (i + 1) as nat) * pow(32, ((e - i - 1) as nat)) == pow(32, e as nat));
            assert(pow(32, (i + 1) as nat) <= pow(32, e as nat)) by (nonlinear_arith)
                requires
                    pow(32, (i + 1) as nat) * pow(32, ((e - i - 1) as nat)) == pow(32, e as nat),
                    pow(32, ((e - i - 1) as nat)) >= 1,
                    pow(32, (i + 1) as nat) >= 0,
            ;
        }
        r = r * 32;
        i = i + 1;
    }
    r
}

/// Estimated attempts before an address carries `min_kek_count`
/// non-overlapping `"kek"` occurrences, given that the required
/// `"bc1pkek"` prefix already supplies the first one. The estimate is
/// never below the base cost of the three fixed prefix symbols.
///
/// Thresholds above four would push the estimate past `u64::MAX`.
pub fn estimate_kek_difficulty(min_kek_count: usize) -> (r: u64)
    requires
        min_kek_count <= 4,
    ensures
        r == spec_kek_difficulty(min_kek_count as nat),
        r >= 32768,
{
    proof {
        lemma_pow32_small();
        assert(pow(32, 3) == 32768) by {
            reveal_with_fuel(pow, 4);
        }
    }
    let base = pow32(3);
    if min_kek_count <= 1 {
        base
    } else {
        let extra_keks: u32 = (min_kek_count - 1) as u32;
        let extra = pow32(3 * extra_keks);
        proof {
            lemma_pow_adds(32, 3, (3 * extra_keks) as nat);
            assert(base * extra >= 32768) by (nonlinear_arith)
                requires
                    base == 32768,
                    extra >= 1,
            ;
        }
        base * extra
    }
}

/// Estimated attempts before an address matches the given criterion.
///
/// For a prefix/suffix pair, at most twelve constrained symbols fit
/// the `u64` range; for a substring count, thresholds up to four do.
pub fn estimate_difficulty(m: &MatchSpec) -> (r: u64)
    requires
        match m {
            MatchSpec::PrefixSuffix { prefix, suffix, .. } => prefix@.len() + suffix@.len() <= 12,
            MatchSpec::SubstringCount { min_count, .. } => *min_count <= 4,
        },
    ensures
        r == match m {
            MatchSpec::PrefixSuffix { prefix, suffix, .. } => spec_prefix_suffix_difficulty(
                prefix@.len(),
                suffix@.len(),
            ),
            MatchSpec::SubstringCount { min_count, .. } => spec_kek_difficulty(*min_count as nat),
        },
        r >= 1,
{
    match m {
        MatchSpec::PrefixSuffix { prefix, suffix, .. } => {
            proof {
                lemma_pow32_small();
            }
            let e: u32 = (prefix.len() + suffix.len()) as u32;
            pow32(e)
        },
        MatchSpec::SubstringCount { min_count, .. } => estimate_kek_difficulty(*min_count),
    }
}

/// `32^e` fits in a `u64` for every exponent up to twelve, and every
/// power of 32 is positive.
proof fn lemma_pow32_small()
    ensures
        forall|e: nat| e <= 12 ==> #[trigger] pow(32, e) <= u64::MAX,
        forall|e: nat| #[trigger] pow(32, e) >= 1,
{
    assert forall|e: nat| e <= 12 implies #[trigger] pow(32, e) <= u64::MAX by {
        if e < 12 {
            lemma_pow_strictly_increases(32, e, 12);
        }
        assert(pow(32, 12) == 0x1000000000000000) by {
            reveal_with_fuel(pow, 13);
        }
    }
    assert forall|e: nat| #[trigger] pow(32, e) >= 1 by {
        lemma_pow_positive(32, e);
    }
}

/// For a fixed suffix, a strictly longer prefix strictly raises the
/// difficulty estimate, and every estimate is at least one.
pub proof fn lemma_difficulty_monotonic(
    prefix_len1: nat,
    prefix_len2: nat,
    suffix_len: nat,
)
    requires
        prefix_len1 < prefix_len2,
    ensures
        spec_prefix_suffix_difficulty(prefix_len1, suffix_len) < spec_prefix_suffix_difficulty(
            prefix_len2,
            suffix_len,
        ),
        spec_prefix_suffix_difficulty(prefix_len1, suffix_len) >= 1,
{
    lemma_pow_strictly_increases(32, prefix_len1 + suffix_len, prefix_len2 + suffix_len);
    lemma_pow_positive(32, prefix_len1 + suffix_len);
}

/// Every substring-count difficulty estimate is at least one, and a
/// higher occurrence threshold never lowers it.
pub proof fn lemma_kek_difficulty_monotonic(count1: nat, count2: nat)
    requires
        count1 < count2,
    ensures
        spec_kek_difficulty(count1) <= spec_kek_difficulty(count2),
        spec_kek_difficulty(count1) >= 1,
{
    lemma_pow_positive(32, 3);
    if count1 <= 1 {
        lemma_pow_positive(32, (3 * (count2 - 1)) as nat);
        assert(pow(32, 3) * pow(32, 3 * (count2 - 1) as nat) >= pow(32, 3) * 1) by (
        nonlinear_arith)
            requires
                pow(32, 3 * (count2 - 1) as nat) >= 1,
                pow(32, 3) >= 1,
        ;
    } else {
        lemma_pow_strictly_increases(32, 3 * (count1 - 1) as nat, 3 * (count2 - 1) as nat);
        lemma_pow_positive(32, (3 * (count1 - 1)) as nat);
        assert(pow(32, 3) * pow(32, 3 * (count1 - 1) as nat) <= pow(32, 3) * pow(
            32,
            3 * (count2 - 1) as nat,
        )) by (nonlinear_arith)
            requires
                pow(32, 3 * (count1 - 1) as nat) <= pow(32, 3 * (count2 - 1) as nat),
                pow(32, 3) >= 1,
        ;
        lemma_pow_positive(32, (3 * (count1 - 1)) as nat);
        assert(pow(32, 3) * pow(32, 3 * (count1 - 1) as nat) >= 1) by (nonlinear_arith)
            requires
                pow(32, 3 * (count1 - 1) as nat) >= 1,
                pow(32, 3) >= 1,
        ;
    }
}

} // verus!
