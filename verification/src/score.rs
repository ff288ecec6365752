//! The score of a piece of content: an unsigned fixed-point number with 32
//! integer and 32 fractional bits, held by its raw bits.

use substrate_fixed::types::U32F32;
use vstd::prelude::*;

verus! {

/// The raw bits of the fixed-point number one.
pub const ONE_BITS: u64 = 0x1_0000_0000;

/// `floor(accepted * 2^32 / total)`: the raw bits of the fixed-point quotient
/// of two counts.
pub open spec fn ratio_bits(accepted: nat, total: nat) -> nat
    recommends
        total > 0,
{
    (accepted * 0x1_0000_0000) / total
}

/// A score in the closed range from zero to one.
///
/// The score stands for the rational number `bits / 2^32`. Two scores computed
/// from the same counts have the same bits.
#[derive(Clone, Copy, Debug, PartialEq, Eq, Structural)]
pub struct Score {
    bits: u64,
}

/// Converts an integer with `U32F32::from_num`, which represents every `u32`
/// exactly: the raw bits of the result are the integer shifted left by the 32
/// fractional bits.
#[verifier::external_body]
fn fixed_from_num(n: u32) -> (bits: u64)
    ensures
        bits == n * 0x1_0000_0000,
{
    U32F32::from_num(n).to_bits()
}

/// Divides two `U32F32` values, given and returned by their raw bits, with the
/// type's `/` operator. The operator widens the dividend to 128 bits, shifts it
/// left by the 32 fractional bits and divides, rounding towards zero. It
/// panics on a zero divisor and, in a debug build, on a quotient that does not
/// fit in 64 bits: both are excluded here.
#[verifier::external_body]
fn fixed_div(num: u64, den: u64) -> (bits: u64)
    requires
        den != 0,
        (num * 0x1_0000_0000) / (den as int) <= u64::MAX,
    ensures
        bits == (num * 0x1_0000_0000) / (den as int),
{
    (U32F32::from_bits(num) / U32F32::from_bits(den)).to_bits()
}

/// The quotient of two counts is at most one when the first does not exceed
/// the second.
pub proof fn lemma_ratio_at_most_one(accepted: nat, total: nat)
    requires
        0 < total,
        accepted <= total,
    ensures
        ratio_bits(accepted, total) <= ONE_BITS,
        accepted == total ==> ratio_bits(accepted, total) == ONE_BITS,
        accepted == 0 ==> ratio_bits(accepted, total) == 0,
{
    let one: int = 0x1_0000_0000;
    assert(accepted * one <= total * one) by (nonlinear_arith)
        requires
            accepted <= total,
            one >= 0,
    ;
    vstd::arithmetic::div_mod::lemma_div_is_ordered(accepted * one, total * one, total as int);
    vstd::arithmetic::div_mod::lemma_div_multiples_vanish(one, total as int);
    assert(total * one == one * total) by (nonlinear_arith);
    assert(0 * one == 0);
}

/// Shares that differ give scores that differ, and in the same order, as long
/// as neither total exceeds `2^16`: the 32 fractional bits then tell apart any
/// two fractions.
pub proof fn lemma_scores_keep_order(
    accepted: nat,
    total: nat,
    other_accepted: nat,
    other_total: nat,
)
    requires
        0 < total <= 0x1_0000,
        0 < other_total <= 0x1_0000,
        accepted * other_total < other_accepted * total,
    ensures
        ratio_bits(accepted, total) < ratio_bits(other_accepted, other_total),
{
    let one: int = 0x1_0000_0000;
    let n1 = total as int;
    let n2 = other_total as int;
    let a = accepted * one;
    let b = other_accepted * one;
    let q1 = a / n1;
    let q2 = b / n2;
    vstd::arithmetic::div_mod::lemma_fundamental_div_mod(a, n1);
    vstd::arithmetic::div_mod::lemma_fundamental_div_mod(b, n2);
    assert(0 <= a % n1 < n1 && 0 <= b % n2 < n2);
    assert(n1 * n2 <= one) by (nonlinear_arith)
        requires
            0 < n1 <= 0x1_0000,
            0 < n2 <= 0x1_0000,
            one == 0x1_0000_0000,
    ;
    assert((q1 + 1) * n1 * n2 <= b * n1) by (nonlinear_arith)
        requires
            n1 * q1 <= a,
            a == accepted * one,
            b == other_accepted * one,
            accepted * n2 + 1 <= other_accepted * n1,
            n1 * n2 <= one,
            0 < n1,
            0 < n2,
            0 <= q1,
            one > 0,
    ;
    assert(q1 < q2) by (nonlinear_arith)
        requires
            (q1 + 1) * n1 * n2 <= b * n1,
            b == n2 * q2 + b % n2,
            b % n2 < n2,
            0 < n1,
            0 < n2,
    ;
}

impl Score {
    /// The raw bits: the score times `2^32`.
    pub closed spec fn bits(self) -> nat {
        self.bits as nat
    }

    /// A score lies between zero and one. This holds of every score that a
    /// program holds.
    #[verifier::type_invariant]
    pub open spec fn wf(self) -> bool {
        self.bits() <= ONE_BITS
    }

    /// The score zero, which content has until it is scored.
    pub fn zero() -> (score: Score)
        ensures
            score.bits() == 0,
            score.wf(),
    {
        Score { bits: fixed_from_num(0) }
    }

    /// The score one, which content has when every resolution was accepted.
    pub fn one() -> (score: Score)
        ensures
            score.bits() == ONE_BITS,
            score.wf(),
    {
        Score { bits: fixed_from_num(1) }
    }

    /// A score is its bits: two scores with the same bits are the same score.
    pub proof fn lemma_bits_determine_score(self, other: Score)
        requires
            self.bits() == other.bits(),
        ensures
            self == other,
    {
    }

    /// The score `accepted / total`, rounded down to a multiple of `2^-32`;
    /// `None` where `total` is zero or `accepted` exceeds it.
    ///
    /// The counts go into the division as the fixed-point numbers
    /// `accepted / 2^32` and `total / 2^32`, whose quotient is that of the
    /// counts: counts of any size can be divided this way.
    pub fn from_ratio(accepted: u64, total: u64) -> (score: Option<Score>)
        ensures
            score.is_none() <==> total == 0 || accepted > total,
            score.is_some() ==> score.unwrap().bits() == ratio_bits(accepted as nat, total as nat),
            score.is_some() ==> score.unwrap().wf(),
    {
        if total == 0 || accepted > total {
            return None;
        }
        proof {
            lemma_ratio_at_most_one(accepted as nat, total as nat);
        }
        Some(Score { bits: fixed_div(accepted, total) })
    }

    /// Rebuilds a score from raw bits; `None` where they exceed one.
    pub fn from_bits(bits: u64) -> (score: Option<Score>)
        ensures
            bits <= ONE_BITS ==> score.is_some() && score.unwrap().bits() == bits,
            bits > ONE_BITS ==> score.is_none(),
            score.is_some() ==> score.unwrap().wf(),
    {
        if bits <= ONE_BITS {
            Some(Score { bits })
        } else {
            None
        }
    }

    /// The raw bits of the score.
    pub fn to_bits(&self) -> (bits: u64)
        ensures
            bits == self.bits(),
            bits <= ONE_BITS,
    {
        proof {
            use_type_invariant(self);
        }
        self.bits
    }
}

} // verus!
