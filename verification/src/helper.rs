//! Scoring: the share of a content's resolutions that were accepted.

use crate::content::{ClaimView, Error, ResolvedClaims};
use crate::score::{ratio_bits, Score};
use vstd::prelude::*;

verus! {

/// How many of the resolutions were accepted.
pub open spec fn accepted_count(resolved: Seq<ClaimView>) -> nat {
    resolved.filter(|claim: ClaimView| claim.is_accepted).len()
}

/// The raw bits of the score of a set of resolutions: accepted over total,
/// rounded down to a multiple of `2^-32`.
pub open spec fn score_bits(resolved: Seq<ClaimView>) -> nat
    recommends
        resolved.len() > 0,
{
    ratio_bits(accepted_count(resolved), resolved.len())
}

/// One more resolution adds one to the count if it was accepted, and nothing
/// otherwise.
pub proof fn lemma_accepted_count_push(resolved: Seq<ClaimView>, claim: ClaimView)
    ensures
        accepted_count(resolved.push(claim)) == accepted_count(resolved) + if claim.is_accepted {
            1nat
        } else {
            0nat
        },
        accepted_count(resolved) <= resolved.len(),
{
    reveal(Seq::filter);
    assert(resolved.push(claim).drop_last() =~= resolved);
    resolved.lemma_filter_len(|claim: ClaimView| claim.is_accepted);
}

/// The score of a set of resolutions.
///
/// Scoring looks only at how many resolutions there are and how many of them
/// were accepted. With no resolutions there is nothing to divide by, and the
/// result is `NoResolutionsAvailable`.
pub fn score_claims(claims: &ResolvedClaims) -> (result: Result<Score, Error>)
    ensures
        claims@.len() == 0 <==> result == Err::<Score, Error>(Error::NoResolutionsAvailable),
        claims@.len() > 0 <==> result.is_ok(),
        result.is_ok() ==> result.unwrap().bits() == score_bits(claims@) && result.unwrap().wf(),
{
    let total: usize = claims.claims.len();
    if total == 0 {
        return Err(Error::NoResolutionsAvailable);
    }
    let mut accepted: usize = 0;
    let mut i: usize = 0;
    while i < total
        invariant
            total == claims.claims@.len(),
            i <= total,
            accepted <= i,
            accepted == accepted_count(claims@.take(i as int)),
        decreases total - i,
    {
        proof {
            lemma_accepted_count_push(claims@.take(i as int), claims@[i as int]);
            assert(claims@.take(i + 1) =~= claims@.take(i as int).push(claims@[i as int]));
        }
        if claims.claims[i].is_accepted {
            accepted = accepted + 1;
        }
        i = i + 1;
    }
    proof {
        assert(claims@.take(total as int) =~= claims@);
    }
    match Score::from_ratio(accepted as u64, total as u64) {
        Some(score) => Ok(score),
        None => Err(Error::NoResolutionsAvailable),
    }
}

} // verus!
