//! The operations on single records.
//!
//! Each operation takes the records it concerns, as whoever keeps them found
//! them, decides, and changes them in place. The ledger in memory applies
//! them to its own records; a host that keeps the records in a store of its
//! own fetches them, applies the same operation and writes them back.

use crate::content::{empty_claim, Claim, ClaimView, Content, ContentView, Error, ResolvedClaims};
use crate::helper::{score_bits, score_claims};
use crate::ids::{next_id, ClaimId, ContentId};
use crate::score::Score;
use vstd::prelude::*;

verus! {

/// Creates content under the next content identifier.
///
/// The content has the locator given, no claims and the score zero. With the
/// counter at the top of its range nothing is created and the counter stays.
pub fn create_content(next_content_id: &mut ContentId, url: Vec<u8>) -> (result: Result<
    (ContentId, Content),
    Error,
>)
    ensures
        *old(next_content_id) == u32::MAX ==> result == Err::<(ContentId, Content), Error>(
            Error::NoAvailableContentId,
        ) && *final(next_content_id) == *old(next_content_id),
        *old(next_content_id) < u32::MAX ==> {
            &&& result.is_ok()
            &&& result.unwrap().0 == *old(next_content_id)
            &&& result.unwrap().1@ == ContentView::new(url@)
            &&& *final(next_content_id) == *old(next_content_id) + 1
        },
{
    match next_id(next_content_id) {
        Some(id) => Ok((id, Content::new(url))),
        None => Err(Error::NoAvailableContentId),
    }
}

/// Attaches a claim to a piece of content, under the next claim identifier.
///
/// `content` is what is stored under the content's identifier, if anything.
/// Whether there is content is decided first: without it the result is
/// `NonExistentContent` and no identifier is used up. With the counter at the
/// top of its range the result is `NoAvailableClaimId`. Otherwise the claim is
/// attached after those already there, and is returned with its identifier
/// for the store of claims. A failure changes nothing.
pub fn attach_claim(
    content: &mut Option<Content>,
    next_claim_id: &mut ClaimId,
    claim_statement: Vec<u8>,
    is_accepted: bool,
) -> (result: Result<(ClaimId, Claim), Error>)
    ensures
        old(content).is_none() ==> result == Err::<(ClaimId, Claim), Error>(
            Error::NonExistentContent,
        ),
        old(content).is_some() && *old(next_claim_id) == u32::MAX ==> result == Err::<
            (ClaimId, Claim),
            Error,
        >(Error::NoAvailableClaimId),
        old(content).is_some() && *old(next_claim_id) < u32::MAX ==> result.is_ok(),
        result.is_err() ==> *final(content) == *old(content)
            && *final(next_claim_id) == *old(next_claim_id),
        result.is_ok() ==> {
            let claim = ClaimView { claim_text_cid: claim_statement@, is_accepted };
            &&& result.unwrap().0 == *old(next_claim_id)
            &&& result.unwrap().1@ == claim
            &&& *final(next_claim_id) == *old(next_claim_id) + 1
            &&& final(content).is_some()
            &&& final(content).unwrap()@ == old(content).unwrap()@.attach(claim)
        },
{
    match content.take() {
        None => Err(Error::NonExistentContent),
        Some(mut found) => {
            match next_id(next_claim_id) {
                None => {
                    *content = Some(found);
                    Err(Error::NoAvailableClaimId)
                },
                Some(id) => {
                    let this_claim = Claim { claim_text_cid: claim_statement, is_accepted };
                    found.attach(this_claim.clone());
                    *content = Some(found);
                    Ok((id, this_claim))
                },
            }
        },
    }
}

/// The resolution recorded for a claim: the claim as it is stored, with the
/// verdict in place of its own, or the default claim with the verdict where
/// no such claim is stored.
pub open spec fn resolution(stored: Option<ClaimView>, is_accepted: bool) -> ClaimView {
    ClaimView {
        claim_text_cid: match stored {
            Some(claim) => claim.claim_text_cid,
            None => empty_claim().claim_text_cid,
        },
        is_accepted,
    }
}

/// Records the verdict on a claim among the resolutions of its content.
///
/// `content_exists` says whether anything is stored under the content's
/// identifier, `resolved` holds the resolutions recorded for it so far, and
/// `stored` is the claim stored under the two identifiers, if any. Without
/// content the result is `NonExistentContent` and nothing changes. Otherwise
/// the resolution is recorded after those already there.
pub fn record_resolution(
    content_exists: bool,
    resolved: &mut ResolvedClaims,
    stored: Option<&Claim>,
    is_accepted: bool,
) -> (result: Result<(), Error>)
    ensures
        !content_exists ==> result == Err::<(), Error>(Error::NonExistentContent)
            && final(resolved)@ == old(resolved)@,
        content_exists ==> result == Ok::<(), Error>(()) && final(resolved)@ == old(resolved)@.push(
            resolution(
                match stored {
                    Some(claim) => Some(claim@),
                    None => None,
                },
                is_accepted,
            ),
        ),
{
    if !content_exists {
        return Err(Error::NonExistentContent);
    }
    let mut this_resolution = match stored {
        Some(claim) => claim.clone(),
        None => Claim::default(),
    };
    this_resolution.is_accepted = is_accepted;
    resolved.record(this_resolution);
    Ok(())
}

/// Scores a piece of content from its resolutions, and stores the score with
/// it.
///
/// `content` is what is stored under the content's identifier, if anything,
/// and `resolved` holds the resolutions recorded for it so far. Without
/// content the result is `NonExistentContent`, without resolutions
/// `NoResolutionsAvailable`, and nothing changes. Otherwise the score is the
/// share of accepted resolutions, whatever the score was before and however
/// many claims the content has.
pub fn finalize_score(content: &mut Option<Content>, resolved: &ResolvedClaims) -> (result: Result<
    Score,
    Error,
>)
    ensures
        old(content).is_none() ==> result == Err::<Score, Error>(Error::NonExistentContent),
        old(content).is_some() && resolved@.len() == 0 ==> result == Err::<Score, Error>(
            Error::NoResolutionsAvailable,
        ),
        old(content).is_some() && resolved@.len() > 0 ==> result.is_ok(),
        result.is_err() ==> *final(content) == *old(content),
        result.is_ok() ==> {
            &&& result.unwrap().bits() == score_bits(resolved@)
            &&& result.unwrap().wf()
            &&& final(content).is_some()
            &&& final(content).unwrap()@ == old(content).unwrap()@.with_score(score_bits(resolved@))
        },
{
    match content.take() {
        None => Err(Error::NonExistentContent),
        Some(mut found) => {
            match score_claims(resolved) {
                Err(error) => {
                    *content = Some(found);
                    Err(error)
                },
                Ok(score) => {
                    found.set_score(score);
                    *content = Some(found);
                    Ok(score)
                },
            }
        },
    }
}

} // verus!
