//! The executable ledger.

use crate::content::{Claim, ClaimView, Content, Error, Event, ResolvedClaims};
use crate::ids::{ClaimId, ContentId};
use crate::ledger::Ledger;
use crate::score::Score;
use crate::steps::{attach_claim, create_content, finalize_score, record_resolution};
use std::collections::HashMap;
use vstd::prelude::*;

verus! {

broadcast use vstd::std_specs::hash::group_hash_axioms;

/// A piece of content together with the resolutions recorded for it.
struct Record {
    content: Content,
    resolved: ResolvedClaims,
}

/// A claim together with the content it was raised in.
struct StoredClaim {
    content_id: ContentId,
    claim: Claim,
}

/// The ledger: content, claims and resolutions, and the two counters that
/// number content and claims.
pub struct Pallet {
    records: HashMap<ContentId, Record>,
    claims: HashMap<ClaimId, StoredClaim>,
    next_content_id: ContentId,
    next_claim_id: ClaimId,
}

impl View for Pallet {
    type V = Ledger;

    closed spec fn view(&self) -> Ledger {
        Ledger {
            contents: self.records@.map_values(|record: Record| record.content@),
            resolutions: self.records@.map_values(|record: Record| record.resolved@),
            claims: Map::new(
                |key: (ClaimId, ContentId)|
                    self.claims@.contains_key(key.0) && self.claims@[key.0].content_id == key.1,
                |key: (ClaimId, ContentId)| self.claims@[key.0].claim@,
            ),
            next_content_id: self.next_content_id,
            next_claim_id: self.next_claim_id,
        }
    }
}

impl Pallet {
    /// The ledger is one that the operations can reach.
    pub open spec fn wf(&self) -> bool {
        self@.wf()
    }

    /// A ledger with nothing stored and both counters at zero.
    pub fn new() -> (pallet: Pallet)
        ensures
            pallet@ == Ledger::empty(),
            pallet.wf(),
    {
        Pallet::with_counters(0, 0)
    }

    /// A ledger with nothing stored whose counters start at the given values:
    /// one that goes on numbering where another left off.
    pub fn with_counters(next_content_id: ContentId, next_claim_id: ClaimId) -> (pallet: Pallet)
        ensures
            pallet@ == (Ledger { next_content_id, next_claim_id, ..Ledger::empty() }),
            pallet.wf(),
    {
        let pallet = Pallet {
            records: HashMap::new(),
            claims: HashMap::new(),
            next_content_id,
            next_claim_id,
        };
        assert(pallet@.contents =~= Map::empty());
        assert(pallet@.resolutions =~= Map::empty());
        assert(pallet@.claims =~= Map::empty());
        pallet
    }

    /// Takes the record of a piece of content out of the ledger: the content,
    /// if any is stored, and its resolutions.
    fn take_record(&mut self, content_id: ContentId) -> (record: (Option<Content>, ResolvedClaims))
        ensures
            final(self).records@ == old(self).records@.remove(content_id),
            final(self).claims == old(self).claims,
            final(self).next_content_id == old(self).next_content_id,
            final(self).next_claim_id == old(self).next_claim_id,
            match record.0 {
                Some(content) => {
                    &&& old(self).records@.contains_key(content_id)
                    &&& old(self).records@[content_id].content == content
                    &&& old(self).records@[content_id].resolved == record.1
                },
                None => {
                    &&& !old(self).records@.contains_key(content_id)
                    &&& record.1@ == Seq::<ClaimView>::empty()
                },
            },
    {
        match self.records.remove(&content_id) {
            Some(record) => (Some(record.content), record.resolved),
            None => (None, ResolvedClaims::default()),
        }
    }

    /// Puts the record of a piece of content back, if there is content.
    fn put_record(&mut self, content_id: ContentId, content: Option<Content>, resolved: ResolvedClaims)
        ensures
            final(self).records@ == match content {
                Some(content) => old(self).records@.insert(
                    content_id,
                    (Record { content, resolved }),
                ),
                None => old(self).records@,
            },
            final(self).claims == old(self).claims,
            final(self).next_content_id == old(self).next_content_id,
            final(self).next_claim_id == old(self).next_claim_id,
    {
        match content {
            Some(content) => {
                self.records.insert(content_id, Record { content, resolved });
            },
            None => {},
        }
    }

    /// Stores new content, to start the resolution of its claims.
    ///
    /// The content gets the next content identifier, no claims and the score
    /// zero. The event names the identifier. With the content counter at the
    /// top of its range nothing is stored.
    pub fn store_content(&mut self, url: Vec<u8>) -> (result: Result<Event, Error>)
        requires
            old(self).wf(),
        ensures
            (final(self)@, result) == old(self)@.store_content(url@),
            final(self).wf(),
    {
        let ghost before = self@;
        let (id, content) = match create_content(&mut self.next_content_id, url) {
            Ok(created) => created,
            Err(error) => {
                return Err(error);
            },
        };
        assert(self@.contents == before.contents);
        assert(self@.claims == before.claims);
        self.put_record(id, Some(content), ResolvedClaims::default());
        proof {
            let after = before.store_content(url@).0;
            assert(self@.contents =~= after.contents);
            assert(self@.resolutions =~= after.resolutions);
            assert(self@.claims =~= after.claims);
        }
        Ok(Event::ContentStored(id))
    }

    /// Stores a claim raised in a piece of content.
    ///
    /// The claim gets the next claim identifier, is stored under that
    /// identifier and the content's, and is attached to the content after the
    /// claims already there. The event names the claim's identifier. Where no
    /// content is stored under `content_id`, or the claim counter is at the
    /// top of its range, nothing changes.
    pub fn store_claim_for_content(
        &mut self,
        claim_statement: Vec<u8>,
        content_id: ContentId,
        is_accepted: bool,
    ) -> (result: Result<Event, Error>)
        requires
            old(self).wf(),
        ensures
            (final(self)@, result) == old(self)@.store_claim_for_content(
                claim_statement@,
                content_id,
                is_accepted,
            ),
            final(self).wf(),
    {
        let ghost before = self@;
        let (mut content, resolved) = self.take_record(content_id);
        let outcome = attach_claim(
            &mut content,
            &mut self.next_claim_id,
            claim_statement,
            is_accepted,
        );
        self.put_record(content_id, content, resolved);
        match outcome {
            Ok((id, claim)) => {
                self.claims.insert(id, StoredClaim { content_id, claim });
                proof {
                    let after = before.store_claim_for_content(
                        claim_statement@,
                        content_id,
                        is_accepted,
                    ).0;
                    assert(!before.claims.contains_key((id, content_id)));
                    assert(self@.contents =~= after.contents);
                    assert(self@.resolutions =~= after.resolutions);
                    assert(self@.claims =~= after.claims);
                }
                Ok(Event::ClaimStored(id))
            },
            Err(error) => {
                proof {
                    assert(self.records@ =~= old(self).records@);
                    assert(self@.contents =~= before.contents);
                    assert(self@.resolutions =~= before.resolutions);
                    assert(self@.claims =~= before.claims);
                }
                Err(error)
            },
        }
    }

    /// Records the verdict on a claim among the resolutions of its content.
    ///
    /// The resolution is the claim as it is stored under the two identifiers,
    /// with the verdict in place of its own; where no such claim is stored it
    /// is the default claim with the verdict. It is recorded after the
    /// resolutions already there. Nothing checks that a claim is resolved only
    /// once. Where no content is stored under `content_id` nothing changes.
    pub fn record_resolution(
        &mut self,
        content_id: ContentId,
        claim_id: ClaimId,
        is_accepted: bool,
    ) -> (result: Result<(), Error>)
        requires
            old(self).wf(),
        ensures
            (final(self)@, result) == old(self)@.record_resolution(
                content_id,
                claim_id,
                is_accepted,
            ),
            final(self).wf(),
    {
        let ghost before = self@;
        let (content, mut resolved) = self.take_record(content_id);
        assert(self@.claims == before.claims);
        let stored = self.get_claims(claim_id, content_id);
        let result = record_resolution(content.is_some(), &mut resolved, stored, is_accepted);
        self.put_record(content_id, content, resolved);
        proof {
            let after = before.record_resolution(content_id, claim_id, is_accepted).0;
            if result.is_err() {
                assert(self.records@ =~= old(self).records@);
            }
            assert(self@.contents =~= after.contents);
            assert(self@.resolutions =~= after.resolutions);
            assert(self@.claims =~= after.claims);
        }
        result
    }

    /// The content stored under an identifier.
    pub fn get_content(&self, content_id: ContentId) -> (content: Option<&Content>)
        ensures
            content.is_some() == self@.contents.contains_key(content_id),
            content.is_some() ==> content.unwrap()@ == self@.contents[content_id],
    {
        match self.records.get(&content_id) {
            Some(record) => Some(&record.content),
            None => None,
        }
    }

    /// The claim stored under its identifier and that of its content.
    pub fn get_claims(&self, claim_id: ClaimId, content_id: ContentId) -> (claim: Option<&Claim>)
        ensures
            claim.is_some() == self@.claims.contains_key((claim_id, content_id)),
            claim.is_some() ==> claim.unwrap()@ == self@.claims[(claim_id, content_id)],
    {
        match self.claims.get(&claim_id) {
            Some(stored) => {
                if stored.content_id == content_id {
                    Some(&stored.claim)
                } else {
                    None
                }
            },
            None => None,
        }
    }

    /// The resolutions recorded for a piece of content, oldest first.
    pub fn get_final_claims(&self, content_id: ContentId) -> (resolved: Option<&ResolvedClaims>)
        ensures
            resolved.is_some() == self@.contents.contains_key(content_id),
            resolved.is_some() ==> resolved.unwrap()@ == self@.resolutions[content_id],
    {
        match self.records.get(&content_id) {
            Some(record) => Some(&record.resolved),
            None => None,
        }
    }

    /// The identifier that the next content will get.
    pub fn next_class_id(&self) -> (id: ContentId)
        ensures
            id == self@.next_content_id,
    {
        self.next_content_id
    }

    /// The identifier that the next claim will get.
    pub fn next_claim_id(&self) -> (id: ClaimId)
        ensures
            id == self@.next_claim_id,
    {
        self.next_claim_id
    }
}

/// Scores a piece of content from the resolutions recorded for it so far, and
/// stores the score with the content.
///
/// The score is the share of accepted resolutions, however many claims the
/// content has. Where no content is stored under `content_id`, or no
/// resolution was recorded for it, nothing changes.
pub fn truth_from_content(pallet: &mut Pallet, content_id: ContentId) -> (result: Result<
    Score,
    Error,
>)
    requires
        old(pallet).wf(),
    ensures
        final(pallet)@ == old(pallet)@.truth_from_content(content_id).0,
        match old(pallet)@.truth_from_content(content_id).1 {
            Ok(bits) => result.is_ok() && result.unwrap().bits() == bits,
            Err(error) => result == Err::<Score, Error>(error),
        },
        final(pallet).wf(),
{
    let ghost before = pallet@;
    let (mut content, resolved) = pallet.take_record(content_id);
    let result = finalize_score(&mut content, &resolved);
    pallet.put_record(content_id, content, resolved);
    proof {
        let after = before.truth_from_content(content_id).0;
        if result.is_err() {
            assert(pallet.records@ =~= old(pallet).records@);
        }
        assert(pallet@.contents =~= after.contents);
        assert(pallet@.resolutions =~= after.resolutions);
        assert(pallet@.claims =~= after.claims);
    }
    result
}

} // verus!
