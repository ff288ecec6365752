//! The ledger as a mathematical value, and its transitions.
//!
//! Each operation is a function from a ledger to the ledger after it and the
//! outcome. The executable ledger refines these functions, and the laws of the
//! ledger are proved of them.

use crate::content::{empty_claim, ClaimView, ContentView, Error, Event};
use crate::helper::score_bits;
use crate::ids::{ClaimId, ContentId};
use vstd::prelude::*;

verus! {

/// The state of the ledger.
pub struct Ledger {
    /// The content stored, by identifier.
    pub contents: Map<ContentId, ContentView>,
    /// The resolutions recorded for each piece of content, oldest first.
    pub resolutions: Map<ContentId, Seq<ClaimView>>,
    /// The claims stored, by their identifier and that of their content.
    pub claims: Map<(ClaimId, ContentId), ClaimView>,
    /// The next content identifier to hand out.
    pub next_content_id: ContentId,
    /// The next claim identifier to hand out.
    pub next_claim_id: ClaimId,
}

impl Ledger {
    /// The ledger before anything was stored.
    pub open spec fn empty() -> Ledger {
        Ledger {
            contents: Map::empty(),
            resolutions: Map::empty(),
            claims: Map::empty(),
            next_content_id: 0,
            next_claim_id: 0,
        }
    }

    /// What holds of every ledger that the operations can reach:
    /// identifiers in use lie below their counter, every piece of content has
    /// its resolutions and a score between zero and one, and a claim belongs
    /// to one piece of content, which is stored.
    pub open spec fn wf(self) -> bool {
        &&& forall|id: ContentId| #[trigger]
            self.contents.contains_key(id) ==> id < self.next_content_id && self.contents[id].wf()
        &&& self.resolutions.dom() == self.contents.dom()
        &&& forall|claim_id: ClaimId, content_id: ContentId| #[trigger]
            self.claims.contains_key((claim_id, content_id)) ==> claim_id < self.next_claim_id
                && self.contents.contains_key(content_id)
        &&& forall|claim_id: ClaimId, first: ContentId, second: ContentId|
            self.claims.contains_key((claim_id, first)) && self.claims.contains_key(
                (claim_id, second),
            ) ==> first == second
    }

    /// The claim stored under the two identifiers, or the default claim where
    /// there is none.
    pub open spec fn claim_or_default(self, claim_id: ClaimId, content_id: ContentId) -> ClaimView {
        if self.claims.contains_key((claim_id, content_id)) {
            self.claims[(claim_id, content_id)]
        } else {
            empty_claim()
        }
    }

    /// The resolution that is recorded for a claim: the claim as it is stored,
    /// with the verdict in place of its own.
    pub open spec fn resolution_of(
        self,
        content_id: ContentId,
        claim_id: ClaimId,
        is_accepted: bool,
    ) -> ClaimView {
        ClaimView {
            claim_text_cid: self.claim_or_default(claim_id, content_id).claim_text_cid,
            is_accepted,
        }
    }

    /// Stores new content under the next content identifier.
    pub open spec fn store_content(self, url: Seq<u8>) -> (Ledger, Result<Event, Error>) {
        if self.next_content_id == u32::MAX {
            (self, Err(Error::NoAvailableContentId))
        } else {
            let id = self.next_content_id;
            (
                Ledger {
                    contents: self.contents.insert(id, ContentView::new(url)),
                    resolutions: self.resolutions.insert(id, Seq::empty()),
                    next_content_id: (id + 1) as ContentId,
                    ..self
                },
                Ok(Event::ContentStored(id)),
            )
        }
    }

    /// Stores a claim under the next claim identifier and attaches it to its
    /// content. Whether the content exists is decided first, so that a claim
    /// for missing content uses up no identifier.
    pub open spec fn store_claim_for_content(
        self,
        claim_statement: Seq<u8>,
        content_id: ContentId,
        is_accepted: bool,
    ) -> (Ledger, Result<Event, Error>) {
        if !self.contents.contains_key(content_id) {
            (self, Err(Error::NonExistentContent))
        } else if self.next_claim_id == u32::MAX {
            (self, Err(Error::NoAvailableClaimId))
        } else {
            let id = self.next_claim_id;
            let claim = ClaimView { claim_text_cid: claim_statement, is_accepted };
            (
                Ledger {
                    contents: self.contents.insert(
                        content_id,
                        self.contents[content_id].attach(claim),
                    ),
                    claims: self.claims.insert((id, content_id), claim),
                    next_claim_id: (id + 1) as ClaimId,
                    ..self
                },
                Ok(Event::ClaimStored(id)),
            )
        }
    }

    /// Records the verdict on a claim among the resolutions of its content.
    pub open spec fn record_resolution(
        self,
        content_id: ContentId,
        claim_id: ClaimId,
        is_accepted: bool,
    ) -> (Ledger, Result<(), Error>) {
        if !self.contents.contains_key(content_id) {
            (self, Err(Error::NonExistentContent))
        } else {
            (
                Ledger {
                    resolutions: self.resolutions.insert(
                        content_id,
                        self.resolutions[content_id].push(
                            self.resolution_of(content_id, claim_id, is_accepted),
                        ),
                    ),
                    ..self
                },
                Ok(()),
            )
        }
    }

    /// Scores content from the resolutions recorded for it so far, and stores
    /// the score with the content. The outcome holds the raw bits of the score.
    pub open spec fn truth_from_content(self, content_id: ContentId) -> (Ledger, Result<nat, Error>) {
        if !self.contents.contains_key(content_id) {
            (self, Err(Error::NonExistentContent))
        } else if self.resolutions[content_id].len() == 0 {
            (self, Err(Error::NoResolutionsAvailable))
        } else {
            let bits = score_bits(self.resolutions[content_id]);
            (
                Ledger {
                    contents: self.contents.insert(
                        content_id,
                        self.contents[content_id].with_score(bits),
                    ),
                    ..self
                },
                Ok(bits),
            )
        }
    }
}

} // verus!
