//! The records of the ledger: content, the claims raised in it and their
//! resolutions, each with the mathematical value that contracts speak of.

use crate::ids::{ClaimId, ContentId};
use crate::score::Score;
use vstd::prelude::*;

verus! {

/// What went wrong in an operation. An operation that fails changes nothing.
#[derive(Clone, Copy, Debug, PartialEq, Eq, Structural)]
pub enum Error {
    /// The counter of content identifiers cannot advance.
    NoAvailableContentId,
    /// The counter of claim identifiers cannot advance.
    NoAvailableClaimId,
    /// No content is stored under the identifier.
    NonExistentContent,
    /// The content has no resolution to score.
    NoResolutionsAvailable,
}

/// What an operation did, for the host to announce.
#[derive(Clone, Copy, Debug, PartialEq, Eq, Structural)]
pub enum Event {
    /// Content was stored under this identifier.
    ContentStored(ContentId),
    /// A claim was stored under this identifier.
    ClaimStored(ClaimId),
    /// A score was stored.
    ScoreStored(u8),
}

/// The value of a [`Claim`].
pub struct ClaimView {
    pub claim_text_cid: Seq<u8>,
    pub is_accepted: bool,
}

/// A claim raised in a piece of content.
#[derive(Debug, PartialEq, Eq)]
pub struct Claim {
    /// Points to the text of the claim, which is kept elsewhere.
    pub claim_text_cid: Vec<u8>,
    /// Whether the claim is held to be true.
    pub is_accepted: bool,
}

impl View for Claim {
    type V = ClaimView;

    open spec fn view(&self) -> ClaimView {
        ClaimView { claim_text_cid: self.claim_text_cid@, is_accepted: self.is_accepted }
    }
}

impl Clone for Claim {
    fn clone(&self) -> (copy: Claim)
        ensures
            copy@ == self@,
    {
        Claim { claim_text_cid: self.claim_text_cid.clone(), is_accepted: self.is_accepted }
    }
}

impl Default for Claim {
    /// The claim with no text that is not accepted.
    fn default() -> (claim: Claim)
        ensures
            claim@ == empty_claim(),
    {
        Claim { claim_text_cid: Vec::new(), is_accepted: false }
    }
}

/// The value of the default claim.
pub open spec fn empty_claim() -> ClaimView {
    ClaimView { claim_text_cid: Seq::empty(), is_accepted: false }
}

/// The values of a sequence of claims, in the same order.
pub open spec fn claim_views(claims: Seq<Claim>) -> Seq<ClaimView> {
    claims.map_values(|claim: Claim| claim@)
}

/// Appending a claim appends its value.
pub proof fn lemma_claim_views_push(claims: Seq<Claim>, claim: Claim)
    ensures
        claim_views(claims.push(claim)) == claim_views(claims).push(claim@),
{
    assert(claim_views(claims.push(claim)) =~= claim_views(claims).push(claim@));
}

/// The resolutions recorded for a piece of content, in the order in which
/// they were recorded.
#[derive(Debug, PartialEq, Eq)]
pub struct ResolvedClaims {
    pub claims: Vec<Claim>,
}

impl View for ResolvedClaims {
    type V = Seq<ClaimView>;

    open spec fn view(&self) -> Seq<ClaimView> {
        claim_views(self.claims@)
    }
}

impl Default for ResolvedClaims {
    /// No resolutions.
    fn default() -> (resolved: ResolvedClaims)
        ensures
            resolved@ == Seq::<ClaimView>::empty(),
    {
        let resolved = ResolvedClaims { claims: Vec::new() };
        assert(resolved@ =~= Seq::<ClaimView>::empty());
        resolved
    }
}

impl ResolvedClaims {
    /// Records one more resolution, after those already there.
    pub fn record(&mut self, claim: Claim)
        ensures
            final(self)@ == old(self)@.push(claim@),
    {
        proof {
            lemma_claim_views_push(self.claims@, claim);
        }
        self.claims.push(claim);
    }
}

/// The value of a [`Content`].
pub struct ContentView {
    pub url: Seq<u8>,
    pub claims: Seq<ClaimView>,
    /// The score times `2^32`.
    pub score_bits: nat,
}

/// A piece of content under verification of its claims.
#[derive(Debug, PartialEq, Eq)]
pub struct Content {
    /// Where the content can be read.
    url: Vec<u8>,
    /// The claims raised in the content, in the order in which they were attached.
    claims: Vec<Claim>,
    /// The share of accepted resolutions at the last scoring; zero before the first.
    score: Score,
}

impl View for Content {
    type V = ContentView;

    closed spec fn view(&self) -> ContentView {
        ContentView {
            url: self.url@,
            claims: claim_views(self.claims@),
            score_bits: self.score.bits(),
        }
    }
}

impl Content {
    /// The score lies between zero and one.
    pub open spec fn wf(self) -> bool {
        self@.wf()
    }

    /// New content: no claims yet, and the score zero.
    pub fn new(url: Vec<u8>) -> (content: Content)
        ensures
            content@ == ContentView::new(url@),
            content.wf(),
    {
        let content = Content { url, claims: Vec::new(), score: Score::zero() };
        assert(content@.claims =~= Seq::<ClaimView>::empty());
        content
    }

    /// Content put together from its parts, as a host that keeps them
    /// elsewhere hands them over.
    pub fn from_parts(url: Vec<u8>, claims: Vec<Claim>, score: Score) -> (content: Content)
        ensures
            content@ == (ContentView {
                url: url@,
                claims: claim_views(claims@),
                score_bits: score.bits(),
            }),
            content.wf(),
    {
        proof {
            use_type_invariant(&score);
        }
        Content { url, claims, score }
    }

    /// Attaches a claim after those already there. Nothing else changes.
    pub fn attach(&mut self, claim: Claim)
        ensures
            final(self)@ == old(self)@.attach(claim@),
    {
        proof {
            lemma_claim_views_push(self.claims@, claim);
        }
        self.claims.push(claim);
    }

    /// Replaces the score. Nothing else changes.
    pub fn set_score(&mut self, score: Score)
        ensures
            final(self)@ == old(self)@.with_score(score.bits()),
            final(self).wf(),
    {
        proof {
            use_type_invariant(&score);
        }
        self.score = score;
    }

    /// Where the content can be read.
    pub fn url(&self) -> (url: &Vec<u8>)
        ensures
            url@ == self@.url,
    {
        &self.url
    }

    /// The claims attached so far, oldest first.
    pub fn claims(&self) -> (claims: &Vec<Claim>)
        ensures
            claim_views(claims@) == self@.claims,
    {
        &self.claims
    }

    /// The score as of the last scoring.
    pub fn score(&self) -> (score: Score)
        ensures
            score.bits() == self@.score_bits,
            self.wf(),
    {
        proof {
            use_type_invariant(&self.score);
        }
        self.score
    }
}

impl ContentView {
    /// The score lies between zero and one.
    pub open spec fn wf(self) -> bool {
        self.score_bits <= crate::score::ONE_BITS
    }

    /// Content as it is first stored.
    pub open spec fn new(url: Seq<u8>) -> ContentView {
        ContentView { url, claims: Seq::empty(), score_bits: 0 }
    }

    /// The content with one more claim at the end.
    pub open spec fn attach(self, claim: ClaimView) -> ContentView {
        ContentView { claims: self.claims.push(claim), ..self }
    }

    /// The content with another score.
    pub open spec fn with_score(self, score_bits: nat) -> ContentView {
        ContentView { score_bits, ..self }
    }
}

} // verus!
