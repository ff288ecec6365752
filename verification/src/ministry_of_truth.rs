//! A register of articles and of the claims raised in them.
//!
//! An article lists the identifiers of its claims; the claims themselves are
//! stored by their identifier and that of their article. Articles are not
//! scored.

use crate::ids::{next_id, ClaimId};
use std::collections::HashMap;
use vstd::prelude::*;

verus! {

broadcast use vstd::std_specs::hash::group_hash_axioms;

/// Identifies an article.
pub type ArticleId = u32;

/// What went wrong in an operation. An operation that fails changes nothing.
#[derive(Clone, Copy, Debug, PartialEq, Eq, Structural)]
pub enum Error {
    /// The counter of article identifiers cannot advance.
    NoAvailableArticleId,
    /// The counter of claim identifiers cannot advance.
    NoAvailableClaimId,
    /// No article is stored under the identifier.
    NonExistentArticle,
    /// Anything else. No operation of the register gives it.
    Unknown,
}

/// What an operation did, for the host to announce.
#[derive(Clone, Copy, Debug, PartialEq, Eq, Structural)]
pub enum Event {
    /// An article was stored under this identifier.
    ArticleStored(ArticleId),
    /// A claim was stored under this identifier.
    ClaimStored(ClaimId),
}

/// The value of a [`Claim`].
pub struct ClaimView {
    pub claim_text_cid: Seq<u8>,
    pub is_rejected: bool,
}

/// A claim raised in an article.
#[derive(Debug, PartialEq, Eq)]
pub struct Claim {
    /// Points to the text of the claim, which is kept elsewhere.
    pub claim_text_cid: Vec<u8>,
    /// Whether the claim is held to be false.
    pub is_rejected: bool,
}

impl View for Claim {
    type V = ClaimView;

    open spec fn view(&self) -> ClaimView {
        ClaimView { claim_text_cid: self.claim_text_cid@, is_rejected: self.is_rejected }
    }
}

/// The value of an [`Article`].
pub struct ArticleView {
    pub url: Seq<u8>,
    pub claims: Seq<ClaimId>,
    pub source_id: Seq<u8>,
}

impl ArticleView {
    /// An article as it is first stored.
    pub open spec fn new(source_id: Seq<u8>, url: Seq<u8>) -> ArticleView {
        ArticleView { url, claims: Seq::empty(), source_id }
    }

    /// The article with one more claim noted at the end.
    pub open spec fn attach(self, claim_id: ClaimId) -> ArticleView {
        ArticleView { claims: self.claims.push(claim_id), ..self }
    }
}

/// An article whose claims are under deliberation.
#[derive(Debug, PartialEq, Eq)]
pub struct Article {
    /// Where the article can be read.
    url: Vec<u8>,
    /// The identifiers of the claims raised in the article, oldest first.
    claims: Vec<ClaimId>,
    /// The identifier of the article where it was published.
    source_id: Vec<u8>,
}

impl View for Article {
    type V = ArticleView;

    closed spec fn view(&self) -> ArticleView {
        ArticleView { url: self.url@, claims: self.claims@, source_id: self.source_id@ }
    }
}

impl Article {
    /// A new article, with no claims yet.
    pub fn new(source_id: Vec<u8>, url: Vec<u8>) -> (article: Article)
        ensures
            article@ == ArticleView::new(source_id@, url@),
    {
        Article { url, claims: Vec::new(), source_id }
    }

    /// An article put together from its parts, as a host that keeps them
    /// elsewhere hands them over.
    pub fn from_parts(url: Vec<u8>, claims: Vec<ClaimId>, source_id: Vec<u8>) -> (article: Article)
        ensures
            article@ == (ArticleView { url: url@, claims: claims@, source_id: source_id@ }),
    {
        Article { url, claims, source_id }
    }

    /// Notes one more claim, after those already there. Nothing else changes.
    pub fn attach(&mut self, claim_id: ClaimId)
        ensures
            final(self)@ == old(self)@.attach(claim_id),
    {
        self.claims.push(claim_id);
    }

    /// Where the article can be read.
    pub fn url(&self) -> (url: &Vec<u8>)
        ensures
            url@ == self@.url,
    {
        &self.url
    }

    /// The identifiers of the claims raised in the article, oldest first.
    pub fn claims(&self) -> (claims: &Vec<ClaimId>)
        ensures
            claims@ == self@.claims,
    {
        &self.claims
    }

    /// The identifier of the article where it was published.
    pub fn source_id(&self) -> (source_id: &Vec<u8>)
        ensures
            source_id@ == self@.source_id,
    {
        &self.source_id
    }
}

/// Creates an article under the next article identifier.
///
/// The article has the source identifier and the locator given and no claims.
/// With the counter at the top of its range nothing is created and the
/// counter stays.
pub fn create_article(next_article_id: &mut ArticleId, source_id: Vec<u8>, url: Vec<u8>) -> (result:
    Result<(ArticleId, Article), Error>)
    ensures
        *old(next_article_id) == u32::MAX ==> result == Err::<(ArticleId, Article), Error>(
            Error::NoAvailableArticleId,
        ) && *final(next_article_id) == *old(next_article_id),
        *old(next_article_id) < u32::MAX ==> {
            &&& result.is_ok()
            &&& result.unwrap().0 == *old(next_article_id)
            &&& result.unwrap().1@ == ArticleView::new(source_id@, url@)
            &&& *final(next_article_id) == *old(next_article_id) + 1
        },
{
    match next_id(next_article_id) {
        Some(id) => Ok((id, Article::new(source_id, url))),
        None => Err(Error::NoAvailableArticleId),
    }
}

/// Attaches a claim to an article, under the next claim identifier.
///
/// `article` is what is stored under the article's identifier, if anything.
/// Whether there is an article is decided first: without it the result is
/// `NonExistentArticle` and no identifier is used up. With the counter at the
/// top of its range the result is `NoAvailableClaimId`. Otherwise the article
/// notes the identifier after those already there, and the claim is returned
/// with its identifier for the store of claims. A failure changes nothing.
pub fn attach_claim(
    article: &mut Option<Article>,
    next_claim_id: &mut ClaimId,
    claim_statement: Vec<u8>,
    is_rejected: bool,
) -> (result: Result<(ClaimId, Claim), Error>)
    ensures
        old(article).is_none() ==> result == Err::<(ClaimId, Claim), Error>(
            Error::NonExistentArticle,
        ),
        old(article).is_some() && *old(next_claim_id) == u32::MAX ==> result == Err::<
            (ClaimId, Claim),
            Error,
        >(Error::NoAvailableClaimId),
        old(article).is_some() && *old(next_claim_id) < u32::MAX ==> result.is_ok(),
        result.is_err() ==> *final(article) == *old(article)
            && *final(next_claim_id) == *old(next_claim_id),
        result.is_ok() ==> {
            &&& result.unwrap().0 == *old(next_claim_id)
            &&& result.unwrap().1@ == (ClaimView { claim_text_cid: claim_statement@, is_rejected })
            &&& *final(next_claim_id) == *old(next_claim_id) + 1
            &&& final(article).is_some()
            &&& final(article).unwrap()@ == old(article).unwrap()@.attach(*old(next_claim_id))
        },
{
    match article.take() {
        None => Err(Error::NonExistentArticle),
        Some(mut found) => {
            match next_id(next_claim_id) {
                None => {
                    *article = Some(found);
                    Err(Error::NoAvailableClaimId)
                },
                Some(id) => {
                    found.attach(id);
                    *article = Some(found);
                    Ok((id, Claim { claim_text_cid: claim_statement, is_rejected }))
                },
            }
        },
    }
}

/// The state of the register.
pub struct Register {
    /// The articles stored, by identifier.
    pub articles: Map<ArticleId, ArticleView>,
    /// The claims stored, by their identifier and that of their article.
    pub claims: Map<(ClaimId, ArticleId), ClaimView>,
    /// The next article identifier to hand out.
    pub next_article_id: ArticleId,
    /// The next claim identifier to hand out.
    pub next_claim_id: ClaimId,
}

impl Register {
    /// The register before anything was stored.
    pub open spec fn empty() -> Register {
        Register {
            articles: Map::empty(),
            claims: Map::empty(),
            next_article_id: 0,
            next_claim_id: 0,
        }
    }

    /// What holds of every register that the operations can reach:
    /// identifiers in use lie below their counter, a claim belongs to one
    /// article, which is stored and lists it, and an article lists only
    /// claims that are stored for it.
    pub open spec fn wf(self) -> bool {
        &&& forall|id: ArticleId| #[trigger]
            self.articles.contains_key(id) ==> id < self.next_article_id
        &&& forall|claim_id: ClaimId, article_id: ArticleId| #[trigger]
            self.claims.contains_key((claim_id, article_id)) ==> claim_id < self.next_claim_id
                && self.articles.contains_key(article_id) && self.articles[article_id].claims.contains(
                claim_id,
            )
        &&& forall|claim_id: ClaimId, first: ArticleId, second: ArticleId|
            self.claims.contains_key((claim_id, first)) && self.claims.contains_key(
                (claim_id, second),
            ) ==> first == second
        &&& forall|article_id: ArticleId, i: int|
            self.articles.contains_key(article_id) && 0 <= i
                < self.articles[article_id].claims.len() ==> self.claims.contains_key(
                (#[trigger] self.articles[article_id].claims[i], article_id),
            )
    }

    /// Stores a new article under the next article identifier.
    pub open spec fn store_article(self, source_id: Seq<u8>, url: Seq<u8>) -> (
        Register,
        Result<Event, Error>,
    ) {
        if self.next_article_id == u32::MAX {
            (self, Err(Error::NoAvailableArticleId))
        } else {
            let id = self.next_article_id;
            (
                Register {
                    articles: self.articles.insert(id, ArticleView::new(source_id, url)),
                    next_article_id: (id + 1) as ArticleId,
                    ..self
                },
                Ok(Event::ArticleStored(id)),
            )
        }
    }

    /// Stores a claim under the next claim identifier and notes the
    /// identifier in its article. Whether the article exists is decided
    /// first, so that a claim for a missing article uses up no identifier.
    pub open spec fn store_claim_for_article(
        self,
        claim_statement: Seq<u8>,
        article_id: ArticleId,
        is_rejected: bool,
    ) -> (Register, Result<Event, Error>) {
        if !self.articles.contains_key(article_id) {
            (self, Err(Error::NonExistentArticle))
        } else if self.next_claim_id == u32::MAX {
            (self, Err(Error::NoAvailableClaimId))
        } else {
            let id = self.next_claim_id;
            (
                Register {
                    articles: self.articles.insert(article_id, self.articles[article_id].attach(id)),
                    claims: self.claims.insert(
                        (id, article_id),
                        ClaimView { claim_text_cid: claim_statement, is_rejected },
                    ),
                    next_claim_id: (id + 1) as ClaimId,
                    ..self
                },
                Ok(Event::ClaimStored(id)),
            )
        }
    }
}

/// A claim together with the article it was raised in.
struct StoredClaim {
    article_id: ArticleId,
    claim: Claim,
}

/// The register: articles and claims, and the two counters that number them.
pub struct Pallet {
    articles: HashMap<ArticleId, Article>,
    claims: HashMap<ClaimId, StoredClaim>,
    next_article_id: ArticleId,
    next_claim_id: ClaimId,
}

impl View for Pallet {
    type V = Register;

    closed spec fn view(&self) -> Register {
        Register {
            articles: self.articles@.map_values(|article: Article| article@),
            claims: Map::new(
                |key: (ClaimId, ArticleId)|
                    self.claims@.contains_key(key.0) && self.claims@[key.0].article_id == key.1,
                |key: (ClaimId, ArticleId)| self.claims@[key.0].claim@,
            ),
            next_article_id: self.next_article_id,
            next_claim_id: self.next_claim_id,
        }
    }
}

impl Pallet {
    /// The register is one that the operations can reach.
    pub open spec fn wf(&self) -> bool {
        self@.wf()
    }

    /// A register with nothing stored and both counters at zero.
    pub fn new() -> (pallet: Pallet)
        ensures
            pallet@ == Register::empty(),
            pallet.wf(),
    {
        Pallet::with_counters(0, 0)
    }

    /// A register with nothing stored whose counters start at the given
    /// values: one that goes on numbering where another left off.
    pub fn with_counters(next_article_id: ArticleId, next_claim_id: ClaimId) -> (pallet: Pallet)
        ensures
            pallet@ == (Register { next_article_id, next_claim_id, ..Register::empty() }),
            pallet.wf(),
    {
        let pallet = Pallet {
            articles: HashMap::new(),
            claims: HashMap::new(),
            next_article_id,
            next_claim_id,
        };
        assert(pallet@.articles =~= Map::empty());
        assert(pallet@.claims =~= Map::empty());
        pallet
    }

    /// Stores an article for deliberation on its claims.
    ///
    /// The article gets the next article identifier and no claims. The event
    /// names the identifier. With the article counter at the top of its range
    /// nothing is stored.
    pub fn store_article(&mut self, source_id: Vec<u8>, url: Vec<u8>) -> (result: Result<
        Event,
        Error,
    >)
        requires
            old(self).wf(),
        ensures
            (final(self)@, result) == old(self)@.store_article(source_id@, url@),
            final(self).wf(),
    {
        let ghost before = self@;
        let (id, article) = match create_article(&mut self.next_article_id, source_id, url) {
            Ok(created) => created,
            Err(error) => {
                return Err(error);
            },
        };
        assert(self@.articles == before.articles);
        assert(self@.claims == before.claims);
        self.articles.insert(id, article);
        proof {
            let after = before.store_article(source_id@, url@).0;
            assert(self@.articles =~= after.articles);
            assert(self@.claims =~= after.claims);
        }
        Ok(Event::ArticleStored(id))
    }

    /// Stores a claim raised in an article.
    ///
    /// The claim gets the next claim identifier and is stored under that
    /// identifier and the article's; the article notes the identifier after
    /// those already there. The event names the claim's identifier. Where no
    /// article is stored under `article_id`, or the claim counter is at the
    /// top of its range, nothing changes.
    pub fn store_claim_for_article(
        &mut self,
        claim_statement: Vec<u8>,
        article_id: ArticleId,
        is_rejected: bool,
    ) -> (result: Result<Event, Error>)
        requires
            old(self).wf(),
        ensures
            (final(self)@, result) == old(self)@.store_claim_for_article(
                claim_statement@,
                article_id,
                is_rejected,
            ),
            final(self).wf(),
    {
        let ghost before = self@;
        let mut article = self.articles.remove(&article_id);
        let outcome = attach_claim(
            &mut article,
            &mut self.next_claim_id,
            claim_statement,
            is_rejected,
        );
        match article {
            Some(article) => {
                self.articles.insert(article_id, article);
            },
            None => {},
        }
        match outcome {
            Ok((id, claim)) => {
                self.claims.insert(id, StoredClaim { article_id, claim });
                proof {
                    let after = before.store_claim_for_article(
                        claim_statement@,
                        article_id,
                        is_rejected,
                    ).0;
                    assert(!before.claims.contains_key((id, article_id)));
                    assert(self@.articles =~= after.articles);
                    assert(self@.claims =~= after.claims);
                    lemma_store_claim_keeps_wf(before, claim_statement@, article_id, is_rejected);
                }
                Ok(Event::ClaimStored(id))
            },
            Err(error) => {
                proof {
                    assert(self.articles@ =~= old(self).articles@);
                    assert(self@.articles =~= before.articles);
                    assert(self@.claims =~= before.claims);
                }
                Err(error)
            },
        }
    }

    /// The article stored under an identifier.
    pub fn get_article(&self, article_id: ArticleId) -> (article: Option<&Article>)
        ensures
            article.is_some() == self@.articles.contains_key(article_id),
            article.is_some() ==> article.unwrap()@ == self@.articles[article_id],
    {
        self.articles.get(&article_id)
    }

    /// The claim stored under its identifier and that of its article.
    pub fn get_claims(&self, claim_id: ClaimId, article_id: ArticleId) -> (claim: Option<&Claim>)
        ensures
            claim.is_some() == self@.claims.contains_key((claim_id, article_id)),
            claim.is_some() ==> claim.unwrap()@ == self@.claims[(claim_id, article_id)],
    {
        match self.claims.get(&claim_id) {
            Some(stored) => {
                if stored.article_id == article_id {
                    Some(&stored.claim)
                } else {
                    None
                }
            },
            None => None,
        }
    }

    /// The identifier that the next article will get.
    pub fn next_class_id(&self) -> (id: ArticleId)
        ensures
            id == self@.next_article_id,
    {
        self.next_article_id
    }

    /// The identifier that the next claim will get.
    pub fn next_claim_id(&self) -> (id: ClaimId)
        ensures
            id == self@.next_claim_id,
    {
        self.next_claim_id
    }
}

/// Storing an article keeps a register well formed.
pub proof fn lemma_store_article_keeps_wf(register: Register, source_id: Seq<u8>, url: Seq<u8>)
    requires
        register.wf(),
    ensures
        register.store_article(source_id, url).0.wf(),
{
}

/// Storing a claim keeps a register well formed: the claim is stored for the
/// article that lists it.
pub proof fn lemma_store_claim_keeps_wf(
    register: Register,
    claim_statement: Seq<u8>,
    article_id: ArticleId,
    is_rejected: bool,
)
    requires
        register.wf(),
    ensures
        register.store_claim_for_article(claim_statement, article_id, is_rejected).0.wf(),
{
    let after = register.store_claim_for_article(claim_statement, article_id, is_rejected).0;
    if after != register {
        let id = register.next_claim_id;
        let listed = register.articles[article_id].claims;
        assert(listed.push(id)[listed.len() as int] == id);
        assert forall|claim_id: ClaimId, other: ArticleId| #[trigger]
            after.claims.contains_key((claim_id, other)) implies claim_id < after.next_claim_id
            && after.articles.contains_key(other) && after.articles[other].claims.contains(
            claim_id,
        ) by {
            if (claim_id, other) != (id, article_id) {
                assert(register.claims.contains_key((claim_id, other)));
                let i = choose|i: int|
                    0 <= i < register.articles[other].claims.len()
                        && register.articles[other].claims[i] == claim_id;
                assert(after.articles[other].claims[i] == claim_id);
            }
        }
    }
}

} // verus!
