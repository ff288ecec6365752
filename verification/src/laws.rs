//! Laws of the ledger, over every sequence of operations.

use crate::content::{ClaimView, Error, Event};
use crate::ids::{ClaimId, ContentId};
use crate::ledger::Ledger;
use vstd::prelude::*;

verus! {

/// One operation on the ledger with its arguments.
pub enum Call {
    StoreContent { url: Seq<u8> },
    StoreClaim { claim_statement: Seq<u8>, content_id: ContentId, is_accepted: bool },
    RecordResolution { content_id: ContentId, claim_id: ClaimId, is_accepted: bool },
    Score { content_id: ContentId },
}

impl Ledger {
    /// The ledger after one operation.
    pub open spec fn apply(self, call: Call) -> Ledger {
        match call {
            Call::StoreContent { url } => self.store_content(url).0,
            Call::StoreClaim { claim_statement, content_id, is_accepted } => {
                self.store_claim_for_content(claim_statement, content_id, is_accepted).0
            },
            Call::RecordResolution { content_id, claim_id, is_accepted } => {
                self.record_resolution(content_id, claim_id, is_accepted).0
            },
            Call::Score { content_id } => self.truth_from_content(content_id).0,
        }
    }

    /// Whether one operation succeeds on this ledger.
    pub open spec fn succeeds(self, call: Call) -> bool {
        match call {
            Call::StoreContent { url } => self.store_content(url).1.is_ok(),
            Call::StoreClaim { claim_statement, content_id, is_accepted } => {
                self.store_claim_for_content(claim_statement, content_id, is_accepted).1.is_ok()
            },
            Call::RecordResolution { content_id, claim_id, is_accepted } => {
                self.record_resolution(content_id, claim_id, is_accepted).1.is_ok()
            },
            Call::Score { content_id } => self.truth_from_content(content_id).1.is_ok(),
        }
    }

    /// The ledger after a sequence of operations, applied in order.
    pub open spec fn run(self, calls: Seq<Call>) -> Ledger
        decreases calls.len(),
    {
        if calls.len() == 0 {
            self
        } else {
            self.run(calls.drop_last()).apply(calls.last())
        }
    }

    /// The content identifiers that a sequence of operations hands out, in
    /// the order of the calls.
    pub open spec fn content_ids_issued(self, calls: Seq<Call>) -> Seq<ContentId>
        decreases calls.len(),
    {
        if calls.len() == 0 {
            Seq::empty()
        } else {
            let earlier = self.content_ids_issued(calls.drop_last());
            let ledger = self.run(calls.drop_last());
            match calls.last() {
                Call::StoreContent { url } => match ledger.store_content(url).1 {
                    Ok(Event::ContentStored(id)) => earlier.push(id),
                    _ => earlier,
                },
                _ => earlier,
            }
        }
    }

    /// The claim identifiers that a sequence of operations hands out, in the
    /// order of the calls.
    pub open spec fn claim_ids_issued(self, calls: Seq<Call>) -> Seq<ClaimId>
        decreases calls.len(),
    {
        if calls.len() == 0 {
            Seq::empty()
        } else {
            let earlier = self.claim_ids_issued(calls.drop_last());
            let ledger = self.run(calls.drop_last());
            match calls.last() {
                Call::StoreClaim { claim_statement, content_id, is_accepted } => {
                    match ledger.store_claim_for_content(claim_statement, content_id, is_accepted).1 {
                        Ok(Event::ClaimStored(id)) => earlier.push(id),
                        _ => earlier,
                    }
                },
                _ => earlier,
            }
        }
    }

    /// The claims that a sequence of operations attaches to one piece of
    /// content: those of the calls that succeed, in the order of the calls.
    pub open spec fn claims_attached(self, calls: Seq<Call>, to: ContentId) -> Seq<ClaimView>
        decreases calls.len(),
    {
        if calls.len() == 0 {
            Seq::empty()
        } else {
            let earlier = self.claims_attached(calls.drop_last(), to);
            let ledger = self.run(calls.drop_last());
            match calls.last() {
                Call::StoreClaim { claim_statement, content_id, is_accepted } => {
                    if content_id == to && ledger.succeeds(calls.last()) {
                        earlier.push(ClaimView { claim_text_cid: claim_statement, is_accepted })
                    } else {
                        earlier
                    }
                },
                _ => earlier,
            }
        }
    }
}

/// Every operation keeps a ledger well formed; in particular the score of
/// every piece of content stays between zero and one.
pub proof fn lemma_apply_keeps_wf(ledger: Ledger, call: Call)
    requires
        ledger.wf(),
    ensures
        ledger.apply(call).wf(),
{
    let after = ledger.apply(call);
    match call {
        Call::StoreContent { url } => {
            assert(after.resolutions.dom() =~= after.contents.dom());
        },
        Call::StoreClaim { claim_statement, content_id, is_accepted } => {
            assert(after.resolutions.dom() =~= after.contents.dom());
        },
        Call::RecordResolution { content_id, claim_id, is_accepted } => {
            assert(after.resolutions.dom() =~= after.contents.dom());
        },
        Call::Score { content_id } => {
            if ledger.succeeds(call) {
                let resolved = ledger.resolutions[content_id];
                crate::helper::lemma_accepted_count_push(resolved, resolved[0]);
                crate::score::lemma_ratio_at_most_one(
                    crate::helper::accepted_count(resolved),
                    resolved.len(),
                );
                assert(after.resolutions.dom() =~= after.contents.dom());
            }
        },
    }
}

/// An operation that fails leaves the ledger as it was.
pub proof fn lemma_failure_changes_nothing(ledger: Ledger, call: Call)
    requires
        !ledger.succeeds(call),
    ensures
        ledger.apply(call) == ledger,
{
}

/// The empty ledger is well formed, and so is every ledger reached from a
/// well-formed one.
pub proof fn lemma_run_keeps_wf(ledger: Ledger, calls: Seq<Call>)
    requires
        ledger.wf(),
    ensures
        ledger.run(calls).wf(),
        Ledger::empty().wf(),
    decreases calls.len(),
{
    if calls.len() > 0 {
        lemma_run_keeps_wf(ledger, calls.drop_last());
        lemma_apply_keeps_wf(ledger.run(calls.drop_last()), calls.last());
    }
}

/// Content identifiers are never handed out twice. Over any sequence of
/// operations each identifier handed out is greater than every one handed out
/// before it, none was in use when the sequence began, and the content counter
/// has advanced once for each.
pub proof fn lemma_content_ids_never_repeat(ledger: Ledger, calls: Seq<Call>)
    requires
        ledger.wf(),
    ensures
        forall|i: int, j: int|
            0 <= i < j < ledger.content_ids_issued(calls).len() ==> ledger.content_ids_issued(
                calls,
            )[i] < ledger.content_ids_issued(calls)[j],
        forall|i: int|
            0 <= i < ledger.content_ids_issued(calls).len() ==> !ledger.contents.contains_key(
                #[trigger] ledger.content_ids_issued(calls)[i],
            ),
        forall|i: int|
            0 <= i < ledger.content_ids_issued(calls).len() ==> #[trigger] ledger.content_ids_issued(
                calls,
            )[i] == ledger.next_content_id + i,
        ledger.run(calls).next_content_id == ledger.next_content_id + ledger.content_ids_issued(
            calls,
        ).len(),
    decreases calls.len(),
{
    if calls.len() > 0 {
        lemma_content_ids_never_repeat(ledger, calls.drop_last());
    }
}

/// Claim identifiers are never handed out twice. Over any sequence of
/// operations each identifier handed out is greater than every one handed out
/// before it, none was in use when the sequence began, and the claim counter
/// has advanced once for each.
pub proof fn lemma_claim_ids_never_repeat(ledger: Ledger, calls: Seq<Call>)
    requires
        ledger.wf(),
    ensures
        forall|i: int, j: int|
            0 <= i < j < ledger.claim_ids_issued(calls).len() ==> ledger.claim_ids_issued(calls)[i]
                < ledger.claim_ids_issued(calls)[j],
        forall|i: int, content_id: ContentId|
            0 <= i < ledger.claim_ids_issued(calls).len() ==> !#[trigger] ledger.claims.contains_key(
                (ledger.claim_ids_issued(calls)[i], content_id),
            ),
        forall|i: int|
            0 <= i < ledger.claim_ids_issued(calls).len() ==> #[trigger] ledger.claim_ids_issued(
                calls,
            )[i] == ledger.next_claim_id + i,
        ledger.run(calls).next_claim_id == ledger.next_claim_id + ledger.claim_ids_issued(
            calls,
        ).len(),
    decreases calls.len(),
{
    if calls.len() > 0 {
        lemma_claim_ids_never_repeat(ledger, calls.drop_last());
    }
}

/// The two counters number separately: storing content hands out no claim
/// identifier and leaves the claims and their counter alone, and every other
/// operation leaves the content counter and the set of stored content alone.
pub proof fn lemma_counters_are_independent(ledger: Ledger, call: Call)
    ensures
        call is StoreContent ==> ledger.apply(call).next_claim_id == ledger.next_claim_id
            && ledger.apply(call).claims == ledger.claims,
        !(call is StoreContent) ==> ledger.apply(call).next_content_id == ledger.next_content_id
            && ledger.apply(call).contents.dom() == ledger.contents.dom(),
        !(call is StoreClaim) ==> ledger.apply(call).next_claim_id == ledger.next_claim_id,
{
    assert(ledger.apply(call).contents.dom() =~= ledger.contents.dom() || call is StoreContent);
}

/// The content of a ledger is what was there at first and what the
/// operations since have stored: an identifier is in use exactly if it was in
/// use before or was handed out since.
pub proof fn lemma_contents_are_those_stored(ledger: Ledger, calls: Seq<Call>, content_id: ContentId)
    ensures
        ledger.run(calls).contents.contains_key(content_id) <==> ledger.contents.contains_key(
            content_id,
        ) || ledger.content_ids_issued(calls).contains(content_id),
    decreases calls.len(),
{
    if calls.len() > 0 {
        let earlier = ledger.content_ids_issued(calls.drop_last());
        let ids = ledger.content_ids_issued(calls);
        lemma_contents_are_those_stored(ledger, calls.drop_last(), content_id);
        if ids != earlier {
            assert(ids.drop_last() =~= earlier);
            assert(ids.contains(content_id) <==> earlier.contains(content_id) || content_id
                == ids.last()) by {
                if earlier.contains(content_id) {
                    let i = choose|i: int| 0 <= i < earlier.len() && earlier[i] == content_id;
                    assert(ids[i] == content_id);
                }
                if content_id == ids.last() {
                    assert(ids[ids.len() - 1] == content_id);
                }
            }
        }
    }
}

/// A claim or a resolution for content that was never stored is refused.
/// Whatever operations were applied to the empty ledger, an identifier that
/// none of them handed out for content names no content: storing a claim for
/// it and recording a resolution for it both fail with `NonExistentContent`,
/// and so does scoring it.
pub proof fn lemma_unknown_content_is_refused(
    calls: Seq<Call>,
    content_id: ContentId,
    claim_statement: Seq<u8>,
    claim_id: ClaimId,
    is_accepted: bool,
)
    requires
        !Ledger::empty().content_ids_issued(calls).contains(content_id),
    ensures
        Ledger::empty().run(calls).store_claim_for_content(claim_statement, content_id, is_accepted)
            == (Ledger::empty().run(calls), Err::<Event, Error>(Error::NonExistentContent)),
        Ledger::empty().run(calls).record_resolution(content_id, claim_id, is_accepted) == (
            Ledger::empty().run(calls),
            Err::<(), Error>(Error::NonExistentContent),
        ),
        Ledger::empty().run(calls).truth_from_content(content_id) == (
            Ledger::empty().run(calls),
            Err::<nat, Error>(Error::NonExistentContent),
        ),
{
    lemma_contents_are_those_stored(Ledger::empty(), calls, content_id);
}

/// The claims of a piece of content are those attached to it, in the order of
/// the calls. Over any sequence of operations, the claims of content that was
/// there at first are its claims then, followed by the claims of the calls
/// that succeeded for it: as many more as there were such calls.
pub proof fn lemma_claims_follow_the_calls(ledger: Ledger, calls: Seq<Call>, content_id: ContentId)
    requires
        ledger.wf(),
        ledger.contents.contains_key(content_id),
    ensures
        ledger.run(calls).contents.contains_key(content_id),
        ledger.run(calls).contents[content_id].claims == ledger.contents[content_id].claims
            + ledger.claims_attached(calls, content_id),
        ledger.run(calls).contents[content_id].url == ledger.contents[content_id].url,
    decreases calls.len(),
{
    let at_first = ledger.contents[content_id].claims;
    if calls.len() == 0 {
        assert(at_first + Seq::<ClaimView>::empty() =~= at_first);
    } else {
        let before = ledger.run(calls.drop_last());
        let earlier = ledger.claims_attached(calls.drop_last(), content_id);
        lemma_claims_follow_the_calls(ledger, calls.drop_last(), content_id);
        lemma_run_keeps_wf(ledger, calls.drop_last());
        match calls.last() {
            Call::StoreClaim { claim_statement, content_id: to, is_accepted } => {
                if to == content_id && before.succeeds(calls.last()) {
                    let claim = ClaimView { claim_text_cid: claim_statement, is_accepted };
                    assert((at_first + earlier).push(claim) =~= at_first + earlier.push(claim));
                }
            },
            _ => {},
        }
    }
}

/// Content without resolutions cannot be scored, however many claims it has.
/// As long as no resolution is recorded for it, scoring fails with
/// `NoResolutionsAvailable` and leaves the ledger as it is, whatever else was
/// stored in the meantime.
pub proof fn lemma_unresolved_content_is_not_scored(
    ledger: Ledger,
    calls: Seq<Call>,
    content_id: ContentId,
)
    requires
        ledger.wf(),
        ledger.contents.contains_key(content_id),
        ledger.resolutions[content_id].len() == 0,
        forall|i: int|
            0 <= i < calls.len() ==> !(#[trigger] calls[i] matches Call::RecordResolution {
                content_id: to,
                ..
            } && to == content_id),
    ensures
        ledger.run(calls).truth_from_content(content_id) == (
            ledger.run(calls),
            Err::<nat, Error>(Error::NoResolutionsAvailable),
        ),
{
    lemma_resolutions_kept(ledger, calls, content_id);
}

/// Only recording a resolution for a piece of content changes its
/// resolutions.
pub proof fn lemma_resolutions_kept(ledger: Ledger, calls: Seq<Call>, content_id: ContentId)
    requires
        ledger.wf(),
        ledger.contents.contains_key(content_id),
        forall|i: int|
            0 <= i < calls.len() ==> !(#[trigger] calls[i] matches Call::RecordResolution {
                content_id: to,
                ..
            } && to == content_id),
    ensures
        ledger.run(calls).contents.contains_key(content_id),
        ledger.run(calls).resolutions[content_id] == ledger.resolutions[content_id],
    decreases calls.len(),
{
    if calls.len() > 0 {
        lemma_resolutions_kept(ledger, calls.drop_last(), content_id);
        lemma_run_keeps_wf(ledger, calls.drop_last());
        assert(calls.last() == calls[calls.len() - 1]);
    }
}

/// Scoring is idempotent: scoring again, with no resolution recorded in
/// between, gives the same score and the same ledger.
pub proof fn lemma_scoring_is_idempotent(ledger: Ledger, content_id: ContentId)
    ensures
        ledger.truth_from_content(content_id).0.truth_from_content(content_id)
            == ledger.truth_from_content(content_id),
{
    let once = ledger.truth_from_content(content_id);
    let twice = once.0.truth_from_content(content_id);
    assert(twice.0.contents =~= once.0.contents);
}

/// The score depends on the resolutions alone: whenever scoring succeeds, the
/// score stored and returned is the share of accepted resolutions as they are
/// then, whatever the score was before.
pub proof fn lemma_score_is_share_of_accepted(ledger: Ledger, content_id: ContentId)
    requires
        ledger.truth_from_content(content_id).1.is_ok(),
    ensures
        ledger.truth_from_content(content_id).1 == Ok::<nat, Error>(
            crate::score::ratio_bits(
                crate::helper::accepted_count(ledger.resolutions[content_id]),
                ledger.resolutions[content_id].len(),
            ),
        ),
        ledger.truth_from_content(content_id).0.contents[content_id].score_bits
            == crate::score::ratio_bits(
            crate::helper::accepted_count(ledger.resolutions[content_id]),
            ledger.resolutions[content_id].len(),
        ),
{
}

} // verus!
