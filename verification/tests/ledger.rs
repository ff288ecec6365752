use publica_fides::content::{Claim, Content, Error, Event, ResolvedClaims};
use publica_fides::helper::score_claims;
use publica_fides::ids::next_id;
use publica_fides::pallet::{truth_from_content, Pallet};
use publica_fides::score::{Score, ONE_BITS};
use substrate_fixed::types::U32F32;

fn resolved(verdicts: &[bool]) -> ResolvedClaims {
    ResolvedClaims {
        claims: verdicts
            .iter()
            .map(|&is_accepted| Claim { claim_text_cid: Vec::new(), is_accepted })
            .collect(),
    }
}

#[test]
fn it_stores_contents() {
    let mut pallet = Pallet::new();
    assert!(pallet.store_content(vec![1, 2]).is_ok());
    assert_eq!(pallet.next_class_id(), 1);
}

#[test]
fn it_stores_claims() {
    let mut pallet = Pallet::new();
    assert!(pallet.store_content(vec![1, 2]).is_ok());

    assert!(pallet.store_claim_for_content(vec![1, 2], 0, false).is_ok());
    assert_eq!(pallet.next_claim_id(), 1);
    assert_eq!(
        pallet.get_claims(0, 0),
        Some(&Claim { claim_text_cid: [1, 2].to_vec(), is_accepted: false })
    );
}

#[test]
fn it_fails_if_content_nonexistent() {
    let mut pallet = Pallet::new();
    assert_eq!(
        pallet.store_claim_for_content(vec![1, 2], 0, false),
        Err(Error::NonExistentContent)
    );
    assert_eq!(pallet.next_class_id(), 0);
    assert_eq!(pallet.next_claim_id(), 0);
    assert_eq!(pallet.get_claims(0, 0), None);
    assert_eq!(pallet.get_content(0), None);
}

#[test]
fn it_calculates_content_claims_score() {
    let claim1 = Claim { is_accepted: true, claim_text_cid: [].to_vec() };
    let claim2 = Claim { is_accepted: true, claim_text_cid: [].to_vec() };
    let claim3 = Claim { is_accepted: false, claim_text_cid: [].to_vec() };
    let claim4 = Claim { is_accepted: true, claim_text_cid: [].to_vec() };
    let claims = ResolvedClaims { claims: [claim1, claim2, claim3, claim4].to_vec() };

    let score = score_claims(&claims).unwrap();
    assert_eq!(U32F32::from_bits(score.to_bits()), 0.75);
    assert_eq!(score.to_bits(), 0xC000_0000);
}

#[test]
fn score_of_no_resolutions_is_an_error() {
    assert_eq!(score_claims(&resolved(&[])), Err(Error::NoResolutionsAvailable));
}

#[test]
fn score_is_the_share_of_accepted_resolutions() {
    assert_eq!(score_claims(&resolved(&[true])).unwrap().to_bits(), ONE_BITS);
    assert_eq!(score_claims(&resolved(&[false])).unwrap().to_bits(), 0);
    assert_eq!(score_claims(&resolved(&[true, false])).unwrap().to_bits(), 0x8000_0000);
    // One third, rounded down to a multiple of 2^-32.
    assert_eq!(
        score_claims(&resolved(&[false, true, false])).unwrap().to_bits(),
        0x5555_5555
    );
    assert_eq!(
        score_claims(&resolved(&[true, true, false])).unwrap().to_bits(),
        0xAAAA_AAAA
    );
    assert_eq!(
        U32F32::from_bits(score_claims(&resolved(&[true, false, false, false])).unwrap().to_bits()),
        U32F32::from_num(1) / U32F32::from_num(4)
    );
}

#[test]
fn score_agrees_with_fixed_point_division_of_the_counts() {
    for total in 1u32..40 {
        for accepted in 0..=total {
            let verdicts: Vec<bool> = (0..total).map(|i| i < accepted).collect();
            let score = score_claims(&resolved(&verdicts)).unwrap();
            let expected = U32F32::from_num(accepted) / U32F32::from_num(total);
            assert_eq!(score.to_bits(), expected.to_bits());
            assert!(score.to_bits() <= ONE_BITS);
        }
    }
}

#[test]
fn score_ignores_the_order_of_resolutions() {
    let first = score_claims(&resolved(&[true, false, true, false, false])).unwrap();
    let second = score_claims(&resolved(&[false, false, false, true, true])).unwrap();
    assert_eq!(first, second);
}

#[test]
fn scores_zero_and_one() {
    assert_eq!(Score::zero().to_bits(), 0);
    assert_eq!(Score::one().to_bits(), 1 << 32);
    assert_eq!(U32F32::from_bits(Score::one().to_bits()), U32F32::from_num(1));
    assert_eq!(Score::one().to_bits(), ONE_BITS);
}

#[test]
fn score_from_bits_accepts_the_unit_range_only() {
    assert_eq!(Score::from_bits(0), Some(Score::zero()));
    assert_eq!(Score::from_bits(ONE_BITS), Some(Score::one()));
    assert_eq!(Score::from_bits(0xC000_0000).unwrap().to_bits(), 0xC000_0000);
    assert_eq!(Score::from_bits(ONE_BITS + 1), None);
    assert_eq!(Score::from_bits(u64::MAX), None);
}

#[test]
fn score_from_ratio_rounds_down() {
    assert_eq!(Score::from_ratio(3, 4).unwrap().to_bits(), 0xC000_0000);
    assert_eq!(Score::from_ratio(1, 3).unwrap().to_bits(), 0x5555_5555);
    assert_eq!(Score::from_ratio(0, 7).unwrap().to_bits(), 0);
    assert_eq!(Score::from_ratio(7, 7).unwrap().to_bits(), ONE_BITS);
    assert_eq!(Score::from_ratio(u64::MAX, u64::MAX).unwrap().to_bits(), ONE_BITS);
    assert_eq!(Score::from_ratio(1, u64::MAX).unwrap().to_bits(), 0);
    assert_eq!(Score::from_ratio(u64::MAX - 1, u64::MAX).unwrap().to_bits(), 0xFFFF_FFFF);
    assert_eq!(Score::from_ratio(1 << 32, 1 << 33).unwrap().to_bits(), 0x8000_0000);
}

#[test]
fn score_from_ratio_refuses_what_is_no_share() {
    assert_eq!(Score::from_ratio(0, 0), None);
    assert_eq!(Score::from_ratio(1, 0), None);
    assert_eq!(Score::from_ratio(5, 4), None);
    assert_eq!(Score::from_ratio(u64::MAX, u64::MAX - 1), None);
}

#[test]
fn scores_of_different_shares_differ() {
    // Neighbouring fractions with totals up to 2^16 get different scores.
    let low = Score::from_ratio(65534, 65535).unwrap();
    let high = Score::from_ratio(65535, 65536).unwrap();
    assert!(low.to_bits() < high.to_bits());
    let third = Score::from_ratio(1, 3).unwrap();
    let near_third = Score::from_ratio(21845, 65536).unwrap();
    assert!(near_third.to_bits() < third.to_bits());
}

#[test]
fn next_id_hands_out_the_counter_and_advances() {
    let mut counter = 0u32;
    assert_eq!(next_id(&mut counter), Some(0));
    assert_eq!(next_id(&mut counter), Some(1));
    assert_eq!(next_id(&mut counter), Some(2));
    assert_eq!(counter, 3);
}

#[test]
fn next_id_refuses_at_the_top_of_the_range() {
    let mut counter = u32::MAX - 1;
    assert_eq!(next_id(&mut counter), Some(u32::MAX - 1));
    assert_eq!(counter, u32::MAX);
    assert_eq!(next_id(&mut counter), None);
    assert_eq!(counter, u32::MAX);
    assert_eq!(next_id(&mut counter), None);
}

#[test]
fn next_id_never_repeats() {
    let mut counter = 40u32;
    let mut seen = Vec::new();
    for _ in 0..100 {
        let id = next_id(&mut counter).unwrap();
        assert!(!seen.contains(&id));
        seen.push(id);
    }
}

#[test]
fn content_and_claim_identifiers_are_numbered_separately() {
    let mut pallet = Pallet::new();
    assert_eq!(pallet.store_content(vec![1]), Ok(Event::ContentStored(0)));
    assert_eq!(pallet.store_content(vec![2]), Ok(Event::ContentStored(1)));
    assert_eq!(pallet.next_claim_id(), 0);
    assert_eq!(pallet.store_claim_for_content(vec![3], 1, true), Ok(Event::ClaimStored(0)));
    assert_eq!(pallet.store_claim_for_content(vec![4], 0, true), Ok(Event::ClaimStored(1)));
    assert_eq!(pallet.next_class_id(), 2);
    assert_eq!(pallet.store_content(vec![5]), Ok(Event::ContentStored(2)));
    assert_eq!(pallet.next_claim_id(), 2);
    // Claim 0 and content 0 are different things under the same number.
    assert_eq!(pallet.get_claims(0, 1).unwrap().claim_text_cid, vec![3]);
    assert_eq!(pallet.get_content(0).unwrap().url(), &vec![1]);
}

#[test]
fn a_claim_is_found_under_both_identifiers_only() {
    let mut pallet = Pallet::new();
    pallet.store_content(vec![1]).unwrap();
    pallet.store_content(vec![2]).unwrap();
    pallet.store_claim_for_content(vec![9], 1, true).unwrap();
    assert_eq!(
        pallet.get_claims(0, 1),
        Some(&Claim { claim_text_cid: vec![9], is_accepted: true })
    );
    assert_eq!(pallet.get_claims(0, 0), None);
    assert_eq!(pallet.get_claims(1, 1), None);
}

#[test]
fn new_content_has_no_claims_and_the_score_zero() {
    let mut pallet = Pallet::new();
    pallet.store_content(b"a.example/doc".to_vec()).unwrap();
    let content = pallet.get_content(0).unwrap();
    assert_eq!(content.url(), &b"a.example/doc".to_vec());
    assert!(content.claims().is_empty());
    assert_eq!(content.score(), Score::zero());
    assert_eq!(pallet.get_final_claims(0), Some(&ResolvedClaims { claims: Vec::new() }));
    assert_eq!(pallet.get_content(1), None);
    assert_eq!(pallet.get_final_claims(1), None);
}

#[test]
fn claims_are_attached_in_call_order() {
    let mut pallet = Pallet::new();
    pallet.store_content(vec![0]).unwrap();
    pallet.store_content(vec![1]).unwrap();
    let mut expected = Vec::new();
    for i in 0u8..20 {
        // Every third call goes to the other content, every seventh to none.
        let target = if i % 7 == 6 { 5 } else if i % 3 == 2 { 1 } else { 0 };
        let result = pallet.store_claim_for_content(vec![i], target, i % 2 == 0);
        if target == 5 {
            assert_eq!(result, Err(Error::NonExistentContent));
        } else {
            assert!(result.is_ok());
        }
        if target == 0 {
            expected.push(Claim { claim_text_cid: vec![i], is_accepted: i % 2 == 0 });
        }
    }
    assert_eq!(pallet.get_content(0).unwrap().claims(), &expected);
    assert_eq!(expected.len(), 12);
}

#[test]
fn a_refused_claim_uses_up_no_identifier() {
    let mut pallet = Pallet::new();
    pallet.store_content(vec![0]).unwrap();
    assert_eq!(pallet.store_claim_for_content(vec![1], 3, true), Err(Error::NonExistentContent));
    assert_eq!(pallet.next_claim_id(), 0);
    assert_eq!(pallet.store_claim_for_content(vec![1], 0, true), Ok(Event::ClaimStored(0)));
}

#[test]
fn content_counter_at_the_top_refuses_content() {
    let mut pallet = Pallet::with_counters(u32::MAX - 1, 0);
    assert_eq!(pallet.store_content(vec![1]), Ok(Event::ContentStored(u32::MAX - 1)));
    assert_eq!(pallet.store_content(vec![2]), Err(Error::NoAvailableContentId));
    assert_eq!(pallet.next_class_id(), u32::MAX);
    assert_eq!(pallet.get_content(u32::MAX), None);
    assert_eq!(pallet.get_content(u32::MAX - 1).unwrap().url(), &vec![1]);
}

#[test]
fn claim_counter_at_the_top_refuses_claims() {
    let mut pallet = Pallet::with_counters(0, u32::MAX - 1);
    pallet.store_content(vec![1]).unwrap();
    assert_eq!(
        pallet.store_claim_for_content(vec![2], 0, true),
        Ok(Event::ClaimStored(u32::MAX - 1))
    );
    assert_eq!(pallet.store_claim_for_content(vec![3], 0, true), Err(Error::NoAvailableClaimId));
    assert_eq!(pallet.next_claim_id(), u32::MAX);
    assert_eq!(pallet.get_content(0).unwrap().claims().len(), 1);
    // Missing content is reported before the exhausted counter.
    assert_eq!(pallet.store_claim_for_content(vec![3], 9, true), Err(Error::NonExistentContent));
}

#[test]
fn resolution_for_missing_content_is_refused() {
    let mut pallet = Pallet::new();
    assert_eq!(pallet.record_resolution(0, 0, true), Err(Error::NonExistentContent));
    pallet.store_content(vec![1]).unwrap();
    assert_eq!(pallet.record_resolution(1, 0, true), Err(Error::NonExistentContent));
    assert_eq!(pallet.record_resolution(0, 0, true), Ok(()));
}

#[test]
fn resolution_takes_the_text_of_the_stored_claim() {
    let mut pallet = Pallet::new();
    pallet.store_content(vec![1]).unwrap();
    pallet.store_claim_for_content(vec![7, 7], 0, false).unwrap();
    pallet.record_resolution(0, 0, true).unwrap();
    // No claim 5 is stored for content 0: the resolution has no text.
    pallet.record_resolution(0, 5, false).unwrap();
    assert_eq!(
        pallet.get_final_claims(0).unwrap().claims,
        vec![
            Claim { claim_text_cid: vec![7, 7], is_accepted: true },
            Claim { claim_text_cid: vec![], is_accepted: false },
        ]
    );
    // The stored claim keeps its own verdict.
    assert_eq!(
        pallet.get_claims(0, 0),
        Some(&Claim { claim_text_cid: vec![7, 7], is_accepted: false })
    );
}

#[test]
fn content_without_resolutions_is_not_scored() {
    let mut pallet = Pallet::new();
    pallet.store_content(vec![1]).unwrap();
    assert_eq!(truth_from_content(&mut pallet, 0), Err(Error::NoResolutionsAvailable));
    for i in 0u8..5 {
        pallet.store_claim_for_content(vec![i], 0, true).unwrap();
        assert_eq!(truth_from_content(&mut pallet, 0), Err(Error::NoResolutionsAvailable));
    }
    assert_eq!(pallet.get_content(0).unwrap().score(), Score::zero());
}

#[test]
fn scoring_missing_content_is_refused() {
    let mut pallet = Pallet::new();
    assert_eq!(truth_from_content(&mut pallet, 0), Err(Error::NonExistentContent));
}

#[test]
fn attach_resolve_and_score() {
    let mut pallet = Pallet::new();
    assert_eq!(pallet.store_content(b"a.example/doc".to_vec()), Ok(Event::ContentStored(0)));
    assert_eq!(
        pallet.store_claim_for_content(b"cid1".to_vec(), 0, false),
        Ok(Event::ClaimStored(0))
    );
    assert_eq!(
        pallet.store_claim_for_content(b"cid2".to_vec(), 0, false),
        Ok(Event::ClaimStored(1))
    );
    assert_eq!(pallet.record_resolution(0, 0, true), Ok(()));
    assert_eq!(pallet.record_resolution(0, 1, false), Ok(()));

    let score = truth_from_content(&mut pallet, 0).unwrap();
    assert_eq!(U32F32::from_bits(score.to_bits()), 0.5);
    assert_eq!(pallet.get_content(0).unwrap().score(), score);

    let again = truth_from_content(&mut pallet, 0).unwrap();
    assert_eq!(U32F32::from_bits(again.to_bits()), 0.5);
    assert_eq!(again, score);
    assert_eq!(pallet.get_content(0).unwrap().score(), score);
    assert_eq!(pallet.get_final_claims(0).unwrap().claims.len(), 2);
}

#[test]
fn claim_for_unknown_content_is_refused() {
    let mut pallet = Pallet::new();
    assert_eq!(pallet.store_claim_for_content(b"cid".to_vec(), 99, false), Err(Error::NonExistentContent));
    pallet.store_content(vec![1]).unwrap();
    assert_eq!(pallet.store_claim_for_content(b"cid".to_vec(), 99, false), Err(Error::NonExistentContent));
}

#[test]
fn score_follows_later_resolutions() {
    let mut pallet = Pallet::new();
    pallet.store_content(vec![1]).unwrap();
    pallet.record_resolution(0, 0, true).unwrap();
    assert_eq!(truth_from_content(&mut pallet, 0).unwrap().to_bits(), ONE_BITS);
    pallet.record_resolution(0, 1, false).unwrap();
    pallet.record_resolution(0, 2, false).unwrap();
    pallet.record_resolution(0, 3, false).unwrap();
    assert_eq!(truth_from_content(&mut pallet, 0).unwrap().to_bits(), 0x4000_0000);
    assert_eq!(pallet.get_content(0).unwrap().score().to_bits(), 0x4000_0000);
}

#[test]
fn content_is_put_together_from_its_parts() {
    let claims = vec![Claim { claim_text_cid: vec![3], is_accepted: true }];
    let mut content = Content::from_parts(vec![1, 2], claims.clone(), Score::one());
    assert_eq!(content.url(), &vec![1, 2]);
    assert_eq!(content.claims(), &claims);
    assert_eq!(content.score(), Score::one());
    content.attach(Claim { claim_text_cid: vec![4], is_accepted: false });
    content.set_score(Score::zero());
    assert_eq!(content.claims().len(), 2);
    assert_eq!(content.claims()[1], Claim { claim_text_cid: vec![4], is_accepted: false });
    assert_eq!(content.score(), Score::zero());
    assert_eq!(Content::new(vec![1, 2]), Content::from_parts(vec![1, 2], Vec::new(), Score::zero()));
}

#[test]
fn default_claim_has_no_text_and_is_not_accepted() {
    assert_eq!(Claim::default(), Claim { claim_text_cid: Vec::new(), is_accepted: false });
    assert_eq!(ResolvedClaims::default(), ResolvedClaims { claims: Vec::new() });
    let claim = Claim { claim_text_cid: vec![1, 2, 3], is_accepted: true };
    assert_eq!(claim.clone(), claim);
}
