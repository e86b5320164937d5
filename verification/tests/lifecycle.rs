use collab_canvas::canvas::Canvas;
use collab_canvas::errors::ErrorCode;

const AUTHORITY: u64 = 1;
const F1: u64 = 10;
const F2: u64 = 11;
const A1: u64 = 20;

/// A season created at time 0 whose funding window ends at 1000 and whose
/// voting window ends at 2000.
fn season() -> Canvas {
    Canvas::create_season(
        AUTHORITY,
        String::from("Season One"),
        String::from("A collaborative canvas"),
        1000,
        2000,
        100,
        0,
    )
    .unwrap()
}

#[test]
fn first_deposit_creates_region() {
    let mut c = season();
    assert_eq!(c.fund_region(0, 0, F1, 100, 500), Ok(()));
    let region = c.get_region(0, 0).unwrap();
    assert_eq!(region.total_funded, 100);
    assert_eq!(region.contributor_count, 1);
    assert_eq!(region.escrow, 100);
    assert_eq!(c.season.regions_funded, 1);
    assert_eq!(c.season.total_funded, 100);
    assert_eq!(c.get_contribution(0, 0, F1).unwrap().amount, 100);
}

#[test]
fn second_deposit_accumulates() {
    let mut c = season();
    assert_eq!(c.fund_region(0, 0, F1, 100, 500), Ok(()));
    assert_eq!(c.fund_region(0, 0, F1, 50, 600), Ok(()));
    let region = c.get_region(0, 0).unwrap();
    assert_eq!(region.total_funded, 150);
    assert_eq!(region.contributor_count, 2);
    assert_eq!(c.get_contribution(0, 0, F1).unwrap().amount, 150);
    assert_eq!(c.season.regions_funded, 1);
    assert_eq!(c.season.total_funded, 150);
}

#[test]
fn contributions_sum_to_region_total() {
    let mut c = season();
    assert_eq!(c.fund_region(0, 0, F1, 100, 500), Ok(()));
    assert_eq!(c.fund_region(0, 0, F2, 40, 510), Ok(()));
    assert_eq!(c.fund_region(0, 0, F1, 60, 520), Ok(()));
    assert_eq!(c.fund_region(3, 7, F2, 25, 530), Ok(()));
    let a = c.get_contribution(0, 0, F1).unwrap().amount;
    let b = c.get_contribution(0, 0, F2).unwrap().amount;
    assert_eq!(a, 160);
    assert_eq!(b, 40);
    assert_eq!(c.get_region(0, 0).unwrap().total_funded, a + b);
    assert_eq!(
        c.get_region(3, 7).unwrap().total_funded,
        c.get_contribution(3, 7, F2).unwrap().amount
    );
    assert_eq!(c.season.regions_funded, 2);
    assert_eq!(c.season.total_funded, 225);
}

#[test]
fn bid_is_created_with_zero_support() {
    let mut c = season();
    assert_eq!(c.fund_region(0, 0, F1, 100, 500), Ok(()));
    assert_eq!(c.fund_region(0, 0, F1, 50, 600), Ok(()));
    assert_eq!(c.submit_bid(0, 0, A1, String::from("ipfs://sketch"), 150, 900), Ok(()));
    let bid = c.get_bid(0, 0, A1).unwrap();
    assert_eq!(bid.vote_weight, 0);
    assert_eq!(bid.vote_count, 0);
    assert!(!bid.is_winner);
    assert_eq!(bid.requested_amount, 150);
}

#[test]
fn vote_carries_full_contribution_weight() {
    let mut c = season();
    assert_eq!(c.fund_region(0, 0, F1, 100, 500), Ok(()));
    assert_eq!(c.fund_region(0, 0, F1, 50, 600), Ok(()));
    assert_eq!(c.submit_bid(0, 0, A1, String::from("ipfs://sketch"), 150, 900), Ok(()));
    assert_eq!(c.vote_for_bid(0, 0, F1, A1, 1500), Ok(()));
    let bid = c.get_bid(0, 0, A1).unwrap();
    assert_eq!(bid.vote_count, 1);
    assert_eq!(bid.vote_weight, 150);
    let contribution = c.get_contribution(0, 0, F1).unwrap();
    assert!(contribution.has_voted);
    assert_eq!(contribution.voted_bid, Some(A1));
    // A second vote by the same funder is refused, whatever bid it names.
    assert_eq!(c.vote_for_bid(0, 0, F1, A1, 1600), Err(ErrorCode::AlreadyVoted));
}

#[test]
fn finalize_region_marks_winner_once() {
    let mut c = season();
    assert_eq!(c.fund_region(0, 0, F1, 150, 500), Ok(()));
    assert_eq!(c.submit_bid(0, 0, A1, String::from("ipfs://sketch"), 150, 900), Ok(()));
    assert_eq!(c.vote_for_bid(0, 0, F1, A1, 1500), Ok(()));
    assert_eq!(c.finalize_region(0, 0, A1, 2000), Ok(()));
    assert_eq!(c.get_region(0, 0).unwrap().winning_bid, Some(A1));
    assert!(c.get_bid(0, 0, A1).unwrap().is_winner);
    // A repeated finalization of the same region is refused.
    assert_eq!(c.finalize_region(0, 0, A1, 2100), Err(ErrorCode::AlreadyFinalized));
}

#[test]
fn payout_drains_escrow_by_requested_amount() {
    let mut c = season();
    assert_eq!(c.fund_region(0, 0, F1, 150, 500), Ok(()));
    assert_eq!(c.submit_bid(0, 0, A1, String::from("ipfs://sketch"), 150, 900), Ok(()));
    assert_eq!(c.vote_for_bid(0, 0, F1, A1, 1500), Ok(()));
    assert_eq!(c.finalize_region(0, 0, A1, 2000), Ok(()));
    assert_eq!(c.submit_final_art(0, 0, A1, String::from("ipfs://art")), Ok(()));
    let region = c.get_region(0, 0).unwrap();
    assert!(region.is_painted);
    assert_eq!(region.final_art_uri, Some(String::from("ipfs://art")));
    assert_eq!(region.escrow, 150);
    assert_eq!(c.claim_artist_payout(0, 0, A1), Ok(150));
    assert_eq!(c.get_region(0, 0).unwrap().escrow, 0);
    // Nothing marks the bid paid; the second claim fails only because the
    // escrow no longer covers the request.
    assert_eq!(c.claim_artist_payout(0, 0, A1), Err(ErrorCode::InsufficientEscrow));
}

#[test]
fn finalize_season_is_terminal() {
    let mut c = season();
    assert_eq!(c.fund_region(0, 0, F1, 150, 500), Ok(()));
    assert_eq!(c.submit_bid(0, 0, A1, String::from("ipfs://sketch"), 150, 900), Ok(()));
    assert_eq!(c.finalize_season(AUTHORITY, String::from("ipfs://season"), 2000), Ok(()));
    assert!(c.season.is_finalized);
    assert_eq!(c.season.final_uri, Some(String::from("ipfs://season")));
    // No operation mutates a finalized season.
    assert_eq!(c.fund_region(0, 0, F1, 10, 500), Err(ErrorCode::SeasonFinalized));
    assert_eq!(
        c.submit_bid(0, 0, 21, String::from("s"), 10, 900),
        Err(ErrorCode::SeasonFinalized)
    );
    assert_eq!(c.vote_for_bid(0, 0, F1, A1, 1500), Err(ErrorCode::SeasonFinalized));
    assert_eq!(c.finalize_region(0, 0, A1, 2500), Err(ErrorCode::SeasonFinalized));
    assert_eq!(
        c.finalize_season(AUTHORITY, String::from("again"), 2500),
        Err(ErrorCode::SeasonFinalized)
    );
}

#[test]
fn separate_funders_vote_separately() {
    let mut c = season();
    assert_eq!(c.fund_region(2, 3, F1, 100, 100), Ok(()));
    assert_eq!(c.fund_region(2, 3, F2, 300, 200), Ok(()));
    assert_eq!(c.submit_bid(2, 3, A1, String::from("ipfs://sketch"), 350, 1200), Ok(()));
    assert_eq!(c.vote_for_bid(2, 3, F1, A1, 1300), Ok(()));
    assert_eq!(c.vote_for_bid(2, 3, F2, A1, 1400), Ok(()));
    let bid = c.get_bid(2, 3, A1).unwrap();
    assert_eq!(bid.vote_count, 2);
    assert_eq!(bid.vote_weight, 400);
}
