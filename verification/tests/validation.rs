use collab_canvas::canvas::Canvas;
use collab_canvas::errors::ErrorCode;
use collab_canvas::state::{GRID_SIZE, MAX_DESC_LEN, MAX_TITLE_LEN, MAX_URI_LEN};

const AUTHORITY: u64 = 1;
const F1: u64 = 10;
const A1: u64 = 20;
const A2: u64 = 21;

fn new_season() -> Canvas {
    Canvas::create_season(
        AUTHORITY,
        String::from("Season"),
        String::from("desc"),
        1000,
        2000,
        100,
        0,
    )
    .unwrap()
}

/// A canvas where region (0, 0) holds 150 units and A1 has a pending bid.
fn with_bid() -> Canvas {
    let mut c = new_season();
    c.fund_region(0, 0, F1, 150, 500).unwrap();
    c.submit_bid(0, 0, A1, String::from("ipfs://sketch"), 150, 900)
        .unwrap();
    c
}

#[test]
fn create_season_rejects_long_title() {
    let r = Canvas::create_season(
        AUTHORITY,
        "t".repeat(MAX_TITLE_LEN + 1),
        String::from("d"),
        1000,
        2000,
        100,
        0,
    );
    assert_eq!(r.err(), Some(ErrorCode::TitleTooLong));
}

#[test]
fn create_season_accepts_title_at_limit() {
    let r = Canvas::create_season(
        AUTHORITY,
        "t".repeat(MAX_TITLE_LEN),
        "d".repeat(MAX_DESC_LEN),
        1000,
        2000,
        100,
        0,
    );
    assert!(r.is_ok());
}

#[test]
fn create_season_rejects_long_description() {
    let r = Canvas::create_season(
        AUTHORITY,
        String::from("t"),
        "d".repeat(MAX_DESC_LEN + 1),
        1000,
        2000,
        100,
        0,
    );
    assert_eq!(r.err(), Some(ErrorCode::DescriptionTooLong));
}

#[test]
fn create_season_rejects_funding_end_not_after_now() {
    let r = Canvas::create_season(AUTHORITY, String::from("t"), String::from("d"), 1000, 2000, 100, 1000);
    assert_eq!(r.err(), Some(ErrorCode::InvalidTimestamp));
}

#[test]
fn create_season_rejects_voting_end_not_after_funding_end() {
    let r = Canvas::create_season(AUTHORITY, String::from("t"), String::from("d"), 1000, 1000, 100, 0);
    assert_eq!(r.err(), Some(ErrorCode::InvalidTimestamp));
}

#[test]
fn fund_region_rejects_off_grid_coordinates() {
    let mut c = new_season();
    assert_eq!(c.fund_region(GRID_SIZE, 0, F1, 10, 100), Err(ErrorCode::InvalidRegion));
    assert_eq!(c.fund_region(0, GRID_SIZE, F1, 10, 100), Err(ErrorCode::InvalidRegion));
}

#[test]
fn fund_region_accepts_last_grid_cell() {
    let mut c = new_season();
    assert_eq!(c.fund_region(GRID_SIZE - 1, GRID_SIZE - 1, F1, 42, 100), Ok(()));
    assert_eq!(c.get_region(GRID_SIZE - 1, GRID_SIZE - 1).unwrap().total_funded, 42);
    assert_eq!(c.season.regions_funded, 1);
}

#[test]
fn fund_region_rejects_zero_amount() {
    let mut c = new_season();
    assert_eq!(c.fund_region(0, 0, F1, 0, 100), Err(ErrorCode::InvalidAmount));
}

#[test]
fn fund_region_rejects_after_funding_end() {
    let mut c = new_season();
    assert_eq!(c.fund_region(0, 0, F1, 10, 1000), Err(ErrorCode::FundingEnded));
    assert_eq!(c.fund_region(0, 0, F1, 10, 999), Ok(()));
}

#[test]
fn submit_bid_rejects_unfunded_region() {
    let mut c = new_season();
    assert_eq!(
        c.submit_bid(1, 1, A1, String::from("s"), 10, 900),
        Err(ErrorCode::NotFound)
    );
}

#[test]
fn submit_bid_rejects_duplicate_bid() {
    let mut c = with_bid();
    assert_eq!(
        c.submit_bid(0, 0, A1, String::from("other"), 100, 950),
        Err(ErrorCode::AlreadyExists)
    );
}

#[test]
fn submit_bid_rejects_long_uri() {
    let mut c = new_season();
    c.fund_region(0, 0, F1, 150, 500).unwrap();
    assert_eq!(
        c.submit_bid(0, 0, A1, "u".repeat(MAX_URI_LEN + 1), 100, 900),
        Err(ErrorCode::UriTooLong)
    );
}

#[test]
fn submit_bid_rejects_after_voting_end() {
    let mut c = new_season();
    c.fund_region(0, 0, F1, 150, 500).unwrap();
    assert_eq!(
        c.submit_bid(0, 0, A1, String::from("s"), 100, 2000),
        Err(ErrorCode::VotingEnded)
    );
    // Bids are still accepted between funding end and voting end.
    assert_eq!(c.submit_bid(0, 0, A1, String::from("s"), 100, 1999), Ok(()));
}

#[test]
fn submit_bid_rejects_below_threshold_region() {
    let mut c = new_season();
    c.fund_region(0, 0, F1, 99, 500).unwrap();
    assert_eq!(
        c.submit_bid(0, 0, A1, String::from("s"), 50, 900),
        Err(ErrorCode::InsufficientFunding)
    );
}

#[test]
fn submit_bid_accepts_threshold_exactly_met() {
    let mut c = new_season();
    c.fund_region(0, 0, F1, 100, 500).unwrap();
    assert_eq!(c.submit_bid(0, 0, A1, String::from("s"), 100, 900), Ok(()));
}

#[test]
fn submit_bid_rejects_request_above_funds() {
    let mut c = new_season();
    c.fund_region(0, 0, F1, 150, 500).unwrap();
    assert_eq!(
        c.submit_bid(0, 0, A1, String::from("s"), 151, 900),
        Err(ErrorCode::BidTooHigh)
    );
}

#[test]
fn vote_rejects_before_funding_end() {
    let mut c = with_bid();
    assert_eq!(c.vote_for_bid(0, 0, F1, A1, 999), Err(ErrorCode::FundingNotEnded));
}

#[test]
fn vote_rejects_after_voting_end() {
    let mut c = with_bid();
    assert_eq!(c.vote_for_bid(0, 0, F1, A1, 2000), Err(ErrorCode::VotingEnded));
    assert_eq!(c.vote_for_bid(0, 0, F1, A1, 1000), Ok(()));
}

#[test]
fn vote_rejects_missing_contribution() {
    let mut c = with_bid();
    assert_eq!(c.vote_for_bid(0, 0, 99, A1, 1500), Err(ErrorCode::NotFound));
}

#[test]
fn vote_rejects_missing_bid() {
    let mut c = with_bid();
    assert_eq!(c.vote_for_bid(0, 0, F1, A2, 1500), Err(ErrorCode::NotFound));
}

#[test]
fn finalize_region_rejects_before_voting_end() {
    let mut c = with_bid();
    c.vote_for_bid(0, 0, F1, A1, 1500).unwrap();
    assert_eq!(c.finalize_region(0, 0, A1, 1999), Err(ErrorCode::VotingNotEnded));
}

#[test]
fn finalize_region_rejects_bid_without_votes() {
    let mut c = with_bid();
    assert_eq!(c.finalize_region(0, 0, A1, 2000), Err(ErrorCode::NoVotes));
}

#[test]
fn finalize_region_rejects_missing_bid() {
    let mut c = with_bid();
    assert_eq!(c.finalize_region(0, 0, A2, 2000), Err(ErrorCode::NotFound));
}

#[test]
fn submit_final_art_rejects_non_winner() {
    let mut c = with_bid();
    c.vote_for_bid(0, 0, F1, A1, 1500).unwrap();
    assert_eq!(
        c.submit_final_art(0, 0, A1, String::from("a")),
        Err(ErrorCode::NotWinner)
    );
}

#[test]
fn submit_final_art_rejects_long_uri_and_resubmission() {
    let mut c = with_bid();
    c.vote_for_bid(0, 0, F1, A1, 1500).unwrap();
    c.finalize_region(0, 0, A1, 2000).unwrap();
    assert_eq!(
        c.submit_final_art(0, 0, A1, "u".repeat(MAX_URI_LEN + 1)),
        Err(ErrorCode::UriTooLong)
    );
    assert_eq!(c.submit_final_art(0, 0, A1, String::from("a")), Ok(()));
    assert_eq!(
        c.submit_final_art(0, 0, A1, String::from("b")),
        Err(ErrorCode::AlreadySubmitted)
    );
}

#[test]
fn claim_rejects_non_winner_and_missing_art() {
    let mut c = with_bid();
    c.vote_for_bid(0, 0, F1, A1, 1500).unwrap();
    assert_eq!(c.claim_artist_payout(0, 0, A1), Err(ErrorCode::NotWinner));
    c.finalize_region(0, 0, A1, 2000).unwrap();
    assert_eq!(c.claim_artist_payout(0, 0, A1), Err(ErrorCode::ArtNotSubmitted));
}

#[test]
fn claim_rejects_unknown_bid() {
    let mut c = with_bid();
    assert_eq!(c.claim_artist_payout(0, 0, A2), Err(ErrorCode::NotFound));
    assert_eq!(c.claim_artist_payout(4, 4, A1), Err(ErrorCode::NotFound));
}

#[test]
fn finalize_season_rejects_wrong_authority() {
    let mut c = new_season();
    assert_eq!(
        c.finalize_season(F1, String::from("u"), 2000),
        Err(ErrorCode::Unauthorized)
    );
}

#[test]
fn finalize_season_rejects_long_uri_and_early_close() {
    let mut c = new_season();
    assert_eq!(
        c.finalize_season(AUTHORITY, "u".repeat(MAX_URI_LEN + 1), 2000),
        Err(ErrorCode::UriTooLong)
    );
    assert_eq!(
        c.finalize_season(AUTHORITY, String::from("u"), 1999),
        Err(ErrorCode::VotingNotEnded)
    );
}

#[test]
fn failed_operations_leave_no_trace() {
    let mut c = new_season();
    c.fund_region(0, 0, F1, 150, 500).unwrap();
    let before_total = c.season.total_funded;
    assert!(c.fund_region(0, 0, F1, 0, 600).is_err());
    assert!(c.fund_region(9, 9, F1, 10, 600).is_err());
    assert!(c.submit_bid(0, 0, A1, String::from("s"), 151, 900).is_err());
    assert_eq!(c.season.total_funded, before_total);
    assert_eq!(c.get_region(0, 0).unwrap().total_funded, 150);
    assert_eq!(c.get_region(0, 0).unwrap().contributor_count, 1);
    assert!(c.get_bid(0, 0, A1).is_none());
}
