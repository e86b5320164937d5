use vstd::prelude::*;

use crate::canvas::Canvas;
use crate::errors::ErrorCode;
use crate::model::{bid_for, contribution_for, contribution_sum, has_bid, has_contribution, slot_funds};
use crate::state::{valid_coords, AccountId};

verus! {

/// Fund custody: for any region, the sum of the contribution amounts addressed
/// to it equals the region's recorded total (and is zero where no region was
/// created). Every operation preserves the store invariant, so this holds
/// after any sequence of deposits.
pub proof fn law_contributions_match_funding(c: Canvas, x: u8, y: u8)
    requires
        c.wf(),
        valid_coords(x, y),
    ensures
        contribution_sum(c.contributions@, x, y) == slot_funds(c.spec_region(x, y)),
{
}

/// One contribution, one vote: once a contribution has voted, a further vote
/// attempt is refused whatever bid it names; and whenever the store, the
/// season and the clock would otherwise accept the vote, the error is
/// precisely `AlreadyVoted`.
pub proof fn law_single_vote(c: Canvas, x: u8, y: u8, voter: AccountId, artist: AccountId, now: i64)
    requires
        has_contribution(c.contributions@, x, y, voter),
        contribution_for(c.contributions@, x, y, voter).has_voted,
    ensures
        c.vote_for_bid_decision(x, y, voter, artist, now) is Err,
        (c.spec_region(x, y) is Some && has_bid(c.bids@, x, y, artist)
            && !c.season.is_finalized
            && c.season.funding_end_ts <= now < c.season.voting_end_ts)
            ==> c.vote_for_bid_decision(x, y, voter, artist, now)
                == Err::<(), ErrorCode>(ErrorCode::AlreadyVoted),
{
}

/// A region is awarded at most once, and never to an unsupported bid: the
/// finalize decision refuses a region that already has a winning bid — with
/// precisely `AlreadyFinalized` whenever the earlier checks pass — and refuses
/// a bid whose vote weight is zero.
pub proof fn law_finalize_region_guarded(c: Canvas, x: u8, y: u8, artist: AccountId, now: i64)
    ensures
        (c.spec_region(x, y) matches Some(region) && region.winning_bid is Some)
            ==> c.finalize_region_decision(x, y, artist, now) is Err,
        (c.spec_region(x, y) matches Some(region) && region.winning_bid is Some
            && has_bid(c.bids@, x, y, artist) && !c.season.is_finalized
            && now >= c.season.voting_end_ts)
            ==> c.finalize_region_decision(x, y, artist, now)
                == Err::<(), ErrorCode>(ErrorCode::AlreadyFinalized),
        (has_bid(c.bids@, x, y, artist) && bid_for(c.bids@, x, y, artist).vote_weight == 0)
            ==> c.finalize_region_decision(x, y, artist, now) is Err,
{
}

/// Only the winner touches the artwork and the money: a bid that is not marked
/// the winner can neither record final art nor claim the payout.
pub proof fn law_only_winner_submits_and_claims(c: Canvas, x: u8, y: u8, artist: AccountId, uri: Seq<char>)
    requires
        has_bid(c.bids@, x, y, artist) ==> !bid_for(c.bids@, x, y, artist).is_winner,
    ensures
        c.submit_final_art_decision(x, y, artist, uri) is Err,
        c.claim_artist_payout_decision(x, y, artist) is Err,
{
}

/// Temporal ordering of the campaign: deposits are refused once the funding
/// window has ended; bids and votes are refused once the voting window has
/// ended; and votes are refused while funding is still open.
pub proof fn law_temporal_ordering(
    c: Canvas,
    x: u8,
    y: u8,
    funder: AccountId,
    artist: AccountId,
    amount: u64,
    uri: Seq<char>,
    requested: u64,
    now: i64,
)
    ensures
        now >= c.season.funding_end_ts ==> c.fund_region_decision(x, y, amount, now) is Err,
        now >= c.season.voting_end_ts
            ==> c.submit_bid_decision(x, y, artist, uri, requested, now) is Err,
        now >= c.season.voting_end_ts ==> c.vote_for_bid_decision(x, y, funder, artist, now) is Err,
        now < c.season.funding_end_ts ==> c.vote_for_bid_decision(x, y, funder, artist, now) is Err,
{
}

} // verus!
