use vstd::prelude::*;

verus! {

/// The closed set of reasons an operation can be rejected. Every failure is a
/// validation failure detected before any mutation: the operation aborts with
/// zero observable state change.
#[derive(Clone, Copy, Debug, PartialEq, Eq, Structural)]
pub enum ErrorCode {
    /// Season title exceeds the title length limit.
    TitleTooLong,
    /// Season description exceeds the description length limit.
    DescriptionTooLong,
    /// A sketch or final-art URI exceeds the URI length limit.
    UriTooLong,
    /// Funding must end strictly after creation, voting strictly after funding.
    InvalidTimestamp,
    /// Region coordinates fall outside the grid.
    InvalidRegion,
    /// A deposit must be strictly positive.
    InvalidAmount,
    /// The season is finalized and permits no further mutation.
    SeasonFinalized,
    /// The funding window has closed.
    FundingEnded,
    /// The funding window is still open, so voting has not begun.
    FundingNotEnded,
    /// The voting window has closed.
    VotingEnded,
    /// The voting window is still open.
    VotingNotEnded,
    /// The region has not reached the season's per-region funding threshold.
    InsufficientFunding,
    /// A bid may not request more than the region has collected.
    BidTooHigh,
    /// Each contribution carries exactly one vote.
    AlreadyVoted,
    /// A region cannot be awarded to a bid with no vote weight.
    NoVotes,
    /// The region already has a winning bid.
    AlreadyFinalized,
    /// Only the winning bid may submit art or claim the payout.
    NotWinner,
    /// The winning bid already recorded its final art.
    AlreadySubmitted,
    /// The payout may be claimed only after the final art is recorded.
    ArtNotSubmitted,
    /// The caller is not the authority the operation demands.
    Unauthorized,
    /// The operation names an entity that does not exist in the store.
    NotFound,
    /// The operation would create an entity that already exists.
    AlreadyExists,
    /// The region's escrow no longer covers the requested payout.
    InsufficientEscrow,
}

} // verus!
