use vstd::prelude::*;

verus! {

/// Longest permitted season title, in characters.
pub const MAX_TITLE_LEN: usize = 64;

/// Longest permitted season description, in characters.
pub const MAX_DESC_LEN: usize = 256;

/// Longest permitted sketch / final-art URI, in characters.
pub const MAX_URI_LEN: usize = 200;

/// The canvas is a square grid of `GRID_SIZE` x `GRID_SIZE` regions.
pub const GRID_SIZE: u8 = 8;

/// An account identity (a funder, an artist, or the campaign authority).
pub type AccountId = u64;

/// Both coordinates lie inside the grid.
pub open spec fn valid_coords(x: u8, y: u8) -> bool {
    x < GRID_SIZE && y < GRID_SIZE
}

/// The storage slot of the region at (x, y): row-major position in the grid,
/// whose rows hold eight cells each.
pub open spec fn region_slot(x: u8, y: u8) -> int {
    x as int * 8 + y as int
}

/// One campaign over the whole grid: time windows, funding threshold, and
/// running aggregates.
#[derive(Clone, Debug)]
pub struct Season {
    /// Identity that created the season and may finalize it.
    pub authority: AccountId,
    pub title: String,
    pub description: String,
    /// Deposits are accepted strictly before this time.
    pub funding_end_ts: i64,
    /// Bids and votes are accepted strictly before this time.
    pub voting_end_ts: i64,
    /// A region must collect at least this much before bids are accepted.
    pub min_funding_per_region: u64,
    /// Sum of every deposit across all regions.
    pub total_funded: u64,
    /// Number of regions that have received at least one deposit.
    pub regions_funded: u8,
    /// Once true, no operation may mutate the season or its entities.
    pub is_finalized: bool,
    /// Summary URI recorded when the season is finalized.
    pub final_uri: Option<String>,
}

impl Season {
    /// Structural validity of a season record.
    pub open spec fn wf(&self) -> bool {
        &&& self.title@.len() <= MAX_TITLE_LEN as int
        &&& self.description@.len() <= MAX_DESC_LEN as int
        &&& self.voting_end_ts > self.funding_end_ts
        &&& match self.final_uri {
            Some(u) => u@.len() <= MAX_URI_LEN as int && self.is_finalized,
            None => true,
        }
    }
}

/// One grid cell: its escrowed funds, aggregates, and award status.
#[derive(Clone, Debug)]
pub struct Region {
    pub x: u8,
    pub y: u8,
    /// Sum of every deposit made into this region.
    pub total_funded: u64,
    /// Number of deposits received (a funder depositing twice counts twice).
    pub contributor_count: u32,
    /// Artist of the winning bid; set at most once, by region finalization.
    pub winning_bid: Option<AccountId>,
    /// True once the winning artist has submitted the final artwork.
    pub is_painted: bool,
    /// Final artwork URI, copied from the winning bid on submission.
    pub final_art_uri: Option<String>,
    /// Funds still held for this region: deposits minus released payouts.
    pub escrow: u64,
}

impl Region {
    /// Structural validity of a region record. A region exists only once it
    /// has received a deposit, and its escrow never exceeds what was deposited.
    pub open spec fn wf(&self) -> bool {
        &&& valid_coords(self.x, self.y)
        &&& self.total_funded > 0
        &&& self.escrow <= self.total_funded
        &&& self.is_painted == self.final_art_uri is Some
        &&& match self.final_art_uri {
            Some(u) => u@.len() <= MAX_URI_LEN as int && self.winning_bid is Some,
            None => true,
        }
    }
}

/// One funder's cumulative deposit into one region, and their single vote slot.
#[derive(Clone, Copy, Debug)]
pub struct Contribution {
    pub x: u8,
    pub y: u8,
    pub contributor: AccountId,
    /// Cumulative deposit; monotonically non-decreasing.
    pub amount: u64,
    /// Flips false -> true at most once, on the single permitted vote.
    pub has_voted: bool,
    /// Artist of the bid this contribution voted for; set with `has_voted`.
    pub voted_bid: Option<AccountId>,
}

impl Contribution {
    /// Structural validity of a contribution record.
    pub open spec fn wf(&self) -> bool {
        &&& valid_coords(self.x, self.y)
        &&& self.amount > 0
        &&& self.has_voted == self.voted_bid is Some
    }
}

/// An artist's proposal for one region, carrying its accumulated vote support.
#[derive(Clone, Debug)]
pub struct Bid {
    pub x: u8,
    pub y: u8,
    pub artist: AccountId,
    pub sketch_uri: String,
    /// Payout the artist asks for; at most the region's collected funds.
    pub requested_amount: u64,
    /// Number of votes cast for this bid.
    pub vote_count: u32,
    /// Sum of the contribution amounts behind those votes.
    pub vote_weight: u64,
    /// Final artwork URI; may be set only on the winning bid, and only once.
    pub final_art_uri: Option<String>,
    /// Set by region finalization, for at most one bid per region.
    pub is_winner: bool,
}

impl Bid {
    /// Structural validity of a bid record.
    pub open spec fn wf(&self) -> bool {
        &&& valid_coords(self.x, self.y)
        &&& self.sketch_uri@.len() <= MAX_URI_LEN as int
        &&& match self.final_art_uri {
            Some(u) => u@.len() <= MAX_URI_LEN as int && self.is_winner,
            None => true,
        }
    }
}

} // verus!
