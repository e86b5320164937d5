use vstd::prelude::*;

use vstd::string::StrSliceExecFns;

use crate::errors::ErrorCode;
use crate::model::{
    bid_for, bid_index, bids_unique, contribution_for, contribution_index, contribution_sum,
    contributions_unique, funded_count, funded_total, has_bid, has_contribution, is_bid,
    is_contribution, lemma_bid_index_is, lemma_contribution_index_is,
    lemma_contribution_sum_element, lemma_contribution_sum_push, lemma_contribution_sum_update,
    lemma_funded_count_bounds, lemma_funded_count_push, lemma_funded_count_update,
    lemma_funded_total_element, lemma_funded_total_push, lemma_funded_total_update, region_amount,
    same_bid_key, same_contribution_key, slot_funds, votes_monotone,
};
use crate::state::{
    region_slot, valid_coords, AccountId, Bid, Contribution, Region, Season, GRID_SIZE,
    MAX_DESC_LEN, MAX_TITLE_LEN, MAX_URI_LEN,
};

verus! {

/// A region slot either is empty or holds a well-formed region whose
/// coordinates address exactly this slot.
pub open spec fn slot_wf(r: Option<Region>, i: int) -> bool {
    match r {
        Some(rg) => rg.wf() && region_slot(rg.x, rg.y) == i,
        None => true,
    }
}

/// The keyed store of one season: its grid of regions and the contribution and
/// bid records addressed to them. Every operation of the campaign is a method
/// that validates its preconditions and applies an atomic update.
#[derive(Debug)]
pub struct Canvas {
    pub season: Season,
    /// One slot per grid cell, row-major; a region is created lazily on its
    /// first deposit.
    pub regions: Vec<Option<Region>>,
    /// One record per (region, funder) pair.
    pub contributions: Vec<Contribution>,
    /// One record per (region, artist) pair.
    pub bids: Vec<Bid>,
}

impl Canvas {
    /// The region stored at (x, y), if the coordinates are on the grid and it
    /// has been created.
    pub open spec fn spec_region(&self, x: u8, y: u8) -> Option<Region> {
        if valid_coords(x, y) {
            self.regions@[region_slot(x, y)]
        } else {
            None
        }
    }

    pub open spec fn regions_wf(&self) -> bool {
        &&& self.regions@.len() == GRID_SIZE as int * GRID_SIZE as int
        &&& forall |i: int| 0 <= i < self.regions@.len() ==> slot_wf(#[trigger] self.regions@[i], i)
    }

    /// A contribution record is well formed and addresses a created region.
    pub open spec fn contribution_entry_wf(&self, c: Contribution) -> bool {
        c.wf() && self.spec_region(c.x, c.y) is Some
    }

    pub open spec fn contributions_wf(&self) -> bool {
        &&& forall |j: int| 0 <= j < self.contributions@.len()
            ==> self.contribution_entry_wf(#[trigger] self.contributions@[j])
        &&& contributions_unique(self.contributions@)
    }

    /// A bid record is well formed, addresses a created region, never requests
    /// more than that region has collected, and is a winner only if the region
    /// points back at it and it has nonzero support.
    pub open spec fn bid_entry_wf(&self, b: Bid) -> bool {
        &&& b.wf()
        &&& match self.spec_region(b.x, b.y) {
            Some(r) => {
                &&& b.requested_amount <= r.total_funded
                &&& (b.is_winner ==> r.winning_bid == Some(b.artist) && b.vote_weight > 0)
            },
            None => false,
        }
    }

    pub open spec fn bids_wf(&self) -> bool {
        &&& forall |j: int| 0 <= j < self.bids@.len()
            ==> self.bid_entry_wf(#[trigger] self.bids@[j])
        &&& bids_unique(self.bids@)
    }

    /// A region's winning bid, once set, names an existing bid that is marked
    /// as the winner.
    pub open spec fn winners_wf(&self) -> bool {
        forall |i: int| 0 <= i < self.regions@.len() ==> match #[trigger] self.regions@[i] {
            Some(r) => match r.winning_bid {
                Some(a) => has_bid(self.bids@, r.x, r.y, a) && bid_for(self.bids@, r.x, r.y, a).is_winner,
                None => true,
            },
            None => true,
        }
    }

    /// Fund custody: each region's `total_funded` equals the sum of the
    /// contributions addressed to it, and the season aggregates equal what the
    /// grid holds.
    pub open spec fn accounting_wf(&self) -> bool {
        &&& forall |x: u8, y: u8| valid_coords(x, y)
            ==> #[trigger] contribution_sum(self.contributions@, x, y)
                == slot_funds(self.spec_region(x, y))
        &&& self.season.total_funded as int == funded_total(self.regions@)
        &&& self.season.regions_funded as int == funded_count(self.regions@)
    }

    /// The store invariant: established by season creation and preserved by
    /// every operation.
    pub open spec fn wf(&self) -> bool {
        &&& self.season.wf()
        &&& self.regions_wf()
        &&& self.contributions_wf()
        &&& self.bids_wf()
        &&& self.winners_wf()
        &&& self.accounting_wf()
    }

    // -----------------------------------------------------------------------
    // Season creation
    // -----------------------------------------------------------------------

    /// Validation outcome of season creation.
    pub open spec fn create_season_decision(
        title: Seq<char>,
        description: Seq<char>,
        funding_end_ts: i64,
        voting_end_ts: i64,
        now: i64,
    ) -> Result<(), ErrorCode> {
        if title.len() > MAX_TITLE_LEN as int {
            Err(ErrorCode::TitleTooLong)
        } else if description.len() > MAX_DESC_LEN as int {
            Err(ErrorCode::DescriptionTooLong)
        } else if funding_end_ts <= now {
            Err(ErrorCode::InvalidTimestamp)
        } else if voting_end_ts <= funding_end_ts {
            Err(ErrorCode::InvalidTimestamp)
        } else {
            Ok(())
        }
    }

    /// Creates a season with zeroed aggregates, an empty grid, and no records.
    /// The funding window must end strictly after `now`, the voting window
    /// strictly after the funding window.
    pub fn create_season(
        authority: AccountId,
        title: String,
        description: String,
        funding_end_ts: i64,
        voting_end_ts: i64,
        min_funding_per_region: u64,
        now: i64,
    ) -> (r: Result<Canvas, ErrorCode>)
        ensures
            r is Ok <==> Self::create_season_decision(title@, description@, funding_end_ts, voting_end_ts, now) is Ok,
            (r matches Err(e)
                ==> Self::create_season_decision(title@, description@, funding_end_ts, voting_end_ts, now)
                    == Err::<(), ErrorCode>(e)),
            r matches Ok(c) ==> {
                &&& c.wf()
                &&& c.season.authority == authority
                &&& c.season.title == title
                &&& c.season.description == description
                &&& c.season.funding_end_ts == funding_end_ts
                &&& c.season.voting_end_ts == voting_end_ts
                &&& c.season.min_funding_per_region == min_funding_per_region
                &&& c.season.total_funded == 0
                &&& c.season.regions_funded == 0
                &&& !c.season.is_finalized
                &&& c.season.final_uri is None
                &&& forall |i: int| 0 <= i < c.regions@.len() ==> (#[trigger] c.regions@[i]) is None
                &&& c.contributions@.len() == 0
                &&& c.bids@.len() == 0
            },
    {
        if title.as_str().unicode_len() > MAX_TITLE_LEN {
            return Err(ErrorCode::TitleTooLong);
        }
        if description.as_str().unicode_len() > MAX_DESC_LEN {
            return Err(ErrorCode::DescriptionTooLong);
        }
        if funding_end_ts <= now {
            return Err(ErrorCode::InvalidTimestamp);
        }
        if voting_end_ts <= funding_end_ts {
            return Err(ErrorCode::InvalidTimestamp);
        }

        let season = Season {
            authority,
            title,
            description,
            funding_end_ts,
            voting_end_ts,
            min_funding_per_region,
            total_funded: 0,
            regions_funded: 0,
            is_finalized: false,
            final_uri: None,
        };

        let slots: usize = GRID_SIZE as usize * GRID_SIZE as usize;
        let mut regions: Vec<Option<Region>> = Vec::new();
        let mut i: usize = 0;
        while i < slots
            invariant
                i <= slots,
                slots == GRID_SIZE as int * GRID_SIZE as int,
                regions@.len() == i as int,
                forall |k: int| 0 <= k < i as int ==> (#[trigger] regions@[k]) is None,
                funded_total(regions@) == 0,
                funded_count(regions@) == 0,
            decreases slots - i,
        {
            proof {
                lemma_funded_total_push(regions@, None);
                lemma_funded_count_push(regions@, None);
            }
            regions.push(None);
            i = i + 1;
        }

        let canvas = Canvas { season, regions, contributions: Vec::new(), bids: Vec::new() };
        Ok(canvas)
    }

    // -----------------------------------------------------------------------
    // Keyed lookups
    // -----------------------------------------------------------------------

    /// Index of the contribution of `funder` for the region at (x, y), if any.
    pub fn find_contribution(&self, x: u8, y: u8, funder: AccountId) -> (r: Option<usize>)
        ensures
            match r {
                Some(j) => j < self.contributions@.len()
                    && is_contribution(self.contributions@[j as int], x, y, funder),
                None => !has_contribution(self.contributions@, x, y, funder),
            },
    {
        let n = self.contributions.len();
        let mut i: usize = 0;
        while i < n
            invariant
                n == self.contributions@.len(),
                i <= n,
                forall |k: int| 0 <= k < i as int
                    ==> !is_contribution(#[trigger] self.contributions@[k], x, y, funder),
            decreases n - i,
        {
            let c = &self.contributions[i];
            if c.x == x && c.y == y && c.contributor == funder {
                return Some(i);
            }
            i = i + 1;
        }
        None
    }

    /// Index of the bid of `artist` for the region at (x, y), if any.
    pub fn find_bid(&self, x: u8, y: u8, artist: AccountId) -> (r: Option<usize>)
        ensures
            match r {
                Some(j) => j < self.bids@.len() && is_bid(self.bids@[j as int], x, y, artist),
                None => !has_bid(self.bids@, x, y, artist),
            },
    {
        let n = self.bids.len();
        let mut i: usize = 0;
        while i < n
            invariant
                n == self.bids@.len(),
                i <= n,
                forall |k: int| 0 <= k < i as int
                    ==> !is_bid(#[trigger] self.bids@[k], x, y, artist),
            decreases n - i,
        {
            let b = &self.bids[i];
            if b.x == x && b.y == y && b.artist == artist {
                return Some(i);
            }
            i = i + 1;
        }
        None
    }

    // -----------------------------------------------------------------------
    // Fund region
    // -----------------------------------------------------------------------

    /// Validation outcome of a deposit of `amount` into the region at (x, y).
    pub open spec fn fund_region_decision(self, x: u8, y: u8, amount: u64, now: i64) -> Result<(), ErrorCode> {
        if !valid_coords(x, y) {
            Err(ErrorCode::InvalidRegion)
        } else if amount == 0 {
            Err(ErrorCode::InvalidAmount)
        } else if self.season.is_finalized {
            Err(ErrorCode::SeasonFinalized)
        } else if now >= self.season.funding_end_ts {
            Err(ErrorCode::FundingEnded)
        } else {
            Ok(())
        }
    }

    /// Deposits `amount` into the escrow of the region at (x, y) on behalf of
    /// `funder`: creates the region on its first deposit, accumulates the
    /// funder's contribution, and updates the season aggregates, all
    /// atomically. The deposit is accepted only while the season is open and
    /// the funding window has not ended.
    pub fn fund_region(&mut self, x: u8, y: u8, funder: AccountId, amount: u64, now: i64) -> (r: Result<(), ErrorCode>)
        requires
            old(self).wf(),
            old(self).fund_region_decision(x, y, amount, now) is Ok ==> ({
                &&& old(self).season.total_funded + amount <= u64::MAX
                &&& (match old(self).spec_region(x, y) {
                    Some(reg) => reg.contributor_count < u32::MAX,
                    None => true,
                })
            }),
        ensures
            final(self).wf(),
            r == old(self).fund_region_decision(x, y, amount, now),
            r is Err ==> *final(self) == *old(self),
            r is Ok ==> fund_region_applied(*old(self), *final(self), x, y, funder, amount),
            votes_monotone(old(self).contributions@, final(self).contributions@),
    {
        if !(x < GRID_SIZE && y < GRID_SIZE) {
            return Err(ErrorCode::InvalidRegion);
        }
        if amount == 0 {
            return Err(ErrorCode::InvalidAmount);
        }
        if self.season.is_finalized {
            return Err(ErrorCode::SeasonFinalized);
        }
        if now >= self.season.funding_end_ts {
            return Err(ErrorCode::FundingEnded);
        }

        let ghost pre = *self;
        let slot: usize = slot_of(x, y);

        proof {
            lemma_funded_total_element(pre.regions@, slot as int);
        }

        // Region upsert: create on first deposit, else accumulate.
        let is_new: bool = match &self.regions[slot] {
            Some(_) => false,
            None => true,
        };
        if is_new {
            self.regions.set(slot, Some(Region {
                x,
                y,
                total_funded: amount,
                contributor_count: 1,
                winning_bid: None,
                is_painted: false,
                final_art_uri: None,
                escrow: amount,
            }));
        } else {
            let slot_ref = &mut self.regions[slot];
            match slot_ref {
                Some(r) => {
                    assert(r.total_funded + amount <= u64::MAX);
                    r.total_funded = r.total_funded + amount;
                    r.contributor_count = r.contributor_count + 1;
                    r.escrow = r.escrow + amount;
                }
                None => {}
            }
        }
        assert(self.regions@ =~= pre.regions@.update(
            slot as int,
            Some(funded_region_record(pre.spec_region(x, y), x, y, amount)),
        ));

        // Season aggregates.
        proof {
            lemma_funded_count_bounds(pre.regions@);
        }
        self.season.total_funded = self.season.total_funded + amount;
        if is_new {
            self.season.regions_funded = self.season.regions_funded + 1;
        }

        // Contribution upsert: create on the funder's first deposit into this
        // region, else accumulate.
        let found = self.find_contribution(x, y, funder);
        match found {
            Some(j) => {
                proof {
                    lemma_contribution_index_is(pre.contributions@, j as int, x, y, funder);
                    lemma_contribution_sum_element(pre.contributions@, j as int, x, y);
                    assert(contribution_sum(pre.contributions@, x, y)
                        == slot_funds(pre.spec_region(x, y)));
                }
                let c_ref = &mut self.contributions[j];
                assert(c_ref.amount + amount <= u64::MAX);
                c_ref.amount = c_ref.amount + amount;
                assert(self.contributions@ =~= pre.contributions@.update(
                    contribution_index(pre.contributions@, x, y, funder),
                    bumped_contribution(contribution_for(pre.contributions@, x, y, funder), amount),
                ));
            }
            None => {
                self.contributions.push(Contribution {
                    x,
                    y,
                    contributor: funder,
                    amount,
                    has_voted: false,
                    voted_bid: None,
                });
            }
        }

        proof {
            lemma_fund_preserves_wf(pre, *self, x, y, funder, amount);
        }
        Ok(())
    }

    // -----------------------------------------------------------------------
    // Submit bid
    // -----------------------------------------------------------------------

    /// Validation outcome of an artist's bid for the region at (x, y).
    pub open spec fn submit_bid_decision(
        self,
        x: u8,
        y: u8,
        artist: AccountId,
        sketch_uri: Seq<char>,
        requested_amount: u64,
        now: i64,
    ) -> Result<(), ErrorCode> {
        match self.spec_region(x, y) {
            None => Err(ErrorCode::NotFound),
            Some(region) => if has_bid(self.bids@, x, y, artist) {
                Err(ErrorCode::AlreadyExists)
            } else if sketch_uri.len() > MAX_URI_LEN as int {
                Err(ErrorCode::UriTooLong)
            } else if self.season.is_finalized {
                Err(ErrorCode::SeasonFinalized)
            } else if now >= self.season.voting_end_ts {
                Err(ErrorCode::VotingEnded)
            } else if region.total_funded < self.season.min_funding_per_region {
                Err(ErrorCode::InsufficientFunding)
            } else if requested_amount > region.total_funded {
                Err(ErrorCode::BidTooHigh)
            } else {
                Ok(())
            },
        }
    }

    /// Creates the one bid of `artist` for the region at (x, y), with zeroed
    /// vote tallies and no final art. Accepted only while the season is open,
    /// the voting window has not ended, the region has reached the season's
    /// funding threshold, and the request does not exceed the region's funds.
    pub fn submit_bid(
        &mut self,
        x: u8,
        y: u8,
        artist: AccountId,
        sketch_uri: String,
        requested_amount: u64,
        now: i64,
    ) -> (r: Result<(), ErrorCode>)
        requires
            old(self).wf(),
        ensures
            final(self).wf(),
            r == old(self).submit_bid_decision(x, y, artist, sketch_uri@, requested_amount, now),
            r is Err ==> *final(self) == *old(self),
            r is Ok ==> submit_bid_applied(*old(self), *final(self), x, y, artist, sketch_uri, requested_amount),
    {
        if !(x < GRID_SIZE && y < GRID_SIZE) {
            return Err(ErrorCode::NotFound);
        }
        let slot: usize = slot_of(x, y);
        let region_total: u64 = match &self.regions[slot] {
            Some(r) => r.total_funded,
            None => {
                return Err(ErrorCode::NotFound);
            },
        };
        match self.find_bid(x, y, artist) {
            Some(_) => {
                return Err(ErrorCode::AlreadyExists);
            },
            None => {},
        }
        if sketch_uri.as_str().unicode_len() > MAX_URI_LEN {
            return Err(ErrorCode::UriTooLong);
        }
        if self.season.is_finalized {
            return Err(ErrorCode::SeasonFinalized);
        }
        if now >= self.season.voting_end_ts {
            return Err(ErrorCode::VotingEnded);
        }
        if region_total < self.season.min_funding_per_region {
            return Err(ErrorCode::InsufficientFunding);
        }
        if requested_amount > region_total {
            return Err(ErrorCode::BidTooHigh);
        }

        let ghost pre = *self;
        let ghost uri = sketch_uri;
        self.bids.push(Bid {
            x,
            y,
            artist,
            sketch_uri,
            requested_amount,
            vote_count: 0,
            vote_weight: 0,
            final_art_uri: None,
            is_winner: false,
        });
        proof {
            assert(self.bids@ =~= pre.bids@.push(new_bid(x, y, artist, uri, requested_amount)));
            lemma_submit_bid_preserves_wf(pre, *self, x, y, artist, uri, requested_amount);
        }
        Ok(())
    }

    // -----------------------------------------------------------------------
    // Vote for bid
    // -----------------------------------------------------------------------

    /// Validation outcome of `voter` casting their single vote for the bid of
    /// `artist` on the region at (x, y).
    pub open spec fn vote_for_bid_decision(
        self,
        x: u8,
        y: u8,
        voter: AccountId,
        artist: AccountId,
        now: i64,
    ) -> Result<(), ErrorCode> {
        match self.spec_region(x, y) {
            None => Err(ErrorCode::NotFound),
            Some(_) => if !has_bid(self.bids@, x, y, artist) {
                Err(ErrorCode::NotFound)
            } else if !has_contribution(self.contributions@, x, y, voter) {
                Err(ErrorCode::NotFound)
            } else if self.season.is_finalized {
                Err(ErrorCode::SeasonFinalized)
            } else if now < self.season.funding_end_ts {
                Err(ErrorCode::FundingNotEnded)
            } else if now >= self.season.voting_end_ts {
                Err(ErrorCode::VotingEnded)
            } else if contribution_for(self.contributions@, x, y, voter).has_voted {
                Err(ErrorCode::AlreadyVoted)
            } else {
                Ok(())
            },
        }
    }

    /// Casts the single vote of `voter`'s contribution for the bid of
    /// `artist`: marks the contribution as having voted and adds its full
    /// accumulated amount to the bid's vote weight. Accepted only after the
    /// funding window has ended and strictly before the voting window ends.
    pub fn vote_for_bid(
        &mut self,
        x: u8,
        y: u8,
        voter: AccountId,
        artist: AccountId,
        now: i64,
    ) -> (r: Result<(), ErrorCode>)
        requires
            old(self).wf(),
            old(self).vote_for_bid_decision(x, y, voter, artist, now) is Ok ==> ({
                &&& bid_for(old(self).bids@, x, y, artist).vote_count < u32::MAX
                &&& bid_for(old(self).bids@, x, y, artist).vote_weight
                    + contribution_for(old(self).contributions@, x, y, voter).amount <= u64::MAX
            }),
        ensures
            final(self).wf(),
            r == old(self).vote_for_bid_decision(x, y, voter, artist, now),
            r is Err ==> *final(self) == *old(self),
            r is Ok ==> vote_applied(*old(self), *final(self), x, y, voter, artist),
            votes_monotone(old(self).contributions@, final(self).contributions@),
    {
        if !(x < GRID_SIZE && y < GRID_SIZE) {
            return Err(ErrorCode::NotFound);
        }
        let slot: usize = slot_of(x, y);
        let region_exists: bool = match &self.regions[slot] {
            Some(_) => true,
            None => false,
        };
        if !region_exists {
            return Err(ErrorCode::NotFound);
        }
        let bj: usize = match self.find_bid(x, y, artist) {
            Some(j) => j,
            None => {
                return Err(ErrorCode::NotFound);
            },
        };
        let cj: usize = match self.find_contribution(x, y, voter) {
            Some(j) => j,
            None => {
                return Err(ErrorCode::NotFound);
            },
        };
        if self.season.is_finalized {
            return Err(ErrorCode::SeasonFinalized);
        }
        if now < self.season.funding_end_ts {
            return Err(ErrorCode::FundingNotEnded);
        }
        if now >= self.season.voting_end_ts {
            return Err(ErrorCode::VotingEnded);
        }
        proof {
            lemma_contribution_index_is(self.contributions@, cj as int, x, y, voter);
            lemma_bid_index_is(self.bids@, bj as int, x, y, artist);
        }
        let weight: u64 = self.contributions[cj].amount;
        if self.contributions[cj].has_voted {
            return Err(ErrorCode::AlreadyVoted);
        }

        let ghost pre = *self;
        let c_ref = &mut self.contributions[cj];
        c_ref.has_voted = true;
        c_ref.voted_bid = Some(artist);
        let b_ref = &mut self.bids[bj];
        b_ref.vote_count = b_ref.vote_count + 1;
        b_ref.vote_weight = b_ref.vote_weight + weight;
        proof {
            assert(self.contributions@ =~= pre.contributions@.update(
                contribution_index(pre.contributions@, x, y, voter),
                voted_contribution(contribution_for(pre.contributions@, x, y, voter), artist),
            ));
            assert(self.bids@ =~= pre.bids@.update(
                bid_index(pre.bids@, x, y, artist),
                voted_bid_record(
                    bid_for(pre.bids@, x, y, artist),
                    contribution_for(pre.contributions@, x, y, voter).amount,
                ),
            ));
            lemma_vote_preserves_wf(pre, *self, x, y, voter, artist);
        }
        Ok(())
    }

    // -----------------------------------------------------------------------
    // Finalize region
    // -----------------------------------------------------------------------

    /// Validation outcome of awarding the region at (x, y) to `artist`'s bid.
    pub open spec fn finalize_region_decision(
        self,
        x: u8,
        y: u8,
        artist: AccountId,
        now: i64,
    ) -> Result<(), ErrorCode> {
        match self.spec_region(x, y) {
            None => Err(ErrorCode::NotFound),
            Some(region) => if !has_bid(self.bids@, x, y, artist) {
                Err(ErrorCode::NotFound)
            } else if self.season.is_finalized {
                Err(ErrorCode::SeasonFinalized)
            } else if now < self.season.voting_end_ts {
                Err(ErrorCode::VotingNotEnded)
            } else if region.winning_bid is Some {
                Err(ErrorCode::AlreadyFinalized)
            } else if bid_for(self.bids@, x, y, artist).vote_weight == 0 {
                Err(ErrorCode::NoVotes)
            } else {
                Ok(())
            },
        }
    }

    /// Awards the region at (x, y) to the bid of `artist`: sets the bid's
    /// winner mark and the region's winning-bid pointer, both exactly once.
    /// The operation does not compare vote weights across bids; it only checks
    /// that the named bid has nonzero support and that the region is not
    /// already decided. Accepted only once the voting window has ended.
    pub fn finalize_region(&mut self, x: u8, y: u8, artist: AccountId, now: i64) -> (r: Result<(), ErrorCode>)
        requires
            old(self).wf(),
        ensures
            final(self).wf(),
            r == old(self).finalize_region_decision(x, y, artist, now),
            r is Err ==> *final(self) == *old(self),
            r is Ok ==> finalize_region_applied(*old(self), *final(self), x, y, artist),
            final(self).contributions@ == old(self).contributions@,
    {
        if !(x < GRID_SIZE && y < GRID_SIZE) {
            return Err(ErrorCode::NotFound);
        }
        let slot: usize = slot_of(x, y);
        let already_decided: bool = match &self.regions[slot] {
            Some(r) => r.winning_bid.is_some(),
            None => {
                return Err(ErrorCode::NotFound);
            },
        };
        let bj: usize = match self.find_bid(x, y, artist) {
            Some(j) => j,
            None => {
                return Err(ErrorCode::NotFound);
            },
        };
        if self.season.is_finalized {
            return Err(ErrorCode::SeasonFinalized);
        }
        if now < self.season.voting_end_ts {
            return Err(ErrorCode::VotingNotEnded);
        }
        if already_decided {
            return Err(ErrorCode::AlreadyFinalized);
        }
        proof {
            lemma_bid_index_is(self.bids@, bj as int, x, y, artist);
        }
        let weight: u64 = {
            let b = &self.bids[bj];
            b.vote_weight
        };
        if weight == 0 {
            return Err(ErrorCode::NoVotes);
        }

        let ghost pre = *self;
        let slot_ref = &mut self.regions[slot];
        match slot_ref {
            Some(r) => {
                r.winning_bid = Some(artist);
            },
            None => {},
        }
        let b_ref = &mut self.bids[bj];
        b_ref.is_winner = true;
        proof {
            assert(self.regions@ =~= pre.regions@.update(
                region_slot(x, y),
                Some(awarded_region(pre.spec_region(x, y).unwrap(), artist)),
            ));
            assert(self.bids@ =~= pre.bids@.update(
                bid_index(pre.bids@, x, y, artist),
                winning_bid_record(bid_for(pre.bids@, x, y, artist)),
            ));
            lemma_finalize_region_preserves_wf(pre, *self, x, y, artist);
        }
        Ok(())
    }

    // -----------------------------------------------------------------------
    // Submit final art
    // -----------------------------------------------------------------------

    /// Validation outcome of the winning artist recording the final artwork.
    pub open spec fn submit_final_art_decision(
        self,
        x: u8,
        y: u8,
        artist: AccountId,
        final_art_uri: Seq<char>,
    ) -> Result<(), ErrorCode> {
        match self.spec_region(x, y) {
            None => Err(ErrorCode::NotFound),
            Some(_) => if !has_bid(self.bids@, x, y, artist) {
                Err(ErrorCode::NotFound)
            } else if final_art_uri.len() > MAX_URI_LEN as int {
                Err(ErrorCode::UriTooLong)
            } else if !bid_for(self.bids@, x, y, artist).is_winner {
                Err(ErrorCode::NotWinner)
            } else if bid_for(self.bids@, x, y, artist).final_art_uri is Some {
                Err(ErrorCode::AlreadySubmitted)
            } else {
                Ok(())
            },
        }
    }

    /// Records the final artwork URI on the winning bid and its region, and
    /// marks the region painted. Only the winning bid may submit, and only
    /// once.
    pub fn submit_final_art(&mut self, x: u8, y: u8, artist: AccountId, final_art_uri: String) -> (r: Result<(), ErrorCode>)
        requires
            old(self).wf(),
        ensures
            final(self).wf(),
            r == old(self).submit_final_art_decision(x, y, artist, final_art_uri@),
            r is Err ==> *final(self) == *old(self),
            r is Ok ==> submit_final_art_applied(*old(self), *final(self), x, y, artist, final_art_uri),
            final(self).contributions@ == old(self).contributions@,
    {
        if !(x < GRID_SIZE && y < GRID_SIZE) {
            return Err(ErrorCode::NotFound);
        }
        let slot: usize = slot_of(x, y);
        let region_exists: bool = match &self.regions[slot] {
            Some(_) => true,
            None => false,
        };
        if !region_exists {
            return Err(ErrorCode::NotFound);
        }
        let bj: usize = match self.find_bid(x, y, artist) {
            Some(j) => j,
            None => {
                return Err(ErrorCode::NotFound);
            },
        };
        if final_art_uri.as_str().unicode_len() > MAX_URI_LEN {
            return Err(ErrorCode::UriTooLong);
        }
        proof {
            lemma_bid_index_is(self.bids@, bj as int, x, y, artist);
        }
        let is_winner: bool = {
            let b = &self.bids[bj];
            b.is_winner
        };
        if !is_winner {
            return Err(ErrorCode::NotWinner);
        }
        let already_submitted: bool = {
            let b = &self.bids[bj];
            b.final_art_uri.is_some()
        };
        if already_submitted {
            return Err(ErrorCode::AlreadySubmitted);
        }

        let ghost pre = *self;
        let ghost uri = final_art_uri;
        let slot_ref = &mut self.regions[slot];
        match slot_ref {
            Some(r) => {
                r.is_painted = true;
                r.final_art_uri = Some(final_art_uri.clone());
            },
            None => {},
        }
        let b_ref = &mut self.bids[bj];
        b_ref.final_art_uri = Some(final_art_uri);
        proof {
            assert(self.regions@ =~= pre.regions@.update(
                region_slot(x, y),
                Some(painted_region(pre.spec_region(x, y).unwrap(), uri)),
            ));
            assert(self.bids@ =~= pre.bids@.update(
                bid_index(pre.bids@, x, y, artist),
                art_bid_record(bid_for(pre.bids@, x, y, artist), uri),
            ));
            lemma_submit_art_preserves_wf(pre, *self, x, y, artist, uri);
        }
        Ok(())
    }

    // -----------------------------------------------------------------------
    // Claim artist payout
    // -----------------------------------------------------------------------

    /// Validation outcome of the winning artist claiming the payout.
    pub open spec fn claim_artist_payout_decision(self, x: u8, y: u8, artist: AccountId) -> Result<(), ErrorCode> {
        match self.spec_region(x, y) {
            None => Err(ErrorCode::NotFound),
            Some(region) => if !has_bid(self.bids@, x, y, artist) {
                Err(ErrorCode::NotFound)
            } else if !bid_for(self.bids@, x, y, artist).is_winner {
                Err(ErrorCode::NotWinner)
            } else if bid_for(self.bids@, x, y, artist).final_art_uri is None {
                Err(ErrorCode::ArtNotSubmitted)
            } else if region.escrow < bid_for(self.bids@, x, y, artist).requested_amount {
                Err(ErrorCode::InsufficientEscrow)
            } else {
                Ok(())
            },
        }
    }

    /// Releases exactly the winning bid's requested amount from the region's
    /// escrow to the artist, once the final art is recorded; the returned value
    /// is the amount to transfer. Nothing marks the bid as paid, so a second
    /// claim is refused only when the escrow no longer covers the request.
    pub fn claim_artist_payout(&mut self, x: u8, y: u8, artist: AccountId) -> (r: Result<u64, ErrorCode>)
        requires
            old(self).wf(),
        ensures
            final(self).wf(),
            r is Ok <==> old(self).claim_artist_payout_decision(x, y, artist) is Ok,
            (r matches Err(e) ==> old(self).claim_artist_payout_decision(x, y, artist) == Err::<(), ErrorCode>(e)
                && *final(self) == *old(self)),
            r matches Ok(payout) ==> ({
                &&& payout == bid_for(old(self).bids@, x, y, artist).requested_amount
                &&& claim_payout_applied(*old(self), *final(self), x, y, artist)
            }),
            final(self).contributions@ == old(self).contributions@,
    {
        if !(x < GRID_SIZE && y < GRID_SIZE) {
            return Err(ErrorCode::NotFound);
        }
        let slot: usize = slot_of(x, y);
        let escrow: u64 = match &self.regions[slot] {
            Some(r) => r.escrow,
            None => {
                return Err(ErrorCode::NotFound);
            },
        };
        let bj: usize = match self.find_bid(x, y, artist) {
            Some(j) => j,
            None => {
                return Err(ErrorCode::NotFound);
            },
        };
        proof {
            lemma_bid_index_is(self.bids@, bj as int, x, y, artist);
        }
        let is_winner: bool = {
            let b = &self.bids[bj];
            b.is_winner
        };
        if !is_winner {
            return Err(ErrorCode::NotWinner);
        }
        let has_art: bool = {
            let b = &self.bids[bj];
            b.final_art_uri.is_some()
        };
        if !has_art {
            return Err(ErrorCode::ArtNotSubmitted);
        }
        let payout: u64 = {
            let b = &self.bids[bj];
            b.requested_amount
        };
        if escrow < payout {
            return Err(ErrorCode::InsufficientEscrow);
        }

        let ghost pre = *self;
        let slot_ref = &mut self.regions[slot];
        match slot_ref {
            Some(r) => {
                r.escrow = r.escrow - payout;
            },
            None => {},
        }
        proof {
            assert(self.regions@ =~= pre.regions@.update(
                region_slot(x, y),
                Some(drained_region(
                    pre.spec_region(x, y).unwrap(),
                    bid_for(pre.bids@, x, y, artist).requested_amount,
                )),
            ));
            lemma_claim_preserves_wf(pre, *self, x, y, artist);
        }
        Ok(payout)
    }

    // -----------------------------------------------------------------------
    // Finalize season
    // -----------------------------------------------------------------------

    /// Validation outcome of the authority closing the season.
    pub open spec fn finalize_season_decision(
        self,
        authority: AccountId,
        final_uri: Seq<char>,
        now: i64,
    ) -> Result<(), ErrorCode> {
        if authority != self.season.authority {
            Err(ErrorCode::Unauthorized)
        } else if final_uri.len() > MAX_URI_LEN as int {
            Err(ErrorCode::UriTooLong)
        } else if self.season.is_finalized {
            Err(ErrorCode::SeasonFinalized)
        } else if now < self.season.voting_end_ts {
            Err(ErrorCode::VotingNotEnded)
        } else {
            Ok(())
        }
    }

    /// Marks the season finalized and records its summary URI. Only the
    /// creating authority may do this, only once the voting window has ended,
    /// and the transition is terminal: every later mutation is refused.
    pub fn finalize_season(&mut self, authority: AccountId, final_uri: String, now: i64) -> (r: Result<(), ErrorCode>)
        requires
            old(self).wf(),
        ensures
            final(self).wf(),
            r == old(self).finalize_season_decision(authority, final_uri@, now),
            r is Err ==> *final(self) == *old(self),
            r is Ok ==> finalize_season_applied(*old(self), *final(self), final_uri),
            final(self).contributions@ == old(self).contributions@,
    {
        if authority != self.season.authority {
            return Err(ErrorCode::Unauthorized);
        }
        if final_uri.as_str().unicode_len() > MAX_URI_LEN {
            return Err(ErrorCode::UriTooLong);
        }
        if self.season.is_finalized {
            return Err(ErrorCode::SeasonFinalized);
        }
        if now < self.season.voting_end_ts {
            return Err(ErrorCode::VotingNotEnded);
        }
        self.season.is_finalized = true;
        self.season.final_uri = Some(final_uri);
        Ok(())
    }

    // -----------------------------------------------------------------------
    // Read access
    // -----------------------------------------------------------------------

    /// The region at (x, y), if created.
    pub fn get_region(&self, x: u8, y: u8) -> (r: Option<&Region>)
        requires
            self.wf(),
        ensures
            match r {
                Some(rg) => self.spec_region(x, y) == Some(*rg),
                None => self.spec_region(x, y) is None,
            },
    {
        if !(x < GRID_SIZE && y < GRID_SIZE) {
            return None;
        }
        let slot: usize = slot_of(x, y);
        match &self.regions[slot] {
            Some(r) => Some(r),
            None => None,
        }
    }

    /// The contribution of `funder` for the region at (x, y), if any.
    pub fn get_contribution(&self, x: u8, y: u8, funder: AccountId) -> (r: Option<&Contribution>)
        requires
            self.wf(),
        ensures
            match r {
                Some(c) => has_contribution(self.contributions@, x, y, funder)
                    && *c == contribution_for(self.contributions@, x, y, funder),
                None => !has_contribution(self.contributions@, x, y, funder),
            },
    {
        match self.find_contribution(x, y, funder) {
            Some(j) => {
                proof {
                    lemma_contribution_index_is(self.contributions@, j as int, x, y, funder);
                }
                Some(&self.contributions[j])
            },
            None => None,
        }
    }

    /// The bid of `artist` for the region at (x, y), if any.
    pub fn get_bid(&self, x: u8, y: u8, artist: AccountId) -> (r: Option<&Bid>)
        requires
            self.wf(),
        ensures
            match r {
                Some(b) => has_bid(self.bids@, x, y, artist)
                    && *b == bid_for(self.bids@, x, y, artist),
                None => !has_bid(self.bids@, x, y, artist),
            },
    {
        match self.find_bid(x, y, artist) {
            Some(j) => {
                proof {
                    lemma_bid_index_is(self.bids@, j as int, x, y, artist);
                }
                Some(&self.bids[j])
            },
            None => None,
        }
    }
}

/// Row-major slot of the region at (x, y); the grid has eight columns.
fn slot_of(x: u8, y: u8) -> (r: usize)
    requires
        valid_coords(x, y),
    ensures
        r == region_slot(x, y),
        r < 64,
{
    x as usize * 8 + y as usize
}

/// The bid record created by `submit_bid`.
pub open spec fn new_bid(x: u8, y: u8, artist: AccountId, sketch_uri: String, requested_amount: u64) -> Bid {
    Bid {
        x,
        y,
        artist,
        sketch_uri,
        requested_amount,
        vote_count: 0,
        vote_weight: 0,
        final_art_uri: None,
        is_winner: false,
    }
}

/// Exactly how a successful bid submission rewrites the store: one bid record
/// is appended and nothing else moves.
pub open spec fn submit_bid_applied(
    pre: Canvas,
    post: Canvas,
    x: u8,
    y: u8,
    artist: AccountId,
    sketch_uri: String,
    requested_amount: u64,
) -> bool {
    &&& post.season == pre.season
    &&& post.regions@ == pre.regions@
    &&& post.contributions@ == pre.contributions@
    &&& post.bids@ == pre.bids@.push(new_bid(x, y, artist, sketch_uri, requested_amount))
}

/// A contribution record after casting its single vote for `artist`'s bid.
pub open spec fn voted_contribution(c: Contribution, artist: AccountId) -> Contribution {
    Contribution {
        x: c.x,
        y: c.y,
        contributor: c.contributor,
        amount: c.amount,
        has_voted: true,
        voted_bid: Some(artist),
    }
}

/// A bid record after receiving one vote of the given weight.
pub open spec fn voted_bid_record(b: Bid, weight: u64) -> Bid {
    Bid {
        x: b.x,
        y: b.y,
        artist: b.artist,
        sketch_uri: b.sketch_uri,
        requested_amount: b.requested_amount,
        vote_count: (b.vote_count + 1) as u32,
        vote_weight: (b.vote_weight + weight) as u64,
        final_art_uri: b.final_art_uri,
        is_winner: b.is_winner,
    }
}

/// Exactly how a successful vote rewrites the store: the voter's contribution
/// is marked, the named bid's tallies grow by one vote of the contribution's
/// full weight, and nothing else moves.
pub open spec fn vote_applied(pre: Canvas, post: Canvas, x: u8, y: u8, voter: AccountId, artist: AccountId) -> bool {
    let c = contribution_for(pre.contributions@, x, y, voter);
    &&& post.season == pre.season
    &&& post.regions@ == pre.regions@
    &&& post.contributions@ == pre.contributions@.update(
        contribution_index(pre.contributions@, x, y, voter),
        voted_contribution(c, artist),
    )
    &&& post.bids@ == pre.bids@.update(
        bid_index(pre.bids@, x, y, artist),
        voted_bid_record(bid_for(pre.bids@, x, y, artist), c.amount),
    )
}

/// A successful bid submission preserves the store invariant.
pub proof fn lemma_submit_bid_preserves_wf(pre: Canvas, post: Canvas, x: u8, y: u8, artist: AccountId, sketch_uri: String, requested_amount: u64)
    requires
        pre.wf(),
        valid_coords(x, y),
        pre.spec_region(x, y) is Some,
        !has_bid(pre.bids@, x, y, artist),
        sketch_uri@.len() <= MAX_URI_LEN as int,
        requested_amount <= pre.spec_region(x, y).unwrap().total_funded,
        submit_bid_applied(pre, post, x, y, artist, sketch_uri, requested_amount),
    ensures
        post.wf(),
{
    let n = pre.bids@.len() as int;
    assert(post.bids@.len() == n + 1);
    assert forall |j: int| 0 <= j < post.bids@.len()
        implies post.bid_entry_wf(#[trigger] post.bids@[j]) by {
        if j < n {
            assert(post.bids@[j] == pre.bids@[j]);
            assert(pre.bid_entry_wf(pre.bids@[j]));
        }
    }
    assert(bids_unique(post.bids@)) by {
        assert forall |j: int, k: int| #![trigger post.bids@[j], post.bids@[k]]
            0 <= j < k < post.bids@.len()
            implies !same_bid_key(post.bids@[j], post.bids@[k]) by {
            if k == n {
                assert(post.bids@[j] == pre.bids@[j]);
                assert(!is_bid(pre.bids@[j], x, y, artist));
            } else {
                assert(!same_bid_key(pre.bids@[j], pre.bids@[k]));
            }
        }
    }
    assert forall |i: int| 0 <= i < post.regions@.len() implies match #[trigger] post.regions@[i] {
        Some(r) => match r.winning_bid {
            Some(a) => has_bid(post.bids@, r.x, r.y, a) && bid_for(post.bids@, r.x, r.y, a).is_winner,
            None => true,
        },
        None => true,
    } by {
        match post.regions@[i] {
            Some(r) => match r.winning_bid {
                Some(a) => {
                    let j = bid_index(pre.bids@, r.x, r.y, a);
                    assert(has_bid(pre.bids@, r.x, r.y, a));
                    assert(0 <= j < n && is_bid(pre.bids@[j], r.x, r.y, a));
                    assert(post.bids@[j] == pre.bids@[j]);
                    lemma_bid_index_is(post.bids@, j, r.x, r.y, a);
                },
                None => {},
            },
            None => {},
        }
    }
}

/// A successful vote preserves the store invariant.
pub proof fn lemma_vote_preserves_wf(pre: Canvas, post: Canvas, x: u8, y: u8, voter: AccountId, artist: AccountId)
    requires
        pre.wf(),
        valid_coords(x, y),
        pre.spec_region(x, y) is Some,
        has_bid(pre.bids@, x, y, artist),
        has_contribution(pre.contributions@, x, y, voter),
        bid_for(pre.bids@, x, y, artist).vote_count < u32::MAX,
        bid_for(pre.bids@, x, y, artist).vote_weight
            + contribution_for(pre.contributions@, x, y, voter).amount <= u64::MAX,
        vote_applied(pre, post, x, y, voter, artist),
    ensures
        post.wf(),
{
    let ci = contribution_index(pre.contributions@, x, y, voter);
    let bi = bid_index(pre.bids@, x, y, artist);
    let c = pre.contributions@[ci];
    let b = pre.bids@[bi];
    assert(0 <= ci < pre.contributions@.len() && is_contribution(c, x, y, voter));
    assert(0 <= bi < pre.bids@.len() && is_bid(b, x, y, artist));

    // Contribution entries and uniqueness.
    assert forall |j: int| 0 <= j < post.contributions@.len()
        implies post.contribution_entry_wf(#[trigger] post.contributions@[j]) by {
        assert(pre.contribution_entry_wf(pre.contributions@[j]));
        if j == ci {
            assert(post.contributions@[j] == voted_contribution(c, artist));
        } else {
            assert(post.contributions@[j] == pre.contributions@[j]);
        }
    }
    assert(contributions_unique(post.contributions@)) by {
        assert forall |j: int, k: int| #![trigger post.contributions@[j], post.contributions@[k]]
            0 <= j < k < post.contributions@.len()
            implies !same_contribution_key(post.contributions@[j], post.contributions@[k]) by {
            assert(!same_contribution_key(pre.contributions@[j], pre.contributions@[k]));
        }
    }

    // Bid entries and uniqueness.
    assert forall |j: int| 0 <= j < post.bids@.len()
        implies post.bid_entry_wf(#[trigger] post.bids@[j]) by {
        assert(pre.bid_entry_wf(pre.bids@[j]));
        if j == bi {
            assert(post.bids@[j] == voted_bid_record(b, c.amount));
        } else {
            assert(post.bids@[j] == pre.bids@[j]);
        }
    }
    assert(bids_unique(post.bids@)) by {
        assert forall |j: int, k: int| #![trigger post.bids@[j], post.bids@[k]]
            0 <= j < k < post.bids@.len()
            implies !same_bid_key(post.bids@[j], post.bids@[k]) by {
            assert(!same_bid_key(pre.bids@[j], pre.bids@[k]));
        }
    }

    // Winner links.
    assert forall |i: int| 0 <= i < post.regions@.len() implies match #[trigger] post.regions@[i] {
        Some(r) => match r.winning_bid {
            Some(a) => has_bid(post.bids@, r.x, r.y, a) && bid_for(post.bids@, r.x, r.y, a).is_winner,
            None => true,
        },
        None => true,
    } by {
        match post.regions@[i] {
            Some(r) => match r.winning_bid {
                Some(a) => {
                    let j = bid_index(pre.bids@, r.x, r.y, a);
                    assert(has_bid(pre.bids@, r.x, r.y, a));
                    assert(0 <= j < pre.bids@.len() && is_bid(pre.bids@[j], r.x, r.y, a));
                    assert(is_bid(post.bids@[j], r.x, r.y, a));
                    assert(post.bids@[j].is_winner == pre.bids@[j].is_winner);
                    lemma_bid_index_is(post.bids@, j, r.x, r.y, a);
                },
                None => {},
            },
            None => {},
        }
    }

    // Accounting: the vote moves no funds.
    assert forall |a: u8, bb: u8| valid_coords(a, bb)
        implies #[trigger] contribution_sum(post.contributions@, a, bb)
            == slot_funds(post.spec_region(a, bb)) by {
        assert(contribution_sum(pre.contributions@, a, bb) == slot_funds(pre.spec_region(a, bb)));
        lemma_contribution_sum_update(pre.contributions@, ci, voted_contribution(c, artist), a, bb);
        assert(region_amount(voted_contribution(c, artist), a, bb) == region_amount(c, a, bb));
    }
}

/// The region record after a deposit of `amount` into (x, y): created fresh on
/// the first deposit, otherwise accumulated.
pub open spec fn funded_region_record(prev: Option<Region>, x: u8, y: u8, amount: u64) -> Region {
    match prev {
        Some(r) => Region {
            x: r.x,
            y: r.y,
            total_funded: (r.total_funded + amount) as u64,
            contributor_count: (r.contributor_count + 1) as u32,
            winning_bid: r.winning_bid,
            is_painted: r.is_painted,
            final_art_uri: r.final_art_uri,
            escrow: (r.escrow + amount) as u64,
        },
        None => Region {
            x,
            y,
            total_funded: amount,
            contributor_count: 1,
            winning_bid: None,
            is_painted: false,
            final_art_uri: None,
            escrow: amount,
        },
    }
}

/// A contribution record after a further deposit of `amount`: only the
/// cumulative amount moves; the vote slot is untouched.
pub open spec fn bumped_contribution(c: Contribution, amount: u64) -> Contribution {
    Contribution {
        x: c.x,
        y: c.y,
        contributor: c.contributor,
        amount: (c.amount + amount) as u64,
        has_voted: c.has_voted,
        voted_bid: c.voted_bid,
    }
}

/// The contribution record created by a funder's first deposit into a region.
pub open spec fn new_contribution(x: u8, y: u8, funder: AccountId, amount: u64) -> Contribution {
    Contribution { x, y, contributor: funder, amount, has_voted: false, voted_bid: None }
}

/// Exactly how a successful deposit rewrites the store: the named region slot
/// and the funder's contribution are upserted, the season aggregates grow by
/// the deposit, and nothing else moves.
pub open spec fn fund_region_applied(pre: Canvas, post: Canvas, x: u8, y: u8, funder: AccountId, amount: u64) -> bool {
    &&& post.season.authority == pre.season.authority
    &&& post.season.title == pre.season.title
    &&& post.season.description == pre.season.description
    &&& post.season.funding_end_ts == pre.season.funding_end_ts
    &&& post.season.voting_end_ts == pre.season.voting_end_ts
    &&& post.season.min_funding_per_region == pre.season.min_funding_per_region
    &&& post.season.total_funded == pre.season.total_funded + amount
    &&& post.season.regions_funded as int == pre.season.regions_funded as int
        + (if pre.spec_region(x, y) is None { 1int } else { 0int })
    &&& post.season.is_finalized == pre.season.is_finalized
    &&& post.season.final_uri == pre.season.final_uri
    &&& post.regions@ == pre.regions@.update(
        region_slot(x, y),
        Some(funded_region_record(pre.spec_region(x, y), x, y, amount)),
    )
    &&& post.contributions@ == (if has_contribution(pre.contributions@, x, y, funder) {
        pre.contributions@.update(
            contribution_index(pre.contributions@, x, y, funder),
            bumped_contribution(contribution_for(pre.contributions@, x, y, funder), amount),
        )
    } else {
        pre.contributions@.push(new_contribution(x, y, funder, amount))
    })
    &&& post.bids@ == pre.bids@
}

/// Grid slots address regions one to one.
pub proof fn lemma_region_slot_injective(a: u8, b: u8, x: u8, y: u8)
    requires
        valid_coords(a, b),
        valid_coords(x, y),
    ensures
        (region_slot(a, b) == region_slot(x, y)) <==> (a == x && b == y),
{
}

/// A successful deposit preserves the store invariant.
pub proof fn lemma_fund_preserves_wf(pre: Canvas, post: Canvas, x: u8, y: u8, funder: AccountId, amount: u64)
    requires
        pre.wf(),
        valid_coords(x, y),
        amount > 0,
        pre.season.total_funded + amount <= u64::MAX,
        (match pre.spec_region(x, y) {
            Some(reg) => reg.contributor_count < u32::MAX,
            None => true,
        }),
        fund_region_applied(pre, post, x, y, funder, amount),
    ensures
        post.wf(),
{
    let slot = region_slot(x, y);
    let prev = pre.spec_region(x, y);
    let newr = funded_region_record(prev, x, y, amount);
    assert(0 <= slot < pre.regions@.len());
    lemma_funded_total_element(pre.regions@, slot);

    // Region slots.
    assert forall |i: int| 0 <= i < post.regions@.len() implies slot_wf(#[trigger] post.regions@[i], i) by {
        if i == slot {
            assert(slot_wf(pre.regions@[i], i));
        } else {
            assert(post.regions@[i] == pre.regions@[i]);
            assert(slot_wf(pre.regions@[i], i));
        }
    }

    // Regions other than (x, y) are untouched.
    assert forall |a: u8, b: u8| valid_coords(a, b) && !(a == x && b == y)
        implies post.spec_region(a, b) == pre.spec_region(a, b) by {
        lemma_region_slot_injective(a, b, x, y);
    }
    assert(post.spec_region(x, y) == Some(newr));

    // Contribution entries.
    let ci = contribution_index(pre.contributions@, x, y, funder);
    let had = has_contribution(pre.contributions@, x, y, funder);
    if had {
        assert(0 <= ci < pre.contributions@.len() && is_contribution(pre.contributions@[ci], x, y, funder));
        lemma_contribution_sum_element(pre.contributions@, ci, x, y);
    }
    assert forall |j: int| 0 <= j < post.contributions@.len()
        implies post.contribution_entry_wf(#[trigger] post.contributions@[j]) by {
        let c = post.contributions@[j];
        if had && j == ci {
            assert(pre.contribution_entry_wf(pre.contributions@[j]));
            assert(c == bumped_contribution(pre.contributions@[ci], amount));
        } else if !had && j == pre.contributions@.len() as int {
            assert(c == new_contribution(x, y, funder, amount));
        } else {
            assert(c == pre.contributions@[j]);
            assert(pre.contribution_entry_wf(c));
            if c.x == x && c.y == y {
                assert(post.spec_region(c.x, c.y) == Some(newr));
            } else {
                lemma_region_slot_injective(c.x, c.y, x, y);
            }
        }
    }
    assert(contributions_unique(post.contributions@)) by {
        assert forall |j: int, k: int| #![trigger post.contributions@[j], post.contributions@[k]]
            0 <= j < k < post.contributions@.len()
            implies !same_contribution_key(post.contributions@[j], post.contributions@[k]) by {
            let cj = post.contributions@[j];
            let ck = post.contributions@[k];
            if had {
                assert(!same_contribution_key(pre.contributions@[j], pre.contributions@[k]));
            } else {
                if k == pre.contributions@.len() as int {
                    assert(cj == pre.contributions@[j]);
                    assert(!is_contribution(pre.contributions@[j], x, y, funder));
                } else {
                    assert(!same_contribution_key(pre.contributions@[j], pre.contributions@[k]));
                }
            }
        }
    }

    // Bid entries.
    assert forall |j: int| 0 <= j < post.bids@.len()
        implies post.bid_entry_wf(#[trigger] post.bids@[j]) by {
        let b = post.bids@[j];
        assert(pre.bid_entry_wf(b));
        if b.x == x && b.y == y {
            assert(pre.spec_region(b.x, b.y) is Some);
            assert(post.spec_region(b.x, b.y) == Some(newr));
        } else {
            lemma_region_slot_injective(b.x, b.y, x, y);
        }
    }

    // Winner links.
    assert forall |i: int| 0 <= i < post.regions@.len() implies match #[trigger] post.regions@[i] {
        Some(r) => match r.winning_bid {
            Some(a) => has_bid(post.bids@, r.x, r.y, a) && bid_for(post.bids@, r.x, r.y, a).is_winner,
            None => true,
        },
        None => true,
    } by {
        if i != slot {
            assert(post.regions@[i] == pre.regions@[i]);
        }
    }

    // Accounting.
    assert forall |a: u8, b: u8| valid_coords(a, b)
        implies #[trigger] contribution_sum(post.contributions@, a, b)
            == slot_funds(post.spec_region(a, b)) by {
        assert(contribution_sum(pre.contributions@, a, b) == slot_funds(pre.spec_region(a, b)));
        if had {
            lemma_contribution_sum_update(
                pre.contributions@,
                ci,
                bumped_contribution(pre.contributions@[ci], amount),
                a,
                b,
            );
        } else {
            lemma_contribution_sum_push(pre.contributions@, new_contribution(x, y, funder, amount), a, b);
        }
        if a == x && b == y {
            assert(post.spec_region(a, b) == Some(newr));
        } else {
            lemma_region_slot_injective(a, b, x, y);
            assert(post.spec_region(a, b) == pre.spec_region(a, b));
        }
    }
    lemma_funded_total_update(pre.regions@, slot, Some(newr));
    lemma_funded_count_update(pre.regions@, slot, Some(newr));
}

/// A region record after being awarded to `artist`'s bid.
pub open spec fn awarded_region(r: Region, artist: AccountId) -> Region {
    Region {
        x: r.x,
        y: r.y,
        total_funded: r.total_funded,
        contributor_count: r.contributor_count,
        winning_bid: Some(artist),
        is_painted: r.is_painted,
        final_art_uri: r.final_art_uri,
        escrow: r.escrow,
    }
}

/// A bid record after being marked the winner.
pub open spec fn winning_bid_record(b: Bid) -> Bid {
    Bid {
        x: b.x,
        y: b.y,
        artist: b.artist,
        sketch_uri: b.sketch_uri,
        requested_amount: b.requested_amount,
        vote_count: b.vote_count,
        vote_weight: b.vote_weight,
        final_art_uri: b.final_art_uri,
        is_winner: true,
    }
}

/// Exactly how a successful region finalization rewrites the store: the region
/// gains its winning-bid pointer, the bid its winner mark, and nothing else
/// moves.
pub open spec fn finalize_region_applied(pre: Canvas, post: Canvas, x: u8, y: u8, artist: AccountId) -> bool {
    &&& post.season == pre.season
    &&& post.regions@ == pre.regions@.update(
        region_slot(x, y),
        Some(awarded_region(pre.spec_region(x, y).unwrap(), artist)),
    )
    &&& post.contributions@ == pre.contributions@
    &&& post.bids@ == pre.bids@.update(
        bid_index(pre.bids@, x, y, artist),
        winning_bid_record(bid_for(pre.bids@, x, y, artist)),
    )
}

/// A region record after the final artwork is recorded.
pub open spec fn painted_region(r: Region, uri: String) -> Region {
    Region {
        x: r.x,
        y: r.y,
        total_funded: r.total_funded,
        contributor_count: r.contributor_count,
        winning_bid: r.winning_bid,
        is_painted: true,
        final_art_uri: Some(uri),
        escrow: r.escrow,
    }
}

/// A bid record after the final artwork is recorded.
pub open spec fn art_bid_record(b: Bid, uri: String) -> Bid {
    Bid {
        x: b.x,
        y: b.y,
        artist: b.artist,
        sketch_uri: b.sketch_uri,
        requested_amount: b.requested_amount,
        vote_count: b.vote_count,
        vote_weight: b.vote_weight,
        final_art_uri: Some(uri),
        is_winner: b.is_winner,
    }
}

/// Exactly how a successful art submission rewrites the store: the URI lands
/// on both the winning bid and its region, the region is marked painted, and
/// nothing else moves.
pub open spec fn submit_final_art_applied(pre: Canvas, post: Canvas, x: u8, y: u8, artist: AccountId, uri: String) -> bool {
    &&& post.season == pre.season
    &&& post.regions@ == pre.regions@.update(
        region_slot(x, y),
        Some(painted_region(pre.spec_region(x, y).unwrap(), uri)),
    )
    &&& post.contributions@ == pre.contributions@
    &&& post.bids@ == pre.bids@.update(
        bid_index(pre.bids@, x, y, artist),
        art_bid_record(bid_for(pre.bids@, x, y, artist), uri),
    )
}

/// A region record after releasing `amount` from its escrow.
pub open spec fn drained_region(r: Region, amount: u64) -> Region {
    Region {
        x: r.x,
        y: r.y,
        total_funded: r.total_funded,
        contributor_count: r.contributor_count,
        winning_bid: r.winning_bid,
        is_painted: r.is_painted,
        final_art_uri: r.final_art_uri,
        escrow: (r.escrow - amount) as u64,
    }
}

/// Exactly how a successful payout rewrites the store: the region's escrow
/// shrinks by exactly the winning bid's requested amount, and nothing else
/// moves.
pub open spec fn claim_payout_applied(pre: Canvas, post: Canvas, x: u8, y: u8, artist: AccountId) -> bool {
    &&& post.season == pre.season
    &&& post.regions@ == pre.regions@.update(
        region_slot(x, y),
        Some(drained_region(
            pre.spec_region(x, y).unwrap(),
            bid_for(pre.bids@, x, y, artist).requested_amount,
        )),
    )
    &&& post.contributions@ == pre.contributions@
    &&& post.bids@ == pre.bids@
}

/// Exactly how finalizing the season rewrites the store: the season is marked
/// finalized with its summary URI, and nothing else moves.
pub open spec fn finalize_season_applied(pre: Canvas, post: Canvas, final_uri: String) -> bool {
    &&& post.season.authority == pre.season.authority
    &&& post.season.title == pre.season.title
    &&& post.season.description == pre.season.description
    &&& post.season.funding_end_ts == pre.season.funding_end_ts
    &&& post.season.voting_end_ts == pre.season.voting_end_ts
    &&& post.season.min_funding_per_region == pre.season.min_funding_per_region
    &&& post.season.total_funded == pre.season.total_funded
    &&& post.season.regions_funded == pre.season.regions_funded
    &&& post.season.is_finalized
    &&& post.season.final_uri == Some(final_uri)
    &&& post.regions@ == pre.regions@
    &&& post.contributions@ == pre.contributions@
    &&& post.bids@ == pre.bids@
}

/// An update that keeps a region's funds and presence leaves the grid
/// accounting unchanged.
proof fn lemma_same_funds_update(pre: Canvas, post: Canvas, x: u8, y: u8, newr: Region)
    requires
        pre.wf(),
        valid_coords(x, y),
        pre.spec_region(x, y) is Some,
        newr.total_funded == pre.spec_region(x, y).unwrap().total_funded,
        post.season.total_funded == pre.season.total_funded,
        post.season.regions_funded == pre.season.regions_funded,
        post.regions@ == pre.regions@.update(region_slot(x, y), Some(newr)),
        post.contributions@ == pre.contributions@,
    ensures
        post.accounting_wf(),
        forall |a: u8, b: u8| valid_coords(a, b) && !(a == x && b == y)
            ==> post.spec_region(a, b) == pre.spec_region(a, b),
        post.spec_region(x, y) == Some(newr),
{
    let slot = region_slot(x, y);
    assert(0 <= slot < pre.regions@.len());
    assert forall |a: u8, b: u8| valid_coords(a, b) && !(a == x && b == y)
        implies post.spec_region(a, b) == pre.spec_region(a, b) by {
        lemma_region_slot_injective(a, b, x, y);
    }
    assert forall |a: u8, b: u8| valid_coords(a, b)
        implies #[trigger] contribution_sum(post.contributions@, a, b)
            == slot_funds(post.spec_region(a, b)) by {
        assert(contribution_sum(pre.contributions@, a, b) == slot_funds(pre.spec_region(a, b)));
        if a == x && b == y {
            assert(post.spec_region(a, b) == Some(newr));
        } else {
            lemma_region_slot_injective(a, b, x, y);
        }
    }
    lemma_funded_total_update(pre.regions@, slot, Some(newr));
    lemma_funded_count_update(pre.regions@, slot, Some(newr));
}

/// A successful region finalization preserves the store invariant.
pub proof fn lemma_finalize_region_preserves_wf(pre: Canvas, post: Canvas, x: u8, y: u8, artist: AccountId)
    requires
        pre.wf(),
        valid_coords(x, y),
        pre.spec_region(x, y) is Some,
        pre.spec_region(x, y).unwrap().winning_bid is None,
        has_bid(pre.bids@, x, y, artist),
        bid_for(pre.bids@, x, y, artist).vote_weight > 0,
        finalize_region_applied(pre, post, x, y, artist),
    ensures
        post.wf(),
{
    let slot = region_slot(x, y);
    let oldr = pre.spec_region(x, y).unwrap();
    let newr = awarded_region(oldr, artist);
    let bi = bid_index(pre.bids@, x, y, artist);
    let b = pre.bids@[bi];
    assert(0 <= slot < pre.regions@.len());
    assert(0 <= bi < pre.bids@.len() && is_bid(b, x, y, artist));
    lemma_same_funds_update(pre, post, x, y, newr);

    // Region slots.
    assert forall |i: int| 0 <= i < post.regions@.len() implies slot_wf(#[trigger] post.regions@[i], i) by {
        if i == slot {
            assert(slot_wf(pre.regions@[i], i));
        } else {
            assert(post.regions@[i] == pre.regions@[i]);
            assert(slot_wf(pre.regions@[i], i));
        }
    }

    // Contribution entries: records untouched, their regions still created.
    assert forall |j: int| 0 <= j < post.contributions@.len()
        implies post.contribution_entry_wf(#[trigger] post.contributions@[j]) by {
        let c = post.contributions@[j];
        assert(pre.contribution_entry_wf(c));
        if !(c.x == x && c.y == y) {
            lemma_region_slot_injective(c.x, c.y, x, y);
        }
    }

    // Bid entries: the awarded bid gains its winner mark; no other bid of this
    // region was a winner, since the region had no winning-bid pointer.
    assert forall |j: int| 0 <= j < post.bids@.len()
        implies post.bid_entry_wf(#[trigger] post.bids@[j]) by {
        assert(pre.bid_entry_wf(pre.bids@[j]));
        if j == bi {
            assert(post.bids@[j] == winning_bid_record(b));
        } else {
            assert(post.bids@[j] == pre.bids@[j]);
            if !(pre.bids@[j].x == x && pre.bids@[j].y == y) {
                lemma_region_slot_injective(pre.bids@[j].x, pre.bids@[j].y, x, y);
            }
        }
    }
    assert(bids_unique(post.bids@)) by {
        assert forall |j: int, k: int| #![trigger post.bids@[j], post.bids@[k]]
            0 <= j < k < post.bids@.len()
            implies !same_bid_key(post.bids@[j], post.bids@[k]) by {
            assert(!same_bid_key(pre.bids@[j], pre.bids@[k]));
        }
    }

    // Winner links.
    assert forall |i: int| 0 <= i < post.regions@.len() implies match #[trigger] post.regions@[i] {
        Some(r) => match r.winning_bid {
            Some(a) => has_bid(post.bids@, r.x, r.y, a) && bid_for(post.bids@, r.x, r.y, a).is_winner,
            None => true,
        },
        None => true,
    } by {
        if i == slot {
            assert(is_bid(post.bids@[bi], x, y, artist));
            lemma_bid_index_is(post.bids@, bi, x, y, artist);
        } else {
            assert(post.regions@[i] == pre.regions@[i]);
            match pre.regions@[i] {
                Some(r) => match r.winning_bid {
                    Some(a) => {
                        let j = bid_index(pre.bids@, r.x, r.y, a);
                        assert(has_bid(pre.bids@, r.x, r.y, a));
                        assert(0 <= j < pre.bids@.len() && is_bid(pre.bids@[j], r.x, r.y, a));
                        assert(is_bid(post.bids@[j], r.x, r.y, a));
                        assert(post.bids@[j].is_winner);
                        lemma_bid_index_is(post.bids@, j, r.x, r.y, a);
                    },
                    None => {},
                },
                None => {},
            }
        }
    }
}

/// A successful art submission preserves the store invariant.
pub proof fn lemma_submit_art_preserves_wf(pre: Canvas, post: Canvas, x: u8, y: u8, artist: AccountId, uri: String)
    requires
        pre.wf(),
        valid_coords(x, y),
        pre.spec_region(x, y) is Some,
        has_bid(pre.bids@, x, y, artist),
        bid_for(pre.bids@, x, y, artist).is_winner,
        bid_for(pre.bids@, x, y, artist).final_art_uri is None,
        uri@.len() <= MAX_URI_LEN as int,
        submit_final_art_applied(pre, post, x, y, artist, uri),
    ensures
        post.wf(),
{
    let slot = region_slot(x, y);
    let oldr = pre.spec_region(x, y).unwrap();
    let newr = painted_region(oldr, uri);
    let bi = bid_index(pre.bids@, x, y, artist);
    let b = pre.bids@[bi];
    assert(0 <= slot < pre.regions@.len());
    assert(0 <= bi < pre.bids@.len() && is_bid(b, x, y, artist));
    assert(pre.bid_entry_wf(b));
    assert(oldr.winning_bid == Some(artist));
    lemma_same_funds_update(pre, post, x, y, newr);

    // Region slots.
    assert forall |i: int| 0 <= i < post.regions@.len() implies slot_wf(#[trigger] post.regions@[i], i) by {
        if i == slot {
            assert(slot_wf(pre.regions@[i], i));
        } else {
            assert(post.regions@[i] == pre.regions@[i]);
            assert(slot_wf(pre.regions@[i], i));
        }
    }

    // Contribution entries.
    assert forall |j: int| 0 <= j < post.contributions@.len()
        implies post.contribution_entry_wf(#[trigger] post.contributions@[j]) by {
        let c = post.contributions@[j];
        assert(pre.contribution_entry_wf(c));
        if !(c.x == x && c.y == y) {
            lemma_region_slot_injective(c.x, c.y, x, y);
        }
    }

    // Bid entries.
    assert forall |j: int| 0 <= j < post.bids@.len()
        implies post.bid_entry_wf(#[trigger] post.bids@[j]) by {
        assert(pre.bid_entry_wf(pre.bids@[j]));
        if j == bi {
            assert(post.bids@[j] == art_bid_record(b, uri));
        } else {
            assert(post.bids@[j] == pre.bids@[j]);
            if !(pre.bids@[j].x == x && pre.bids@[j].y == y) {
                lemma_region_slot_injective(pre.bids@[j].x, pre.bids@[j].y, x, y);
            }
        }
    }
    assert(bids_unique(post.bids@)) by {
        assert forall |j: int, k: int| #![trigger post.bids@[j], post.bids@[k]]
            0 <= j < k < post.bids@.len()
            implies !same_bid_key(post.bids@[j], post.bids@[k]) by {
            assert(!same_bid_key(pre.bids@[j], pre.bids@[k]));
        }
    }

    // Winner links.
    assert forall |i: int| 0 <= i < post.regions@.len() implies match #[trigger] post.regions@[i] {
        Some(r) => match r.winning_bid {
            Some(a) => has_bid(post.bids@, r.x, r.y, a) && bid_for(post.bids@, r.x, r.y, a).is_winner,
            None => true,
        },
        None => true,
    } by {
        match post.regions@[i] {
            Some(r) => match r.winning_bid {
                Some(a) => {
                    let j = bid_index(pre.bids@, r.x, r.y, a);
                    if i == slot {
                        assert(r == newr && r.x == x && r.y == y);
                    } else {
                        assert(post.regions@[i] == pre.regions@[i]);
                    }
                    assert(has_bid(pre.bids@, r.x, r.y, a));
                    assert(0 <= j < pre.bids@.len() && is_bid(pre.bids@[j], r.x, r.y, a));
                    assert(is_bid(post.bids@[j], r.x, r.y, a));
                    assert(post.bids@[j].is_winner);
                    lemma_bid_index_is(post.bids@, j, r.x, r.y, a);
                },
                None => {},
            },
            None => {},
        }
    }
}

/// A successful payout preserves the store invariant.
pub proof fn lemma_claim_preserves_wf(pre: Canvas, post: Canvas, x: u8, y: u8, artist: AccountId)
    requires
        pre.wf(),
        valid_coords(x, y),
        pre.spec_region(x, y) is Some,
        has_bid(pre.bids@, x, y, artist),
        pre.spec_region(x, y).unwrap().escrow >= bid_for(pre.bids@, x, y, artist).requested_amount,
        claim_payout_applied(pre, post, x, y, artist),
    ensures
        post.wf(),
{
    let slot = region_slot(x, y);
    let oldr = pre.spec_region(x, y).unwrap();
    let newr = drained_region(oldr, bid_for(pre.bids@, x, y, artist).requested_amount);
    assert(0 <= slot < pre.regions@.len());
    lemma_same_funds_update(pre, post, x, y, newr);

    // Region slots: the escrow shrinks, which keeps it within the funds.
    assert forall |i: int| 0 <= i < post.regions@.len() implies slot_wf(#[trigger] post.regions@[i], i) by {
        if i == slot {
            assert(slot_wf(pre.regions@[i], i));
        } else {
            assert(post.regions@[i] == pre.regions@[i]);
            assert(slot_wf(pre.regions@[i], i));
        }
    }

    // Contribution entries.
    assert forall |j: int| 0 <= j < post.contributions@.len()
        implies post.contribution_entry_wf(#[trigger] post.contributions@[j]) by {
        let c = post.contributions@[j];
        assert(pre.contribution_entry_wf(c));
        if !(c.x == x && c.y == y) {
            lemma_region_slot_injective(c.x, c.y, x, y);
        }
    }

    // Bid entries.
    assert forall |j: int| 0 <= j < post.bids@.len()
        implies post.bid_entry_wf(#[trigger] post.bids@[j]) by {
        assert(pre.bid_entry_wf(pre.bids@[j]));
        if !(pre.bids@[j].x == x && pre.bids@[j].y == y) {
            lemma_region_slot_injective(pre.bids@[j].x, pre.bids@[j].y, x, y);
        }
    }

    // Winner links: bids unchanged, pointers unchanged.
    assert forall |i: int| 0 <= i < post.regions@.len() implies match #[trigger] post.regions@[i] {
        Some(r) => match r.winning_bid {
            Some(a) => has_bid(post.bids@, r.x, r.y, a) && bid_for(post.bids@, r.x, r.y, a).is_winner,
            None => true,
        },
        None => true,
    } by {
        if i != slot {
            assert(post.regions@[i] == pre.regions@[i]);
        }
    }
}

} // verus!
