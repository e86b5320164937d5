use vstd::prelude::*;

use crate::state::{Bid, Contribution, Region};

verus! {

// ---------------------------------------------------------------------------
// Keyed lookup of contributions: one record per (region, funder).
// ---------------------------------------------------------------------------

/// `c` is the contribution of `funder` for the region at (x, y).
pub open spec fn is_contribution(c: Contribution, x: u8, y: u8, funder: u64) -> bool {
    c.x == x && c.y == y && c.contributor == funder
}

/// Two contribution records address the same (region, funder) pair.
pub open spec fn same_contribution_key(a: Contribution, b: Contribution) -> bool {
    a.x == b.x && a.y == b.y && a.contributor == b.contributor
}

pub open spec fn has_contribution(s: Seq<Contribution>, x: u8, y: u8, funder: u64) -> bool {
    exists |j: int| 0 <= j < s.len() && is_contribution(#[trigger] s[j], x, y, funder)
}

pub open spec fn contribution_index(s: Seq<Contribution>, x: u8, y: u8, funder: u64) -> int {
    choose |j: int| 0 <= j < s.len() && is_contribution(#[trigger] s[j], x, y, funder)
}

pub open spec fn contribution_for(s: Seq<Contribution>, x: u8, y: u8, funder: u64) -> Contribution {
    s[contribution_index(s, x, y, funder)]
}

/// No two records address the same (region, funder) pair.
pub open spec fn contributions_unique(s: Seq<Contribution>) -> bool {
    forall |j: int, k: int| #![trigger s[j], s[k]]
        0 <= j < k < s.len() ==> !same_contribution_key(s[j], s[k])
}

/// Under uniqueness, the chosen index of a present key is the index where it sits.
pub proof fn lemma_contribution_index_is(s: Seq<Contribution>, j: int, x: u8, y: u8, funder: u64)
    requires
        contributions_unique(s),
        0 <= j < s.len(),
        is_contribution(s[j], x, y, funder),
    ensures
        has_contribution(s, x, y, funder),
        contribution_index(s, x, y, funder) == j,
{
    assert(has_contribution(s, x, y, funder));
    let k = contribution_index(s, x, y, funder);
    if k != j {
        assert(same_contribution_key(s[j], s[k]));
        assert(false);
    }
}

// ---------------------------------------------------------------------------
// Keyed lookup of bids: one record per (region, artist).
// ---------------------------------------------------------------------------

/// `b` is the bid of `artist` for the region at (x, y).
pub open spec fn is_bid(b: Bid, x: u8, y: u8, artist: u64) -> bool {
    b.x == x && b.y == y && b.artist == artist
}

/// Two bid records address the same (region, artist) pair.
pub open spec fn same_bid_key(a: Bid, b: Bid) -> bool {
    a.x == b.x && a.y == b.y && a.artist == b.artist
}

pub open spec fn has_bid(s: Seq<Bid>, x: u8, y: u8, artist: u64) -> bool {
    exists |j: int| 0 <= j < s.len() && is_bid(#[trigger] s[j], x, y, artist)
}

pub open spec fn bid_index(s: Seq<Bid>, x: u8, y: u8, artist: u64) -> int {
    choose |j: int| 0 <= j < s.len() && is_bid(#[trigger] s[j], x, y, artist)
}

pub open spec fn bid_for(s: Seq<Bid>, x: u8, y: u8, artist: u64) -> Bid {
    s[bid_index(s, x, y, artist)]
}

/// No two records address the same (region, artist) pair.
pub open spec fn bids_unique(s: Seq<Bid>) -> bool {
    forall |j: int, k: int| #![trigger s[j], s[k]]
        0 <= j < k < s.len() ==> !same_bid_key(s[j], s[k])
}

/// Under uniqueness, the chosen index of a present key is the index where it sits.
pub proof fn lemma_bid_index_is(s: Seq<Bid>, j: int, x: u8, y: u8, artist: u64)
    requires
        bids_unique(s),
        0 <= j < s.len(),
        is_bid(s[j], x, y, artist),
    ensures
        has_bid(s, x, y, artist),
        bid_index(s, x, y, artist) == j,
{
    assert(has_bid(s, x, y, artist));
    let k = bid_index(s, x, y, artist);
    if k != j {
        assert(same_bid_key(s[j], s[k]));
        assert(false);
    }
}

// ---------------------------------------------------------------------------
// Fund accounting: the sum of the contributions of one region.
// ---------------------------------------------------------------------------

/// What `c` adds to the pool of the region at (x, y).
pub open spec fn region_amount(c: Contribution, x: u8, y: u8) -> int {
    if c.x == x && c.y == y {
        c.amount as int
    } else {
        0
    }
}

/// Sum of the amounts of every contribution addressed to the region at (x, y).
pub open spec fn contribution_sum(s: Seq<Contribution>, x: u8, y: u8) -> int
    decreases s.len(),
{
    if s.len() == 0 {
        0
    } else {
        contribution_sum(s.drop_last(), x, y) + region_amount(s.last(), x, y)
    }
}

pub proof fn lemma_contribution_sum_nonneg(s: Seq<Contribution>, x: u8, y: u8)
    ensures
        contribution_sum(s, x, y) >= 0,
    decreases s.len(),
{
    if s.len() > 0 {
        lemma_contribution_sum_nonneg(s.drop_last(), x, y);
    }
}

pub proof fn lemma_contribution_sum_update(s: Seq<Contribution>, j: int, c: Contribution, x: u8, y: u8)
    requires
        0 <= j < s.len(),
    ensures
        contribution_sum(s.update(j, c), x, y)
            == contribution_sum(s, x, y) - region_amount(s[j], x, y) + region_amount(c, x, y),
    decreases s.len(),
{
    let t = s.update(j, c);
    if j == s.len() - 1 {
        assert(t.drop_last() =~= s.drop_last());
        assert(t.last() == c);
    } else {
        assert(t.drop_last() =~= s.drop_last().update(j, c));
        assert(t.last() == s.last());
        lemma_contribution_sum_update(s.drop_last(), j, c, x, y);
    }
}

pub proof fn lemma_contribution_sum_push(s: Seq<Contribution>, c: Contribution, x: u8, y: u8)
    ensures
        contribution_sum(s.push(c), x, y) == contribution_sum(s, x, y) + region_amount(c, x, y),
{
    assert(s.push(c).drop_last() =~= s);
    assert(s.push(c).last() == c);
}

/// A single matching contribution never exceeds the pool it feeds.
pub proof fn lemma_contribution_sum_element(s: Seq<Contribution>, j: int, x: u8, y: u8)
    requires
        0 <= j < s.len(),
        s[j].x == x,
        s[j].y == y,
    ensures
        contribution_sum(s, x, y) >= s[j].amount,
    decreases s.len(),
{
    if j == s.len() - 1 {
        lemma_contribution_sum_nonneg(s.drop_last(), x, y);
    } else {
        assert(s.drop_last()[j] == s[j]);
        lemma_contribution_sum_element(s.drop_last(), j, x, y);
    }
}

// ---------------------------------------------------------------------------
// Grid accounting: totals and counts over the region slots.
// ---------------------------------------------------------------------------

/// Funds collected by the region held in one slot.
pub open spec fn slot_funds(r: Option<Region>) -> int {
    match r {
        Some(rg) => rg.total_funded as int,
        None => 0,
    }
}

/// Whether the slot holds a region that received at least one deposit.
pub open spec fn slot_funded(r: Option<Region>) -> int {
    match r {
        Some(_) => 1,
        None => 0,
    }
}

/// Sum of `total_funded` over every created region.
pub open spec fn funded_total(rs: Seq<Option<Region>>) -> int
    decreases rs.len(),
{
    if rs.len() == 0 {
        0
    } else {
        funded_total(rs.drop_last()) + slot_funds(rs.last())
    }
}

/// Number of regions that received at least one deposit.
pub open spec fn funded_count(rs: Seq<Option<Region>>) -> int
    decreases rs.len(),
{
    if rs.len() == 0 {
        0
    } else {
        funded_count(rs.drop_last()) + slot_funded(rs.last())
    }
}

pub proof fn lemma_funded_total_nonneg(rs: Seq<Option<Region>>)
    ensures
        funded_total(rs) >= 0,
    decreases rs.len(),
{
    if rs.len() > 0 {
        lemma_funded_total_nonneg(rs.drop_last());
    }
}

pub proof fn lemma_funded_total_update(rs: Seq<Option<Region>>, i: int, r: Option<Region>)
    requires
        0 <= i < rs.len(),
    ensures
        funded_total(rs.update(i, r)) == funded_total(rs) - slot_funds(rs[i]) + slot_funds(r),
    decreases rs.len(),
{
    let t = rs.update(i, r);
    if i == rs.len() - 1 {
        assert(t.drop_last() =~= rs.drop_last());
        assert(t.last() == r);
    } else {
        assert(t.drop_last() =~= rs.drop_last().update(i, r));
        assert(t.last() == rs.last());
        lemma_funded_total_update(rs.drop_last(), i, r);
    }
}

pub proof fn lemma_funded_total_push(rs: Seq<Option<Region>>, r: Option<Region>)
    ensures
        funded_total(rs.push(r)) == funded_total(rs) + slot_funds(r),
{
    assert(rs.push(r).drop_last() =~= rs);
    assert(rs.push(r).last() == r);
}

/// One slot's funds never exceed the season-wide total.
pub proof fn lemma_funded_total_element(rs: Seq<Option<Region>>, i: int)
    requires
        0 <= i < rs.len(),
    ensures
        funded_total(rs) >= slot_funds(rs[i]),
    decreases rs.len(),
{
    if i == rs.len() - 1 {
        lemma_funded_total_nonneg(rs.drop_last());
    } else {
        assert(rs.drop_last()[i] == rs[i]);
        lemma_funded_total_element(rs.drop_last(), i);
        assert(slot_funds(rs.last()) >= 0);
    }
}

pub proof fn lemma_funded_count_update(rs: Seq<Option<Region>>, i: int, r: Option<Region>)
    requires
        0 <= i < rs.len(),
    ensures
        funded_count(rs.update(i, r)) == funded_count(rs) - slot_funded(rs[i]) + slot_funded(r),
    decreases rs.len(),
{
    let t = rs.update(i, r);
    if i == rs.len() - 1 {
        assert(t.drop_last() =~= rs.drop_last());
        assert(t.last() == r);
    } else {
        assert(t.drop_last() =~= rs.drop_last().update(i, r));
        assert(t.last() == rs.last());
        lemma_funded_count_update(rs.drop_last(), i, r);
    }
}

pub proof fn lemma_funded_count_push(rs: Seq<Option<Region>>, r: Option<Region>)
    ensures
        funded_count(rs.push(r)) == funded_count(rs) + slot_funded(r),
{
    assert(rs.push(r).drop_last() =~= rs);
    assert(rs.push(r).last() == r);
}

/// A vote, once cast, is never revoked and never redirected: `has_voted`
/// flips false -> true at most once, and `voted_bid`, once set, never changes.
pub open spec fn votes_monotone(pre: Seq<Contribution>, post: Seq<Contribution>) -> bool {
    &&& pre.len() <= post.len()
    &&& forall |j: int| 0 <= j < pre.len()
        ==> ((#[trigger] pre[j]).has_voted ==> post[j].has_voted && post[j].voted_bid == pre[j].voted_bid)
}

/// The count of funded regions is bounded by the number of slots.
pub proof fn lemma_funded_count_bounds(rs: Seq<Option<Region>>)
    ensures
        0 <= funded_count(rs) <= rs.len(),
    decreases rs.len(),
{
    if rs.len() > 0 {
        lemma_funded_count_bounds(rs.drop_last());
    }
}

} // verus!
