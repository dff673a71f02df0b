//! Store-facing data shapes: the parameter blocks handed to the external
//! relational store and the row shapes it returns.
//!
//! The store speaks in nullable parameters, so most fields are `Option`s.
//! Ratings and the shuffle seed are 32-bit floats at the store boundary and
//! a 64-bit float at the client boundary; this crate carries them as their
//! IEEE-754 bit patterns (`u32`/`u64`) and leaves the reinterpretation to
//! the unverified rim.

use vstd::prelude::*;

verus! {

/// One row returned by the set-listing store call.
#[derive(Debug)]
pub struct GetSetResults {
    pub id: i32,
    pub name: String,
}

/// One row returned by the card-listing store call.
#[derive(Debug)]
pub struct GetCardResults {
    pub id: i32,
    pub format_text: String,
    pub is_black: bool,
    pub parent_set_id: i32,
    pub parent_set_name: String,
    pub total_votes: i32,
    /// IEEE-754 bits of the 32-bit average rating; absent until the card
    /// has votes.
    pub average_rating: Option<u32>,
}

/// Parameters of the card-creation store call.
#[derive(Debug)]
pub struct AddCard {
    pub user_id: i32,
    pub format_text: String,
    pub is_black: bool,
}

/// Row returned by the card-creation store call: the new card's id.
#[derive(Debug)]
pub struct AddCardResult {
    pub id: i32,
}

/// Parameters of the card-rating store call.
#[derive(Debug)]
pub struct AddCardRating {
    pub user_id: i32,
    pub card_id: i32,
    /// IEEE-754 bits of the 64-bit rating as submitted; the store takes it
    /// narrowed to 32 bits.
    pub rating: u64,
}

/// Row returned by the card-rating store call: the post-upsert aggregates.
#[derive(Debug)]
pub struct AddCardRatingResult {
    pub total_votes: i32,
    /// IEEE-754 bits of the 32-bit average rating.
    pub average_rating: u32,
}

/// Parameters of the combination-rating store call.
#[derive(Debug)]
pub struct AddCardRatingCombination {
    pub user_id: i32,
    pub white_card_id: i32,
    pub black_card_id: i32,
    /// IEEE-754 bits of the 64-bit rating as submitted.
    pub rating: u64,
    pub ordinal: i32,
}

/// Parameters of the set-listing store call.
#[derive(Debug)]
pub struct GetSets {
    pub search: Option<String>,
    pub n_results: Option<i32>,
    pub cursor: Option<i32>,
}

impl GetSets {
    /// Fresh parameter block: no search, no cursor, a limit of 100.
    pub fn default() -> (r: GetSets)
        ensures
            r.search is None,
            r.n_results == Some(100i32),
            r.cursor is None,
    {
        GetSets { search: None, n_results: Some(100), cursor: None }
    }
}

/// Parameters of the card-listing store call.
#[derive(Debug)]
pub struct GetCards {
    pub search: Option<String>,
    pub filter_black: Option<bool>,
    pub previous_cursor: Option<i32>,
    pub n_cards: Option<i32>,
    pub card_sets: Option<Vec<i32>>,
    pub get_random: Option<bool>,
    /// IEEE-754 bits of the 32-bit shuffle seed.
    pub random_seed: Option<u32>,
    pub user_submitted: Option<bool>,
}

impl GetCards {
    /// Fresh parameter block: a limit of 100, no shuffle, official cards
    /// only, no other filters.
    pub fn default() -> (r: GetCards)
        ensures
            r.search is None,
            r.filter_black is None,
            r.previous_cursor is None,
            r.n_cards == Some(100i32),
            r.card_sets is None,
            r.get_random == Some(false),
            r.random_seed is None,
            r.user_submitted == Some(false),
    {
        GetCards {
            search: None,
            filter_black: None,
            previous_cursor: None,
            n_cards: Some(100),
            card_sets: None,
            get_random: Some(false),
            random_seed: None,
            user_submitted: Some(false),
        }
    }
}

/// Connection-pool sizing for the store. Purely configuration; the pool
/// itself lives outside this crate.
#[derive(Debug)]
pub struct PoolConfiguration {
    pub min_idle: Option<u32>,
    pub max_size: u32,
}

impl PoolConfiguration {
    /// Default sizing: no idle floor, four connections.
    pub fn default() -> (r: PoolConfiguration)
        ensures
            r.min_idle is None,
            r.max_size == 4,
    {
        PoolConfiguration { min_idle: None, max_size: 4 }
    }
}

} // verus!
