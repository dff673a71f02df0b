//! Client-facing data shapes: request fields as they arrive from the
//! transport, and response pages as they are handed back.
//!
//! Cursor and seed fields cross the wire as opaque tokens (strings); inside
//! a page result they are held decoded (`i32` boundary / `u32` seed bits)
//! and re-encoded on the way out by the token methods.

use vstd::prelude::*;

use crate::codec;

verus! {

/// A card is either a black prompt or a white answer.
#[derive(Clone, Copy, Debug, PartialEq, Eq, Structural)]
pub enum CardColor {
    Black,
    White,
}

/// Provenance filter: everything, end-user submissions only, or the
/// official deck only.
#[derive(Clone, Copy, Debug, PartialEq, Eq, Structural)]
pub enum CardSource {
    All,
    User,
    Official,
}

/// Pagination fields as supplied by the client: an optional cursor token,
/// the requested page size, and an optional seed token for shuffled scans.
#[derive(Debug)]
pub struct Pagination {
    pub cursor: Option<String>,
    pub page_size: i32,
    pub random_seed: Option<String>,
}

/// A set a card belongs to, as embedded in card listings.
#[derive(Debug)]
pub struct SetInfo {
    pub id: i32,
    pub name: String,
}

/// One card in a listing, with its aggregates and owning set.
#[derive(Debug)]
pub struct Card {
    pub id: i32,
    pub format_text: String,
    pub color: CardColor,
    /// IEEE-754 bits of the 32-bit average rating; absent while the card
    /// has no votes.
    pub average_rating: Option<u32>,
    pub total_votes: i32,
    pub set: SetInfo,
}

/// Echo of a newly created card.
#[derive(Debug)]
pub struct CardOperation {
    pub id: i32,
    pub format_text: String,
    pub color: CardColor,
}

/// One page of cards plus continuation metadata.
#[derive(Debug)]
pub struct CardResult {
    pub results: Vec<Card>,
    pub last_cursor: Option<i32>,
    pub has_next_page: bool,
    /// IEEE-754 bits of the seed in effect, echoed so the client can
    /// replay the same shuffle; absent when shuffling was not requested.
    pub random_seed: Option<u32>,
}

impl CardResult {
    /// The continuation cursor as an opaque token.
    pub fn last_cursor_token(&self) -> (r: Option<String>)
        ensures
            match self.last_cursor {
                Some(c) => r matches Some(t) && t@ == codec::encoded_i32(c),
                None => r is None,
            },
    {
        match self.last_cursor {
            Some(c) => Some(codec::encode_i32(c)),
            None => None,
        }
    }

    /// The seed in effect as an opaque token.
    pub fn random_seed_token(&self) -> (r: Option<String>)
        ensures
            match self.random_seed {
                Some(u) => r matches Some(t) && t@ == codec::encoded_seed(u),
                None => r is None,
            },
    {
        match self.random_seed {
            Some(u) => Some(codec::encode_seed(u)),
            None => None,
        }
    }
}

/// A set looked up by id.
#[derive(Debug)]
pub struct CardSet {
    pub id: i32,
    pub name: String,
}

/// One page of sets plus continuation metadata.
#[derive(Debug)]
pub struct SetResult {
    pub results: Vec<SetInfo>,
    pub last_cursor: Option<i32>,
    pub has_next_page: bool,
}

impl SetResult {
    /// The continuation cursor as an opaque token.
    pub fn last_cursor_token(&self) -> (r: Option<String>)
        ensures
            match self.last_cursor {
                Some(c) => r matches Some(t) && t@ == codec::encoded_i32(c),
                None => r is None,
            },
    {
        match self.last_cursor {
            Some(c) => Some(codec::encode_i32(c)),
            None => None,
        }
    }
}

/// Echo of a card rating, with the post-upsert aggregates.
#[derive(Debug)]
pub struct CardRatingResult {
    pub id: i32,
    /// IEEE-754 bits of the 64-bit rating as submitted.
    pub rating: u64,
    pub total_votes: i32,
    /// IEEE-754 bits of the 32-bit average rating.
    pub average_rating: u32,
}

/// Static attribution block for the source card game.
#[derive(Debug)]
pub struct CardsAgainstHumanity {}

impl CardsAgainstHumanity {
    pub fn url(&self) -> (r: String)
        ensures
            r@ == "https://cardsagainsthumanity.com/"@,
    {
        "https://cardsagainsthumanity.com/".to_owned()
    }

    pub fn license(&self) -> (r: String)
        ensures
            r@ == "https://creativecommons.org/licenses/by-nc-sa/2.0/legalcode"@,
    {
        "https://creativecommons.org/licenses/by-nc-sa/2.0/legalcode".to_owned()
    }

    pub fn theme_song(&self) -> (r: String)
        ensures
            r@ == "https://soundcloud.com/cards-against-humanity/a-good-game-of-cards"@,
    {
        "https://soundcloud.com/cards-against-humanity/a-good-game-of-cards".to_owned()
    }
}

/// The API version advertised to clients.
pub fn api_version() -> (r: String)
    ensures
        r@ == "0.1.0"@,
{
    "0.1.0".to_owned()
}

/// The license the catalog's content is published under.
pub fn license() -> (r: String)
    ensures
        r@ == "https://creativecommons.org/licenses/by-nc-sa/2.0/legalcode"@,
{
    "https://creativecommons.org/licenses/by-nc-sa/2.0/legalcode".to_owned()
}

/// The project's authors.
pub fn authors() -> (r: Vec<String>)
    ensures
        r@.len() == 5,
{
    let mut v: Vec<String> = Vec::new();
    v.push("Nicholas Dolan".to_owned());
    v.push("Cameron Otts".to_owned());
    v.push("Grace Chenevert".to_owned());
    v.push("Aaron Dentro".to_owned());
    v.push("Patrick Dolan".to_owned());
    v
}

} // verus!
