//! Core logic of a card-catalog query API: opaque pagination cursors,
//! bounds-checked query descriptors, result windowing with has-more
//! detection, and rating upserts.
//!
//! The surrounding transport and the relational store are kept outside this
//! crate; everything here works on plain values handed across that boundary.
//! Floating-point quantities (the shuffle seed, ratings) are carried as their
//! IEEE-754 bit patterns so that the logic around them can be verified.

pub mod codec;
pub mod gql;
pub mod models;
pub mod query;
pub mod ratings;
pub mod window;

use vstd::prelude::*;

verus! {

/// Client-facing error kinds. Validation failures are detected before any
/// store call; store failures map to `UnexpectedError`.
#[derive(Clone, Copy, Debug, PartialEq, Eq, Structural)]
pub enum GqlError {
    /// A cursor or seed token was not valid binary-to-text encoding.
    DecodeError,
    /// A submitted card had blank display text.
    EmptyFormatText,
    /// A referenced id was not parseable as a 32-bit integer.
    InvalidID,
    /// Requested page size was outside [0, 1000].
    LimitOutOfBounds,
    /// A combination-rating ordinal was negative.
    NegativeOrdinal,
    /// A rating was outside the closed interval [0, 1].
    RatingOutOfBounds,
    /// A lookup by id matched no row.
    NotFound,
    /// Any store failure not otherwise classified.
    UnexpectedError,
}

impl GqlError {
    /// The text of the client-facing message for this error kind. Store
    /// failures all read the same: no internal detail is leaked.
    pub open spec fn message_spec(self) -> Seq<char> {
        match self {
            GqlError::DecodeError => "Provided ID value was not a valid format"@,
            GqlError::EmptyFormatText => "Format text cannot be empty"@,
            GqlError::InvalidID => "ID Field not a valid ID type"@,
            GqlError::LimitOutOfBounds => "0 ≤ Page Size ≤ 1000"@,
            GqlError::NegativeOrdinal => "Ordinal cannot be negative"@,
            GqlError::RatingOutOfBounds => "0 ≤ Rating ≤ 1"@,
            GqlError::NotFound => "Not Found"@,
            GqlError::UnexpectedError => "Server Error!"@,
        }
    }

    /// The short human-readable message surfaced for this error kind.
    pub fn message(self) -> (r: String)
        ensures
            r@ == self.message_spec(),
    {
        match self {
            GqlError::DecodeError => "Provided ID value was not a valid format".to_owned(),
            GqlError::EmptyFormatText => "Format text cannot be empty".to_owned(),
            GqlError::InvalidID => "ID Field not a valid ID type".to_owned(),
            GqlError::LimitOutOfBounds => "0 ≤ Page Size ≤ 1000".to_owned(),
            GqlError::NegativeOrdinal => "Ordinal cannot be negative".to_owned(),
            GqlError::RatingOutOfBounds => "0 ≤ Rating ≤ 1".to_owned(),
            GqlError::NotFound => "Not Found".to_owned(),
            GqlError::UnexpectedError => "Server Error!".to_owned(),
        }
    }
}

} // verus!
