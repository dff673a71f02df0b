//! Query parameter building: turning raw request fields into a validated,
//! bounds-checked store descriptor, or failing fast with the matching
//! error before any store call is made.

use vstd::prelude::*;
use vstd::string::StrSliceExecFns;

use crate::GqlError;
use crate::codec;
use crate::gql::{CardColor, CardSource, Pagination};
use crate::models::{AddCard, AddCardRating, AddCardRatingCombination, GetCards, GetSets};

verus! {

// ---------------------------------------------------------------------
// Decimal id parsing
// ---------------------------------------------------------------------

pub open spec fn is_digit(c: char) -> bool {
    48 <= c as u32 <= 57
}

pub open spec fn digit_val(c: char) -> int {
    c as u32 - 48
}

pub open spec fn all_digits(s: Seq<char>) -> bool {
    forall|i: int| 0 <= i < s.len() ==> is_digit(#[trigger] s[i])
}

/// The number written by a digit string, most significant digit first.
pub open spec fn digits_value(s: Seq<char>) -> int
    decreases s.len(),
{
    if s.len() == 0 {
        0
    } else {
        digits_value(s.drop_last()) * 10 + digit_val(s.last())
    }
}

pub open spec fn has_sign(s: Seq<char>) -> bool {
    s.len() > 0 && (s[0] == '+' || s[0] == '-')
}

pub open spec fn is_negative(s: Seq<char>) -> bool {
    s.len() > 0 && s[0] == '-'
}

pub open spec fn digit_body(s: Seq<char>) -> Seq<char> {
    if has_sign(s) {
        s.subrange(1, s.len() as int)
    } else {
        s
    }
}

/// Whether `s` is a decimal literal an `i32` can hold: an optional sign,
/// then one or more ASCII digits, with the signed value in range.
pub open spec fn is_i32_literal(s: Seq<char>) -> bool {
    &&& digit_body(s).len() > 0
    &&& all_digits(digit_body(s))
    &&& if is_negative(s) {
        digits_value(digit_body(s)) <= 0x8000_0000
    } else {
        digits_value(digit_body(s)) <= 0x7fff_ffff
    }
}

pub open spec fn i32_literal_value(s: Seq<char>) -> int {
    if is_negative(s) {
        -digits_value(digit_body(s))
    } else {
        digits_value(digit_body(s))
    }
}

proof fn lemma_digits_value_nonneg(s: Seq<char>)
    requires
        all_digits(s),
    ensures
        digits_value(s) >= 0,
    decreases s.len(),
{
    if s.len() > 0 {
        assert(all_digits(s.drop_last())) by {
            assert forall|i: int| 0 <= i < s.drop_last().len() implies is_digit(
                #[trigger] s.drop_last()[i],
            ) by {
                assert(s.drop_last()[i] == s[i]);
            }
        }
        lemma_digits_value_nonneg(s.drop_last());
        assert(is_digit(s.last()));
    }
}

proof fn lemma_all_digits_take(s: Seq<char>, i: int)
    requires
        all_digits(s),
        0 <= i <= s.len(),
    ensures
        all_digits(s.take(i)),
{
    assert forall|j: int| 0 <= j < s.take(i).len() implies is_digit(#[trigger] s.take(i)[j]) by {
        assert(s.take(i)[j] == s[j]);
    }
}

/// A digit string is worth at least any of its prefixes.
proof fn lemma_digits_value_prefix(s: Seq<char>, i: int)
    requires
        all_digits(s),
        0 <= i <= s.len(),
    ensures
        digits_value(s.take(i)) <= digits_value(s),
    decreases s.len() - i,
{
    if i == s.len() {
        assert(s.take(i) =~= s);
    } else {
        assert(s.take(i + 1).drop_last() =~= s.take(i));
        assert(s.take(i + 1).last() == s[i]);
        lemma_all_digits_take(s, i);
        lemma_digits_value_nonneg(s.take(i));
        assert(digits_value(s.take(i + 1)) == digits_value(s.take(i)) * 10 + digit_val(s[i]));
        assert(digits_value(s.take(i)) <= digits_value(s.take(i + 1)));
        lemma_digits_value_prefix(s, i + 1);
    }
}

/// Parse a client-supplied id, exactly as `str::parse::<i32>` accepts it:
/// an optional sign, one or more decimal digits, value within the `i32`
/// range. Anything else is `InvalidID`.
pub fn parse_id(s: &str) -> (r: Result<i32, GqlError>)
    ensures
        r matches Ok(v) ==> v == i32_literal_value(s@),
        r is Ok <==> is_i32_literal(s@),
        r matches Err(e) ==> e == GqlError::InvalidID,
{
    let n = s.unicode_len();
    if n == 0 {
        return Err(GqlError::InvalidID);
    }
    let c0 = s.get_char(0);
    let neg = c0 == '-';
    let start: usize = if c0 == '-' || c0 == '+' {
        1
    } else {
        0
    };
    let ghost body = digit_body(s@);
    proof {
        assert(body =~= s@.subrange(start as int, n as int));
    }
    if n == start {
        return Err(GqlError::InvalidID);
    }
    let mut acc: i64 = 0;
    let mut i: usize = start;
    proof {
        assert(body.take(0) =~= Seq::<char>::empty());
    }
    while i < n
        invariant
            start <= i <= n,
            start <= 1,
            n == s@.len(),
            body == digit_body(s@),
            body =~= s@.subrange(start as int, n as int),
            all_digits(body.take(i - start)),
            acc == digits_value(body.take(i - start)),
            0 <= acc <= 0x8000_0000,
        decreases n - i,
    {
        let c = s.get_char(i);
        let cu = c as u32;
        if cu < 48 || cu > 57 {
            proof {
                assert(body[i - start] == s@[i as int]);
                assert(!is_digit(body[i - start]));
            }
            return Err(GqlError::InvalidID);
        }
        proof {
            assert(body[i - start] == s@[i as int]);
            assert(body.take(i - start + 1).drop_last() =~= body.take(i - start));
            assert(body.take(i - start + 1).last() == body[i - start]);
            assert forall|j: int| 0 <= j < i - start + 1 implies is_digit(
                #[trigger] body.take(i - start + 1)[j],
            ) by {
                assert(body.take(i - start + 1)[j] == body[j]);
                if j < i - start {
                    assert(body.take(i - start)[j] == body[j]);
                }
            }
        }
        acc = acc * 10 + ((cu - 48) as i64);
        if acc > 0x8000_0000i64 {
            proof {
                if all_digits(body) {
                    lemma_digits_value_prefix(body, i - start + 1);
                }
            }
            return Err(GqlError::InvalidID);
        }
        i = i + 1;
    }
    proof {
        assert(body.take(n - start) =~= body);
    }
    if neg {
        Ok((-acc) as i32)
    } else {
        if acc > 0x7fff_ffffi64 {
            return Err(GqlError::InvalidID);
        }
        Ok(acc as i32)
    }
}

// ---------------------------------------------------------------------
// Rating bounds
// ---------------------------------------------------------------------

/// Bit-level mirror of the IEEE-754 comparison `r < 0.0 || r > 1.0` on the
/// 64-bit float whose bit pattern is `bits`. A finite or infinite value
/// with the sign bit set is below zero unless it is negative zero; a
/// positive one is above one exactly when its bits exceed those of 1.0
/// (for same-sign non-NaN doubles, IEEE ordering is the unsigned order of
/// the bit patterns). NaN compares false on both sides of a `<`, so NaN
/// bit patterns are not out of bounds here.
pub open spec fn rating_out_of_bounds(bits: u64) -> bool {
    let is_nan = (bits & 0x7ff0_0000_0000_0000) == 0x7ff0_0000_0000_0000 && (bits
        & 0x000f_ffff_ffff_ffff) != 0;
    let below_zero = (bits >> 63) == 1 && bits != 0x8000_0000_0000_0000;
    let above_one = (bits >> 63) == 0 && bits > 0x3ff0_0000_0000_0000;
    !is_nan && (below_zero || above_one)
}

/// Runtime counterpart of [`rating_out_of_bounds`].
pub fn rating_is_out_of_bounds(bits: u64) -> (r: bool)
    ensures
        r == rating_out_of_bounds(bits),
{
    let is_nan = (bits & 0x7ff0_0000_0000_0000) == 0x7ff0_0000_0000_0000 && (bits
        & 0x000f_ffff_ffff_ffff) != 0;
    let below_zero = (bits >> 63) == 1 && bits != 0x8000_0000_0000_0000;
    let above_one = (bits >> 63) == 0 && bits > 0x3ff0_0000_0000_0000;
    !is_nan && (below_zero || above_one)
}

// ---------------------------------------------------------------------
// Filters and token resolution, as specification shorthands
// ---------------------------------------------------------------------

pub open spec fn page_size_valid(n: i32) -> bool {
    0 <= n <= 1000
}

/// Black maps to `Some(true)`, White to `Some(false)`, unspecified to no
/// filter.
pub open spec fn color_filter(color: Option<CardColor>) -> Option<bool> {
    match color {
        Some(CardColor::Black) => Some(true),
        Some(CardColor::White) => Some(false),
        None => None,
    }
}

/// All maps to no filter, User to `Some(true)`, Official to `Some(false)`.
pub open spec fn source_filter(source: CardSource) -> Option<bool> {
    match source {
        CardSource::All => None,
        CardSource::User => Some(true),
        CardSource::Official => Some(false),
    }
}

pub open spec fn cursor_decodes(c: Option<String>) -> bool {
    match c {
        Some(t) => codec::decoded_i32_of(t@) is Some,
        None => true,
    }
}

pub open spec fn cursor_value(c: Option<String>) -> Option<i32> {
    match c {
        Some(t) => codec::decoded_i32_of(t@),
        None => None,
    }
}

pub open spec fn seed_token_decodes(c: Option<String>) -> bool {
    match c {
        Some(t) => codec::decoded_seed_of(t@) is Some,
        None => true,
    }
}

/// The seed a shuffled query runs under: the client token's bits when one
/// was sent, else the freshly drawn bits.
pub open spec fn resolved_seed(c: Option<String>, fresh: u32) -> u32 {
    match c {
        Some(t) => match codec::decoded_seed_of(t@) {
            Some(u) => u,
            None => fresh,
        },
        None => fresh,
    }
}

pub open spec fn all_ids_parse(v: Seq<String>) -> bool {
    forall|i: int| 0 <= i < v.len() ==> is_i32_literal(#[trigger] v[i]@)
}

pub open spec fn parsed_ids(v: Seq<String>, out: Seq<i32>) -> bool {
    out.len() == v.len() && forall|i: int|
        0 <= i < v.len() ==> out[i] == i32_literal_value(#[trigger] v[i]@)
}

// ---------------------------------------------------------------------
// Descriptor builders
// ---------------------------------------------------------------------

fn parse_id_list(v: &Vec<String>) -> (r: Result<Vec<i32>, GqlError>)
    ensures
        r is Ok <==> all_ids_parse(v@),
        r matches Ok(ids) ==> parsed_ids(v@, ids@),
        r matches Err(e) ==> e == GqlError::InvalidID,
{
    let n = v.len();
    let mut ids: Vec<i32> = Vec::new();
    let mut i: usize = 0;
    while i < n
        invariant
            i <= n,
            n == v@.len(),
            ids@.len() == i,
            forall|j: int| 0 <= j < i ==> is_i32_literal(#[trigger] v@[j]@),
            forall|j: int| 0 <= j < i ==> ids@[j] == i32_literal_value(#[trigger] v@[j]@),
        decreases n - i,
    {
        match parse_id(v[i].as_str()) {
            Ok(x) => ids.push(x),
            Err(e) => {
                return Err(e);
            },
        }
        i = i + 1;
    }
    Ok(ids)
}

fn resolve_cursor(cursor: &Option<String>) -> (r: Result<Option<i32>, GqlError>)
    ensures
        r is Ok <==> cursor_decodes(*cursor),
        r matches Ok(c) ==> c == cursor_value(*cursor),
        r matches Err(e) ==> e == GqlError::DecodeError,
{
    match cursor {
        Some(t) => match codec::decode_i32(t.as_str()) {
            Ok(c) => Ok(Some(c)),
            Err(e) => Err(e),
        },
        None => Ok(None),
    }
}

fn resolve_seed(seed: &Option<String>, fresh: u32) -> (r: Result<u32, GqlError>)
    ensures
        r is Ok <==> seed_token_decodes(*seed),
        r matches Ok(u) ==> u == resolved_seed(*seed, fresh),
        r matches Err(e) ==> e == GqlError::DecodeError,
{
    match seed {
        Some(t) => match codec::decode_seed(t.as_str()) {
            Ok(u) => Ok(u),
            Err(e) => Err(e),
        },
        None => Ok(fresh),
    }
}

/// What the card-listing builder promises of its `Ok` descriptor: one row
/// over-fetched beyond the page size, the search text passed through, the
/// cursor decoded, the tri-state filters mapped, and, when shuffling was
/// requested, the flag and the resolved seed recorded (the seed is
/// resolved even when shuffling is requested as explicitly off).
pub open spec fn cards_descriptor_ok(
    q: GetCards,
    search: Option<String>,
    color: Option<CardColor>,
    pagination: Pagination,
    randomized: Option<bool>,
    user_submitted: Option<bool>,
    fresh_seed_bits: u32,
) -> bool {
    &&& q.n_cards matches Some(n) && n == pagination.page_size + 1
    &&& q.search == search
    &&& q.previous_cursor == cursor_value(pagination.cursor)
    &&& q.filter_black == color_filter(color)
    &&& q.user_submitted == user_submitted
    &&& match randomized {
        Some(b) => q.get_random == Some(b) && q.random_seed == Some(
            resolved_seed(pagination.random_seed, fresh_seed_bits),
        ),
        None => q.get_random == Some(false) && q.random_seed is None,
    }
}

/// Build the descriptor for the top-level card listing. Validation happens
/// here, before any store work: the page size bound, then the referenced
/// set ids, then the cursor token, then the seed token (only consulted
/// when shuffling is requested). `fresh_seed_bits` is the seed to fall
/// back on when shuffling is requested without a seed token; drawing it is
/// the caller's business.
pub fn build_cards_query(
    search: Option<String>,
    color: Option<CardColor>,
    pagination: Pagination,
    set_ids: Option<Vec<String>>,
    randomized: Option<bool>,
    card_source: CardSource,
    fresh_seed_bits: u32,
) -> (r: Result<GetCards, GqlError>)
    ensures
        r == Err::<GetCards, GqlError>(GqlError::LimitOutOfBounds) <==> !page_size_valid(
            pagination.page_size,
        ),
        page_size_valid(pagination.page_size) ==> (r == Err::<GetCards, GqlError>(
            GqlError::InvalidID,
        ) <==> (set_ids matches Some(v) && !all_ids_parse(v@))),
        page_size_valid(pagination.page_size) && (set_ids matches Some(v) ==> all_ids_parse(v@))
            ==> (r == Err::<GetCards, GqlError>(GqlError::DecodeError) <==> (!cursor_decodes(
            pagination.cursor,
        ) || (cursor_decodes(pagination.cursor) && randomized is Some && !seed_token_decodes(
            pagination.random_seed,
        )))),
        r is Ok <==> page_size_valid(pagination.page_size) && (set_ids matches Some(v)
            ==> all_ids_parse(v@)) && cursor_decodes(pagination.cursor) && (randomized is Some
            ==> seed_token_decodes(pagination.random_seed)),
        r matches Ok(q) ==> cards_descriptor_ok(
            q,
            search,
            color,
            pagination,
            randomized,
            source_filter(card_source),
            fresh_seed_bits,
        ),
        r matches Ok(q) ==> match set_ids {
            Some(v) => q.card_sets matches Some(ids) && parsed_ids(v@, ids@),
            None => q.card_sets is None,
        },
{
    let limit = pagination.page_size;
    if limit > 1000 || limit < 0 {
        return Err(GqlError::LimitOutOfBounds);
    }
    let mut q = GetCards::default();
    q.n_cards = Some(limit + 1);
    match set_ids {
        Some(v) => {
            match parse_id_list(&v) {
                Ok(ids) => {
                    q.card_sets = Some(ids);
                },
                Err(e) => {
                    return Err(e);
                },
            }
        },
        None => {},
    }
    match resolve_cursor(&pagination.cursor) {
        Ok(c) => {
            q.previous_cursor = c;
        },
        Err(e) => {
            return Err(e);
        },
    }
    q.search = search;
    q.user_submitted = match card_source {
        CardSource::All => None,
        CardSource::User => Some(true),
        CardSource::Official => Some(false),
    };
    q.filter_black = match color {
        Some(CardColor::Black) => Some(true),
        Some(CardColor::White) => Some(false),
        None => None,
    };
    match randomized {
        Some(rnd) => {
            q.get_random = Some(rnd);
            match resolve_seed(&pagination.random_seed, fresh_seed_bits) {
                Ok(u) => {
                    q.random_seed = Some(u);
                },
                Err(e) => {
                    return Err(e);
                },
            }
        },
        None => {},
    }
    Ok(q)
}

/// Build the descriptor for listing one set's cards: as the top-level
/// builder, but pinned to that set, with no provenance choice (official
/// cards only, the store default).
pub fn build_set_cards_query(
    set_id: i32,
    search: Option<String>,
    card_color: Option<CardColor>,
    pagination: Pagination,
    randomized: Option<bool>,
    fresh_seed_bits: u32,
) -> (r: Result<GetCards, GqlError>)
    ensures
        r == Err::<GetCards, GqlError>(GqlError::LimitOutOfBounds) <==> !page_size_valid(
            pagination.page_size,
        ),
        page_size_valid(pagination.page_size) ==> (r == Err::<GetCards, GqlError>(
            GqlError::DecodeError,
        ) <==> (!cursor_decodes(pagination.cursor) || (cursor_decodes(pagination.cursor)
            && randomized is Some && !seed_token_decodes(pagination.random_seed)))),
        r is Ok <==> page_size_valid(pagination.page_size) && cursor_decodes(pagination.cursor) && (
        randomized is Some ==> seed_token_decodes(pagination.random_seed)),
        r matches Ok(q) ==> cards_descriptor_ok(
            q,
            search,
            card_color,
            pagination,
            randomized,
            Some(false),
            fresh_seed_bits,
        ),
        r matches Ok(q) ==> q.card_sets matches Some(ids) && ids@ == seq![set_id],
{
    let limit = pagination.page_size;
    if limit > 1000 || limit < 0 {
        return Err(GqlError::LimitOutOfBounds);
    }
    let mut q = GetCards::default();
    q.n_cards = Some(limit + 1);
    q.search = search;
    let mut only_set: Vec<i32> = Vec::new();
    only_set.push(set_id);
    proof {
        assert(only_set@ =~= seq![set_id]);
    }
    q.card_sets = Some(only_set);
    match resolve_cursor(&pagination.cursor) {
        Ok(c) => {
            q.previous_cursor = c;
        },
        Err(e) => {
            return Err(e);
        },
    }
    q.filter_black = match card_color {
        Some(CardColor::Black) => Some(true),
        Some(CardColor::White) => Some(false),
        None => None,
    };
    match randomized {
        Some(rnd) => {
            q.get_random = Some(rnd);
            match resolve_seed(&pagination.random_seed, fresh_seed_bits) {
                Ok(u) => {
                    q.random_seed = Some(u);
                },
                Err(e) => {
                    return Err(e);
                },
            }
        },
        None => {},
    }
    Ok(q)
}

/// Build the descriptor for the set listing: the page size bound, then the
/// cursor token; one row over-fetched beyond the page size.
pub fn build_sets_query(search: Option<String>, pagination: Pagination) -> (r: Result<
    GetSets,
    GqlError,
>)
    ensures
        r == Err::<GetSets, GqlError>(GqlError::LimitOutOfBounds) <==> !page_size_valid(
            pagination.page_size,
        ),
        page_size_valid(pagination.page_size) ==> (r == Err::<GetSets, GqlError>(
            GqlError::DecodeError,
        ) <==> !cursor_decodes(pagination.cursor)),
        r is Ok <==> page_size_valid(pagination.page_size) && cursor_decodes(pagination.cursor),
        r matches Ok(q) ==> {
            &&& q.n_results matches Some(n) && n == pagination.page_size + 1
            &&& q.search == search
            &&& q.cursor == cursor_value(pagination.cursor)
        },
{
    let limit = pagination.page_size;
    if limit > 1000 || limit < 0 {
        return Err(GqlError::LimitOutOfBounds);
    }
    let mut q = GetSets::default();
    q.n_results = Some(limit + 1);
    q.search = search;
    match resolve_cursor(&pagination.cursor) {
        Ok(c) => {
            q.cursor = c;
        },
        Err(e) => {
            return Err(e);
        },
    }
    Ok(q)
}

// ---------------------------------------------------------------------
// Mutation validation
// ---------------------------------------------------------------------

/// Validate a card submission: blank display text is rejected before any
/// store work.
pub fn build_add_card(user_id: i32, format_text: String, color: CardColor) -> (r: Result<
    AddCard,
    GqlError,
>)
    ensures
        r is Err <==> format_text@.len() == 0,
        r matches Err(e) ==> e == GqlError::EmptyFormatText,
        r matches Ok(a) ==> {
            &&& a.user_id == user_id
            &&& a.format_text == format_text
            &&& (a.is_black <==> color == CardColor::Black)
        },
{
    if format_text.as_str().is_empty() {
        return Err(GqlError::EmptyFormatText);
    }
    let is_black = match color {
        CardColor::Black => true,
        CardColor::White => false,
    };
    Ok(AddCard { user_id, format_text, is_black })
}

/// Validate a card rating: the bounds check comes first, then the card
/// id; both happen before any store work.
pub fn build_card_rating(user_id: i32, card_id: &str, rating_bits: u64) -> (r: Result<
    AddCardRating,
    GqlError,
>)
    ensures
        r == Err::<AddCardRating, GqlError>(GqlError::RatingOutOfBounds) <==> rating_out_of_bounds(
            rating_bits,
        ),
        !rating_out_of_bounds(rating_bits) ==> (r == Err::<AddCardRating, GqlError>(
            GqlError::InvalidID,
        ) <==> !is_i32_literal(card_id@)),
        r is Ok <==> !rating_out_of_bounds(rating_bits) && is_i32_literal(card_id@),
        r matches Ok(a) ==> {
            &&& a.user_id == user_id
            &&& a.card_id == i32_literal_value(card_id@)
            &&& a.rating == rating_bits
        },
{
    if rating_is_out_of_bounds(rating_bits) {
        return Err(GqlError::RatingOutOfBounds);
    }
    match parse_id(card_id) {
        Ok(id) => Ok(AddCardRating { user_id, card_id: id, rating: rating_bits }),
        Err(e) => Err(e),
    }
}

/// Validate a combination rating: rating bounds, then the ordinal, then
/// the two card ids (white first); all before any store work.
pub fn build_combo_rating(
    user_id: i32,
    white_card: &str,
    black_card: &str,
    rating_bits: u64,
    ordinal: i32,
) -> (r: Result<AddCardRatingCombination, GqlError>)
    ensures
        r == Err::<AddCardRatingCombination, GqlError>(GqlError::RatingOutOfBounds)
            <==> rating_out_of_bounds(rating_bits),
        !rating_out_of_bounds(rating_bits) ==> (r == Err::<AddCardRatingCombination, GqlError>(
            GqlError::NegativeOrdinal,
        ) <==> ordinal < 0),
        !rating_out_of_bounds(rating_bits) && ordinal >= 0 ==> (r == Err::<
            AddCardRatingCombination,
            GqlError,
        >(GqlError::InvalidID) <==> !(is_i32_literal(white_card@) && is_i32_literal(black_card@))),
        r is Ok <==> !rating_out_of_bounds(rating_bits) && ordinal >= 0 && is_i32_literal(
            white_card@,
        ) && is_i32_literal(black_card@),
        r matches Ok(a) ==> {
            &&& a.user_id == user_id
            &&& a.white_card_id == i32_literal_value(white_card@)
            &&& a.black_card_id == i32_literal_value(black_card@)
            &&& a.rating == rating_bits
            &&& a.ordinal == ordinal
        },
{
    if rating_is_out_of_bounds(rating_bits) {
        return Err(GqlError::RatingOutOfBounds);
    }
    if ordinal < 0 {
        return Err(GqlError::NegativeOrdinal);
    }
    let white_id = match parse_id(white_card) {
        Ok(id) => id,
        Err(e) => {
            return Err(e);
        },
    };
    let black_id = match parse_id(black_card) {
        Ok(id) => id,
        Err(e) => {
            return Err(e);
        },
    };
    Ok(
        AddCardRatingCombination {
            user_id,
            white_card_id: white_id,
            black_card_id: black_id,
            rating: rating_bits,
            ordinal,
        },
    )
}

} // verus!
