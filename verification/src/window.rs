//! Result windowing: turning what the store returned for a `page size + 1`
//! over-fetch into a bounded page plus continuation metadata.
//!
//! The extra probe row only feeds the has-more signal and is never
//! returned. On an ordinary scan the next cursor is the id of the last row
//! actually returned; on a shuffled scan it is a running offset into the
//! seeded ordering, advanced by one page size per call.

use vstd::prelude::*;

use crate::gql::{Card, CardColor, CardResult, SetInfo, SetResult};
use crate::models::{GetCardResults, GetCards, GetSetResults, GetSets};

verus! {

/// The page size a card descriptor was built for (it over-fetches by one).
pub open spec fn cards_page_size(q: GetCards) -> int {
    match q.n_cards {
        Some(n) => n - 1,
        None => 0,
    }
}

/// The page size a set descriptor was built for (it over-fetches by one).
pub open spec fn sets_page_size(q: GetSets) -> int {
    match q.n_results {
        Some(n) => n - 1,
        None => 0,
    }
}

/// The shuffle resume offset a scan started from: the decoded cursor, or
/// zero on the first page.
pub open spec fn resume_offset(cursor: Option<i32>) -> int {
    match cursor {
        Some(c) => c as int,
        None => 0,
    }
}

/// How a returned card mirrors a store row.
pub open spec fn card_matches_row(c: Card, row: GetCardResults) -> bool {
    &&& c.id == row.id
    &&& c.format_text@ == row.format_text@
    &&& (c.color == CardColor::Black <==> row.is_black)
    &&& c.set.id == row.parent_set_id
    &&& c.set.name@ == row.parent_set_name@
    &&& c.total_votes == row.total_votes
    &&& c.average_rating == row.average_rating
}

/// How a returned set entry mirrors a store row.
pub open spec fn set_info_matches_row(s: SetInfo, row: GetSetResults) -> bool {
    s.id == row.id && s.name@ == row.name@
}

/// Window the rows fetched for a card descriptor into a page.
///
/// At most a page of rows comes back, in the store's order; there is a
/// next page exactly when the store handed over more rows than the page
/// size. On a shuffled scan the next cursor advances the resume offset by
/// the page size; otherwise it is the id of the last returned row, absent
/// when the store returned fewer rows than requested (or for an empty
/// page size). The seed in effect is echoed back untouched.
pub fn window_cards(q: &GetCards, rows: Vec<GetCardResults>) -> (r: CardResult)
    requires
        q.n_cards matches Some(n) && 1 <= n <= 1001,
        q.get_random == Some(true) ==> resume_offset(q.previous_cursor) + cards_page_size(*q)
            <= i32::MAX,
    ensures
        r.has_next_page <==> rows@.len() > cards_page_size(*q),
        r.results@.len() == vstd::math::min(cards_page_size(*q), rows@.len() as int),
        forall|i: int| 0 <= i < r.results@.len() ==> card_matches_row(r.results@[i], rows@[i]),
        q.get_random == Some(true) ==> (r.last_cursor matches Some(c) && c == resume_offset(
            q.previous_cursor,
        ) + cards_page_size(*q)),
        q.get_random != Some(true) ==> r.last_cursor == (if 1 <= cards_page_size(*q)
            <= rows@.len() {
            Some(rows@[cards_page_size(*q) - 1].id)
        } else {
            None::<i32>
        }),
        r.random_seed == q.random_seed,
{
    let page: i32 = match q.n_cards {
        Some(n) => n - 1,
        None => 0,
    };
    let page_u: usize = page as usize;
    let n_rows = rows.len();
    let has_more = n_rows > page_u;
    let shuffled = match q.get_random {
        Some(b) => b,
        None => false,
    };
    let last_cursor: Option<i32> = if shuffled {
        let prev = match q.previous_cursor {
            Some(c) => c,
            None => 0,
        };
        Some(prev + page)
    } else {
        if 1 <= page_u && page_u <= n_rows {
            Some(rows[page_u - 1].id)
        } else {
            None
        }
    };
    let keep = if page_u < n_rows {
        page_u
    } else {
        n_rows
    };
    let mut results: Vec<Card> = Vec::new();
    let mut i: usize = 0;
    while i < keep
        invariant
            i <= keep,
            keep <= rows@.len(),
            results@.len() == i,
            forall|j: int| 0 <= j < i ==> card_matches_row(#[trigger] results@[j], rows@[j]),
        decreases keep - i,
    {
        let row = &rows[i];
        let color = if row.is_black {
            CardColor::Black
        } else {
            CardColor::White
        };
        results.push(
            Card {
                id: row.id,
                format_text: row.format_text.clone(),
                color,
                average_rating: row.average_rating,
                total_votes: row.total_votes,
                set: SetInfo { id: row.parent_set_id, name: row.parent_set_name.clone() },
            },
        );
        i = i + 1;
    }
    CardResult { results, last_cursor, has_next_page: has_more, random_seed: q.random_seed }
}

/// Window the rows fetched for a set descriptor into a page: the same
/// boundary rules as for cards, with no shuffle path.
pub fn window_sets(q: &GetSets, rows: Vec<GetSetResults>) -> (r: SetResult)
    requires
        q.n_results matches Some(n) && 1 <= n <= 1001,
    ensures
        r.has_next_page <==> rows@.len() > sets_page_size(*q),
        r.results@.len() == vstd::math::min(sets_page_size(*q), rows@.len() as int),
        forall|i: int| 0 <= i < r.results@.len() ==> set_info_matches_row(r.results@[i], rows@[i]),
        r.last_cursor == (if 1 <= sets_page_size(*q) <= rows@.len() {
            Some(rows@[sets_page_size(*q) - 1].id)
        } else {
            None::<i32>
        }),
{
    let page: i32 = match q.n_results {
        Some(n) => n - 1,
        None => 0,
    };
    let page_u: usize = page as usize;
    let n_rows = rows.len();
    let has_more = n_rows > page_u;
    let last_cursor: Option<i32> = if 1 <= page_u && page_u <= n_rows {
        Some(rows[page_u - 1].id)
    } else {
        None
    };
    let keep = if page_u < n_rows {
        page_u
    } else {
        n_rows
    };
    let mut results: Vec<SetInfo> = Vec::new();
    let mut i: usize = 0;
    while i < keep
        invariant
            i <= keep,
            keep <= rows@.len(),
            results@.len() == i,
            forall|j: int| 0 <= j < i ==> set_info_matches_row(#[trigger] results@[j], rows@[j]),
        decreases keep - i,
    {
        let row = &rows[i];
        results.push(SetInfo { id: row.id, name: row.name.clone() });
        i = i + 1;
    }
    SetResult { results, last_cursor, has_next_page: has_more }
}

/// Two consecutive pages of a shuffled scan never overlap and, held to the
/// same seeded ordering, join back into one contiguous window: the page at
/// offset `offset` and the page at the returned cursor `offset + page`
/// cover exactly the rows `offset .. offset + 2 * page` of that ordering.
pub proof fn lemma_shuffle_pages_adjacent(ord: Seq<i32>, offset: int, page: int)
    requires
        0 <= offset,
        0 <= page,
        offset + 2 * page <= ord.len(),
    ensures
        ord.subrange(offset, offset + page) + ord.subrange(offset + page, offset + 2 * page)
            =~= ord.subrange(offset, offset + 2 * page),
        (forall|i: int, j: int|
            0 <= i < ord.len() && 0 <= j < ord.len() && i != j ==> ord[i] != ord[j]) ==> forall|
            x: i32,
        |
            #![trigger ord.subrange(offset, offset + page).contains(x)]
            !(ord.subrange(offset, offset + page).contains(x) && ord.subrange(
                offset + page,
                offset + 2 * page,
            ).contains(x)),
{
    let first = ord.subrange(offset, offset + page);
    let second = ord.subrange(offset + page, offset + 2 * page);
    assert(first + second =~= ord.subrange(offset, offset + 2 * page));
    if forall|i: int, j: int|
        0 <= i < ord.len() && 0 <= j < ord.len() && i != j ==> ord[i] != ord[j] {
        assert forall|x: i32| !(first.contains(x) && second.contains(x)) by {
            if first.contains(x) && second.contains(x) {
                let i = choose|i: int| 0 <= i < first.len() && first[i] == x;
                let j = choose|j: int| 0 <= j < second.len() && second[j] == x;
                assert(ord[offset + i] == x);
                assert(ord[offset + page + j] == x);
            }
        }
    }
}

} // verus!

