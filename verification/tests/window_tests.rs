use bb_cards::codec::encode_i32;
use bb_cards::gql::{CardColor, CardSource, Pagination};
use bb_cards::models::{GetCardResults, GetCards, GetSetResults, GetSets};
use bb_cards::query::{build_cards_query, build_sets_query};
use bb_cards::window::{window_cards, window_sets};

fn black_row(id: i32) -> GetCardResults {
    GetCardResults {
        id,
        format_text: format!("Prompt {}.", id),
        is_black: true,
        parent_set_id: 1,
        parent_set_name: "Base Set".to_string(),
        total_votes: 0,
        average_rating: None,
    }
}

fn set_row(id: i32) -> GetSetResults {
    GetSetResults { id, name: format!("Set {}", id) }
}

/// Listing black cards with a page size of 2 against a store holding
/// three black cards: the first two come back, there is a next page, and
/// the cursor is the encoded id of the last returned row.
#[test]
fn three_black_cards_page_of_two() {
    let pagination = Pagination { cursor: None, page_size: 2, random_seed: None };
    let q = build_cards_query(
        None,
        Some(CardColor::Black),
        pagination,
        None,
        None,
        CardSource::All,
        0,
    )
    .unwrap();
    assert_eq!(q.n_cards, Some(3));
    assert_eq!(q.filter_black, Some(true));

    // What the store would return for that descriptor: all three rows fit
    // inside the page-size-plus-one probe window.
    let rows = vec![black_row(1), black_row(2), black_row(3)];
    let page = window_cards(&q, rows);

    let ids: Vec<i32> = page.results.iter().map(|c| c.id).collect();
    assert_eq!(ids, vec![1, 2]);
    assert!(page.has_next_page);
    assert_eq!(page.last_cursor, Some(2));
    assert_eq!(page.last_cursor_token(), Some(encode_i32(2)));
    assert_eq!(page.last_cursor_token().as_deref(), Some("AAAAAg=="));
    assert_eq!(page.random_seed_token(), None);
}

#[test]
fn fewer_rows_than_the_page_means_no_next_page() {
    let mut q = GetCards::default();
    q.n_cards = Some(5); // page size 4
    let rows = vec![black_row(1), black_row(2)];
    let page = window_cards(&q, rows);
    assert_eq!(page.results.len(), 2);
    assert!(!page.has_next_page);
    assert_eq!(page.last_cursor, None);
}

#[test]
fn exactly_a_full_page_without_probe_row() {
    let mut q = GetCards::default();
    q.n_cards = Some(3); // page size 2
    let rows = vec![black_row(4), black_row(9)];
    let page = window_cards(&q, rows);
    assert_eq!(page.results.len(), 2);
    assert!(!page.has_next_page);
    // The last returned row still yields a cursor.
    assert_eq!(page.last_cursor, Some(9));
}

#[test]
fn empty_page_size_returns_nothing() {
    let mut q = GetCards::default();
    q.n_cards = Some(1); // page size 0
    let rows = vec![black_row(1)];
    let page = window_cards(&q, rows);
    assert_eq!(page.results.len(), 0);
    assert!(page.has_next_page);
    assert_eq!(page.last_cursor, None);
}

#[test]
fn rows_map_through_with_their_fields() {
    let mut q = GetCards::default();
    q.n_cards = Some(2);
    let rows = vec![GetCardResults {
        id: 77,
        format_text: "A white card.".to_string(),
        is_black: false,
        parent_set_id: 3,
        parent_set_name: "Expansion".to_string(),
        total_votes: 12,
        average_rating: Some(0.75f32.to_bits()),
    }];
    let page = window_cards(&q, rows);
    assert_eq!(page.results.len(), 1);
    let card = &page.results[0];
    assert_eq!(card.id, 77);
    assert_eq!(card.format_text, "A white card.");
    assert_eq!(card.color, CardColor::White);
    assert_eq!(card.set.id, 3);
    assert_eq!(card.set.name, "Expansion");
    assert_eq!(card.total_votes, 12);
    assert_eq!(card.average_rating.map(f32::from_bits), Some(0.75));
}

/// Resuming a shuffled scan: the next cursor is the previous resume
/// offset plus the page size, and the seed is echoed, so the client can
/// walk the same seeded ordering without overlap.
#[test]
fn shuffle_cursor_advances_by_page_size() {
    let seed_bits = 0.37f32.to_bits();
    let first = {
        let mut q = GetCards::default();
        q.n_cards = Some(6); // page size 5
        q.get_random = Some(true);
        q.random_seed = Some(seed_bits);
        q.previous_cursor = None; // offset 0
        window_cards(&q, (1..=6).map(black_row).collect())
    };
    assert_eq!(first.last_cursor, Some(5));
    assert_eq!(first.random_seed, Some(seed_bits));

    let second = {
        let mut q = GetCards::default();
        q.n_cards = Some(6);
        q.get_random = Some(true);
        q.random_seed = Some(seed_bits);
        q.previous_cursor = first.last_cursor;
        window_cards(&q, (6..=11).map(black_row).collect())
    };
    assert_eq!(second.last_cursor, Some(10));
    assert_eq!(second.random_seed, Some(seed_bits));
}

#[test]
fn sets_window_follows_the_same_boundary_rules() {
    let pagination = Pagination { cursor: None, page_size: 2, random_seed: None };
    let q = build_sets_query(None, pagination).unwrap();
    assert_eq!(q.n_results, Some(3));
    let page = window_sets(&q, vec![set_row(1), set_row(2), set_row(3)]);
    let ids: Vec<i32> = page.results.iter().map(|s| s.id).collect();
    assert_eq!(ids, vec![1, 2]);
    assert!(page.has_next_page);
    assert_eq!(page.last_cursor, Some(2));
    assert_eq!(page.last_cursor_token(), Some(encode_i32(2)));

    let short = {
        let mut q = GetSets::default();
        q.n_results = Some(3);
        window_sets(&q, vec![set_row(1)])
    };
    assert_eq!(short.results.len(), 1);
    assert!(!short.has_next_page);
    assert_eq!(short.last_cursor, None);
}
