use bb_cards::GqlError;
use bb_cards::codec::encode_i32;
use bb_cards::gql::{CardColor, CardSource, Pagination};
use bb_cards::query::{
    build_add_card, build_card_rating, build_cards_query, build_combo_rating,
    build_set_cards_query, build_sets_query,
};

fn page(page_size: i32) -> Pagination {
    Pagination { cursor: None, page_size, random_seed: None }
}

#[test]
fn page_size_1001_is_out_of_bounds() {
    let r = build_cards_query(None, None, page(1001), None, None, CardSource::All, 0);
    assert_eq!(r.unwrap_err(), GqlError::LimitOutOfBounds);
}

#[test]
fn page_size_minus_one_is_out_of_bounds() {
    let r = build_cards_query(None, None, page(-1), None, None, CardSource::All, 0);
    assert_eq!(r.unwrap_err(), GqlError::LimitOutOfBounds);
    let r = build_sets_query(None, page(-1));
    assert_eq!(r.unwrap_err(), GqlError::LimitOutOfBounds);
    let r = build_set_cards_query(7, None, None, page(1001), None, 0);
    assert_eq!(r.unwrap_err(), GqlError::LimitOutOfBounds);
}

#[test]
fn page_size_bounds_are_inclusive() {
    assert!(build_cards_query(None, None, page(0), None, None, CardSource::All, 0).is_ok());
    assert!(build_cards_query(None, None, page(1000), None, None, CardSource::All, 0).is_ok());
}

#[test]
fn rating_above_one_is_out_of_bounds() {
    let r = build_card_rating(1, "5", 1.5f64.to_bits());
    assert_eq!(r.unwrap_err(), GqlError::RatingOutOfBounds);
}

#[test]
fn rating_bounds_are_the_closed_unit_interval() {
    assert!(build_card_rating(1, "5", 0.0f64.to_bits()).is_ok());
    assert!(build_card_rating(1, "5", 1.0f64.to_bits()).is_ok());
    assert!(build_card_rating(1, "5", 0.5f64.to_bits()).is_ok());
    assert!(build_card_rating(1, "5", (-0.0f64).to_bits()).is_ok());
    assert_eq!(
        build_card_rating(1, "5", (-0.1f64).to_bits()).unwrap_err(),
        GqlError::RatingOutOfBounds
    );
    assert_eq!(
        build_card_rating(1, "5", 1.0000001f64.to_bits()).unwrap_err(),
        GqlError::RatingOutOfBounds
    );
    assert_eq!(
        build_card_rating(1, "5", f64::NEG_INFINITY.to_bits()).unwrap_err(),
        GqlError::RatingOutOfBounds
    );
    assert_eq!(
        build_card_rating(1, "5", f64::INFINITY.to_bits()).unwrap_err(),
        GqlError::RatingOutOfBounds
    );
    // NaN compares false on both sides of the range check, exactly as a
    // float comparison would, so it passes the bounds validation.
    assert!(build_card_rating(1, "5", f64::NAN.to_bits()).is_ok());
}

#[test]
fn negative_ordinal_is_rejected() {
    let r = build_combo_rating(1, "2", "3", 0.5f64.to_bits(), -1);
    assert_eq!(r.unwrap_err(), GqlError::NegativeOrdinal);
    let ok = build_combo_rating(1, "2", "3", 0.5f64.to_bits(), 0).unwrap();
    assert_eq!(ok.white_card_id, 2);
    assert_eq!(ok.black_card_id, 3);
    assert_eq!(ok.ordinal, 0);
}

#[test]
fn combo_rating_checks_rating_before_ordinal() {
    let r = build_combo_rating(1, "2", "3", 7.0f64.to_bits(), -1);
    assert_eq!(r.unwrap_err(), GqlError::RatingOutOfBounds);
}

#[test]
fn empty_format_text_is_rejected() {
    let r = build_add_card(1, String::new(), CardColor::Black);
    assert_eq!(r.unwrap_err(), GqlError::EmptyFormatText);
    let ok = build_add_card(1, "A card.".to_string(), CardColor::Black).unwrap();
    assert_eq!(ok.user_id, 1);
    assert_eq!(ok.format_text, "A card.");
    assert!(ok.is_black);
    let white = build_add_card(1, "B card.".to_string(), CardColor::White).unwrap();
    assert!(!white.is_black);
}

#[test]
fn id_parsing_accepts_what_str_parse_accepts() {
    assert_eq!(build_card_rating(1, "123", 0).unwrap().card_id, 123);
    assert_eq!(build_card_rating(1, "+7", 0).unwrap().card_id, 7);
    assert_eq!(build_card_rating(1, "-5", 0).unwrap().card_id, -5);
    assert_eq!(build_card_rating(1, "0042", 0).unwrap().card_id, 42);
    assert_eq!(build_card_rating(1, "2147483647", 0).unwrap().card_id, i32::MAX);
    assert_eq!(build_card_rating(1, "-2147483648", 0).unwrap().card_id, i32::MIN);
}

#[test]
fn id_parsing_rejects_everything_else() {
    for bad in ["", "+", "-", "12a", "a12", " 12", "12 ", "1.5", "2147483648", "-2147483649", "9999999999999999999999"] {
        assert_eq!(
            build_card_rating(1, bad, 0).unwrap_err(),
            GqlError::InvalidID,
            "expected InvalidID for {:?}",
            bad
        );
    }
}

#[test]
fn set_id_list_is_parsed_into_the_descriptor() {
    let ids = Some(vec!["3".to_string(), "11".to_string()]);
    let q = build_cards_query(None, None, page(10), ids, None, CardSource::All, 0).unwrap();
    assert_eq!(q.card_sets, Some(vec![3, 11]));
    let bad = Some(vec!["3".to_string(), "x".to_string()]);
    let r = build_cards_query(None, None, page(10), bad, None, CardSource::All, 0);
    assert_eq!(r.unwrap_err(), GqlError::InvalidID);
}

#[test]
fn cursor_token_is_decoded_into_the_descriptor() {
    let p = Pagination { cursor: Some(encode_i32(42)), page_size: 10, random_seed: None };
    let q = build_cards_query(None, None, p, None, None, CardSource::All, 0).unwrap();
    assert_eq!(q.previous_cursor, Some(42));
    assert_eq!(q.n_cards, Some(11));

    let bad = Pagination { cursor: Some("???".to_string()), page_size: 10, random_seed: None };
    let r = build_cards_query(None, None, bad, None, None, CardSource::All, 0);
    assert_eq!(r.unwrap_err(), GqlError::DecodeError);
}

#[test]
fn color_and_source_filters_map_tri_state() {
    let q = build_cards_query(None, Some(CardColor::Black), page(5), None, None, CardSource::All, 0)
        .unwrap();
    assert_eq!(q.filter_black, Some(true));
    assert_eq!(q.user_submitted, None);
    let q = build_cards_query(None, Some(CardColor::White), page(5), None, None, CardSource::User, 0)
        .unwrap();
    assert_eq!(q.filter_black, Some(false));
    assert_eq!(q.user_submitted, Some(true));
    let q = build_cards_query(None, None, page(5), None, None, CardSource::Official, 0).unwrap();
    assert_eq!(q.filter_black, None);
    assert_eq!(q.user_submitted, Some(false));
}

#[test]
fn shuffle_seed_is_resolved_and_echoed() {
    // No client seed: the fresh bits are used.
    let q = build_cards_query(None, None, page(5), None, Some(true), CardSource::All, 0xdeadbeef)
        .unwrap();
    assert_eq!(q.get_random, Some(true));
    assert_eq!(q.random_seed, Some(0xdeadbeef));

    // A client seed token wins over the fresh bits.
    let seed_bits = 0.37f32.to_bits();
    let p = Pagination {
        cursor: None,
        page_size: 5,
        random_seed: Some(bb_cards::codec::encode_seed(seed_bits)),
    };
    let q = build_cards_query(None, None, p, None, Some(true), CardSource::All, 0xdeadbeef)
        .unwrap();
    assert_eq!(q.random_seed, Some(seed_bits));

    // Shuffling requested as explicitly off still resolves a seed.
    let q = build_cards_query(None, None, page(5), None, Some(false), CardSource::All, 7).unwrap();
    assert_eq!(q.get_random, Some(false));
    assert_eq!(q.random_seed, Some(7));

    // No shuffle request at all: the defaults stand.
    let q = build_cards_query(None, None, page(5), None, None, CardSource::All, 7).unwrap();
    assert_eq!(q.get_random, Some(false));
    assert_eq!(q.random_seed, None);
}

#[test]
fn set_scoped_query_pins_the_set() {
    let q = build_set_cards_query(9, Some("dog".to_string()), Some(CardColor::White), page(3), None, 0)
        .unwrap();
    assert_eq!(q.card_sets, Some(vec![9]));
    assert_eq!(q.filter_black, Some(false));
    assert_eq!(q.user_submitted, Some(false));
    assert_eq!(q.search.as_deref(), Some("dog"));
    assert_eq!(q.n_cards, Some(4));
}

#[test]
fn sets_query_overfetches_by_one() {
    let p = Pagination { cursor: Some(encode_i32(8)), page_size: 20, random_seed: None };
    let q = build_sets_query(Some("base".to_string()), p).unwrap();
    assert_eq!(q.n_results, Some(21));
    assert_eq!(q.cursor, Some(8));
    assert_eq!(q.search.as_deref(), Some("base"));
}

#[test]
fn error_messages_are_stable() {
    assert_eq!(GqlError::LimitOutOfBounds.message(), "0 ≤ Page Size ≤ 1000");
    assert_eq!(GqlError::RatingOutOfBounds.message(), "0 ≤ Rating ≤ 1");
    assert_eq!(GqlError::UnexpectedError.message(), "Server Error!");
    assert_eq!(GqlError::EmptyFormatText.message(), "Format text cannot be empty");
}
