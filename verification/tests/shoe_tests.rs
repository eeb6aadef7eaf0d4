use std::collections::HashSet;
use blackjack_engine::shoe::Shoe;

#[test]
fn test_shuffle_deck() {
    let mut deck = Shoe::new(4);
    let ordered_cards = deck.cards.clone();
    deck.shuffle();
    deck.shuffle();
    let shuffled_cards = deck.cards.clone();

    assert_ne!(ordered_cards, shuffled_cards);
}

#[test]
fn test_shoe_creation() {
    let num_decks = 2;
    let shoe = Shoe::new(num_decks);
    assert_eq!(shoe.cards.len(), num_decks * 52);
}

#[test]
fn test_draw_card() {
    let mut shoe = Shoe::new(1);
    let initial_count = shoe.cards.len();
    let card = shoe.draw_card();

    assert!(card.is_some());
    assert_eq!(shoe.cards.len(), initial_count - 1);
    assert_eq!(shoe.discarded.len(), 1);
}

#[test]
fn test_draw_from_empty_shoe() {
    let mut shoe = Shoe::new(1);
    // Draw all cards
    while shoe.draw_card().is_some() {}

    assert!(shoe.draw_card().is_none());
    assert!(shoe.cards.is_empty());
    assert_eq!(shoe.discarded.len(), 52); // Full deck in discard
}

#[test]
fn test_multiple_deck_size() {
    for num_decks in 1..=8 {
        let shoe = Shoe::new(num_decks);
        assert_eq!(shoe.cards.len(), num_decks * 52);
    }
}

#[test]
fn test_new_shoe_has_all_cards() {
    let shoe = Shoe::new(1);
    let mut ranks = HashSet::new();
    let mut suits = HashSet::new();

    for card in &shoe.cards {
        ranks.insert(card.rank.clone());
        suits.insert(card.suit.clone());
    }

    assert_eq!(ranks.len(), 13); // All ranks present
    assert_eq!(suits.len(), 4); // All suits present
}

#[test]
fn test_shoe_count_invariant_across_draws() {
    // The drawable stack and the discard pile always hold one full set.
    let mut shoe = Shoe::new(1);
    for _ in 0..30 {
        shoe.draw_card();
        assert_eq!(shoe.cards.len() + shoe.discarded.len(), 52);
    }
}

#[test]
fn test_replenish_when_low() {
    let mut shoe = Shoe::new(1);
    // Run the shoe down below the deal threshold of (1 + 1) * 4 = 8 cards.
    for _ in 0..46 {
        shoe.draw_card();
    }
    assert_eq!(shoe.cards.len(), 6);
    shoe.ensure_cards_for_players(1);
    // Replenishment restores the full, fresh set and clears the discards.
    assert_eq!(shoe.cards.len(), 52);
    assert_eq!(shoe.discarded.len(), 0);
    assert_eq!(shoe.cards.len() + shoe.discarded.len(), 52);
}

#[test]
fn test_no_replenish_when_enough() {
    let mut shoe = Shoe::new(1);
    for _ in 0..10 {
        shoe.draw_card();
    }
    let before = shoe.cards.clone();
    shoe.ensure_cards_for_players(1);
    assert_eq!(shoe.cards, before);
    assert_eq!(shoe.discarded.len(), 10);
}
