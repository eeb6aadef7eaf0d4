use blackjack_engine::card::{Card, Rank, Suit};

#[test]
fn test_rank_values() {
    assert_eq!(Rank::Ace.value(), vec![1, 11]);
    assert_eq!(Rank::Two.value(), vec![2]);
    assert_eq!(Rank::Three.value(), vec![3]);
    assert_eq!(Rank::Four.value(), vec![4]);
    assert_eq!(Rank::Five.value(), vec![5]);
    assert_eq!(Rank::Six.value(), vec![6]);
    assert_eq!(Rank::Seven.value(), vec![7]);
    assert_eq!(Rank::Eight.value(), vec![8]);
    assert_eq!(Rank::Nine.value(), vec![9]);
    assert_eq!(Rank::Ten.value(), vec![10]);
    assert_eq!(Rank::Jack.value(), vec![10]);
    assert_eq!(Rank::Queen.value(), vec![10]);
    assert_eq!(Rank::King.value(), vec![10]);
}

#[test]
fn test_rank_to_string() {
    assert_eq!(Rank::Ace.to_string(), "A");
    assert_eq!(Rank::Two.to_string(), "2");
    assert_eq!(Rank::Three.to_string(), "3");
    assert_eq!(Rank::Four.to_string(), "4");
    assert_eq!(Rank::Five.to_string(), "5");
    assert_eq!(Rank::Six.to_string(), "6");
    assert_eq!(Rank::Seven.to_string(), "7");
    assert_eq!(Rank::Eight.to_string(), "8");
    assert_eq!(Rank::Nine.to_string(), "9");
    assert_eq!(Rank::Ten.to_string(), "10");
    assert_eq!(Rank::Jack.to_string(), "J");
    assert_eq!(Rank::Queen.to_string(), "Q");
    assert_eq!(Rank::King.to_string(), "K");
}

#[test]
fn test_suit_to_string() {
    assert_eq!(Suit::Hearts.to_string(), "\u{2764}\u{fe0f}");
    assert_eq!(Suit::Diamonds.to_string(), "\u{2666}\u{fe0f}");
    assert_eq!(Suit::Clubs.to_string(), "\u{2663}\u{fe0f}");
    assert_eq!(Suit::Spades.to_string(), "\u{2660}\u{fe0f}");
}

#[test]
fn test_card_to_string() {
    let card = Card::new(Rank::Ace, Suit::Clubs);

    assert_eq!(card.to_string(), "A\u{2663}\u{fe0f}");
}
