use blackjack_engine::card::{Card, Rank, Suit};
use blackjack_engine::game::{Game, GameAction, GameError, GameState};
use blackjack_engine::game_settings::GameSettings;
use blackjack_engine::hand::HandOutcome;

fn card(rank: Rank, suit: Suit) -> Card {
    Card::new(rank, suit)
}

fn new_game() -> Game {
    Game::new(GameSettings::new("Player1".to_string(), 1))
}

/// Replaces the drawable stack so the given cards sit on top (cards are
/// drawn from the end of the vector), padding the bottom so that the shoe
/// still holds exactly one full deck's worth of cards.
fn stack_shoe(game: &mut Game, top: Vec<Card>) {
    let mut cards = vec![card(Rank::Two, Suit::Clubs); 52 - top.len()];
    cards.extend(top);
    game.shoe.cards = cards;
}

#[test]
fn test_new_game_waits_for_bet() {
    let game = new_game();
    match game.get_state() {
        GameState::WaitingForBet { player_bankroll } => assert_eq!(*player_bankroll, 10_000),
        _ => panic!("a new game must wait for a bet"),
    }
    assert_eq!(game.shoe.cards.len(), 52);
}

#[test]
fn test_accept_bet_debits_bankroll() {
    let mut game = new_game();
    assert_eq!(game.accept_user_bet(100), Ok(()));
    match game.get_state() {
        GameState::WaitingToDeal { player_bet, player_bankroll } => {
            assert_eq!(*player_bet, 100);
            assert_eq!(*player_bankroll, 9_900);
        },
        _ => panic!("the bet must leave the game waiting to deal"),
    }
}

#[test]
fn test_bet_of_whole_bankroll_is_legal() {
    let mut game = new_game();
    assert_eq!(game.accept_user_bet(10_000), Ok(()));
    match game.get_state() {
        GameState::WaitingToDeal { player_bet, player_bankroll } => {
            assert_eq!(*player_bet, 10_000);
            assert_eq!(*player_bankroll, 0);
        },
        _ => panic!("the bet must leave the game waiting to deal"),
    }
}

#[test]
fn test_overlarge_bet_is_rejected_unchanged() {
    let mut game = new_game();
    assert_eq!(game.accept_user_bet(10_001), Err(GameError::InsufficientFunds));
    match game.get_state() {
        GameState::WaitingForBet { player_bankroll } => assert_eq!(*player_bankroll, 10_000),
        _ => panic!("a rejected bet must change nothing"),
    }
    assert_eq!(game.player.bank_roll, 10_000);
}

#[test]
fn test_actions_out_of_turn_are_rejected() {
    let mut game = new_game();
    assert_eq!(game.deal_initial_cards(), Err(GameError::OutOfTurn));
    assert_eq!(
        game.process_player_action(GameAction::Hit, 0),
        Err(GameError::OutOfTurn)
    );
    game.accept_user_bet(100).unwrap();
    assert_eq!(game.accept_user_bet(100), Err(GameError::OutOfTurn));
}

// Both seats are dealt a natural: the round pushes and the bankroll is
// restored to exactly its pre-bet value.
#[test]
fn test_natural_push_restores_bankroll() {
    let mut game = new_game();
    game.accept_user_bet(100).unwrap();
    stack_shoe(
        &mut game,
        vec![
            card(Rank::King, Suit::Hearts),  // dealer's second card
            card(Rank::King, Suit::Spades),  // player's second card
            card(Rank::Ace, Suit::Hearts),   // dealer's first card
            card(Rank::Ace, Suit::Spades),   // player's first card
        ],
    );
    game.deal_initial_cards().unwrap();
    match game.get_state() {
        GameState::RoundComplete { dealer_hand, player_hands, player_bankroll } => {
            assert_eq!(*player_bankroll, 10_000);
            assert_eq!(player_hands.len(), 1);
            assert_eq!(player_hands[0].outcome, Some(HandOutcome::Push));
            assert!(dealer_hand.is_natural_blackjack());
        },
        _ => panic!("two naturals must complete the round"),
    }
}

// A player natural alone pays 3:2: the bet plus one and a half times the bet.
#[test]
fn test_player_natural_pays_three_to_two() {
    let mut game = new_game();
    game.accept_user_bet(100).unwrap();
    stack_shoe(
        &mut game,
        vec![
            card(Rank::Seven, Suit::Hearts), // dealer's second card
            card(Rank::King, Suit::Spades),  // player's second card
            card(Rank::Nine, Suit::Hearts),  // dealer's first card
            card(Rank::Ace, Suit::Spades),   // player's first card
        ],
    );
    game.deal_initial_cards().unwrap();
    match game.get_state() {
        GameState::RoundComplete { player_hands, player_bankroll, .. } => {
            // 10,000 - 100 + 250
            assert_eq!(*player_bankroll, 10_150);
            assert_eq!(player_hands[0].outcome, Some(HandOutcome::Blackjack));
        },
        _ => panic!("a player natural must complete the round"),
    }
}

// A dealer natural alone loses the hand with no payout.
#[test]
fn test_dealer_natural_wins_round() {
    let mut game = new_game();
    game.accept_user_bet(100).unwrap();
    stack_shoe(
        &mut game,
        vec![
            card(Rank::King, Suit::Hearts),  // dealer's second card
            card(Rank::Seven, Suit::Spades), // player's second card
            card(Rank::Ace, Suit::Hearts),   // dealer's first card
            card(Rank::Nine, Suit::Spades),  // player's first card
        ],
    );
    game.deal_initial_cards().unwrap();
    match game.get_state() {
        GameState::RoundComplete { player_hands, player_bankroll, .. } => {
            assert_eq!(*player_bankroll, 9_900);
            assert_eq!(player_hands[0].outcome, Some(HandOutcome::Loss));
        },
        _ => panic!("a dealer natural must complete the round"),
    }
}

// The player is dealt 10+6, hits, and draws a king: 23 busts the hand, the
// round completes, and no payout is made.
#[test]
fn test_hit_to_bust_loses_round() {
    let mut game = new_game();
    game.accept_user_bet(100).unwrap();
    stack_shoe(
        &mut game,
        vec![
            card(Rank::King, Suit::Hearts),  // the hit card
            card(Rank::Seven, Suit::Hearts), // dealer's second card
            card(Rank::Six, Suit::Spades),   // player's second card
            card(Rank::Nine, Suit::Hearts),  // dealer's first card
            card(Rank::Ten, Suit::Spades),   // player's first card
        ],
    );
    game.deal_initial_cards().unwrap();
    assert_eq!(game.process_player_action(GameAction::Hit, 0), Ok(()));
    match game.get_state() {
        GameState::RoundComplete { player_hands, player_bankroll, .. } => {
            assert_eq!(*player_bankroll, 9_900);
            assert_eq!(player_hands.len(), 1);
            assert_eq!(player_hands[0].outcome, Some(HandOutcome::Loss));
            assert_eq!(player_hands[0].cards.len(), 3);
        },
        _ => panic!("busting the only hand must complete the round"),
    }
}

// The player stands on 20; the dealer draws up from 16 to 22 and busts, so
// the hand wins and the bankroll rises by twice the bet.
#[test]
fn test_dealer_bust_pays_even_money() {
    let mut game = new_game();
    game.accept_user_bet(100).unwrap();
    stack_shoe(
        &mut game,
        vec![
            card(Rank::Six, Suit::Hearts),   // the dealer's hit card
            card(Rank::Seven, Suit::Hearts), // dealer's second card
            card(Rank::Queen, Suit::Spades), // player's second card
            card(Rank::Nine, Suit::Hearts),  // dealer's first card
            card(Rank::King, Suit::Spades),  // player's first card
        ],
    );
    game.deal_initial_cards().unwrap();
    assert_eq!(game.process_player_action(GameAction::Stand, 0), Ok(()));
    assert!(matches!(game.get_state(), GameState::DealerTurn { .. }));
    game.next_dealer_turn();
    match game.get_state() {
        GameState::RoundComplete { dealer_hand, player_hands, player_bankroll } => {
            assert_eq!(*player_bankroll, 10_100);
            assert_eq!(player_hands[0].outcome, Some(HandOutcome::Win));
            assert!(dealer_hand.is_busted());
        },
        _ => panic!("a dealer bust must settle the round"),
    }
}

// The player splits two eights, each resulting hand receives one card, the
// hands are played independently (one busts, one stands at 19), and both are
// resolved against the same final dealer hand.
#[test]
fn test_split_hands_resolve_independently() {
    let mut game = new_game();
    game.accept_user_bet(100).unwrap();
    stack_shoe(
        &mut game,
        vec![
            card(Rank::Ace, Suit::Spades),   // the second hand's mandatory card
            card(Rank::Queen, Suit::Hearts), // the first hand's busting hit
            card(Rank::King, Suit::Spades),  // the first hand's replacement card
            card(Rank::Seven, Suit::Hearts), // dealer's second card
            card(Rank::Eight, Suit::Hearts), // player's second card
            card(Rank::Ten, Suit::Spades),   // dealer's first card
            card(Rank::Eight, Suit::Spades), // player's first card
        ],
    );
    game.deal_initial_cards().unwrap();
    assert_eq!(game.process_player_action(GameAction::Split, 0), Ok(()));
    match game.get_state() {
        GameState::PlayerTurn { player_hands, player_bankroll, active_hand_index, .. } => {
            // The split debited the original bet an additional time.
            assert_eq!(*player_bankroll, 9_800);
            assert_eq!(player_hands.len(), 2);
            assert_eq!(*active_hand_index, 0);
            assert_eq!(player_hands[0].cards.len(), 2);
            assert_eq!(player_hands[1].cards.len(), 1);
            assert_eq!(player_hands[0].bet, 100);
            assert_eq!(player_hands[1].bet, 100);
        },
        _ => panic!("a split must stay in the player's turn"),
    }
    // First hand hits to 8 + K + Q = 28 and busts; play advances to the
    // second hand, which receives its mandatory card.
    assert_eq!(game.process_player_action(GameAction::Hit, 0), Ok(()));
    match game.get_state() {
        GameState::PlayerTurn { player_hands, active_hand_index, .. } => {
            assert_eq!(*active_hand_index, 1);
            assert_eq!(player_hands[0].outcome, Some(HandOutcome::Loss));
            assert_eq!(player_hands[1].cards.len(), 2);
        },
        _ => panic!("a later split hand must keep the player's turn"),
    }
    // Second hand stands at 8 + A = 19.
    assert_eq!(game.process_player_action(GameAction::Stand, 1), Ok(()));
    game.next_dealer_turn();
    match game.get_state() {
        GameState::RoundComplete { player_hands, player_bankroll, .. } => {
            assert_eq!(player_hands.len(), 2);
            assert_eq!(player_hands[0].outcome, Some(HandOutcome::Loss));
            assert_eq!(player_hands[1].outcome, Some(HandOutcome::Win));
            // 10,000 - 100 - 100 + 200: the win on 19 against the dealer's 17.
            assert_eq!(*player_bankroll, 10_000);
        },
        _ => panic!("the dealer's stand must settle both hands"),
    }
}

// A hand may be split again when re-split eligibility recurs.
#[test]
fn test_resplit_inserts_adjacent_hand() {
    let mut game = new_game();
    game.accept_user_bet(100).unwrap();
    stack_shoe(
        &mut game,
        vec![
            card(Rank::Five, Suit::Spades),  // replacement after the second split
            card(Rank::Eight, Suit::Diamonds), // replacement after the first split
            card(Rank::Seven, Suit::Hearts), // dealer's second card
            card(Rank::Eight, Suit::Hearts), // player's second card
            card(Rank::King, Suit::Hearts),  // dealer's first card
            card(Rank::Eight, Suit::Spades), // player's first card
        ],
    );
    game.deal_initial_cards().unwrap();
    assert_eq!(game.process_player_action(GameAction::Split, 0), Ok(()));
    assert_eq!(game.process_player_action(GameAction::Split, 0), Ok(()));
    match game.get_state() {
        GameState::PlayerTurn { player_hands, player_bankroll, active_hand_index, .. } => {
            assert_eq!(player_hands.len(), 3);
            assert_eq!(*active_hand_index, 0);
            // The original bet was debited an additional time per split.
            assert_eq!(*player_bankroll, 9_700);
            assert_eq!(player_hands[0].cards[0].rank, Rank::Eight);
            assert_eq!(player_hands[0].cards[1].rank, Rank::Five);
            assert_eq!(player_hands[1].cards.len(), 1);
            assert_eq!(player_hands[2].cards.len(), 1);
        },
        _ => panic!("a re-split must stay in the player's turn"),
    }
}

// Doubling draws exactly one card, stakes the bet a second time, and then
// stands; a win returns twice the doubled bet.
#[test]
fn test_double_stakes_and_stands() {
    let mut game = new_game();
    game.accept_user_bet(100).unwrap();
    stack_shoe(
        &mut game,
        vec![
            card(Rank::King, Suit::Hearts),  // the double's card: 21
            card(Rank::Seven, Suit::Hearts), // dealer's second card
            card(Rank::Six, Suit::Spades),   // player's second card
            card(Rank::Ten, Suit::Hearts),   // dealer's first card
            card(Rank::Five, Suit::Spades),  // player's first card
        ],
    );
    game.deal_initial_cards().unwrap();
    assert_eq!(game.process_player_action(GameAction::Double, 0), Ok(()));
    assert!(matches!(game.get_state(), GameState::DealerTurn { .. }));
    game.next_dealer_turn();
    match game.get_state() {
        GameState::RoundComplete { player_hands, player_bankroll, .. } => {
            assert_eq!(player_hands[0].bet, 200);
            assert_eq!(player_hands[0].outcome, Some(HandOutcome::Win));
            // 10,000 - 100 - 100 + 400.
            assert_eq!(*player_bankroll, 10_200);
        },
        _ => panic!("the dealer's 17 must settle the round"),
    }
}

// Equal best totals push: the bet alone comes back.
#[test]
fn test_equal_totals_push() {
    let mut game = new_game();
    game.accept_user_bet(100).unwrap();
    stack_shoe(
        &mut game,
        vec![
            card(Rank::Queen, Suit::Diamonds), // dealer's second card
            card(Rank::Queen, Suit::Spades),   // player's second card
            card(Rank::King, Suit::Diamonds),  // dealer's first card
            card(Rank::King, Suit::Spades),    // player's first card
        ],
    );
    game.deal_initial_cards().unwrap();
    game.process_player_action(GameAction::Stand, 0).unwrap();
    game.next_dealer_turn();
    match game.get_state() {
        GameState::RoundComplete { player_hands, player_bankroll, .. } => {
            assert_eq!(player_hands[0].outcome, Some(HandOutcome::Push));
            assert_eq!(*player_bankroll, 10_000);
        },
        _ => panic!("twenty against twenty must push"),
    }
}

// Hitting to exactly 21 ends the hand's turn like a stand.
#[test]
fn test_hit_to_twenty_one_passes_to_dealer() {
    let mut game = new_game();
    game.accept_user_bet(100).unwrap();
    stack_shoe(
        &mut game,
        vec![
            card(Rank::Five, Suit::Hearts),  // the hit card: soft 21
            card(Rank::Seven, Suit::Hearts), // dealer's second card
            card(Rank::Five, Suit::Spades),  // player's second card
            card(Rank::Nine, Suit::Hearts),  // dealer's first card
            card(Rank::Ace, Suit::Spades),   // player's first card
        ],
    );
    game.deal_initial_cards().unwrap();
    assert_eq!(game.process_player_action(GameAction::Hit, 0), Ok(()));
    assert!(matches!(game.get_state(), GameState::DealerTurn { .. }));
}

// Invoking the dealer outside the dealer phase is a no-op.
#[test]
fn test_dealer_turn_elsewhere_is_noop() {
    let mut game = new_game();
    game.next_dealer_turn();
    match game.get_state() {
        GameState::WaitingForBet { player_bankroll } => assert_eq!(*player_bankroll, 10_000),
        _ => panic!("the waiting phase must be untouched"),
    }
    assert_eq!(game.shoe.cards.len(), 52);
    assert_eq!(game.player.hands.len(), 1);
    assert_eq!(game.player.hands[0].cards.len(), 0);

    game.accept_user_bet(100).unwrap();
    game.next_dealer_turn();
    match game.get_state() {
        GameState::WaitingToDeal { player_bet, player_bankroll } => {
            assert_eq!(*player_bet, 100);
            assert_eq!(*player_bankroll, 9_900);
        },
        _ => panic!("the dealing phase must be untouched"),
    }
    assert_eq!(game.shoe.cards.len(), 52);
}

#[test]
fn test_invalid_hand_index_is_rejected() {
    let mut game = new_game();
    game.accept_user_bet(100).unwrap();
    stack_shoe(
        &mut game,
        vec![
            card(Rank::Seven, Suit::Hearts),
            card(Rank::Six, Suit::Spades),
            card(Rank::Nine, Suit::Hearts),
            card(Rank::Ten, Suit::Spades),
        ],
    );
    game.deal_initial_cards().unwrap();
    assert_eq!(
        game.process_player_action(GameAction::Hit, 1),
        Err(GameError::InvalidHandIndex)
    );
    assert!(matches!(game.get_state(), GameState::PlayerTurn { .. }));
}

#[test]
fn test_illegal_split_is_rejected() {
    let mut game = new_game();
    game.accept_user_bet(100).unwrap();
    stack_shoe(
        &mut game,
        vec![
            card(Rank::Seven, Suit::Hearts),
            card(Rank::Six, Suit::Spades),
            card(Rank::Nine, Suit::Hearts),
            card(Rank::Ten, Suit::Spades),
        ],
    );
    game.deal_initial_cards().unwrap();
    assert_eq!(
        game.process_player_action(GameAction::Split, 0),
        Err(GameError::IllegalSplit)
    );
    assert_eq!(game.player.hands.len(), 1);
    assert_eq!(game.player.bank_roll, 9_900);
}

#[test]
fn test_underfunded_double_is_rejected() {
    let mut game = new_game();
    game.accept_user_bet(10_000).unwrap();
    stack_shoe(
        &mut game,
        vec![
            card(Rank::Seven, Suit::Hearts),
            card(Rank::Six, Suit::Spades),
            card(Rank::Nine, Suit::Hearts),
            card(Rank::Ten, Suit::Spades),
        ],
    );
    game.deal_initial_cards().unwrap();
    assert_eq!(
        game.process_player_action(GameAction::Double, 0),
        Err(GameError::InsufficientFunds)
    );
    assert_eq!(game.player.bank_roll, 0);
    assert_eq!(game.player.hands[0].bet, 10_000);
}

#[test]
fn test_exhausted_shoe_rejects_hit() {
    let mut game = new_game();
    game.accept_user_bet(100).unwrap();
    // Eight aces on the drawable stack, the rest of the set in the discard
    // pile: the deal leaves four cards, and four soft hits consume them all.
    game.shoe.cards = vec![card(Rank::Ace, Suit::Spades); 8];
    game.shoe.discarded = vec![card(Rank::Two, Suit::Clubs); 44];
    game.deal_initial_cards().unwrap();
    for _ in 0..4 {
        assert_eq!(game.process_player_action(GameAction::Hit, 0), Ok(()));
    }
    assert_eq!(game.shoe.cards.len(), 0);
    assert_eq!(
        game.process_player_action(GameAction::Hit, 0),
        Err(GameError::ShoeEmpty)
    );
    assert!(matches!(game.get_state(), GameState::PlayerTurn { .. }));
    assert_eq!(game.player.hands[0].cards.len(), 6);
}

#[test]
fn test_next_round_resets_hands_and_keeps_bankroll() {
    let mut game = new_game();
    game.accept_user_bet(100).unwrap();
    stack_shoe(
        &mut game,
        vec![
            card(Rank::King, Suit::Hearts),
            card(Rank::Seven, Suit::Spades),
            card(Rank::Ace, Suit::Hearts),
            card(Rank::Nine, Suit::Spades),
        ],
    );
    game.deal_initial_cards().unwrap();
    game.next_round();
    match game.get_state() {
        GameState::WaitingForBet { player_bankroll } => assert_eq!(*player_bankroll, 9_900),
        _ => panic!("the next round must wait for a bet"),
    }
    assert_eq!(game.player.hands.len(), 1);
    assert_eq!(game.player.hands[0].cards.len(), 0);
}

#[test]
fn test_shuffle_shoe_keeps_the_same_cards() {
    let mut game = new_game();
    let mut before = game.shoe.cards.clone();
    game.shuffle_shoe();
    let mut after = game.shoe.cards.clone();
    assert_eq!(before.len(), after.len());
    let key = |c: &Card| (c.rank as u8, c.suit as u8);
    before.sort_by_key(key);
    after.sort_by_key(key);
    assert_eq!(before, after);
}

#[test]
fn test_action_parsing() {
    assert_eq!(GameAction::from_string("h"), Some(GameAction::Hit));
    assert_eq!(GameAction::from_string("HIT"), Some(GameAction::Hit));
    assert_eq!(GameAction::from_string("  hIt  "), Some(GameAction::Hit));
    assert_eq!(GameAction::from_string("s"), Some(GameAction::Stand));
    assert_eq!(GameAction::from_string("Stand"), Some(GameAction::Stand));
    assert_eq!(GameAction::from_string("d"), Some(GameAction::Double));
    assert_eq!(GameAction::from_string("DOUBLE"), Some(GameAction::Double));
    assert_eq!(GameAction::from_string("p"), Some(GameAction::Split));
    assert_eq!(GameAction::from_string("\tsplit\n"), Some(GameAction::Split));
    assert_eq!(
        GameAction::from_string("\u{a0}hit\u{3000}"),
        Some(GameAction::Hit)
    );
    assert_eq!(GameAction::from_string(""), None);
    assert_eq!(GameAction::from_string("x"), None);
    assert_eq!(GameAction::from_string("hitt"), None);
    assert_eq!(GameAction::from_string("hi t"), None);
}

#[test]
fn test_action_to_string() {
    assert_eq!(GameAction::Hit.to_string(), "HIT");
    assert_eq!(GameAction::Stand.to_string(), "STAND");
    assert_eq!(GameAction::Double.to_string(), "DOUBLE");
    assert_eq!(GameAction::Split.to_string(), "SPLIT");
}
