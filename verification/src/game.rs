use vstd::prelude::*;
use vstd::string::StringExecFns;
use crate::card::Card;
use crate::game_settings::{settings_valid, GameSettings};
use crate::hand::{best_total, blackjack, busted, clone_cards, natural_blackjack, Hand, HandOutcome};
use crate::player::{clone_hands, hand_models, Player};
use crate::shoe::Shoe;
use crate::text::{chars_match, chars_of, lower, lower_chars, trim_chars, trimmed};

verus! {

/// The largest bankroll a bet is accepted on. Payouts multiply money by at
/// most five halves per round, so keeping the staked total under this limit
/// keeps every bankroll credit inside a u64.
pub const BANKROLL_LIMIT: u64 = u64::MAX / 8;

/// Which seat an operation concerns.
pub enum PlayerType {
    MainPlayer,
    Dealer,
    Other(u32),
}

/// A decision the player can take on the active hand.
#[derive(Debug, Clone, Copy, PartialEq, Eq, Structural)]
pub enum GameAction {
    Hit,
    Stand,
    Double,
    Split,
}

/// Why a submitted operation was rejected; a rejected operation leaves the
/// game exactly as it was.
#[derive(Debug, Clone, Copy, PartialEq, Eq, Structural)]
pub enum GameError {
    /// The operation does not belong to the current round phase.
    OutOfTurn,
    /// The bet (or the extra stake of a double or split) exceeds the bankroll.
    InsufficientFunds,
    /// The submitted hand index is not the active hand.
    InvalidHandIndex,
    /// The hand is not two cards of one rank, so it cannot be split.
    IllegalSplit,
    /// The drawable stack cannot cover the cards this action may need.
    ShoeEmpty,
}

/// A coarse classification of a hand's totals.
pub enum HandResult {
    Blackjack,
    Bust,
    Other(Vec<i32>),
}

/// The round phase, carrying exactly the data relevant to that phase.
#[derive(Debug)]
pub enum GameState {
    WaitingForBet { player_bankroll: u64 },
    WaitingToDeal { player_bet: u64, player_bankroll: u64 },
    PlayerTurn {
        dealer_hand: Hand,
        player_hands: Vec<Hand>,
        player_bankroll: u64,
        active_hand_index: usize,
    },
    DealerTurn { dealer_hand: Hand, player_hands: Vec<Hand>, player_bankroll: u64 },
    RoundComplete { dealer_hand: Hand, player_hands: Vec<Hand>, player_bankroll: u64 },
}

/// What a hand has at stake: its bet while it is live, nothing once settled.
pub open spec fn hand_stake(h: Hand) -> int {
    if h.outcome is None {
        h.bet as int
    } else {
        0
    }
}

/// The total still at stake across a seat's hands.
pub open spec fn live_stake(hands: Seq<Hand>) -> int
    decreases hands.len(),
{
    if hands.len() == 0 {
        0
    } else {
        live_stake(hands.drop_last()) + hand_stake(hands.last())
    }
}

/// Every hand has an outcome.
pub open spec fn all_settled(hands: Seq<Hand>) -> bool {
    forall|i: int| 0 <= i < hands.len() ==> (#[trigger] hands[i]).outcome is Some
}

/// No hand can outgrow 22 cards: a hand only ever draws while it is not yet
/// busted, and 22 cards bust every hand.
pub open spec fn hands_card_bound(hands: Seq<Hand>) -> bool {
    forall|i: int| 0 <= i < hands.len() ==> (#[trigger] hands[i]).cards@.len() <= 22
}

/// The outcome a hand resolves to against the dealer's final cards: an
/// already settled hand keeps its outcome; a busted hand loses whatever the
/// dealer did; otherwise a busted dealer loses to it, and equal best totals
/// push.
pub open spec fn settled_outcome(h: Hand, dealer_cards: Seq<Card>) -> HandOutcome {
    match h.outcome {
        Some(o) => o,
        None => if busted(h.cards@) {
            HandOutcome::Loss
        } else if busted(dealer_cards) {
            HandOutcome::Win
        } else if best_total(dealer_cards) > best_total(h.cards@) {
            HandOutcome::Loss
        } else if best_total(h.cards@) > best_total(dealer_cards) {
            HandOutcome::Win
        } else {
            HandOutcome::Push
        },
    }
}

/// What settling a hand returns to the bankroll: a win returns twice the bet
/// (even money), a push returns the bet alone, a loss returns nothing, and an
/// already settled hand was paid when it settled.
pub open spec fn settled_credit(h: Hand, dealer_cards: Seq<Card>) -> int {
    match settled_outcome(h, dealer_cards) {
        HandOutcome::Win => if h.outcome is None {
            2 * h.bet as int
        } else {
            0
        },
        HandOutcome::Push => if h.outcome is None {
            h.bet as int
        } else {
            0
        },
        _ => 0,
    }
}

/// The total returned to the bankroll when every hand settles.
pub open spec fn settlement_total(hands: Seq<Hand>, dealer_cards: Seq<Card>) -> int
    decreases hands.len(),
{
    if hands.len() == 0 {
        0
    } else {
        settlement_total(hands.drop_last(), dealer_cards) + settled_credit(
            hands.last(),
            dealer_cards,
        )
    }
}

/// Every hand resolved against the dealer's final cards, in one pass: cards
/// and bets are kept, and each hand receives exactly its settled outcome.
pub open spec fn hands_settled(pre: Seq<Hand>, post: Seq<Hand>, dealer_cards: Seq<Card>) -> bool {
    &&& post.len() == pre.len()
    &&& forall|i: int|
        0 <= i < pre.len() ==> {
            &&& (#[trigger] post[i]).cards@ == pre[i].cards@
            &&& post[i].bet == pre[i].bet
            &&& post[i].outcome == Some(settled_outcome(pre[i], dealer_cards))
        }
}

/// Nothing is ever negatively at stake.
pub proof fn lemma_live_stake_nonneg(hands: Seq<Hand>)
    ensures
        0 <= live_stake(hands),
    decreases hands.len(),
{
    if hands.len() > 0 {
        lemma_live_stake_nonneg(hands.drop_last());
    }
}

/// Replacing one hand moves the total stake by the difference of the two
/// hands' stakes.
pub proof fn lemma_live_stake_update(hands: Seq<Hand>, i: int, h: Hand)
    requires
        0 <= i < hands.len(),
    ensures
        live_stake(hands.update(i, h)) == live_stake(hands) - hand_stake(hands[i]) + hand_stake(h),
    decreases hands.len(),
{
    if i == hands.len() - 1 {
        assert(hands.update(i, h).drop_last() =~= hands.drop_last());
    } else {
        assert(hands.update(i, h).drop_last() =~= hands.drop_last().update(i, h));
        lemma_live_stake_update(hands.drop_last(), i, h);
    }
}

/// Inserting a hand adds its stake to the total.
pub proof fn lemma_live_stake_insert(hands: Seq<Hand>, p: int, h: Hand)
    requires
        0 <= p <= hands.len(),
    ensures
        live_stake(hands.insert(p, h)) == live_stake(hands) + hand_stake(h),
    decreases hands.len(),
{
    if p == hands.len() {
        assert(hands.insert(p, h).drop_last() =~= hands);
    } else {
        assert(hands.insert(p, h).drop_last() =~= hands.drop_last().insert(p, h));
        assert(hands.insert(p, h).last() == hands.last());
        lemma_live_stake_insert(hands.drop_last(), p, h);
    }
}

/// The stake splits around the first hand as well as the last.
pub proof fn lemma_live_stake_first(hands: Seq<Hand>)
    requires
        hands.len() > 0,
    ensures
        live_stake(hands) == hand_stake(hands.first()) + live_stake(hands.drop_first()),
    decreases hands.len(),
{
    if hands.len() == 1 {
        assert(live_stake(hands.drop_last()) == 0);
        assert(live_stake(hands.drop_first()) == 0);
    } else {
        lemma_live_stake_first(hands.drop_last());
        assert(hands.drop_last().first() == hands.first());
        assert(hands.drop_last().drop_first() =~= hands.drop_first().drop_last());
        assert(hands.drop_first().last() == hands.last());
        assert(live_stake(hands.drop_first()) == live_stake(hands.drop_first().drop_last())
            + hand_stake(hands.drop_first().last()));
    }
}

/// Settling a hand returns at most double its stake, and never takes.
pub proof fn lemma_settled_credit_bound(h: Hand, dealer_cards: Seq<Card>)
    ensures
        0 <= settled_credit(h, dealer_cards) <= 2 * hand_stake(h),
{
}

/// Settling a round returns at most double the stakes, and never takes.
pub proof fn lemma_settlement_total_bound(hands: Seq<Hand>, dealer_cards: Seq<Card>)
    ensures
        0 <= settlement_total(hands, dealer_cards) <= 2 * live_stake(hands),
    decreases hands.len(),
{
    if hands.len() > 0 {
        lemma_settlement_total_bound(hands.drop_last(), dealer_cards);
        lemma_settled_credit_bound(hands.last(), dealer_cards);
    }
}

/// The settlement total grows hand by hand across a prefix.
pub proof fn lemma_settlement_total_prefix(hands: Seq<Hand>, dealer_cards: Seq<Card>, i: int)
    requires
        0 <= i < hands.len(),
    ensures
        settlement_total(hands.subrange(0, i + 1), dealer_cards) == settlement_total(
            hands.subrange(0, i),
            dealer_cards,
        ) + settled_credit(hands[i], dealer_cards),
{
    assert(hands.subrange(0, i + 1).drop_last() =~= hands.subrange(0, i));
}

/// A natural blackjack's return, twice the bet plus half the bet again, is
/// exactly five halves of the bet (rounded down once, on an odd bet).
pub proof fn lemma_natural_return_is_five_halves(bet: u64)
    ensures
        2 * (bet as int) + (bet as int) / 2 == (5 * (bet as int)) / 2,
{
    vstd::arithmetic::div_mod::lemma_hoist_over_denominator(bet as int, 2 * (bet as int), 2);
}

/// No single hand has more at stake than the whole seat.
pub proof fn lemma_live_stake_element(hands: Seq<Hand>, i: int)
    requires
        0 <= i < hands.len(),
    ensures
        hand_stake(hands[i]) <= live_stake(hands),
    decreases hands.len(),
{
    if i == hands.len() - 1 {
        lemma_live_stake_nonneg(hands.drop_last());
    } else {
        lemma_live_stake_element(hands.drop_last(), i);
    }
}

/// How many cards an action may need from the shoe before it is attempted:
/// one onto the hand itself for a hit or a double, and one more as the
/// mandatory first extra card of the next split hand whenever the turn will
/// move past the active hand while a later hand exists.
pub open spec fn cards_needed(action: GameAction, more_hands: bool) -> int {
    match action {
        GameAction::Hit => if more_hands {
            2
        } else {
            1
        },
        GameAction::Stand => if more_hands {
            1
        } else {
            0
        },
        GameAction::Double => if more_hands {
            2
        } else {
            1
        },
        GameAction::Split => 1,
    }
}

/// Why an action submission is rejected, if it is: it must come during the
/// player's turn and name the active hand; a double or a split must be
/// funded by the bankroll, since each stakes the hand's bet a second time; a
/// split needs exactly two cards of one rank; and the drawable stack must
/// cover every card the action may draw.
pub open spec fn action_rejection(g: Game, action: GameAction, hand_index: int) -> Option<
    GameError,
> {
    match g.state {
        GameState::PlayerTurn { active_hand_index, .. } => {
            if hand_index != active_hand_index {
                Some(GameError::InvalidHandIndex)
            } else {
                let h = g.player.hands@[hand_index];
                let more = hand_index + 1 < g.player.hands@.len();
                let have = g.shoe.cards@.len();
                match action {
                    GameAction::Hit => if have < cards_needed(action, more) {
                        Some(GameError::ShoeEmpty)
                    } else {
                        None
                    },
                    GameAction::Stand => if have < cards_needed(action, more) {
                        Some(GameError::ShoeEmpty)
                    } else {
                        None
                    },
                    GameAction::Double => if g.player.bank_roll < h.bet {
                        Some(GameError::InsufficientFunds)
                    } else if have < cards_needed(action, more) {
                        Some(GameError::ShoeEmpty)
                    } else {
                        None
                    },
                    GameAction::Split => if !(h.cards@.len() == 2 && h.cards@[0].rank
                        == h.cards@[1].rank) {
                        Some(GameError::IllegalSplit)
                    } else if g.player.bank_roll < h.bet {
                        Some(GameError::InsufficientFunds)
                    } else if have < cards_needed(action, more) {
                        Some(GameError::ShoeEmpty)
                    } else {
                        None
                    },
                }
            }
        },
        _ => Some(GameError::OutOfTurn),
    }
}

/// After the active hand's turn ends: when a later split hand exists, it
/// draws its mandatory first extra card from the top of `shoe_cards` and
/// becomes the active hand; otherwise the round passes to the dealer. Hands
/// other than the finished one and its successor are untouched.
pub open spec fn advance_transition(pre: Game, post: Game, i: int, shoe_cards: Seq<Card>) -> bool {
    let pre_hands = pre.player.hands@;
    let more = i + 1 < pre_hands.len();
    &&& post.player.hands@.len() == pre_hands.len()
    &&& forall|j: int|
        0 <= j < pre_hands.len() && j != i && j != i + 1 ==> (#[trigger] post.player.hands@[j])
            == pre_hands[j]
    &&& if more {
        &&& post.player.hands@[i + 1].cards@ == pre_hands[i + 1].cards@.push(shoe_cards.last())
        &&& post.player.hands@[i + 1].bet == pre_hands[i + 1].bet
        &&& post.player.hands@[i + 1].outcome is None
        &&& post.shoe.cards@ == shoe_cards.drop_last()
        &&& (post.state matches GameState::PlayerTurn { active_hand_index, .. }
            && active_hand_index == i + 1)
    } else {
        &&& post.shoe.cards@ == shoe_cards
        &&& post.state is DealerTurn
    }
}

/// A hit on the active hand: one card is drawn onto it. Busting settles the
/// hand as a loss, and play moves on — to the next split hand when one
/// exists, to the dealer when another hand still awaits the dealer, and
/// straight to a completed round when every hand is now settled. Reaching
/// exactly 21 ends the hand's turn as a stand would; otherwise the hand
/// stays active.
pub open spec fn hit_transition(pre: Game, post: Game, i: int) -> bool {
    let pre_hands = pre.player.hands@;
    let cards1 = pre_hands[i].cards@.push(pre.shoe.cards@.last());
    &&& post.player.bank_roll == pre.player.bank_roll
    &&& post.dealer == pre.dealer
    &&& post.settings == pre.settings
    &&& post.player.hands@.len() == pre_hands.len()
    &&& post.player.hands@[i].cards@ == cards1
    &&& post.player.hands@[i].bet == pre_hands[i].bet
    &&& if busted(cards1) {
        &&& post.player.hands@[i].outcome == Some(HandOutcome::Loss)
        &&& if i + 1 < pre_hands.len() {
            advance_transition(pre, post, i, pre.shoe.cards@.drop_last())
        } else {
            &&& forall|j: int|
                0 <= j < pre_hands.len() && j != i ==> (#[trigger] post.player.hands@[j])
                    == pre_hands[j]
            &&& post.shoe.cards@ == pre.shoe.cards@.drop_last()
            &&& if exists|j: int| 0 <= j < i && (#[trigger] pre_hands[j]).outcome is None {
                post.state is DealerTurn
            } else {
                post.state is RoundComplete
            }
        }
    } else if blackjack(cards1) {
        &&& post.player.hands@[i].outcome is None
        &&& advance_transition(pre, post, i, pre.shoe.cards@.drop_last())
    } else {
        &&& post.player.hands@[i].outcome is None
        &&& forall|j: int|
            0 <= j < pre_hands.len() && j != i ==> (#[trigger] post.player.hands@[j])
                == pre_hands[j]
        &&& post.shoe.cards@ == pre.shoe.cards@.drop_last()
        &&& (post.state matches GameState::PlayerTurn { active_hand_index, .. }
            && active_hand_index == i)
    }
}

/// A stand on the active hand: the hand itself is untouched and play moves
/// on to the next split hand or to the dealer.
pub open spec fn stand_transition(pre: Game, post: Game, i: int) -> bool {
    &&& post.player.bank_roll == pre.player.bank_roll
    &&& post.dealer == pre.dealer
    &&& post.settings == pre.settings
    &&& post.player.hands@[i] == pre.player.hands@[i]
    &&& advance_transition(pre, post, i, pre.shoe.cards@)
}

/// A double on the active hand: one card is drawn onto it, the bankroll is
/// debited by the hand's bet, the bet doubles, and the turn then ends
/// exactly as a stand's would.
pub open spec fn double_transition(pre: Game, post: Game, i: int) -> bool {
    let pre_hands = pre.player.hands@;
    &&& post.player.bank_roll == pre.player.bank_roll - pre_hands[i].bet
    &&& post.dealer == pre.dealer
    &&& post.settings == pre.settings
    &&& post.player.hands@[i].cards@ == pre_hands[i].cards@.push(pre.shoe.cards@.last())
    &&& post.player.hands@[i].bet == 2 * pre_hands[i].bet
    &&& post.player.hands@[i].outcome is None
    &&& advance_transition(pre, post, i, pre.shoe.cards@.drop_last())
}

/// A split of the active hand: its second card moves into a new hand
/// inserted right after it, staked with the same bet debited from the
/// bankroll; the original hand draws one replacement card and stays the
/// active hand. The split-off hand draws its own card only when the turn
/// reaches it.
pub open spec fn split_transition(pre: Game, post: Game, i: int) -> bool {
    let pre_hands = pre.player.hands@;
    let h = pre_hands[i];
    &&& post.player.bank_roll == pre.player.bank_roll - h.bet
    &&& post.dealer == pre.dealer
    &&& post.settings == pre.settings
    &&& post.player.hands@.len() == pre_hands.len() + 1
    &&& post.player.hands@[i].cards@ == seq![h.cards@[0], pre.shoe.cards@.last()]
    &&& post.player.hands@[i].bet == h.bet
    &&& post.player.hands@[i].outcome is None
    &&& post.player.hands@[i + 1].cards@ == seq![h.cards@[1]]
    &&& post.player.hands@[i + 1].bet == h.bet
    &&& post.player.hands@[i + 1].outcome is None
    &&& forall|j: int| 0 <= j < i ==> (#[trigger] post.player.hands@[j]) == pre_hands[j]
    &&& forall|j: int|
        i + 1 < j < post.player.hands@.len() ==> (#[trigger] post.player.hands@[j]) == pre_hands[j
            - 1]
    &&& post.shoe.cards@ == pre.shoe.cards@.drop_last()
    &&& (post.state matches GameState::PlayerTurn { active_hand_index, .. } && active_hand_index
        == i)
}

/// Every player hand resolved against the dealer's final cards in one pass:
/// each hand receives exactly its settled outcome, wins and pushes are
/// credited to the bankroll, and the round is complete.
pub open spec fn settle_transition(pre: Game, post: Game, dealer_cards: Seq<Card>) -> bool {
    &&& hands_settled(pre.player.hands@, post.player.hands@, dealer_cards)
    &&& post.player.bank_roll == pre.player.bank_roll + settlement_total(
        pre.player.hands@,
        dealer_cards,
    )
    &&& post.state is RoundComplete
    &&& post.dealer.hands@[0].cards@ == dealer_cards
    &&& post.settings == pre.settings
}

/// One step of the dealer policy from the dealer phase: on 17 or more the
/// dealer stands and the round settles; on 16 or less the dealer draws one
/// card — busting settles the round at once, and otherwise the dealer phase
/// continues. Drawing from an empty shoe leaves the game unchanged.
pub open spec fn dealer_turn_transition(pre: Game, post: Game) -> bool {
    let dc = pre.dealer.hands@[0].cards@;
    if best_total(dc) > 16 {
        &&& settle_transition(pre, post, dc)
        &&& post.dealer == pre.dealer
        &&& post.shoe == pre.shoe
    } else if pre.shoe.cards@.len() == 0 {
        post == pre
    } else {
        let dc1 = dc.push(pre.shoe.cards@.last());
        &&& post.dealer.hands@[0].cards@ == dc1
        &&& post.shoe.cards@ == pre.shoe.cards@.drop_last()
        &&& if busted(dc1) {
            settle_transition(pre, post, dc1)
        } else {
            &&& post.state is DealerTurn
            &&& hand_models(post.player.hands@) == hand_models(pre.player.hands@)
            &&& post.player.bank_roll == pre.player.bank_roll
        }
    }
}

/// The result of dealing the opening cards from a phase awaiting the deal:
/// two cards each in strict player-dealer alternation — drawn from the top
/// of the standing stack when it holds at least 8 cards, from a fresh
/// replenished shoe otherwise — and naturals resolved in priority order.
pub open spec fn deal_transition(pre: Game, post: Game) -> bool {
    let bet = pre.player.hands@[0].bet;
    let ph = post.player.hands@[0];
    let dh = post.dealer.hands@[0];
    &&& post.player.hands@.len() == 1
    &&& post.dealer.hands@.len() == 1
    &&& ph.cards@.len() == 2
    &&& dh.cards@.len() == 2
    &&& ph.bet == bet
    &&& dh.outcome is None
    &&& post.settings == pre.settings
    &&& post.shoe.num_decks() == pre.shoe.num_decks()
    &&& (pre.shoe.cards@.len() >= 8 ==> {
        let n = pre.shoe.cards@.len() as int;
        &&& ph.cards@ == seq![pre.shoe.cards@[n - 1], pre.shoe.cards@[n - 3]]
        &&& dh.cards@ == seq![pre.shoe.cards@[n - 2], pre.shoe.cards@[n - 4]]
        &&& post.shoe.cards@ == pre.shoe.cards@.subrange(0, n - 4)
    })
    &&& (pre.shoe.cards@.len() < 8 ==> {
        &&& post.shoe.cards@.len() + 4 == 52 * pre.shoe.num_decks()
        &&& post.shoe.cards@.to_multiset().insert(dh.cards@[1]).insert(ph.cards@[1]).insert(
            dh.cards@[0],
        ).insert(ph.cards@[0]) == crate::shoe::fresh_shoe(pre.shoe.num_decks()).to_multiset()
    })
    &&& if natural_blackjack(ph.cards@) && natural_blackjack(dh.cards@) {
        &&& ph.outcome == Some(HandOutcome::Push)
        &&& post.player.bank_roll == pre.player.bank_roll + bet
        &&& post.state is RoundComplete
    } else if natural_blackjack(ph.cards@) {
        &&& ph.outcome == Some(HandOutcome::Blackjack)
        &&& post.player.bank_roll == pre.player.bank_roll + 2 * bet + bet / 2
        &&& post.state is RoundComplete
    } else if natural_blackjack(dh.cards@) {
        &&& ph.outcome == Some(HandOutcome::Loss)
        &&& post.player.bank_roll == pre.player.bank_roll
        &&& post.state is RoundComplete
    } else {
        &&& ph.outcome is None
        &&& post.player.bank_roll == pre.player.bank_roll
        &&& (post.state matches GameState::PlayerTurn { active_hand_index, .. }
            && active_hand_index == 0)
    }
}

/// The orchestrator: the shoe, the two seats, the table settings, and the
/// phase the round is in.
pub struct Game {
    pub settings: GameSettings,
    pub shoe: Shoe,
    pub player: Player,
    pub dealer: Player,
    pub state: GameState,
}

impl Game {
    /// What round settlement relies on, short of the phase snapshot: sound
    /// card counts, a usable shoe, and enough headroom for every payout.
    pub open spec fn settle_ready(&self) -> bool {
        &&& self.state is DealerTurn
        &&& self.shoe.wf()
        &&& self.shoe.num_decks() >= 1
        &&& self.dealer.hands@.len() == 1
        &&& self.dealer.hands@[0].cards@.len() <= 22
        &&& self.player.hands@.len() >= 1
        &&& hands_card_bound(self.player.hands@)
        &&& self.player.bank_roll + live_stake(self.player.hands@) <= BANKROLL_LIMIT
    }

    /// The game invariant. Besides soundness of the shoe and the seats, it
    /// ties the snapshot carried by the current phase to the live data: each
    /// phase's snapshot shows exactly the engine's hands and bankroll.
    pub open spec fn wf(&self) -> bool {
        &&& self.shoe.wf()
        &&& self.shoe.num_decks() >= 1
        &&& self.dealer.hands@.len() == 1
        &&& self.player.hands@.len() >= 1
        &&& match self.state {
            GameState::WaitingForBet { player_bankroll } => {
                &&& player_bankroll == self.player.bank_roll
                &&& self.player.hands@.len() == 1
                &&& self.player.hands@[0].cards@.len() == 0
                &&& self.player.hands@[0].outcome is None
                &&& self.dealer.hands@[0].cards@.len() == 0
                &&& self.dealer.hands@[0].outcome is None
            },
            GameState::WaitingToDeal { player_bet, player_bankroll } => {
                &&& player_bankroll == self.player.bank_roll
                &&& self.player.hands@.len() == 1
                &&& self.player.hands@[0].bet == player_bet
                &&& self.player.hands@[0].cards@.len() == 0
                &&& self.player.hands@[0].outcome is None
                &&& self.dealer.hands@[0].cards@.len() == 0
                &&& self.dealer.hands@[0].outcome is None
                &&& self.player.bank_roll + player_bet <= BANKROLL_LIMIT
            },
            GameState::PlayerTurn {
                dealer_hand,
                player_hands,
                player_bankroll,
                active_hand_index,
            } => {
                &&& player_bankroll == self.player.bank_roll
                &&& hand_models(player_hands@) == hand_models(self.player.hands@)
                &&& dealer_hand@ == self.dealer.hands@[0]@
                &&& active_hand_index < self.player.hands@.len()
                &&& self.dealer.hands@[0].cards@.len() == 2
                &&& self.dealer.hands@[0].outcome is None
                &&& hands_card_bound(self.player.hands@)
                &&& self.player.hands@[active_hand_index as int].outcome is None
                &&& self.player.hands@[active_hand_index as int].cards@.len() >= 2
                &&& !busted(self.player.hands@[active_hand_index as int].cards@)
                &&& forall|i: int|
                    active_hand_index < i < self.player.hands@.len() ==> {
                        &&& (#[trigger] self.player.hands@[i]).cards@.len() == 1
                        &&& self.player.hands@[i].outcome is None
                    }
                &&& self.player.bank_roll + live_stake(self.player.hands@) <= BANKROLL_LIMIT
            },
            GameState::DealerTurn { dealer_hand, player_hands, player_bankroll } => {
                &&& player_bankroll == self.player.bank_roll
                &&& hand_models(player_hands@) == hand_models(self.player.hands@)
                &&& dealer_hand@ == self.dealer.hands@[0]@
                &&& self.dealer.hands@[0].cards@.len() >= 2
                &&& self.dealer.hands@[0].cards@.len() <= 22
                &&& self.dealer.hands@[0].outcome is None
                &&& hands_card_bound(self.player.hands@)
                &&& self.player.bank_roll + live_stake(self.player.hands@) <= BANKROLL_LIMIT
            },
            GameState::RoundComplete { dealer_hand, player_hands, player_bankroll } => {
                &&& player_bankroll == self.player.bank_roll
                &&& hand_models(player_hands@) == hand_models(self.player.hands@)
                &&& dealer_hand@ == self.dealer.hands@[0]@
                &&& self.dealer.hands@[0].cards@.len() <= 22
                &&& all_settled(self.player.hands@)
                &&& hands_card_bound(self.player.hands@)
            },
        }
    }

    /// Creates a game: fresh seats, an unshuffled shoe of the configured
    /// size, and a round waiting for a bet.
    pub fn new(settings: GameSettings) -> (g: Game)
        requires
            settings_valid(&settings),
        ensures
            g.wf(),
            g.state == (GameState::WaitingForBet { player_bankroll: 10_000u64 }),
            g.player.bank_roll == 10_000,
            g.shoe.cards@ == crate::shoe::fresh_shoe(settings.deck_count as int),
            g.shoe.num_decks() == settings.deck_count,
            g.settings == settings,
    {
        let player = Player::new();
        let bankroll = player.bank_roll;
        Game {
            player,
            dealer: Player::new(),
            shoe: Shoe::new(settings.deck_count as usize),
            settings,
            state: GameState::WaitingForBet { player_bankroll: bankroll },
        }
    }

    /// A read-only snapshot of the current phase.
    pub fn get_state(&self) -> (r: &GameState)
        ensures
            r == self.state,
    {
        &self.state
    }

    /// Shuffles the shoe's drawable stack in place.
    pub fn shuffle_shoe(&mut self)
        requires
            old(self).wf(),
        ensures
            final(self).wf(),
            final(self).shoe.cards@.to_multiset() == old(self).shoe.cards@.to_multiset(),
            final(self).shoe.discarded@ == old(self).shoe.discarded@,
            final(self).player == old(self).player,
            final(self).dealer == old(self).dealer,
            final(self).state == old(self).state,
            final(self).settings == old(self).settings,
    {
        self.shoe.shuffle();
    }

    /// Accepts the round's bet: rejected with the game unchanged when no bet
    /// is awaited or when the bet exceeds the bankroll; otherwise the
    /// bankroll is debited by exactly the bet and the deal is pending. A bet
    /// of the whole bankroll is legal, as is a bet of zero.
    pub fn accept_user_bet(&mut self, bet: u64) -> (r: Result<(), GameError>)
        requires
            old(self).wf(),
            old(self).player.bank_roll <= BANKROLL_LIMIT,
        ensures
            final(self).wf(),
            !(old(self).state is WaitingForBet) ==> r == Err::<(), GameError>(GameError::OutOfTurn)
                && *final(self) == *old(self),
            old(self).state is WaitingForBet && bet > old(self).player.bank_roll ==> r == Err::<
                (),
                GameError,
            >(GameError::InsufficientFunds) && *final(self) == *old(self),
            old(self).state is WaitingForBet && bet <= old(self).player.bank_roll ==> {
                &&& r is Ok
                &&& final(self).player.bank_roll == old(self).player.bank_roll - bet
                &&& final(self).player.hands@.len() == 1
                &&& final(self).player.hands@[0].bet == bet
                &&& final(self).player.hands@[0].cards@.len() == 0
                &&& final(self).state == (GameState::WaitingToDeal {
                    player_bet: bet,
                    player_bankroll: (old(self).player.bank_roll - bet) as u64,
                })
                &&& final(self).shoe == old(self).shoe
                &&& final(self).dealer == old(self).dealer
                &&& final(self).settings == old(self).settings
            },
    {
        if !(matches!(self.state, GameState::WaitingForBet { .. })) {
            return Err(GameError::OutOfTurn);
        }
        if self.player.bank_roll < bet {
            return Err(GameError::InsufficientFunds);
        }
        self.player.bank_roll = self.player.bank_roll - bet;
        self.player.hands = vec![Hand::with_bet(bet)];
        self.state = GameState::WaitingToDeal {
            player_bet: bet,
            player_bankroll: self.player.bank_roll,
        };
        Ok(())
    }

    /// Freezes the current seats into a completed-round snapshot.
    fn complete_round_state(&mut self)
        requires
            old(self).dealer.hands@.len() >= 1,
        ensures
            (final(self).state matches GameState::RoundComplete {
                dealer_hand,
                player_hands,
                player_bankroll,
            } && {
                &&& dealer_hand@ == old(self).dealer.hands@[0]@
                &&& hand_models(player_hands@) == hand_models(old(self).player.hands@)
                &&& player_bankroll == old(self).player.bank_roll
            }),
            final(self).player == old(self).player,
            final(self).dealer == old(self).dealer,
            final(self).shoe == old(self).shoe,
            final(self).settings == old(self).settings,
    {
        self.state = GameState::RoundComplete {
            dealer_hand: self.dealer.hands[0].clone(),
            player_hands: clone_hands(&self.player.hands),
            player_bankroll: self.player.bank_roll,
        };
    }

    /// Deals the opening cards: the shoe is replenished if it runs low, two
    /// cards go to the player and two to the dealer in strict alternation,
    /// and naturals settle at once — both natural is a push returning the
    /// bet; a player natural alone pays out two and a half times the bet; a
    /// dealer natural alone loses the hand with no payout. With no natural
    /// the player's turn begins on hand 0.
    pub fn deal_initial_cards(&mut self) -> (r: Result<(), GameError>)
        requires
            old(self).wf(),
        ensures
            final(self).wf(),
            !(old(self).state is WaitingToDeal) ==> r == Err::<(), GameError>(GameError::OutOfTurn)
                && *final(self) == *old(self),
            old(self).state is WaitingToDeal ==> r is Ok && deal_transition(
                *old(self),
                *final(self),
            ),
    {
        if !(matches!(self.state, GameState::WaitingToDeal { .. })) {
            return Err(GameError::OutOfTurn);
        }
        self.shoe.ensure_cards_for_players(1);
        assert(self.shoe.cards@.len() >= 8);
        let c1 = match self.shoe.draw_card() {
            Some(c) => c,
            None => unreached(),
        };
        self.player.add_card_to_hand(c1, 0);
        let c2 = match self.shoe.draw_card() {
            Some(c) => c,
            None => unreached(),
        };
        self.dealer.add_card_to_hand(c2, 0);
        let c3 = match self.shoe.draw_card() {
            Some(c) => c,
            None => unreached(),
        };
        self.player.add_card_to_hand(c3, 0);
        let c4 = match self.shoe.draw_card() {
            Some(c) => c,
            None => unreached(),
        };
        self.dealer.add_card_to_hand(c4, 0);
        assert(self.player.hands@[0].cards@ =~= seq![c1, c3]);
        assert(self.dealer.hands@[0].cards@ =~= seq![c2, c4]);
        proof {
            if old(self).shoe.cards@.len() >= 8 {
                assert(self.shoe.cards@ =~= old(self).shoe.cards@.subrange(
                    0,
                    old(self).shoe.cards@.len() - 4,
                ));
            }
            assert(live_stake(self.player.hands@.drop_last()) == 0);
            assert(live_stake(self.player.hands@) == hand_stake(self.player.hands@[0]));
        }
        let bet = self.player.hands[0].bet;
        let p_nat = self.player.hands[0].is_natural_blackjack();
        let d_nat = self.dealer.hands[0].is_natural_blackjack();
        if p_nat && d_nat {
            self.player.bank_roll = self.player.bank_roll + bet;
            self.player.set_hand_outcome(0, HandOutcome::Push);
            self.complete_round_state();
        } else if p_nat {
            let credit = 2 * bet + bet / 2;
            self.player.bank_roll = self.player.bank_roll + credit;
            self.player.set_hand_outcome(0, HandOutcome::Blackjack);
            self.complete_round_state();
        } else if d_nat {
            self.player.set_hand_outcome(0, HandOutcome::Loss);
            self.complete_round_state();
        } else {
            proof {
                crate::hand::lemma_total_bounds(self.player.hands@[0].cards@);
            }
            self.state = GameState::PlayerTurn {
                dealer_hand: self.dealer.hands[0].clone(),
                player_hands: clone_hands(&self.player.hands),
                player_bankroll: self.player.bank_roll,
                active_hand_index: 0,
            };
        }
        Ok(())
    }

    /// Freezes the current seats into a dealer-phase snapshot.
    fn enter_dealer_turn(&mut self)
        requires
            old(self).shoe.wf(),
            old(self).shoe.num_decks() >= 1,
            old(self).dealer.hands@.len() == 1,
            old(self).dealer.hands@[0].cards@.len() == 2,
            old(self).dealer.hands@[0].outcome is None,
            old(self).player.hands@.len() >= 1,
            hands_card_bound(old(self).player.hands@),
            old(self).player.bank_roll + live_stake(old(self).player.hands@) <= BANKROLL_LIMIT,
        ensures
            final(self).wf(),
            final(self).state is DealerTurn,
            final(self).player == old(self).player,
            final(self).dealer == old(self).dealer,
            final(self).shoe == old(self).shoe,
            final(self).settings == old(self).settings,
    {
        self.state = GameState::DealerTurn {
            dealer_hand: self.dealer.hands[0].clone(),
            player_hands: clone_hands(&self.player.hands),
            player_bankroll: self.player.bank_roll,
        };
    }

    /// Hands the turn on once the active hand is done: the next split hand,
    /// when one exists, draws its mandatory first extra card and becomes the
    /// active hand; otherwise the dealer plays next.
    fn advance_past(&mut self, i: usize)
        requires
            old(self).shoe.wf(),
            old(self).shoe.num_decks() >= 1,
            old(self).dealer.hands@.len() == 1,
            old(self).dealer.hands@[0].cards@.len() == 2,
            old(self).dealer.hands@[0].outcome is None,
            i < old(self).player.hands@.len(),
            hands_card_bound(old(self).player.hands@),
            forall|j: int|
                i < j < old(self).player.hands@.len() ==> {
                    &&& (#[trigger] old(self).player.hands@[j]).cards@.len() == 1
                    &&& old(self).player.hands@[j].outcome is None
                },
            i + 1 < old(self).player.hands@.len() ==> old(self).shoe.cards@.len() >= 1,
            old(self).player.bank_roll + live_stake(old(self).player.hands@) <= BANKROLL_LIMIT,
        ensures
            final(self).wf(),
            advance_transition(*old(self), *final(self), i as int, old(self).shoe.cards@),
            final(self).player.hands@[i as int] == old(self).player.hands@[i as int],
            final(self).player.bank_roll == old(self).player.bank_roll,
            final(self).dealer == old(self).dealer,
            final(self).settings == old(self).settings,
            final(self).shoe.num_decks() == old(self).shoe.num_decks(),
    {
        let n = self.player.hands.len();
        if i < n - 1 {
            let next = i + 1;
            let card = match self.shoe.draw_card() {
                Some(c) => c,
                None => unreached(),
            };
            self.player.add_card_to_hand(card, next);
            proof {
                assert(self.player.hands@ =~= old(self).player.hands@.update(
                    next as int,
                    self.player.hands@[next as int],
                ));
                lemma_live_stake_update(
                    old(self).player.hands@,
                    next as int,
                    self.player.hands@[next as int],
                );
                crate::hand::lemma_total_bounds(self.player.hands@[next as int].cards@);
            }
            self.state = GameState::PlayerTurn {
                dealer_hand: self.dealer.hands[0].clone(),
                player_hands: clone_hands(&self.player.hands),
                player_bankroll: self.player.bank_roll,
                active_hand_index: next,
            };
        } else {
            self.enter_dealer_turn();
        }
    }

    /// Acts on the indicated hand, which must be the active one. A hit draws
    /// one card: busting loses the hand at once, exactly 21 ends its turn as
    /// a stand would, anything less keeps it active. A stand passes the turn
    /// on. A double draws exactly one card, stakes the bet a second time from
    /// the bankroll, doubles the hand's bet, and then stands. A split —
    /// legal only on two cards of one rank — moves the second card into a
    /// new hand inserted right after the active one, funded with the same
    /// bet, and draws one replacement card onto the active hand. Whenever
    /// play moves past a hand to a later split hand, that hand first draws
    /// its mandatory extra card. A rejected action returns its reason and
    /// changes nothing.
    pub fn process_player_action(&mut self, action: GameAction, hand_index: usize) -> (r: Result<
        (),
        GameError,
    >)
        requires
            old(self).wf(),
        ensures
            final(self).wf(),
            r is Err <==> action_rejection(*old(self), action, hand_index as int) is Some,
            r matches Err(e) ==> Some(e) == action_rejection(
                *old(self),
                action,
                hand_index as int,
            ) && *final(self) == *old(self),
            r is Ok ==> match action {
                GameAction::Hit => hit_transition(*old(self), *final(self), hand_index as int),
                GameAction::Stand => stand_transition(*old(self), *final(self), hand_index as int),
                GameAction::Double => double_transition(
                    *old(self),
                    *final(self),
                    hand_index as int,
                ),
                GameAction::Split => split_transition(*old(self), *final(self), hand_index as int),
            },
    {
        let active = match &self.state {
            GameState::PlayerTurn { active_hand_index, .. } => *active_hand_index,
            _ => {
                return Err(GameError::OutOfTurn);
            },
        };
        if hand_index != active {
            return Err(GameError::InvalidHandIndex);
        }
        let n = self.player.hands.len();
        let more = hand_index < n - 1;
        let bet = self.player.hands[hand_index].bet;
        proof {
            lemma_live_stake_element(self.player.hands@, hand_index as int);
            crate::hand::lemma_total_bounds(self.player.hands@[hand_index as int].cards@);
        }
        match action {
            GameAction::Hit => {
                let needed: usize = if more {
                    2
                } else {
                    1
                };
                if self.shoe.cards.len() < needed {
                    return Err(GameError::ShoeEmpty);
                }
                let card = match self.shoe.draw_card() {
                    Some(c) => c,
                    None => unreached(),
                };
                self.player.add_card_to_hand(card, hand_index);
                proof {
                    assert(self.player.hands@ =~= old(self).player.hands@.update(
                        hand_index as int,
                        self.player.hands@[hand_index as int],
                    ));
                    lemma_live_stake_update(
                        old(self).player.hands@,
                        hand_index as int,
                        self.player.hands@[hand_index as int],
                    );
                }
                if self.player.hands[hand_index].is_busted() {
                    self.player.set_hand_outcome(hand_index, HandOutcome::Loss);
                    proof {
                        assert(self.player.hands@ =~= old(self).player.hands@.update(
                            hand_index as int,
                            self.player.hands@[hand_index as int],
                        ));
                        lemma_live_stake_update(
                            old(self).player.hands@,
                            hand_index as int,
                            self.player.hands@[hand_index as int],
                        );
                    }
                    if more {
                        self.advance_past(hand_index);
                    } else if self.player.has_live_hand() {
                        self.enter_dealer_turn();
                    } else {
                        self.complete_round_state();
                    }
                } else if self.player.hands[hand_index].is_blackjack() {
                    self.advance_past(hand_index);
                } else {
                    self.state = GameState::PlayerTurn {
                        dealer_hand: self.dealer.hands[0].clone(),
                        player_hands: clone_hands(&self.player.hands),
                        player_bankroll: self.player.bank_roll,
                        active_hand_index: hand_index,
                    };
                }
                Ok(())
            },
            GameAction::Stand => {
                let needed: usize = if more {
                    1
                } else {
                    0
                };
                if self.shoe.cards.len() < needed {
                    return Err(GameError::ShoeEmpty);
                }
                self.advance_past(hand_index);
                Ok(())
            },
            GameAction::Double => {
                if self.player.bank_roll < bet {
                    return Err(GameError::InsufficientFunds);
                }
                let needed: usize = if more {
                    2
                } else {
                    1
                };
                if self.shoe.cards.len() < needed {
                    return Err(GameError::ShoeEmpty);
                }
                let card = match self.shoe.draw_card() {
                    Some(c) => c,
                    None => unreached(),
                };
                self.player.add_card_to_hand(card, hand_index);
                self.player.bank_roll = self.player.bank_roll - bet;
                let h = &mut self.player.hands[hand_index];
                h.double_bet();
                proof {
                    assert(self.player.hands@ =~= old(self).player.hands@.update(
                        hand_index as int,
                        self.player.hands@[hand_index as int],
                    ));
                    lemma_live_stake_update(
                        old(self).player.hands@,
                        hand_index as int,
                        self.player.hands@[hand_index as int],
                    );
                }
                self.advance_past(hand_index);
                Ok(())
            },
            GameAction::Split => {
                if !(self.player.hands[hand_index].can_split()) {
                    return Err(GameError::IllegalSplit);
                }
                if self.player.bank_roll < bet {
                    return Err(GameError::InsufficientFunds);
                }
                if self.shoe.cards.len() < 1 {
                    return Err(GameError::ShoeEmpty);
                }
                let ghost h_start = self.player.hands@;
                let split_card = {
                    let h = &mut self.player.hands[hand_index];
                    h.take_last_card()
                };
                let ghost h_popped = self.player.hands@;
                proof {
                    assert(h_popped =~= h_start.update(
                        hand_index as int,
                        h_popped[hand_index as int],
                    ));
                    lemma_live_stake_update(h_start, hand_index as int, h_popped[hand_index as int]);
                }
                self.player.bank_roll = self.player.bank_roll - bet;
                let new_hand = Hand::with_card_and_bet(split_card, bet);
                self.player.hands.insert(hand_index + 1, new_hand);
                let ghost h_inserted = self.player.hands@;
                proof {
                    lemma_live_stake_insert(h_popped, hand_index + 1 as int, new_hand);
                }
                let card = match self.shoe.draw_card() {
                    Some(c) => c,
                    None => unreached(),
                };
                self.player.add_card_to_hand(card, hand_index);
                proof {
                    assert(self.player.hands@ =~= h_inserted.update(
                        hand_index as int,
                        self.player.hands@[hand_index as int],
                    ));
                    lemma_live_stake_update(
                        h_inserted,
                        hand_index as int,
                        self.player.hands@[hand_index as int],
                    );
                    assert(self.player.hands@[hand_index as int].cards@ =~= seq![
                        h_start[hand_index as int].cards@[0],
                        old(self).shoe.cards@.last(),
                    ]);
                    assert(self.player.hands@[hand_index + 1 as int].cards@ =~= seq![
                        h_start[hand_index as int].cards@[1],
                    ]);
                    crate::hand::lemma_total_bounds(
                        self.player.hands@[hand_index as int].cards@,
                    );
                }
                self.state = GameState::PlayerTurn {
                    dealer_hand: self.dealer.hands[0].clone(),
                    player_hands: clone_hands(&self.player.hands),
                    player_bankroll: self.player.bank_roll,
                    active_hand_index: hand_index,
                };
                Ok(())
            },
        }
    }

    /// Resolves every player hand against the dealer's final hand in one
    /// pass: a busted hand loses whatever the dealer did; against a busted
    /// dealer every other hand wins; otherwise the higher best total wins
    /// and equal totals push. A win returns twice the bet, a push returns
    /// the bet, a loss returns nothing; each hand receives exactly one
    /// outcome, and hands settled earlier keep theirs.
    pub fn determine_winner_and_complete_round(&mut self)
        requires
            old(self).settle_ready(),
        ensures
            final(self).wf(),
            settle_transition(*old(self), *final(self), old(self).dealer.hands@[0].cards@),
            final(self).shoe == old(self).shoe,
            final(self).dealer == old(self).dealer,
    {
        let ghost dc = self.dealer.hands@[0].cards@;
        let ghost h0 = self.player.hands@;
        let ghost bank0 = self.player.bank_roll;
        let dealer_busted = self.dealer.hands[0].is_busted();
        let dealer_value = self.dealer.hands[0].best_value();
        let n = self.player.hands.len();
        let mut new_hands: Vec<Hand> = Vec::new();
        let mut i: usize = 0;
        proof {
            assert(settlement_total(h0.subrange(0, 0), dc) == 0);
            assert(h0.subrange(0, n as int) =~= h0);
        }
        while i < n
            invariant
                i <= n,
                n == h0.len(),
                self.player.hands@ == h0,
                self.player.bank_roll == bank0 + settlement_total(h0.subrange(0, i as int), dc),
                self.player.bank_roll + 2 * live_stake(h0.subrange(i as int, n as int)) <= 2 * (
                BANKROLL_LIMIT as int),
                hands_card_bound(h0),
                dealer_busted == busted(dc),
                dealer_value as int == best_total(dc),
                self.dealer == old(self).dealer,
                self.shoe == old(self).shoe,
                self.settings == old(self).settings,
                self.state == old(self).state,
                dc == self.dealer.hands@[0].cards@,
                new_hands@.len() == i,
                forall|j: int|
                    0 <= j < i ==> {
                        &&& (#[trigger] new_hands@[j]).cards@ == h0[j].cards@
                        &&& new_hands@[j].bet == h0[j].bet
                        &&& new_hands@[j].outcome == Some(settled_outcome(h0[j], dc))
                    },
            decreases n - i,
        {
            proof {
                lemma_live_stake_first(h0.subrange(i as int, n as int));
                assert(h0.subrange(i as int, n as int).drop_first() =~= h0.subrange(
                    i + 1 as int,
                    n as int,
                ));
                lemma_live_stake_nonneg(h0.subrange(i + 1 as int, n as int));
                lemma_settled_credit_bound(h0[i as int], dc);
                lemma_settlement_total_prefix(h0, dc, i as int);
            }
            let bet = self.player.hands[i].bet;
            let prior: Option<HandOutcome> = self.player.hands[i].outcome;
            match prior {
                Some(_) => {
                    new_hands.push(self.player.hands[i].clone());
                },
                None => {
                    let hb = self.player.hands[i].is_busted();
                    let o: HandOutcome;
                    if hb {
                        o = HandOutcome::Loss;
                    } else if dealer_busted {
                        o = HandOutcome::Win;
                        self.player.bank_roll = self.player.bank_roll + 2 * bet;
                    } else {
                        let hv = self.player.hands[i].best_value();
                        if dealer_value > hv {
                            o = HandOutcome::Loss;
                        } else if hv > dealer_value {
                            o = HandOutcome::Win;
                            self.player.bank_roll = self.player.bank_roll + 2 * bet;
                        } else {
                            o = HandOutcome::Push;
                            self.player.bank_roll = self.player.bank_roll + bet;
                        }
                    }
                    let settled_hand = Hand {
                        bet,
                        cards: clone_cards(&self.player.hands[i].cards),
                        outcome: Some(o),
                    };
                    new_hands.push(settled_hand);
                },
            }
            i = i + 1;
        }
        proof {
            assert(h0.subrange(0, n as int) =~= h0);
        }
        self.player.hands = new_hands;
        self.complete_round_state();
    }

    /// Plays one step of the dealer's fixed policy: while the round is in
    /// the dealer phase, the dealer hits on a best total of 16 or less and
    /// stands above it; standing — or busting on a hit — settles the round.
    /// Invoked in any other phase it is a no-op, leaving the game unchanged.
    pub fn next_dealer_turn(&mut self)
        requires
            old(self).wf(),
        ensures
            final(self).wf(),
            !(old(self).state is DealerTurn) ==> *final(self) == *old(self),
            old(self).state is DealerTurn ==> dealer_turn_transition(*old(self), *final(self)),
    {
        if !(matches!(self.state, GameState::DealerTurn { .. })) {
            return ;
        }
        let dealer_value = self.dealer.hands[0].best_value();
        if dealer_value <= 16 {
            proof {
                crate::hand::lemma_best_total_at_least_min(self.dealer.hands@[0].cards@);
                crate::hand::lemma_total_bounds(self.dealer.hands@[0].cards@);
            }
            if self.shoe.cards.len() == 0 {
                return ;
            }
            let card = match self.shoe.draw_card() {
                Some(c) => c,
                None => unreached(),
            };
            self.dealer.add_card_to_hand(card, 0);
            if self.dealer.hands[0].is_busted() {
                self.determine_winner_and_complete_round();
            } else {
                self.state = GameState::DealerTurn {
                    dealer_hand: self.dealer.hands[0].clone(),
                    player_hands: clone_hands(&self.player.hands),
                    player_bankroll: self.player.bank_roll,
                };
            }
        } else {
            self.determine_winner_and_complete_round();
        }
    }

    /// Starts the next round: both seats are reset to a single fresh, empty
    /// hand and a new bet is awaited. The shoe is left as it stands; it
    /// replenishes itself at the next deal when it runs low.
    pub fn next_round(&mut self)
        requires
            old(self).wf(),
        ensures
            final(self).wf(),
            final(self).state == (GameState::WaitingForBet {
                player_bankroll: old(self).player.bank_roll,
            }),
            final(self).player.bank_roll == old(self).player.bank_roll,
            final(self).player.hands@.len() == 1,
            final(self).player.hands@[0].cards@.len() == 0,
            final(self).shoe == old(self).shoe,
            final(self).settings == old(self).settings,
    {
        self.player.reset_hands();
        self.dealer.reset_hands();
        self.state = GameState::WaitingForBet { player_bankroll: self.player.bank_roll };
    }
}

/// What a caller token parses to: tokens are matched after case folding and
/// trimming, long or short form.
pub open spec fn action_token(s: Seq<char>) -> Option<GameAction> {
    let t = trimmed(lower(s));
    if t == "h"@ || t == "hit"@ {
        Some(GameAction::Hit)
    } else if t == "s"@ || t == "stand"@ {
        Some(GameAction::Stand)
    } else if t == "d"@ || t == "double"@ {
        Some(GameAction::Double)
    } else if t == "p"@ || t == "split"@ {
        Some(GameAction::Split)
    } else {
        None
    }
}

/// The display name of an action.
pub open spec fn action_text(a: GameAction) -> Seq<char> {
    match a {
        GameAction::Hit => "HIT"@,
        GameAction::Stand => "STAND"@,
        GameAction::Double => "DOUBLE"@,
        GameAction::Split => "SPLIT"@,
    }
}

impl GameAction {
    /// Parses a caller token, case-insensitively and ignoring surrounding
    /// whitespace: `h`/`hit`, `s`/`stand`, `d`/`double`, `p`/`split`. Any
    /// other token is rejected, not defaulted.
    pub fn from_string(value: &str) -> (r: Option<GameAction>)
        ensures
            r == action_token(value@),
    {
        let cs = chars_of(value);
        let lowered = lower_chars(&cs);
        let t = trim_chars(&lowered);
        if chars_match(&t, "h") || chars_match(&t, "hit") {
            Some(GameAction::Hit)
        } else if chars_match(&t, "s") || chars_match(&t, "stand") {
            Some(GameAction::Stand)
        } else if chars_match(&t, "d") || chars_match(&t, "double") {
            Some(GameAction::Double)
        } else if chars_match(&t, "p") || chars_match(&t, "split") {
            Some(GameAction::Split)
        } else {
            None
        }
    }

    /// The display name of this action.
    pub fn to_string(&self) -> (r: String)
        ensures
            r@ == action_text(*self),
    {
        match self {
            GameAction::Hit => "HIT".to_owned(),
            GameAction::Stand => "STAND".to_owned(),
            GameAction::Double => "DOUBLE".to_owned(),
            GameAction::Split => "SPLIT".to_owned(),
        }
    }
}

} // verus!
