use vstd::prelude::*;
use crate::card::Card;
use crate::hand::{Hand, HandModel, HandOutcome};

verus! {

/// A seat at the table: its hands (more than one after a split) and its
/// bankroll in whole chips. The dealer is a player whose bankroll is unused.
pub struct Player {
    pub hands: Vec<Hand>,
    pub bank_roll: u64,
}

/// The models of a sequence of hands, element for element.
pub open spec fn hand_models(hands: Seq<Hand>) -> Seq<HandModel> {
    hands.map_values(|h: Hand| h@)
}

/// Copies a hand vector, hand for hand.
pub(crate) fn clone_hands(hands: &Vec<Hand>) -> (r: Vec<Hand>)
    ensures
        hand_models(r@) == hand_models(hands@),
{
    let mut r: Vec<Hand> = Vec::new();
    let mut i: usize = 0;
    while i < hands.len()
        invariant
            i <= hands@.len(),
            r@.len() == i,
            forall|j: int| 0 <= j < i ==> (#[trigger] r@[j])@ == hands@[j]@,
        decreases hands@.len() - i,
    {
        r.push(hands[i].clone());
        i = i + 1;
    }
    proof {
        assert(hand_models(r@) =~= hand_models(hands@));
    }
    r
}

impl Player {
    /// A fresh player: one empty hand and the starting bankroll of 10,000.
    pub fn new() -> (p: Player)
        ensures
            p.hands@.len() == 1,
            p.hands@[0].bet == 100,
            p.hands@[0].cards@.len() == 0,
            p.hands@[0].outcome is None,
            p.bank_roll == 10_000,
    {
        Player { hands: vec![Hand::new()], bank_roll: 10_000 }
    }

    /// Adds a card to the indicated hand; an out-of-range index changes
    /// nothing.
    pub fn add_card_to_hand(&mut self, card: Card, hand_index: usize)
        ensures
            hand_index < old(self).hands@.len() ==> {
                &&& final(self).hands@.len() == old(self).hands@.len()
                &&& final(self).hands@[hand_index as int].cards@ == old(
                    self,
                ).hands@[hand_index as int].cards@.push(card)
                &&& final(self).hands@[hand_index as int].bet == old(
                    self,
                ).hands@[hand_index as int].bet
                &&& final(self).hands@[hand_index as int].outcome == old(
                    self,
                ).hands@[hand_index as int].outcome
                &&& forall|i: int|
                    0 <= i < old(self).hands@.len() && i != hand_index
                        ==> final(self).hands@[i] == old(self).hands@[i]
            },
            hand_index >= old(self).hands@.len() ==> final(self).hands@ == old(self).hands@,
            final(self).bank_roll == old(self).bank_roll,
    {
        if hand_index < self.hands.len() {
            let hand = &mut self.hands[hand_index];
            hand.add_card(card);
        }
    }

    /// True when some hand is still awaiting resolution.
    pub(crate) fn has_live_hand(&self) -> (r: bool)
        ensures
            r == exists|j: int|
                0 <= j < self.hands@.len() && (#[trigger] self.hands@[j]).outcome is None,
    {
        let mut i: usize = 0;
        while i < self.hands.len()
            invariant
                i <= self.hands@.len(),
                forall|j: int| 0 <= j < i ==> (#[trigger] self.hands@[j]).outcome is Some,
            decreases self.hands@.len() - i,
        {
            if self.hands[i].outcome.is_none() {
                return true;
            }
            i = i + 1;
        }
        false
    }

    /// Settles the indicated hand with the given outcome.
    pub(crate) fn set_hand_outcome(&mut self, hand_index: usize, outcome: HandOutcome)
        requires
            hand_index < old(self).hands@.len(),
        ensures
            final(self).hands@.len() == old(self).hands@.len(),
            final(self).hands@[hand_index as int].outcome == Some(outcome),
            final(self).hands@[hand_index as int].cards@ == old(
                self,
            ).hands@[hand_index as int].cards@,
            final(self).hands@[hand_index as int].bet == old(self).hands@[hand_index as int].bet,
            forall|i: int|
                0 <= i < old(self).hands@.len() && i != hand_index ==> final(self).hands@[i] == old(
                    self,
                ).hands@[i],
            final(self).bank_roll == old(self).bank_roll,
    {
        let h = &mut self.hands[hand_index];
        h.set_outcome(outcome);
    }

    /// Starts over with a single fresh, empty hand; the bankroll is kept.
    pub fn reset_hands(&mut self)
        ensures
            final(self).hands@.len() == 1,
            final(self).hands@[0].bet == 100,
            final(self).hands@[0].cards@.len() == 0,
            final(self).hands@[0].outcome is None,
            final(self).bank_roll == old(self).bank_roll,
    {
        self.hands = vec![Hand::new()];
    }
}

} // verus!
