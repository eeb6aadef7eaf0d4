use vstd::prelude::*;
use crate::card::{rank_of_index, suit_of_index, Card, Rank, Suit};

verus! {

/// The card at a position in a fresh, unshuffled shoe: within each deck of
/// 52, ranks advance in enumeration order, and each rank carries the four
/// suits in enumeration order.
pub open spec fn fresh_card(i: int) -> Card {
    Card { rank: rank_of_index((i % 52) / 4), suit: suit_of_index(i % 4) }
}

/// A fresh, unshuffled shoe of the given number of decks.
pub open spec fn fresh_shoe(num_decks: int) -> Seq<Card> {
    Seq::new((52 * num_decks) as nat, |i: int| fresh_card(i))
}

/// The card supply: a drawable stack and a discard pile, built from a fixed
/// number of 52-card decks.
pub struct Shoe {
    pub cards: Vec<Card>,
    pub discarded: Vec<Card>,
    pub number_of_decks: usize,
}

#[verifier::external_type_specification]
#[verifier::external_body]
pub struct ExThreadRng(rand::rngs::ThreadRng);

/// Relies on rand::rng: a handle to the thread-local random generator.
#[verifier::external_body]
fn thread_rng_source() -> rand::rngs::ThreadRng {
    rand::rng()
}

/// Relies on rand's SliceRandom::shuffle: it permutes the slice in place, so
/// afterwards the vector holds exactly the same cards, in some order.
#[verifier::external_body]
fn shuffle_cards(cards: &mut Vec<Card>, rng: &mut rand::rngs::ThreadRng)
    ensures
        final(cards)@.to_multiset() == old(cards)@.to_multiset(),
{
    rand::seq::SliceRandom::shuffle(cards.as_mut_slice(), rng)
}

impl Shoe {
    /// How many decks this shoe was built from.
    pub open spec fn num_decks(&self) -> int {
        self.number_of_decks as int
    }

    /// The shoe invariant: apart from mid-replenishment, the drawable stack
    /// and the discard pile together always hold one full set of cards.
    pub open spec fn wf(&self) -> bool {
        &&& self.cards@.len() + self.discarded@.len() == 52 * self.num_decks()
        &&& self.num_decks() <= usize::MAX / 52
    }

    /// Builds an unshuffled shoe: one card of each rank and suit per deck,
    /// with an empty discard pile.
    pub fn new(num_decks: usize) -> (s: Self)
        requires
            num_decks <= usize::MAX / 52,
        ensures
            s.cards@ == fresh_shoe(num_decks as int),
            s.discarded@.len() == 0,
            s.num_decks() == num_decks,
            s.wf(),
    {
        let total = 52 * num_decks;
        let mut cards: Vec<Card> = Vec::with_capacity(total);
        let mut i: usize = 0;
        while i < total
            invariant
                i <= total,
                total == 52 * num_decks,
                cards@.len() == i,
                forall|j: int| 0 <= j < i ==> cards@[j] == fresh_card(j),
            decreases total - i,
        {
            let rank = Rank::from_index((i % 52) / 4);
            let suit = Suit::from_index(i % 4);
            cards.push(Card { rank, suit });
            i = i + 1;
        }
        assert(cards@ =~= fresh_shoe(num_decks as int));
        Shoe { cards, discarded: Vec::with_capacity(total), number_of_decks: num_decks }
    }

    /// Shuffles the drawable stack in place: the same cards remain, in a
    /// random order.
    pub fn shuffle(&mut self)
        ensures
            final(self).cards@.to_multiset() == old(self).cards@.to_multiset(),
            final(self).cards@.len() == old(self).cards@.len(),
            final(self).discarded@ == old(self).discarded@,
            final(self).num_decks() == old(self).num_decks(),
            old(self).wf() ==> final(self).wf(),
    {
        proof {
            old(self).cards@.to_multiset_ensures();
        }
        let mut rng = thread_rng_source();
        shuffle_cards(&mut self.cards, &mut rng);
        proof {
            self.cards@.to_multiset_ensures();
        }
    }

    /// Removes and returns the top card, moving it to the discard pile;
    /// returns nothing when the drawable stack is empty.
    pub fn draw_card(&mut self) -> (r: Option<Card>)
        ensures
            old(self).cards@.len() == 0 ==> {
                &&& r is None
                &&& final(self).cards@ == old(self).cards@
                &&& final(self).discarded@ == old(self).discarded@
            },
            old(self).cards@.len() > 0 ==> {
                &&& r == Some(old(self).cards@.last())
                &&& final(self).cards@ == old(self).cards@.drop_last()
                &&& final(self).discarded@ == old(self).discarded@.push(old(self).cards@.last())
                &&& final(self).cards@.to_multiset().insert(old(self).cards@.last()) == old(
                    self,
                ).cards@.to_multiset()
            },
            final(self).num_decks() == old(self).num_decks(),
            old(self).wf() ==> final(self).wf(),
    {
        match self.cards.pop() {
            None => None,
            Some(card) => {
                proof {
                    self.cards@.to_multiset_ensures();
                    assert(self.cards@.push(card) =~= old(self).cards@);
                }
                self.discarded.push(card);
                Some(card)
            },
        }
    }

    /// Guarantees enough cards for the coming deal: when the drawable stack
    /// has fewer than `(num_players + 1) * 4` cards, the whole shoe —
    /// drawable stack and discard pile — is replaced by a fresh, shuffled
    /// full set; otherwise nothing changes.
    pub fn ensure_cards_for_players(&mut self, num_players: usize)
        requires
            old(self).wf(),
            num_players + 1 <= usize::MAX / 4,
        ensures
            old(self).cards@.len() >= (num_players + 1) * 4 ==> {
                &&& final(self).cards@ == old(self).cards@
                &&& final(self).discarded@ == old(self).discarded@
            },
            old(self).cards@.len() < (num_players + 1) * 4 ==> {
                &&& final(self).cards@.to_multiset() == fresh_shoe(
                    old(self).num_decks(),
                ).to_multiset()
                &&& final(self).cards@.len() == 52 * old(self).num_decks()
                &&& final(self).discarded@.len() == 0
            },
            final(self).num_decks() == old(self).num_decks(),
            final(self).wf(),
    {
        let min_cards_needed = (num_players + 1) * 4;
        if self.cards.len() < min_cards_needed {
            let fresh = Shoe::new(self.number_of_decks);
            self.cards = fresh.cards;
            self.discarded.clear();
            self.shuffle();
        }
    }
}

/// The shoe invariant in the terms it is stated in: across any sequence of
/// draws and replenishments, drawable and discarded cards together number
/// exactly `52 * number_of_decks` — in particular, a multiple of 52.
pub proof fn lemma_shoe_count_is_full_set(s: &Shoe)
    requires
        s.wf(),
    ensures
        s.cards@.len() + s.discarded@.len() == 52 * s.num_decks(),
        (s.cards@.len() + s.discarded@.len()) % 52 == 0,
{
    vstd::arithmetic::div_mod::lemma_mod_multiples_basic(s.num_decks(), 52);
}

} // verus!
