use vstd::prelude::*;
use vstd::string::StringExecFns;
use crate::card::{card_text, rank_low, Card, Rank};

verus! {

/// How a settled hand turned out.
#[derive(Debug, Eq, Hash, PartialEq, Structural, Clone, Copy)]
pub enum HandOutcome {
    Win,
    Loss,
    Push,
    Blackjack,
}

/// The display name of an outcome.
pub open spec fn outcome_text(o: HandOutcome) -> Seq<char> {
    match o {
        HandOutcome::Win => "WIN"@,
        HandOutcome::Loss => "LOSS"@,
        HandOutcome::Push => "PUSH"@,
        HandOutcome::Blackjack => "BLACKJACK"@,
    }
}

impl HandOutcome {
    /// The display name of this outcome.
    pub fn to_string(&self) -> (r: String)
        ensures
            r@ == outcome_text(*self),
    {
        match self {
            HandOutcome::Win => "WIN".to_owned(),
            HandOutcome::Loss => "LOSS".to_owned(),
            HandOutcome::Push => "PUSH".to_owned(),
            HandOutcome::Blackjack => "BLACKJACK".to_owned(),
        }
    }
}

/// The lowest total a sequence of cards can stand for: every ace counted as 1.
pub open spec fn min_total(cards: Seq<Card>) -> int
    decreases cards.len(),
{
    if cards.len() == 0 {
        0
    } else {
        min_total(cards.drop_last()) + rank_low(cards.last().rank)
    }
}

/// How many aces a sequence of cards holds.
pub open spec fn ace_count(cards: Seq<Card>) -> int
    decreases cards.len(),
{
    if cards.len() == 0 {
        0
    } else {
        ace_count(cards.drop_last()) + if cards.last().rank is Ace {
            1int
        } else {
            0int
        }
    }
}

/// The total of the non-ace cards alone.
pub open spec fn base_total(cards: Seq<Card>) -> int {
    min_total(cards) - ace_count(cards)
}

/// Every attainable total, ascending: each ace counts as 1 or 11, so with k
/// aces the distinct sums are the k + 1 values `min_total + 10 * j`.
pub open spec fn possible_totals(cards: Seq<Card>) -> Seq<int> {
    Seq::new((ace_count(cards) + 1) as nat, |j: int| min_total(cards) + 10 * j)
}

/// The best total: the largest attainable total that does not exceed 21,
/// or the smallest attainable total when every one exceeds 21.
pub open spec fn best_total(cards: Seq<Card>) -> int {
    let m = min_total(cards);
    let k = ace_count(cards);
    if m > 21 {
        m
    } else {
        let j = if k <= (21 - m) / 10 {
            k
        } else {
            (21 - m) / 10
        };
        m + 10 * j
    }
}

/// A hand is busted when even its lowest attainable total exceeds 21.
pub open spec fn busted(cards: Seq<Card>) -> bool {
    min_total(cards) > 21
}

/// A hand is a blackjack when its best total is exactly 21.
pub open spec fn blackjack(cards: Seq<Card>) -> bool {
    best_total(cards) == 21
}

/// A natural blackjack: exactly two cards that total 21.
pub open spec fn natural_blackjack(cards: Seq<Card>) -> bool {
    cards.len() == 2 && best_total(cards) == 21
}

/// Basic bounds on the totals: each card contributes at least 1 and at most
/// 10 to the lowest total, and at most 11 to the highest.
pub proof fn lemma_total_bounds(cards: Seq<Card>)
    ensures
        cards.len() <= min_total(cards) <= 10 * cards.len(),
        0 <= ace_count(cards) <= cards.len(),
        min_total(cards) + 10 * ace_count(cards) <= 11 * cards.len(),
    decreases cards.len(),
{
    if cards.len() > 0 {
        lemma_total_bounds(cards.drop_last());
    }
}

/// A player's hand: its cards in the order dealt, the amount staked on it,
/// and, once settled, how it turned out.
#[derive(Debug)]
pub struct Hand {
    /// Current bet amount for this hand, in whole chips.
    pub bet: u64,
    /// Cards in the hand.
    pub cards: Vec<Card>,
    /// How the hand turned out; unset while the hand is still live.
    pub outcome: Option<HandOutcome>,
}

/// The mathematical model of a hand.
pub struct HandModel {
    pub bet: u64,
    pub cards: Seq<Card>,
    pub outcome: Option<HandOutcome>,
}

impl View for Hand {
    type V = HandModel;

    open spec fn view(&self) -> HandModel {
        HandModel { bet: self.bet, cards: self.cards@, outcome: self.outcome }
    }
}

/// Copies a card vector element for element.
pub fn clone_cards(cards: &Vec<Card>) -> (r: Vec<Card>)
    ensures
        r@ == cards@,
{
    let mut r: Vec<Card> = Vec::new();
    let mut i: usize = 0;
    while i < cards.len()
        invariant
            i <= cards@.len(),
            r@ == cards@.subrange(0, i as int),
        decreases cards@.len() - i,
    {
        r.push(cards[i]);
        assert(r@ =~= cards@.subrange(0, i + 1 as int));
        i = i + 1;
    }
    assert(r@ =~= cards@);
    r
}

impl Clone for Hand {
    fn clone(&self) -> (r: Self)
        ensures
            r@ == self@,
    {
        Hand { bet: self.bet, cards: clone_cards(&self.cards), outcome: self.outcome }
    }
}

/// Sums a card vector: the lowest total and the number of aces.
fn tally(cards: &Vec<Card>) -> (r: (u32, usize))
    requires
        11 * cards@.len() <= u32::MAX,
    ensures
        r.0 as int == min_total(cards@),
        r.1 as int == ace_count(cards@),
{
    let mut total: u32 = 0;
    let mut aces: usize = 0;
    let mut i: usize = 0;
    while i < cards.len()
        invariant
            i <= cards@.len(),
            11 * cards@.len() <= u32::MAX,
            total as int == min_total(cards@.subrange(0, i as int)),
            aces as int == ace_count(cards@.subrange(0, i as int)),
        decreases cards@.len() - i,
    {
        proof {
            lemma_total_bounds(cards@.subrange(0, i as int));
            assert(cards@.subrange(0, i + 1 as int).drop_last() =~= cards@.subrange(0, i as int));
        }
        let c = cards[i];
        total = total + c.rank.low_value();
        if matches!(c.rank, Rank::Ace) {
            aces = aces + 1;
        }
        i = i + 1;
    }
    assert(cards@.subrange(0, cards@.len() as int) =~= cards@);
    (total, aces)
}

impl Hand {
    /// Creates a new empty hand with the default bet of 100.
    pub fn new() -> (h: Self)
        ensures
            h.bet == 100,
            h.cards@.len() == 0,
            h.outcome is None,
    {
        Self { bet: 100, cards: Vec::new(), outcome: None }
    }

    /// Creates a new empty hand with a specific bet amount.
    pub fn with_bet(bet: u64) -> (h: Self)
        ensures
            h.bet == bet,
            h.cards@.len() == 0,
            h.outcome is None,
    {
        Self { bet, cards: Vec::new(), outcome: None }
    }

    /// Creates a new unstaked hand holding one card.
    pub fn with_card(card: Card) -> (h: Self)
        ensures
            h.bet == 0,
            h.cards@ =~= seq![card],
            h.outcome is None,
    {
        Self { bet: 0, cards: vec![card], outcome: None }
    }

    /// Creates a new hand holding one card, staked with the given bet.
    pub fn with_card_and_bet(card: Card, bet: u64) -> (h: Self)
        ensures
            h.bet == bet,
            h.cards@ =~= seq![card],
            h.outcome is None,
    {
        Self { bet, cards: vec![card], outcome: None }
    }

    /// Adds a card to the hand.
    pub fn add_card(&mut self, card: Card)
        ensures
            final(self).cards@ == old(self).cards@.push(card),
            final(self).bet == old(self).bet,
            final(self).outcome == old(self).outcome,
    {
        self.cards.push(card);
    }

    /// Removes and returns the hand's last card, for a split.
    pub(crate) fn take_last_card(&mut self) -> (c: Card)
        requires
            old(self).cards@.len() > 0,
        ensures
            c == old(self).cards@.last(),
            final(self).cards@ == old(self).cards@.drop_last(),
            final(self).bet == old(self).bet,
            final(self).outcome == old(self).outcome,
    {
        match self.cards.pop() {
            Some(c) => c,
            None => unreached(),
        }
    }

    /// Records how the hand turned out.
    pub(crate) fn set_outcome(&mut self, outcome: HandOutcome)
        ensures
            final(self).outcome == Some(outcome),
            final(self).cards@ == old(self).cards@,
            final(self).bet == old(self).bet,
    {
        self.outcome = Some(outcome);
    }

    /// True when the hand can be split: exactly two cards of the same rank.
    pub fn can_split(&self) -> (r: bool)
        ensures
            r == (self.cards@.len() == 2 && self.cards@[0].rank == self.cards@[1].rank),
    {
        self.cards.len() == 2 && self.cards[0].rank == self.cards[1].rank
    }

    /// Doubles the current bet amount.
    pub fn double_bet(&mut self)
        requires
            2 * old(self).bet <= u64::MAX,
        ensures
            final(self).bet == 2 * old(self).bet,
            final(self).cards@ == old(self).cards@,
            final(self).outcome == old(self).outcome,
    {
        self.bet = self.bet * 2;
    }

    /// Calculates all possible hand totals, accounting for aces; ascending,
    /// without duplicates. An empty hand has the single total 0.
    pub fn possible_values(&self) -> (r: Vec<u32>)
        requires
            11 * self.cards@.len() <= u32::MAX,
        ensures
            r@.len() == possible_totals(self.cards@).len(),
            forall|i: int|
                0 <= i < r@.len() ==> r@[i] as int == possible_totals(self.cards@)[i],
    {
        proof {
            lemma_total_bounds(self.cards@);
        }
        let (total, aces) = tally(&self.cards);
        let mut r: Vec<u32> = Vec::new();
        let mut j: usize = 0;
        while j < aces + 1
            invariant
                j <= aces + 1,
                total as int == min_total(self.cards@),
                aces as int == ace_count(self.cards@),
                min_total(self.cards@) + 10 * ace_count(self.cards@) <= u32::MAX,
                r@.len() == j,
                forall|i: int| 0 <= i < j ==> r@[i] as int == min_total(self.cards@) + 10 * i,
            decreases aces + 1 - j,
        {
            r.push(total + 10 * (j as u32));
            j = j + 1;
        }
        r
    }

    /// The best (highest non-busting) total for the hand; if every total
    /// would bust, the lowest total.
    pub fn best_value(&self) -> (r: u32)
        requires
            11 * self.cards@.len() <= u32::MAX,
        ensures
            r as int == best_total(self.cards@),
    {
        proof {
            lemma_total_bounds(self.cards@);
        }
        let (total, aces) = tally(&self.cards);
        if total > 21 {
            total
        } else {
            let headroom = (21 - total) / 10;
            let j = if (aces as u32) <= headroom {
                aces as u32
            } else {
                headroom
            };
            total + 10 * j
        }
    }

    /// True when the hand is a natural blackjack: 21 with exactly two cards.
    pub fn is_natural_blackjack(&self) -> (r: bool)
        requires
            11 * self.cards@.len() <= u32::MAX,
        ensures
            r == natural_blackjack(self.cards@),
    {
        self.cards.len() == 2 && self.best_value() == 21
    }

    /// True when the hand's best total is 21, whatever the card count.
    pub fn is_blackjack(&self) -> (r: bool)
        requires
            11 * self.cards@.len() <= u32::MAX,
        ensures
            r == blackjack(self.cards@),
    {
        self.best_value() == 21
    }

    /// True when the hand is busted: every possible total exceeds 21.
    pub fn is_busted(&self) -> (r: bool)
        requires
            11 * self.cards@.len() <= u32::MAX,
        ensures
            r == busted(self.cards@),
    {
        let (total, _) = tally(&self.cards);
        total > 21
    }

    /// The display text of the hand: each card's text followed by a space.
    pub fn to_string(&self) -> (r: String)
        ensures
            r@ == hand_text(self.cards@),
    {
        let mut s = String::new();
        let mut i: usize = 0;
        while i < self.cards.len()
            invariant
                i <= self.cards@.len(),
                s@ == hand_text(self.cards@.subrange(0, i as int)),
            decreases self.cards@.len() - i,
        {
            proof {
                assert(self.cards@.subrange(0, i + 1 as int).drop_last() =~= self.cards@.subrange(
                    0,
                    i as int,
                ));
            }
            let ct = self.cards[i].to_string();
            s.append(ct.as_str());
            s.append(" ");
            i = i + 1;
        }
        assert(self.cards@.subrange(0, self.cards@.len() as int) =~= self.cards@);
        s
    }
}

/// The display text of a whole hand.
pub open spec fn hand_text(cards: Seq<Card>) -> Seq<char>
    decreases cards.len(),
{
    if cards.len() == 0 {
        Seq::empty()
    } else {
        hand_text(cards.drop_last()) + card_text(cards.last()) + " "@
    }
}

/// The total of a hand whose non-ace cards sum to its base, with j of its
/// aces counted as 11 and the remaining ones counted as 1.
pub open spec fn ace_choice_sum(cards: Seq<Card>, j: int) -> int {
    base_total(cards) + 1 * (ace_count(cards) - j) + 11 * j
}

/// The attainable totals are exactly the distinct sums reachable by counting
/// each ace as 1 or 11 — with k aces and non-ace base T, the sums
/// `T + (k - j) * 1 + j * 11` for each choice of j aces counted as 11 — and
/// they are listed strictly ascending, so without duplicates.
pub proof fn lemma_possible_totals_characterization(cards: Seq<Card>, v: int)
    ensures
        possible_totals(cards).contains(v) <==> (exists|j: int|
            0 <= j <= ace_count(cards) && v == #[trigger] ace_choice_sum(cards, j)),
        forall|i1: int, i2: int|
            0 <= i1 < i2 < possible_totals(cards).len() ==> possible_totals(cards)[i1]
                < possible_totals(cards)[i2],
        possible_totals(cards)[0] == min_total(cards),
{
    lemma_total_bounds(cards);
    if possible_totals(cards).contains(v) {
        let i = choose|i: int|
            0 <= i < possible_totals(cards).len() && possible_totals(cards)[i] == v;
        assert(v == ace_choice_sum(cards, i));
    }
    if exists|j: int| 0 <= j <= ace_count(cards) && v == #[trigger] ace_choice_sum(cards, j) {
        let j = choose|j: int|
            0 <= j <= ace_count(cards) && v == #[trigger] ace_choice_sum(cards, j);
        assert(possible_totals(cards)[j] == v);
    }
}

/// The best total never exceeds 21 when any attainable total is at most 21,
/// and is then the largest such total; otherwise it is the smallest
/// attainable total.
pub proof fn lemma_best_total_selects(cards: Seq<Card>)
    ensures
        (exists|i: int| 0 <= i < possible_totals(cards).len() && possible_totals(cards)[i] <= 21)
            ==> {
            &&& possible_totals(cards).contains(best_total(cards))
            &&& best_total(cards) <= 21
            &&& forall|i: int|
                0 <= i < possible_totals(cards).len() && possible_totals(cards)[i] <= 21
                    ==> possible_totals(cards)[i] <= best_total(cards)
        },
        (forall|i: int| 0 <= i < possible_totals(cards).len() ==> possible_totals(cards)[i] > 21)
            ==> best_total(cards) == possible_totals(cards)[0],
{
    lemma_total_bounds(cards);
    let m = min_total(cards);
    let k = ace_count(cards);
    if exists|i: int| 0 <= i < possible_totals(cards).len() && possible_totals(cards)[i] <= 21 {
        let iw = choose|i: int|
            0 <= i < possible_totals(cards).len() && possible_totals(cards)[i] <= 21;
        assert(m <= m + 10 * iw);
        assert(m <= 21);
        let j = if k <= (21 - m) / 10 {
            k
        } else {
            (21 - m) / 10
        };
        assert(0 <= (21 - m) / 10) by {
            vstd::arithmetic::div_mod::lemma_div_pos_is_pos(21 - m, 10);
        }
        assert(10 * ((21 - m) / 10) <= 21 - m) by {
            vstd::arithmetic::div_mod::lemma_fundamental_div_mod(21 - m, 10);
            vstd::arithmetic::div_mod::lemma_mod_bound(21 - m, 10);
        }
        assert(possible_totals(cards)[j] == best_total(cards));
        assert forall|i: int|
            0 <= i < possible_totals(cards).len() && possible_totals(cards)[i]
                <= 21 implies possible_totals(cards)[i] <= best_total(cards) by {
            assert(10 * i <= 21 - m);
            assert(i <= (21 - m) / 10) by {
                vstd::arithmetic::div_mod::lemma_div_is_ordered(10 * i, 21 - m, 10);
                vstd::arithmetic::div_mod::lemma_div_multiples_vanish(i, 10);
            }
        }
    } else {
        assert(possible_totals(cards)[0] == m);
        assert(m > 21);
    }
}

/// The best total never lies below the lowest attainable total.
pub proof fn lemma_best_total_at_least_min(cards: Seq<Card>)
    ensures
        best_total(cards) >= min_total(cards),
{
    lemma_total_bounds(cards);
    let m = min_total(cards);
    if m <= 21 {
        assert(0 <= (21 - m) / 10) by {
            vstd::arithmetic::div_mod::lemma_div_pos_is_pos(21 - m, 10);
        }
    }
}

/// A two-card hand totaling 21 is a natural blackjack; a hand of more than
/// two cards totaling 21 is a blackjack but not a natural one.
pub proof fn lemma_natural_vs_blackjack(cards: Seq<Card>)
    ensures
        natural_blackjack(cards) <==> (cards.len() == 2 && blackjack(cards)),
        cards.len() > 2 && blackjack(cards) ==> !natural_blackjack(cards),
{
}

/// A hand is busted exactly when every attainable total exceeds 21.
pub proof fn lemma_busted_means_no_total_fits(cards: Seq<Card>)
    ensures
        busted(cards) <==> (forall|i: int|
            0 <= i < possible_totals(cards).len() ==> possible_totals(cards)[i] > 21),
{
    lemma_total_bounds(cards);
    if !busted(cards) {
        assert(possible_totals(cards)[0] == min_total(cards));
        assert(possible_totals(cards)[0] <= 21);
    }
}

} // verus!
