use vstd::prelude::*;
use vstd::string::StringExecFns;

verus! {

/// The thirteen card ranks of a standard deck.
#[derive(Debug, Eq, Hash, PartialEq, Structural, Clone, Copy)]
pub enum Rank {
    Two,
    Three,
    Four,
    Five,
    Six,
    Seven,
    Eight,
    Nine,
    Ten,
    Jack,
    Queen,
    King,
    Ace,
}

/// The numeric values a rank can stand for: an ace counts as 1 or 11,
/// face cards and tens count as 10, every other rank as its pip count.
pub open spec fn rank_values(r: Rank) -> Seq<i32> {
    match r {
        Rank::Ace => seq![1i32, 11i32],
        Rank::Two => seq![2i32],
        Rank::Three => seq![3i32],
        Rank::Four => seq![4i32],
        Rank::Five => seq![5i32],
        Rank::Six => seq![6i32],
        Rank::Seven => seq![7i32],
        Rank::Eight => seq![8i32],
        Rank::Nine => seq![9i32],
        Rank::Ten => seq![10i32],
        Rank::Jack => seq![10i32],
        Rank::Queen => seq![10i32],
        Rank::King => seq![10i32],
    }
}

/// The lowest value a rank can count for (an ace counted as 1).
pub open spec fn rank_low(r: Rank) -> int {
    rank_values(r)[0] as int
}

/// The one-letter (or two-letter, for tens) symbol of a rank.
pub open spec fn rank_symbol(r: Rank) -> Seq<char> {
    match r {
        Rank::Ace => "A"@,
        Rank::Two => "2"@,
        Rank::Three => "3"@,
        Rank::Four => "4"@,
        Rank::Five => "5"@,
        Rank::Six => "6"@,
        Rank::Seven => "7"@,
        Rank::Eight => "8"@,
        Rank::Nine => "9"@,
        Rank::Ten => "10"@,
        Rank::Jack => "J"@,
        Rank::Queen => "Q"@,
        Rank::King => "K"@,
    }
}

/// The rank at a position in the fixed two-to-ace enumeration order.
pub open spec fn rank_of_index(i: int) -> Rank {
    if i == 0 {
        Rank::Two
    } else if i == 1 {
        Rank::Three
    } else if i == 2 {
        Rank::Four
    } else if i == 3 {
        Rank::Five
    } else if i == 4 {
        Rank::Six
    } else if i == 5 {
        Rank::Seven
    } else if i == 6 {
        Rank::Eight
    } else if i == 7 {
        Rank::Nine
    } else if i == 8 {
        Rank::Ten
    } else if i == 9 {
        Rank::Jack
    } else if i == 10 {
        Rank::Queen
    } else if i == 11 {
        Rank::King
    } else {
        Rank::Ace
    }
}

impl Rank {
    /// Every value this rank may count for, lowest first.
    pub fn value(&self) -> (r: Vec<i32>)
        ensures
            r@ == rank_values(*self),
    {
        match self {
            Rank::Ace => vec![1, 11],
            Rank::Two => vec![2],
            Rank::Three => vec![3],
            Rank::Four => vec![4],
            Rank::Five => vec![5],
            Rank::Six => vec![6],
            Rank::Seven => vec![7],
            Rank::Eight => vec![8],
            Rank::Nine => vec![9],
            Rank::Ten | Rank::Jack | Rank::Queen | Rank::King => vec![10],
        }
    }

    /// The lowest value this rank can count for, as a total-friendly integer.
    pub fn low_value(&self) -> (v: u32)
        ensures
            v as int == rank_low(*self),
            1 <= v <= 10,
    {
        match self {
            Rank::Ace => 1,
            Rank::Two => 2,
            Rank::Three => 3,
            Rank::Four => 4,
            Rank::Five => 5,
            Rank::Six => 6,
            Rank::Seven => 7,
            Rank::Eight => 8,
            Rank::Nine => 9,
            Rank::Ten | Rank::Jack | Rank::Queen | Rank::King => 10,
        }
    }

    /// The rank at a position in the two-to-ace enumeration order.
    pub fn from_index(i: usize) -> (r: Rank)
        requires
            i < 13,
        ensures
            r == rank_of_index(i as int),
    {
        match i {
            0 => Rank::Two,
            1 => Rank::Three,
            2 => Rank::Four,
            3 => Rank::Five,
            4 => Rank::Six,
            5 => Rank::Seven,
            6 => Rank::Eight,
            7 => Rank::Nine,
            8 => Rank::Ten,
            9 => Rank::Jack,
            10 => Rank::Queen,
            11 => Rank::King,
            _ => Rank::Ace,
        }
    }

    /// The display symbol of this rank.
    pub fn to_string(&self) -> (r: String)
        ensures
            r@ == rank_symbol(*self),
    {
        match self {
            Rank::Ace => "A".to_owned(),
            Rank::Two => "2".to_owned(),
            Rank::Three => "3".to_owned(),
            Rank::Four => "4".to_owned(),
            Rank::Five => "5".to_owned(),
            Rank::Six => "6".to_owned(),
            Rank::Seven => "7".to_owned(),
            Rank::Eight => "8".to_owned(),
            Rank::Nine => "9".to_owned(),
            Rank::Ten => "10".to_owned(),
            Rank::Jack => "J".to_owned(),
            Rank::Queen => "Q".to_owned(),
            Rank::King => "K".to_owned(),
        }
    }
}

/// The four suits of a standard deck; they carry no numeric meaning.
#[derive(Debug, Eq, Hash, PartialEq, Structural, Clone, Copy)]
pub enum Suit {
    Clubs,
    Diamonds,
    Hearts,
    Spades,
}

/// The display symbol of a suit.
pub open spec fn suit_symbol(s: Suit) -> Seq<char> {
    match s {
        Suit::Hearts => "\u{2764}\u{fe0f}"@,
        Suit::Diamonds => "\u{2666}\u{fe0f}"@,
        Suit::Clubs => "\u{2663}\u{fe0f}"@,
        Suit::Spades => "\u{2660}\u{fe0f}"@,
    }
}

/// The suit at a position in the fixed clubs-to-spades enumeration order.
pub open spec fn suit_of_index(i: int) -> Suit {
    if i == 0 {
        Suit::Clubs
    } else if i == 1 {
        Suit::Diamonds
    } else if i == 2 {
        Suit::Hearts
    } else {
        Suit::Spades
    }
}

impl Suit {
    /// The suit at a position in the clubs-to-spades enumeration order.
    pub fn from_index(i: usize) -> (s: Suit)
        requires
            i < 4,
        ensures
            s == suit_of_index(i as int),
    {
        match i {
            0 => Suit::Clubs,
            1 => Suit::Diamonds,
            2 => Suit::Hearts,
            _ => Suit::Spades,
        }
    }

    /// The display symbol of this suit.
    pub fn to_string(&self) -> (r: String)
        ensures
            r@ == suit_symbol(*self),
    {
        match self {
            Suit::Hearts => "\u{2764}\u{fe0f}".to_owned(),
            Suit::Diamonds => "\u{2666}\u{fe0f}".to_owned(),
            Suit::Clubs => "\u{2663}\u{fe0f}".to_owned(),
            Suit::Spades => "\u{2660}\u{fe0f}".to_owned(),
        }
    }
}

/// An immutable playing card: a rank together with a suit.
#[derive(Debug, PartialEq, Eq, Structural, Clone, Copy)]
pub struct Card {
    pub rank: Rank,
    pub suit: Suit,
}

/// The display text of a card: its rank symbol followed by its suit symbol.
pub open spec fn card_text(c: Card) -> Seq<char> {
    rank_symbol(c.rank) + suit_symbol(c.suit)
}

impl Card {
    pub fn new(rank: Rank, suit: Suit) -> (c: Card)
        ensures
            c == (Card { rank, suit }),
    {
        Card { rank, suit }
    }

    /// The display text of this card.
    pub fn to_string(&self) -> (r: String)
        ensures
            r@ == card_text(*self),
    {
        self.rank.to_string().concat(self.suit.to_string().as_str())
    }
}

} // verus!
