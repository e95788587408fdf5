//! Shared basic types: seats, cards, streets, phases, actions.

use vstd::prelude::*;

verus! {

/// Index of a seat at the table (0..=9 at real tables).
#[derive(Debug, Clone, Copy, PartialEq, Eq, Hash, PartialOrd, Ord, Structural)]
pub struct SeatId(pub u8);

impl SeatId {
    pub fn new(idx: u8) -> (s: SeatId)
        ensures
            s.0 == idx,
    {
        SeatId(idx)
    }
}

#[derive(Debug, Clone, Copy, PartialEq, Eq, Hash, Structural)]
pub enum Suit {
    Spades,
    Hearts,
    Diamonds,
    Clubs,
}

/// The one-letter abbreviation of a suit.
pub open spec fn suit_letter(s: Suit) -> Seq<char> {
    match s {
        Suit::Spades => seq!['s'],
        Suit::Hearts => seq!['h'],
        Suit::Diamonds => seq!['d'],
        Suit::Clubs => seq!['c'],
    }
}

impl Suit {
    pub fn short_str(self) -> (r: &'static str)
        ensures
            r@ == suit_letter(self),
    {
        proof {
            reveal_strlit("s");
            reveal_strlit("h");
            reveal_strlit("d");
            reveal_strlit("c");
        }
        match self {
            Suit::Spades => "s",
            Suit::Hearts => "h",
            Suit::Diamonds => "d",
            Suit::Clubs => "c",
        }
    }
}

#[derive(Debug, Clone, Copy, PartialEq, Eq, Hash, PartialOrd, Ord, Structural)]
pub enum Rank {
    Two,
    Three,
    Four,
    Five,
    Six,
    Seven,
    Eight,
    Nine,
    Ten,
    Jack,
    Queen,
    King,
    Ace,
}

/// Position of a rank in the order Two < Three < ... < Ace (0..=12).
pub open spec fn rank_index(r: Rank) -> int {
    match r {
        Rank::Two => 0,
        Rank::Three => 1,
        Rank::Four => 2,
        Rank::Five => 3,
        Rank::Six => 4,
        Rank::Seven => 5,
        Rank::Eight => 6,
        Rank::Nine => 7,
        Rank::Ten => 8,
        Rank::Jack => 9,
        Rank::Queen => 10,
        Rank::King => 11,
        Rank::Ace => 12,
    }
}

/// The one-character abbreviation of a rank: 2..9, T, J, Q, K, A.
pub open spec fn rank_letter(r: Rank) -> Seq<char> {
    match r {
        Rank::Two => seq!['2'],
        Rank::Three => seq!['3'],
        Rank::Four => seq!['4'],
        Rank::Five => seq!['5'],
        Rank::Six => seq!['6'],
        Rank::Seven => seq!['7'],
        Rank::Eight => seq!['8'],
        Rank::Nine => seq!['9'],
        Rank::Ten => seq!['T'],
        Rank::Jack => seq!['J'],
        Rank::Queen => seq!['Q'],
        Rank::King => seq!['K'],
        Rank::Ace => seq!['A'],
    }
}

impl Rank {
    /// Pip value: Two is 2 up to Ace which is 14.
    pub fn value(self) -> (v: u8)
        ensures
            v == rank_index(self) + 2,
    {
        match self {
            Rank::Two => 2,
            Rank::Three => 3,
            Rank::Four => 4,
            Rank::Five => 5,
            Rank::Six => 6,
            Rank::Seven => 7,
            Rank::Eight => 8,
            Rank::Nine => 9,
            Rank::Ten => 10,
            Rank::Jack => 11,
            Rank::Queen => 12,
            Rank::King => 13,
            Rank::Ace => 14,
        }
    }

    pub fn short_str(self) -> (r: &'static str)
        ensures
            r@ == rank_letter(self),
    {
        proof {
            reveal_strlit("2");
            reveal_strlit("3");
            reveal_strlit("4");
            reveal_strlit("5");
            reveal_strlit("6");
            reveal_strlit("7");
            reveal_strlit("8");
            reveal_strlit("9");
            reveal_strlit("T");
            reveal_strlit("J");
            reveal_strlit("Q");
            reveal_strlit("K");
            reveal_strlit("A");
        }
        match self {
            Rank::Two => "2",
            Rank::Three => "3",
            Rank::Four => "4",
            Rank::Five => "5",
            Rank::Six => "6",
            Rank::Seven => "7",
            Rank::Eight => "8",
            Rank::Nine => "9",
            Rank::Ten => "T",
            Rank::Jack => "J",
            Rank::Queen => "Q",
            Rank::King => "K",
            Rank::Ace => "A",
        }
    }
}

/// Distinct ranks have distinct pip values, and the value order is the rank order.
pub proof fn rank_index_injective(a: Rank, b: Rank)
    ensures
        rank_index(a) == rank_index(b) <==> a == b,
        0 <= rank_index(a) <= 12,
{
}

/// A recognised playing card; `confidence` is in thousandths (0..=1000).
#[derive(Debug, Clone, Copy, PartialEq, Eq, Structural)]
pub struct Card {
    pub suit: Suit,
    pub rank: Rank,
    pub confidence: u32,
}

#[derive(Debug, Clone, Copy, PartialEq, Eq, Hash, Structural)]
pub enum Street {
    Preflop,
    Flop,
    Turn,
    River,
    Showdown,
}

#[derive(Debug, Clone, Copy, PartialEq, Eq, Hash, Structural)]
pub enum TablePhase {
    Waiting,
    Playing,
    Showdown,
    Cleanup,
}

#[derive(Debug, Clone, Copy, PartialEq, Eq, Hash, Structural)]
pub enum BlindKind {
    SmallBlind,
    BigBlind,
    Straddle,
    Ante,
}

/// A player action; amounts are in hundredths of a chip.
#[derive(Debug, Clone, Copy, PartialEq, Eq, Structural)]
pub enum ActionType {
    Fold,
    Check,
    Call,
    /// First bet of a street; the absolute amount bet.
    Bet(i64),
    /// A raise; the absolute raise-to amount (not raise-by).
    Raise(i64),
    /// All-in; the amount pushed into the pot.
    AllIn(i64),
    /// Forced blind, ante or straddle; never part of the recommendation history.
    PostBlind(BlindKind),
}

#[derive(Debug, Clone, Copy, PartialEq, Eq, Hash, Structural)]
pub enum SeatStatus {
    Empty,
    SittingOut,
    Active,
    Folded,
    AllIn,
}

#[derive(Debug, Clone, Copy, PartialEq, Eq, Structural)]
pub enum ActionSource {
    StackDiff,
    PotDiff,
    SeatStatusChange,
    Combined,
}

} // verus!
