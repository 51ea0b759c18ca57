//! The suit, colour and rank of a card.

use vstd::prelude::*;

verus! {

/// Card suit, listed from the weakest to the strongest.
#[derive(Clone, Copy, Debug, PartialEq, Eq, Hash, PartialOrd, Ord, Structural)]
pub enum Suit {
    Clubs,
    Hearts,
    Diamonds,
    Spades,
}

/// Card colour.
#[derive(Clone, Copy, Debug, PartialEq, Eq, Hash, PartialOrd, Ord, Structural)]
pub enum Colour {
    Red,
    Black,
}

/// Rank of a card, listed from the weakest to the strongest: the two
/// stands above the ace.
#[derive(Clone, Copy, Debug, PartialEq, Eq, Hash, PartialOrd, Ord, Structural)]
pub enum Rank {
    Three,
    Four,
    Five,
    Six,
    Seven,
    Eight,
    Nine,
    Ten,
    Jack,
    Queen,
    King,
    Ace,
    Two,
}

impl Suit {
    /// Position of the suit in the order of suits, from 0 for clubs to 3 for spades.
    pub open spec fn index(self) -> int {
        match self {
            Suit::Clubs => 0,
            Suit::Hearts => 1,
            Suit::Diamonds => 2,
            Suit::Spades => 3,
        }
    }

    /// The colour that the suit is printed in.
    pub open spec fn colour(self) -> Colour {
        match self {
            Suit::Diamonds | Suit::Hearts => Colour::Red,
            Suit::Clubs | Suit::Spades => Colour::Black,
        }
    }

    /// The suit's position as a machine integer.
    pub fn ordinal(&self) -> (n: u8)
        ensures
            n == self.index(),
    {
        match self {
            Suit::Clubs => 0,
            Suit::Hearts => 1,
            Suit::Diamonds => 2,
            Suit::Spades => 3,
        }
    }

    /// The suit's symbol.
    pub open spec fn text(self) -> Seq<char> {
        match self {
            Suit::Diamonds => "♦"@,
            Suit::Clubs => "♣"@,
            Suit::Hearts => "♥"@,
            Suit::Spades => "♠"@,
        }
    }

    /// The suit's symbol.
    pub fn to_text(&self) -> (icon: &'static str)
        ensures
            icon@ == self.text(),
    {
        match self {
            Suit::Diamonds => "♦",
            Suit::Clubs => "♣",
            Suit::Hearts => "♥",
            Suit::Spades => "♠",
        }
    }
}

impl Colour {
    /// Position of the colour, 0 for red and 1 for black.
    pub open spec fn index(self) -> int {
        match self {
            Colour::Red => 0,
            Colour::Black => 1,
        }
    }

    /// The colour's position as a machine integer.
    pub fn ordinal(&self) -> (n: u8)
        ensures
            n == self.index(),
    {
        match self {
            Colour::Red => 0,
            Colour::Black => 1,
        }
    }
}

impl Rank {
    /// Position of the rank in the order of play, from 0 for the three to
    /// 12 for the two.
    pub open spec fn index(self) -> int {
        match self {
            Rank::Three => 0,
            Rank::Four => 1,
            Rank::Five => 2,
            Rank::Six => 3,
            Rank::Seven => 4,
            Rank::Eight => 5,
            Rank::Nine => 6,
            Rank::Ten => 7,
            Rank::Jack => 8,
            Rank::Queen => 9,
            Rank::King => 10,
            Rank::Ace => 11,
            Rank::Two => 12,
        }
    }

    /// The rank's position as a machine integer.
    pub fn ordinal(&self) -> (n: u8)
        ensures
            n == self.index(),
    {
        match self {
            Rank::Three => 0,
            Rank::Four => 1,
            Rank::Five => 2,
            Rank::Six => 3,
            Rank::Seven => 4,
            Rank::Eight => 5,
            Rank::Nine => 6,
            Rank::Ten => 7,
            Rank::Jack => 8,
            Rank::Queen => 9,
            Rank::King => 10,
            Rank::Ace => 11,
            Rank::Two => 12,
        }
    }

    /// The rank's label as printed on a card.
    pub open spec fn text(self) -> Seq<char> {
        match self {
            Rank::Ace => "A"@,
            Rank::Two => "2"@,
            Rank::Three => "3"@,
            Rank::Four => "4"@,
            Rank::Five => "5"@,
            Rank::Six => "6"@,
            Rank::Seven => "7"@,
            Rank::Eight => "8"@,
            Rank::Nine => "9"@,
            Rank::Ten => "10"@,
            Rank::Jack => "J"@,
            Rank::Queen => "Q"@,
            Rank::King => "K"@,
        }
    }

    /// The rank's label as printed on a card.
    pub fn to_text(&self) -> (display: &'static str)
        ensures
            display@ == self.text(),
    {
        match *self {
            Rank::Ace => "A",
            Rank::Two => "2",
            Rank::Three => "3",
            Rank::Four => "4",
            Rank::Five => "5",
            Rank::Six => "6",
            Rank::Seven => "7",
            Rank::Eight => "8",
            Rank::Nine => "9",
            Rank::Ten => "10",
            Rank::Jack => "J",
            Rank::Queen => "Q",
            Rank::King => "K",
        }
    }
}

} // verus!
