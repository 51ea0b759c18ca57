//! A single card, the order of cards, and the cards a player can hold.
//!
//! Every card has a strength, an integer, and the stronger of two cards is
//! the one with the greater strength. Among cards that face the same way
//! the rank decides first and the suit second; turning the cards over
//! inverts both. A turned card is weaker than every card that is not, so
//! that the order is total whichever way the two cards face. The colour
//! comes last: it never decides between cards made by [`Card::new`].

use crate::cards::types::{Colour, Rank, Suit};
use core::cmp::Ordering;
use vstd::std_specs::cmp::PartialOrdSpec;
use vstd::prelude::*;

verus! {

/// An individual card.
#[derive(Clone, Copy, Debug, PartialEq, Eq, Structural)]
pub struct Card {
    /// The `Rank` of the card.
    pub rank: Rank,
    /// The `Suit` of the card.
    pub suit: Suit,
    /// The colour, which follows from the suit.
    pub colour: Colour,
    /// Whether the card has been turned over, which inverts its order.
    pub reversed: bool,
}

/// A card in a player's hand or in a play: a real card, a joker that
/// stands for a chosen card, or a joker that stands for nothing yet.
#[derive(Clone, Copy, Debug, PartialEq, Eq, PartialOrd, Structural)]
pub enum PlayerCard {
    Card(Card),
    Wildcard(Card),
    Joker(u64),
}

/// Appends `tail` to `text`. This calls `String::push_str`, which puts the
/// given slice onto the end of the string and leaves what stood there.
#[verifier::external_body]
fn append(text: &mut String, tail: &str)
    ensures
        final(text)@ == old(text)@ + tail@,
{
    text.push_str(tail);
}

/// The card that every game opens with.
pub open spec fn three_of_clubs() -> Card {
    Card { rank: Rank::Three, suit: Suit::Clubs, colour: Colour::Black, reversed: false }
}

/// The strongest card of an unturned deck.
pub open spec fn two_of_spades() -> Card {
    Card { rank: Rank::Two, suit: Suit::Spades, colour: Colour::Black, reversed: false }
}

/// How the first of two numbers stands to the second.
pub open spec fn order_of(a: int, b: int) -> Ordering {
    if a < b {
        Ordering::Less
    } else if a == b {
        Ordering::Equal
    } else {
        Ordering::Greater
    }
}

/// How the first of two numbers stands to the second.
pub fn compare_numbers(a: i64, b: i64) -> (o: Ordering)
    ensures
        a < b ==> o == Ordering::Less,
        a == b ==> o == Ordering::Equal,
        a > b ==> o == Ordering::Greater,
{
    if a < b {
        Ordering::Less
    } else if a == b {
        Ordering::Equal
    } else {
        Ordering::Greater
    }
}

/// The rank one step below `rank` in the order of play: none below the three.
pub fn previous_rank(rank: &Rank) -> (r: Option<Rank>)
    ensures
        match r {
            Some(p) => p.index() == rank.index() - 1,
            None => rank.index() == 0,
        },
{
    match *rank {
        Rank::Three => None,
        Rank::Four => Some(Rank::Three),
        Rank::Five => Some(Rank::Four),
        Rank::Six => Some(Rank::Five),
        Rank::Seven => Some(Rank::Six),
        Rank::Eight => Some(Rank::Seven),
        Rank::Nine => Some(Rank::Eight),
        Rank::Ten => Some(Rank::Nine),
        Rank::Jack => Some(Rank::Ten),
        Rank::Queen => Some(Rank::Jack),
        Rank::King => Some(Rank::Queen),
        Rank::Ace => Some(Rank::King),
        Rank::Two => Some(Rank::Ace),
    }
}

/// The rank one step above `rank` in the order of play: none above the two.
pub fn next_rank(rank: &Rank) -> (r: Option<Rank>)
    ensures
        match r {
            Some(n) => n.index() == rank.index() + 1,
            None => rank.index() == 12,
        },
{
    match *rank {
        Rank::Three => Some(Rank::Four),
        Rank::Four => Some(Rank::Five),
        Rank::Five => Some(Rank::Six),
        Rank::Six => Some(Rank::Seven),
        Rank::Seven => Some(Rank::Eight),
        Rank::Eight => Some(Rank::Nine),
        Rank::Nine => Some(Rank::Ten),
        Rank::Ten => Some(Rank::Jack),
        Rank::Jack => Some(Rank::Queen),
        Rank::Queen => Some(Rank::King),
        Rank::King => Some(Rank::Ace),
        Rank::Ace => Some(Rank::Two),
        Rank::Two => None,
    }
}

impl Card {
    /// The colour agrees with the suit.
    pub open spec fn well_formed(self) -> bool {
        self.colour == self.suit.colour()
    }

    /// How far the rank stands from the weak end of the order, given the
    /// way the card faces: the three is 0 unturned and 12 turned.
    pub open spec fn rank_height(self) -> int {
        if self.reversed {
            12 - self.rank.index()
        } else {
            self.rank.index()
        }
    }

    /// The same for the suit: clubs are 0 unturned and 3 turned.
    pub open spec fn suit_height(self) -> int {
        if self.reversed {
            3 - self.suit.index()
        } else {
            self.suit.index()
        }
    }

    /// The card's place in the order of all cards, from 0 to 207.
    #[verifier::opaque]
    pub open spec fn strength(self) -> int {
        let side: int = if self.reversed { 0 } else { 1 };
        ((side * 13 + self.rank_height()) * 4 + self.suit_height()) * 2 + self.colour.index()
    }

    /// No card that faces the same way is stronger: the two of spades
    /// unturned, the three of clubs turned.
    pub open spec fn is_topmost(self) -> bool {
        self.rank_height() == 12 && self.suit_height() == 3
    }

    /// The same card facing the other way.
    pub open spec fn flipped(self) -> Card {
        Card { rank: self.rank, suit: self.suit, colour: self.colour, reversed: !self.reversed }
    }

    /// The card as it is written: the suit's symbol, then the rank's label.
    pub open spec fn text(self) -> Seq<char> {
        self.suit.text() + self.rank.text()
    }

    /// The card as it is written: the suit's symbol, then the rank's label.
    pub fn to_text(&self) -> (card: String)
        ensures
            card@ == self.text(),
    {
        let mut card = String::new();
        append(&mut card, self.suit.to_text());
        append(&mut card, self.rank.to_text());
        card
    }

    /// Builds a card; the colour is taken from the suit.
    pub fn new(rank: Rank, suit: Suit, reversed: bool) -> (card: Card)
        ensures
            card == (Card { rank, suit, colour: suit.colour(), reversed }),
            card.well_formed(),
    {
        let colour = match suit {
            Suit::Diamonds | Suit::Hearts => Colour::Red,
            _ => Colour::Black,
        };
        Card { suit, rank, colour, reversed }
    }

    /// The rank one step weaker than this card's, the way the card faces,
    /// or `None` for the weakest.
    pub fn previous_rank(&self) -> (r: Option<Rank>)
        ensures
            match r {
                Some(p) => p.index() == self.rank.index() + (if self.reversed { 1int } else { -1int }),
                None => self.rank_height() == 0,
            },
    {
        if self.reversed {
            next_rank(&self.rank)
        } else {
            previous_rank(&self.rank)
        }
    }

    /// The rank one step stronger than this card's, the way the card faces,
    /// or `None` for the strongest.
    pub fn next_rank(&self) -> (r: Option<Rank>)
        ensures
            match r {
                Some(n) => n.index() == self.rank.index() + (if self.reversed { -1int } else { 1int }),
                None => self.rank_height() == 12,
            },
    {
        if self.reversed {
            previous_rank(&self.rank)
        } else {
            next_rank(&self.rank)
        }
    }

    /// The colour that this card does not have.
    pub fn alternate_colour(&self) -> (c: Colour)
        ensures
            c != self.colour,
    {
        if self.colour == Colour::Red {
            Colour::Black
        } else {
            Colour::Red
        }
    }

    /// The same card facing the other way.
    pub fn reverse(&self) -> (card: Card)
        ensures
            card == self.flipped(),
    {
        Card { rank: self.rank, suit: self.suit, colour: self.colour, reversed: !self.reversed }
    }

    /// Whether no card that faces the same way is stronger.
    pub fn tops_the_deck(&self) -> (b: bool)
        ensures
            b == self.is_topmost(),
    {
        if self.reversed {
            self.rank == Rank::Three && self.suit == Suit::Clubs
        } else {
            self.rank == Rank::Two && self.suit == Suit::Spades
        }
    }

    /// The card's strength as a machine integer.
    pub fn strength_value(&self) -> (s: u8)
        ensures
            s == self.strength(),
            s < 208,
    {
        reveal(Card::strength);
        let r: u8 = self.rank.ordinal();
        let t: u8 = self.suit.ordinal();
        let c: u8 = self.colour.ordinal();
        if self.reversed {
            ((12 - r) * 4 + (3 - t)) * 2 + c
        } else {
            ((13 + r) * 4 + t) * 2 + c
        }
    }

    /// Whether `other` is strictly stronger than this card.
    pub fn weaker_than(&self, other: &Card) -> (b: bool)
        ensures
            b == (self.strength() < other.strength()),
    {
        self.strength_value() < other.strength_value()
    }
}

impl PartialOrd for Card {
    fn partial_cmp(&self, other: &Card) -> (o: Option<Ordering>) {
        let mine: u8 = self.strength_value();
        let theirs: u8 = other.strength_value();
        if mine < theirs {
            Some(Ordering::Less)
        } else if mine == theirs {
            Some(Ordering::Equal)
        } else {
            Some(Ordering::Greater)
        }
    }
}

impl vstd::std_specs::cmp::PartialOrdSpecImpl for Card {
    open spec fn obeys_partial_cmp_spec() -> bool {
        true
    }

    open spec fn partial_cmp_spec(&self, other: &Card) -> Option<Ordering> {
        Some(order_of(self.strength(), other.strength()))
    }
}

impl PlayerCard {
    /// The card that this stands for; a bare joker stands for none.
    pub open spec fn bound_card(self) -> Option<Card> {
        match self {
            PlayerCard::Card(c) => Some(c),
            PlayerCard::Wildcard(c) => Some(c),
            PlayerCard::Joker(_) => None,
        }
    }

    /// The same with its card, if it has one, facing the other way.
    pub open spec fn flipped(self) -> PlayerCard {
        match self {
            PlayerCard::Card(c) => PlayerCard::Card(c.flipped()),
            PlayerCard::Wildcard(c) => PlayerCard::Wildcard(c.flipped()),
            PlayerCard::Joker(n) => PlayerCard::Joker(n),
        }
    }

    /// The card that this stands for. A joker has to be given a card first.
    pub fn to_card(&self) -> (card: Card)
        requires
            !(self is Joker),
        ensures
            Some(card) == self.bound_card(),
    {
        match *self {
            PlayerCard::Card(c) => c,
            PlayerCard::Wildcard(c) => c,
            PlayerCard::Joker(_) => unreached(),
        }
    }

    /// The same with its card, if it has one, facing the other way.
    pub fn reverse(&self) -> (flipped: PlayerCard)
        ensures
            flipped == self.flipped(),
    {
        match *self {
            PlayerCard::Card(c) => PlayerCard::Card(c.reverse()),
            PlayerCard::Wildcard(c) => PlayerCard::Wildcard(c.reverse()),
            PlayerCard::Joker(n) => PlayerCard::Joker(n),
        }
    }
}

/// Two cards made by `new` are equal where rank, suit and facing agree.
pub proof fn lemma_card_identity(a: Card, b: Card)
    requires
        a.well_formed(),
        b.well_formed(),
    ensures
        a == b <==> a.rank == b.rank && a.suit == b.suit && a.reversed == b.reversed,
{
}

/// The cards that nothing beats are the two of spades unturned and the
/// three of clubs turned; no card that faces the same way is stronger.
pub proof fn lemma_topmost_cards(card: Card, other: Card)
    requires
        card.well_formed(),
        other.well_formed(),
    ensures
        card.is_topmost() <==> card == two_of_spades() || card == three_of_clubs().flipped(),
        card.is_topmost() && other.reversed == card.reversed ==> other.strength() <= card.strength(),
{
    reveal(Card::strength);
}

/// The strength of a card lies between 0 and 207.
pub proof fn lemma_strength_bounds(card: Card)
    ensures
        0 <= card.strength() < 208,
{
    reveal(Card::strength);
}

/// No two cards have the same strength.
pub proof fn lemma_strength_identifies_card(a: Card, b: Card)
    requires
        a.strength() == b.strength(),
    ensures
        a == b,
{
    reveal(Card::strength);
    assert(a.colour.index() == b.colour.index());
    assert(a.suit_height() == b.suit_height());
    assert(a.rank_height() == b.rank_height());
    assert(a.reversed == b.reversed);
    assert(a.rank.index() == b.rank.index());
    assert(a.suit.index() == b.suit.index());
}

/// The order of cards is a strict total order: no card is weaker than
/// itself, of two different cards exactly one is the weaker, and a card
/// weaker than a second that is weaker than a third is weaker than the
/// third.
pub proof fn lemma_card_order_is_strict_total(a: Card, b: Card, c: Card)
    ensures
        !(a.strength() < a.strength()),
        a.strength() < b.strength() ==> !(b.strength() < a.strength()),
        a != b ==> (a.strength() < b.strength() || b.strength() < a.strength()),
        a.strength() < b.strength() && b.strength() < c.strength() ==> a.strength() < c.strength(),
{
    if a != b && a.strength() == b.strength() {
        lemma_strength_identifies_card(a, b);
    }
}

/// Comparing two cards is comparing their strengths, and only a card
/// itself compares as equal to it.
pub proof fn lemma_comparison_follows_strength(a: Card, b: Card)
    ensures
        a.partial_cmp_spec(&b) == Some(Ordering::Less) <==> a.strength() < b.strength(),
        a.partial_cmp_spec(&b) == Some(Ordering::Greater) <==> b.strength() < a.strength(),
        a.partial_cmp_spec(&b) == Some(Ordering::Equal) <==> a == b,
{
    if a.strength() == b.strength() {
        lemma_strength_identifies_card(a, b);
    }
}

/// Among cards that face the same way, the rank decides, then the suit;
/// turned cards are ordered the other way round.
pub proof fn lemma_card_order_by_rank_then_suit(a: Card, b: Card)
    requires
        a.reversed == b.reversed,
        a.well_formed(),
        b.well_formed(),
    ensures
        !a.reversed ==> (a.strength() < b.strength() <==> (a.rank.index() < b.rank.index() || (a.rank
            == b.rank && a.suit.index() < b.suit.index()))),
        a.reversed ==> (a.strength() < b.strength() <==> (a.rank.index() > b.rank.index() || (a.rank
            == b.rank && a.suit.index() > b.suit.index()))),
{
    reveal(Card::strength);
}

/// Turning both of two cards that face the same way inverts their order.
pub proof fn lemma_flip_inverts_order(a: Card, b: Card)
    requires
        a.reversed == b.reversed,
        a.well_formed(),
        b.well_formed(),
    ensures
        a.strength() < b.strength() <==> b.flipped().strength() < a.flipped().strength(),
        a.flipped().flipped() == a,
{
    reveal(Card::strength);
}

} // verus!
