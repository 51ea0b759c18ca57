//! A deck of cards: 52 cards and two jokers.

use crate::cards::card::{Card, PlayerCard};
use crate::cards::types::{Rank, Suit};
use rand::seq::SliceRandom;
use vstd::prelude::*;

verus! {

/// The suits of a fresh deck in the order in which they lie in it.
pub open spec fn deck_suit(i: int) -> Suit {
    if i == 0 {
        Suit::Spades
    } else if i == 1 {
        Suit::Hearts
    } else if i == 2 {
        Suit::Diamonds
    } else {
        Suit::Clubs
    }
}

/// The ranks of each suit of a fresh deck in the order in which they lie in it.
pub open spec fn deck_rank(i: int) -> Rank {
    if i == 0 {
        Rank::Ace
    } else if i == 1 {
        Rank::Two
    } else if i == 2 {
        Rank::Three
    } else if i == 3 {
        Rank::Four
    } else if i == 4 {
        Rank::Five
    } else if i == 5 {
        Rank::Six
    } else if i == 6 {
        Rank::Seven
    } else if i == 7 {
        Rank::Eight
    } else if i == 8 {
        Rank::Nine
    } else if i == 9 {
        Rank::Ten
    } else if i == 10 {
        Rank::Jack
    } else if i == 11 {
        Rank::Queen
    } else {
        Rank::King
    }
}

/// The card at position `n` of a fresh deck: thirteen cards of each suit,
/// then the two jokers.
pub open spec fn fresh_card(n: int) -> PlayerCard {
    if n < 52 {
        PlayerCard::Card(
            Card {
                rank: deck_rank(n % 13),
                suit: deck_suit(n / 13),
                colour: deck_suit(n / 13).colour(),
                reversed: false,
            },
        )
    } else {
        PlayerCard::Joker((n - 52) as u64)
    }
}

/// The first `n` cards of a fresh deck.
pub open spec fn fresh_cards(n: int) -> Seq<PlayerCard> {
    Seq::new(n as nat, |i: int| fresh_card(i))
}

/// The cards of the first `k` decks, one deck after the other.
pub open spec fn joined(decks: Seq<Deck>, k: int) -> Seq<PlayerCard>
    decreases k,
{
    if k <= 0 {
        Seq::empty()
    } else {
        joined(decks, k - 1) + decks[k - 1]@
    }
}

/// The seat after `seat` at a table of `players`; the first follows the last.
pub open spec fn next_seat(seat: int, players: int) -> int {
    if seat + 1 < players {
        seat + 1
    } else {
        0
    }
}

/// The seat that gets the card dealt after `t` others: the first card
/// goes to seat 0, and the seats take turns.
pub open spec fn seat_of(t: int, players: int) -> int
    decreases t,
{
    if t <= 0 {
        0
    } else {
        next_seat(seat_of(t - 1, players), players)
    }
}

/// The cards that `seat` holds once `t` cards have been dealt, in the
/// order in which they came. The cards are dealt from the end of the deck.
pub open spec fn dealt_to(deck: Seq<PlayerCard>, players: int, seat: int, t: int) -> Seq<
    PlayerCard,
>
    decreases t,
{
    if t <= 0 {
        Seq::empty()
    } else if seat_of(t - 1, players) == seat {
        dealt_to(deck, players, seat, t - 1).push(deck[deck.len() - t])
    } else {
        dealt_to(deck, players, seat, t - 1)
    }
}

/// Every card is dealt to a seat at the table: the card dealt after `t`
/// others is in the hand of the seat whose turn it was.
pub proof fn lemma_every_card_is_dealt(deck: Seq<PlayerCard>, players: int, t: int, upto: int)
    requires
        players > 0,
        0 <= t < upto <= deck.len(),
    ensures
        0 <= seat_of(t, players) < players,
        dealt_to(deck, players, seat_of(t, players), upto).contains(deck[deck.len() - 1 - t]),
    decreases upto,
{
    lemma_seat_is_at_the_table(t, players);
    let seat = seat_of(t, players);
    let hand = dealt_to(deck, players, seat, upto);
    if t == upto - 1 {
        assert(hand[hand.len() - 1] == deck[deck.len() - 1 - t]);
    } else {
        lemma_every_card_is_dealt(deck, players, t, upto - 1);
        let before = dealt_to(deck, players, seat, upto - 1);
        let i = choose|i: int| 0 <= i < before.len() && before[i] == deck[deck.len() - 1 - t];
        assert(hand[i] == deck[deck.len() - 1 - t]);
    }
}

/// Every card goes to a seat at the table.
pub proof fn lemma_seat_is_at_the_table(t: int, players: int)
    requires
        players > 0,
    ensures
        0 <= seat_of(t, players) < players,
    decreases t,
{
    if t > 0 {
        lemma_seat_is_at_the_table(t - 1, players);
    }
}

/// The seats take turns: the card dealt after `t` others goes to the
/// seat that `t` leaves as remainder when divided by the number of seats.
pub proof fn lemma_seats_take_turns(t: int, players: int)
    requires
        t >= 0,
        players > 0,
    ensures
        seat_of(t, players) == t % players,
    decreases t,
{
    if t > 0 {
        lemma_seats_take_turns(t - 1, players);
        let before = (t - 1) % players;
        assert(t % players == if before + 1 < players {
            before + 1
        } else {
            0
        }) by (nonlinear_arith)
            requires
                t > 0,
                players > 0,
                before == (t - 1) % players,
        ;
    } else {
        assert(0int % players == 0) by (nonlinear_arith)
            requires
                players > 0,
        ;
    }
}

/// A deck of cards.
#[derive(Debug)]
pub struct Deck(Vec<PlayerCard>);

impl View for Deck {
    type V = Seq<PlayerCard>;

    closed spec fn view(&self) -> Seq<PlayerCard> {
        self.0@
    }
}

impl Clone for Deck {
    fn clone(&self) -> (deck: Deck)
        ensures
            deck@ == self@,
    {
        Deck(self.0.clone())
    }
}

/// Puts the cards in a random order. This calls `shuffle` of rand's
/// `SliceRandom` with the generator that `thread_rng` gives, which swaps
/// cards in place: the same cards are there afterwards, each as often as
/// before. Nothing is claimed of their order.
#[verifier::external_body]
fn shuffle_cards(cards: &mut Vec<PlayerCard>)
    ensures
        final(cards)@.to_multiset() == old(cards)@.to_multiset(),
{
    cards.shuffle(&mut rand::thread_rng());
}

impl Deck {
    /// Create a new deck: the 52 cards suit by suit, then two jokers.
    pub fn new() -> (deck: Deck)
        ensures
            deck@ == fresh_cards(54),
    {
        let suits = [Suit::Spades, Suit::Hearts, Suit::Diamonds, Suit::Clubs];
        let ranks = [
            Rank::Ace,
            Rank::Two,
            Rank::Three,
            Rank::Four,
            Rank::Five,
            Rank::Six,
            Rank::Seven,
            Rank::Eight,
            Rank::Nine,
            Rank::Ten,
            Rank::Jack,
            Rank::Queen,
            Rank::King,
        ];
        let mut cards: Vec<PlayerCard> = Vec::with_capacity(54);
        let mut s: usize = 0;
        while s < 4
            invariant
                s <= 4,
                cards@ =~= fresh_cards(s * 13),
                forall|i: int| 0 <= i < 4 ==> suits[i] == deck_suit(i),
                forall|i: int| 0 <= i < 13 ==> ranks[i] == deck_rank(i),
            decreases 4 - s,
        {
            let mut r: usize = 0;
            while r < 13
                invariant
                    s < 4,
                    r <= 13,
                    cards@ =~= fresh_cards(s * 13 + r),
                    forall|i: int| 0 <= i < 4 ==> suits[i] == deck_suit(i),
                    forall|i: int| 0 <= i < 13 ==> ranks[i] == deck_rank(i),
                decreases 13 - r,
            {
                let c = Card::new(ranks[r], suits[s], false);
                cards.push(PlayerCard::Card(c));
                r = r + 1;
            }
            s = s + 1;
        }
        cards.push(PlayerCard::Joker(0));
        cards.push(PlayerCard::Joker(1));
        Deck(cards)
    }

    /// Combine decks of cards into one, in the order given.
    pub fn combine(decks: Vec<Deck>) -> (deck: Deck)
        ensures
            deck@ == joined(decks@, decks@.len() as int),
    {
        let mut new_stack: Vec<PlayerCard> = Vec::new();
        let mut d: usize = 0;
        while d < decks.len()
            invariant
                d <= decks.len(),
                new_stack@ == joined(decks@, d as int),
            decreases decks.len() - d,
        {
            let deck = &decks[d];
            let ghost before = new_stack@;
            let mut i: usize = 0;
            while i < deck.0.len()
                invariant
                    i <= deck.0.len(),
                    new_stack@ == before + deck.0@.take(i as int),
                decreases deck.0.len() - i,
            {
                new_stack.push(deck.0[i]);
                assert(new_stack@ =~= before + deck.0@.take(i + 1));
                i = i + 1;
            }
            assert(deck.0@.take(deck.0@.len() as int) =~= deck.0@);
            d = d + 1;
        }
        Deck(new_stack)
    }

    /// Deal to a number of players: the last card of the deck goes to the
    /// first player, the one before it to the second, and so on in turn
    /// until the deck is dealt. A deck with cards needs a player.
    pub fn deal(&self, players: usize) -> (dealt_stacks: Vec<Vec<PlayerCard>>)
        requires
            players > 0 || self@.len() == 0,
        ensures
            dealt_stacks.len() == players,
            forall|seat: int|
                0 <= seat < players ==> (#[trigger] dealt_stacks[seat])@ == dealt_to(
                    self@,
                    players as int,
                    seat,
                    self@.len() as int,
                ),
    {
        let mut dealt_stacks: Vec<Vec<PlayerCard>> = Vec::new();
        let count = self.0.len();
        while dealt_stacks.len() < players
            invariant
                dealt_stacks.len() <= players,
                count == self.0.len(),
                forall|seat: int|
                    0 <= seat < dealt_stacks.len() ==> (#[trigger] dealt_stacks[seat])@ == dealt_to(
                        self@,
                        players as int,
                        seat,
                        self@.len() as int,
                    ),
            decreases players - dealt_stacks.len(),
        {
            let seat = dealt_stacks.len();
            let mut stack: Vec<PlayerCard> = Vec::new();
            let mut index: usize = 0;
            let mut t: usize = 0;
            while t < count
                invariant
                    t <= count,
                    count == self.0.len(),
                    seat < players,
                    index < players,
                    index == seat_of(t as int, players as int),
                    stack@ == dealt_to(self@, players as int, seat as int, t as int),
                decreases count - t,
            {
                if index == seat {
                    stack.push(self.0[count - 1 - t]);
                }
                index = if index + 1 < players {
                    index + 1
                } else {
                    0
                };
                t = t + 1;
            }
            dealt_stacks.push(stack);
        }
        dealt_stacks
    }

    /// Rearrange the cards at random: the deck holds the same cards afterwards.
    pub fn shuffle(&mut self)
        ensures
            final(self)@.to_multiset() == old(self)@.to_multiset(),
    {
        shuffle_cards(&mut self.0)
    }

    /// Number of cards in the deck.
    pub fn count(&self) -> (n: usize)
        ensures
            n == self@.len(),
    {
        self.0.len()
    }
}

} // verus!
