//! A player and the cards in the player's hand.

use crate::cards::card::PlayerCard;
use vstd::prelude::*;

verus! {

/// What a player holds, as plain values.
pub struct PlayerState {
    /// The cards in the player's hand, in the order in which they are held.
    pub hand: Seq<PlayerCard>,
    /// The player's id.
    pub id: u64,
}

/// Every card of the hand facing the other way.
pub open spec fn flipped_hand(hand: Seq<PlayerCard>) -> Seq<PlayerCard> {
    Seq::new(hand.len(), |i: int| hand[i].flipped())
}

/// How many of the first `k` cards are jokers that stand for a card.
pub open spec fn count_wildcards(cards: Seq<PlayerCard>, k: int) -> int
    decreases k,
{
    if k <= 0 {
        0
    } else {
        count_wildcards(cards, k - 1) + if cards[k - 1] is Wildcard {
            1int
        } else {
            0int
        }
    }
}

/// How many of the first `k` cards are jokers that stand for nothing.
pub open spec fn count_jokers(hand: Seq<PlayerCard>, k: int) -> int
    decreases k,
{
    if k <= 0 {
        0
    } else {
        count_jokers(hand, k - 1) + if hand[k - 1] is Joker {
            1int
        } else {
            0int
        }
    }
}

/// The first `k` cards of the hand without the first `spent` jokers.
pub open spec fn without_jokers(hand: Seq<PlayerCard>, spent: int, k: int) -> Seq<PlayerCard>
    decreases k,
{
    if k <= 0 {
        Seq::empty()
    } else if hand[k - 1] is Joker && count_jokers(hand, k - 1) < spent {
        without_jokers(hand, spent, k - 1)
    } else {
        without_jokers(hand, spent, k - 1).push(hand[k - 1])
    }
}

/// The first `k` cards of the hand without those that are among `cards`.
pub open spec fn without_cards(hand: Seq<PlayerCard>, cards: Seq<PlayerCard>, k: int) -> Seq<
    PlayerCard,
>
    decreases k,
{
    if k <= 0 {
        Seq::empty()
    } else if cards.contains(hand[k - 1]) {
        without_cards(hand, cards, k - 1)
    } else {
        without_cards(hand, cards, k - 1).push(hand[k - 1])
    }
}

/// The hand after `cards` have been played from it: one joker leaves for
/// each joker that was played as a card, the first ones first, and every
/// card of the hand that is among `cards` leaves.
pub open spec fn hand_after(hand: Seq<PlayerCard>, cards: Seq<PlayerCard>) -> Seq<PlayerCard> {
    let kept = without_jokers(hand, count_wildcards(cards, cards.len() as int), hand.len() as int);
    without_cards(kept, cards, kept.len() as int)
}

/// Turning a hand over twice gives the hand back.
pub proof fn lemma_flip_hand_twice(hand: Seq<PlayerCard>)
    ensures
        flipped_hand(flipped_hand(hand)) == hand,
{
    assert(flipped_hand(flipped_hand(hand)) =~= hand);
}

/// Whether `card` is one of `cards`.
pub fn holds_card(cards: &Vec<PlayerCard>, card: &PlayerCard) -> (b: bool)
    ensures
        b == cards@.contains(*card),
{
    let mut i: usize = 0;
    while i < cards.len()
        invariant
            i <= cards.len(),
            forall|k: int| 0 <= k < i ==> cards@[k] != *card,
        decreases cards.len() - i,
    {
        if cards[i] == *card {
            return true;
        }
        i = i + 1;
    }
    false
}

/// The cards of `hand` that are not among `cards`.
pub fn drop_cards(hand: &Vec<PlayerCard>, cards: &Vec<PlayerCard>) -> (kept: Vec<PlayerCard>)
    ensures
        kept@ == without_cards(hand@, cards@, hand@.len() as int),
{
    let mut kept: Vec<PlayerCard> = Vec::new();
    let mut i: usize = 0;
    while i < hand.len()
        invariant
            i <= hand.len(),
            kept@ == without_cards(hand@, cards@, i as int),
        decreases hand.len() - i,
    {
        if !holds_card(cards, &hand[i]) {
            kept.push(hand[i]);
        }
        i = i + 1;
    }
    kept
}

/// A player.
#[derive(Debug, PartialEq)]
pub struct Player {
    hand: Vec<PlayerCard>,
    id: u64,
}

impl View for Player {
    type V = PlayerState;

    closed spec fn view(&self) -> PlayerState {
        PlayerState { hand: self.hand@, id: self.id }
    }
}

impl Clone for Player {
    fn clone(&self) -> (player: Player)
        ensures
            player@ == self@,
    {
        Player { hand: self.hand.clone(), id: self.id }
    }
}

impl Player {
    /// Creates a new `Player` with an empty hand.
    pub fn new(id: u64) -> (player: Player)
        ensures
            player@ == (PlayerState { hand: Seq::empty(), id }),
    {
        Player { hand: Vec::new(), id }
    }

    /// Get the player id.
    pub fn get_id(&self) -> (id: u64)
        ensures
            id == self@.id,
    {
        self.id
    }

    /// Give a player their hand.
    pub fn set_hand(&self, hand: Vec<PlayerCard>) -> (player: Player)
        ensures
            player@ == (PlayerState { hand: hand@, id: self@.id }),
    {
        Player { hand, id: self.id }
    }

    /// Number of cards player has left.
    pub fn remaining_cards(&self) -> (n: usize)
        ensures
            n == self@.hand.len(),
    {
        self.hand.len()
    }

    /// Get the cards for a player.
    pub fn get_hand(&self) -> (hand: Vec<PlayerCard>)
        ensures
            hand@ == self@.hand,
    {
        self.hand.clone()
    }

    /// The same player with every card facing the other way.
    pub fn reverse_hand(&self) -> (player: Player)
        ensures
            player@ == (PlayerState { hand: flipped_hand(self@.hand), id: self@.id }),
    {
        let mut reversed_hand: Vec<PlayerCard> = Vec::new();
        let mut i: usize = 0;
        while i < self.hand.len()
            invariant
                i <= self.hand.len(),
                reversed_hand@ == flipped_hand(self.hand@.take(i as int)),
            decreases self.hand.len() - i,
        {
            reversed_hand.push(self.hand[i].reverse());
            assert(reversed_hand@ =~= flipped_hand(self.hand@.take(i + 1)));
            i = i + 1;
        }
        assert(self.hand@.take(self.hand@.len() as int) =~= self.hand@);
        Player { hand: reversed_hand, id: self.id }
    }

    /// Take some cards from a player.
    pub fn remove(&self, cards: &Vec<PlayerCard>) -> (player: Player)
        ensures
            player@ == (PlayerState { hand: hand_after(self@.hand, cards@), id: self@.id }),
    {
        let hand = self.remove_jokers(cards);
        let new_hand = drop_cards(&hand, cards);
        Player { id: self.id, hand: new_hand }
    }

    /// The hand without one joker for each joker played as a card.
    pub fn remove_jokers(&self, cards: &Vec<PlayerCard>) -> (new_hand: Vec<PlayerCard>)
        ensures
            new_hand@ == without_jokers(
                self@.hand,
                count_wildcards(cards@, cards@.len() as int),
                self@.hand.len() as int,
            ),
    {
        let mut new_hand: Vec<PlayerCard> = Vec::new();
        let mut jokers: usize = 0;
        let mut i: usize = 0;
        while i < cards.len()
            invariant
                i <= cards.len(),
                jokers <= i,
                jokers == count_wildcards(cards@, i as int),
            decreases cards.len() - i,
        {
            match cards[i] {
                PlayerCard::Wildcard(_) => {
                    jokers = jokers + 1;
                },
                _ => {},
            }
            i = i + 1;
        }
        let ghost spent = jokers as int;
        let mut k: usize = 0;
        while k < self.hand.len()
            invariant
                k <= self.hand.len(),
                0 <= jokers <= spent,
                jokers == (if count_jokers(self.hand@, k as int) < spent {
                    spent - count_jokers(self.hand@, k as int)
                } else {
                    0
                }),
                new_hand@ == without_jokers(self.hand@, spent, k as int),
            decreases self.hand.len() - k,
        {
            match self.hand[k] {
                PlayerCard::Joker(n) => {
                    if jokers < 1 {
                        new_hand.push(PlayerCard::Joker(n));
                    } else {
                        jokers = jokers - 1;
                    }
                },
                c => {
                    new_hand.push(c);
                },
            }
            k = k + 1;
        }
        new_hand
    }
}

} // verus!
