//! The hands that can be played, how a set of cards is classified as one of
//! them, and which of two hands is the stronger.
//!
//! Two moves can be compared when they are of the same category. Each move
//! has a rating, an integer, and of two moves of one category the stronger
//! is the one with the greater rating.
//!
//! Singles, pairs and prials are compared card by card from the strongest
//! card down. Tricks are compared by their type first. Between two tricks
//! of one type the strongest card decides for a straight, a flush and five
//! of a kind, the strongest card of the three for a full house and of the
//! four for four of a kind, and all five cards, from the first, for a
//! straight flush.

use crate::cards::card::{compare_numbers, order_of, Card, PlayerCard};
use crate::game::hand_order::{
    block_strength, count_rank, get_counts, get_max_card, get_top_of_n, has_block, in_order,
    lemma_block_strength_bounds, lemma_in_order_ignores_order,
    lemma_in_order_is_sorted_permutation, lemma_top_strength_bounds, occurrences, sort_cards,
    strength_or_none, top_strength,
};
use core::cmp::Ordering;
use vstd::std_specs::cmp::PartialOrdSpec;
use vstd::prelude::*;

verus! {

/// Type of 5 card trick, listed from the weakest to the strongest.
#[derive(Clone, Copy, Debug, PartialEq, Eq, PartialOrd, Ord, Structural)]
pub enum TrickType {
    /// sequence
    Straight,
    /// same suit
    Flush,
    /// 3 over 2
    FullHouse,
    /// 4 of same, 1 different
    FourOfAKind,
    /// sequence of same suit
    StraightFlush,
    /// 5 of same
    FiveOfAKind,
}

/// A five card trick: its type and its cards.
#[derive(Clone, Copy, Debug, PartialEq)]
pub struct Trick {
    pub trick_type: TrickType,
    pub cards: [Card; 5],
}

/// Type of hand that can be played.
#[derive(Clone, Copy, Debug, PartialEq)]
pub enum Move {
    /// No cards
    Pass,
    /// One card
    Single(Card),
    /// A pair of matching cards
    Pair(Card, Card),
    /// 3 of a kind
    Prial(Card, Card, Card),
    /// 5 card trick
    FiveCardTrick(Trick),
}

/// The ratings of the tricks of one type span less than this.
pub const TYPE_SPAN: i64 = 400_000_000_000;

impl TrickType {
    /// Position of the type in the order of trick types, from 0 for the
    /// straight to 5 for five of a kind.
    pub open spec fn index(self) -> int {
        match self {
            TrickType::Straight => 0,
            TrickType::Flush => 1,
            TrickType::FullHouse => 2,
            TrickType::FourOfAKind => 3,
            TrickType::StraightFlush => 4,
            TrickType::FiveOfAKind => 5,
        }
    }

    /// The type's position as a machine integer.
    pub fn ordinal(&self) -> (n: i64)
        ensures
            n == self.index(),
    {
        match self {
            TrickType::Straight => 0,
            TrickType::Flush => 1,
            TrickType::FullHouse => 2,
            TrickType::FourOfAKind => 3,
            TrickType::StraightFlush => 4,
            TrickType::FiveOfAKind => 5,
        }
    }
}

/// The greater of two numbers.
pub open spec fn larger(x: int, y: int) -> int {
    if x < y {
        y
    } else {
        x
    }
}

/// The lesser of two numbers.
pub open spec fn smaller(x: int, y: int) -> int {
    if x < y {
        x
    } else {
        y
    }
}

/// The greatest of three numbers.
pub open spec fn largest(x: int, y: int, z: int) -> int {
    larger(larger(x, y), z)
}

/// The least of three numbers.
pub open spec fn smallest(x: int, y: int, z: int) -> int {
    smaller(smaller(x, y), z)
}

/// Of three numbers the one that is neither the greatest nor the least.
pub open spec fn middle(x: int, y: int, z: int) -> int {
    x + y + z - largest(x, y, z) - smallest(x, y, z)
}

/// Two numbers below 208 read as one, the greater counting most.
pub open spec fn pair_weight(x: int, y: int) -> int {
    larger(x, y) * 208 + smaller(x, y)
}

/// Three numbers below 208 read as one, the greatest counting most and
/// the least counting least.
pub open spec fn prial_weight(x: int, y: int, z: int) -> int {
    (largest(x, y, z) * 208 + middle(x, y, z)) * 208 + smallest(x, y, z)
}

/// Two strengths read as one number, the greater counting most.
pub fn weigh_pair(x: u8, y: u8) -> (w: i64)
    requires
        x < 208,
        y < 208,
    ensures
        w == pair_weight(x as int, y as int),
{
    if x < y {
        (y as i64) * 208 + (x as i64)
    } else {
        (x as i64) * 208 + (y as i64)
    }
}

/// Three strengths read as one number, the greatest counting most.
pub fn weigh_prial(x: u8, y: u8, z: u8) -> (w: i64)
    requires
        x < 208,
        y < 208,
        z < 208,
    ensures
        w == prial_weight(x as int, y as int, z as int),
{
    let xy: u8 = if x < y { y } else { x };
    let hi: u8 = if xy < z { z } else { xy };
    let yx: u8 = if x < y { x } else { y };
    let lo: u8 = if yx < z { yx } else { z };
    let mid: i64 = (x as i64) + (y as i64) + (z as i64) - (hi as i64) - (lo as i64);
    ((hi as i64) * 208 + mid) * 208 + (lo as i64)
}

/// Pairs of numbers below 208 are ordered by their weights as by their
/// greater numbers, then by their lesser ones; triples likewise by the
/// greatest, then the middle, then the least.
pub proof fn lemma_weights_order_top_first(a: int, b: int, c: int, d: int, e: int, f: int)
    requires
        0 <= a < 208,
        0 <= b < 208,
        0 <= c < 208,
        0 <= d < 208,
        0 <= e < 208,
        0 <= f < 208,
    ensures
        pair_weight(a, b) > pair_weight(d, e) <==> larger(a, b) > larger(d, e) || (larger(a, b)
            == larger(d, e) && smaller(a, b) > smaller(d, e)),
        prial_weight(a, b, c) > prial_weight(d, e, f) <==> largest(a, b, c) > largest(d, e, f) || (
        largest(a, b, c) == largest(d, e, f) && (middle(a, b, c) > middle(d, e, f) || (middle(
            a,
            b,
            c,
        ) == middle(d, e, f) && smallest(a, b, c) > smallest(d, e, f)))),
{
}

/// Five cards read as one number, the first card counting most: of two
/// hands the one with the smaller number has the weaker card at the first
/// place where they differ.
pub open spec fn run_weight(cards: Seq<Card>) -> int {
    (((cards[0].strength() * 208 + cards[1].strength()) * 208 + cards[2].strength()) * 208
        + cards[3].strength()) * 208 + cards[4].strength()
}

/// Five strengths read as one number, the first counting most.
pub fn weigh(a: u8, b: u8, c: u8, d: u8, e: u8) -> (w: i64)
    requires
        a < 208,
        b < 208,
        c < 208,
        d < 208,
        e < 208,
    ensures
        w == (((a * 208 + b) * 208 + c) * 208 + d) * 208 + e,
        0 <= w < TYPE_SPAN - 1,
{
    let ab: i64 = (a as i64) * 208 + (b as i64);
    let abc: i64 = ab * 208 + (c as i64);
    let abcd: i64 = abc * 208 + (d as i64);
    abcd * 208 + (e as i64)
}

impl Trick {
    /// What decides between two tricks of this trick's type: the strongest
    /// card of a straight, a flush or five of a kind; the strongest card of
    /// the three of a full house and of the four of four of a kind, -1
    /// where the cards hold no such block; all five cards of a straight
    /// flush, one by one.
    pub open spec fn key(self) -> int {
        match self.trick_type {
            TrickType::Straight | TrickType::Flush | TrickType::FiveOfAKind => top_strength(
                self.cards@,
            ),
            TrickType::FullHouse => block_strength(self.cards@, 3),
            TrickType::FourOfAKind => block_strength(self.cards@, 4),
            TrickType::StraightFlush => run_weight(self.cards@),
        }
    }

    /// The trick's place among all tricks: the type decides, and the key
    /// between tricks of one type.
    pub open spec fn rating(self) -> int {
        self.trick_type.index() * TYPE_SPAN + self.key()
    }

    /// The same trick with every card facing the other way.
    pub open spec fn flipped(self) -> Trick {
        Trick {
            trick_type: self.trick_type,
            cards: [
                self.cards[0].flipped(),
                self.cards[1].flipped(),
                self.cards[2].flipped(),
                self.cards[3].flipped(),
                self.cards[4].flipped(),
            ],
        }
    }

    /// The same trick with every card facing the other way.
    pub fn reverse(&self) -> (trick: Trick)
        ensures
            trick == self.flipped(),
    {
        let cards = [
            self.cards[0].reverse(),
            self.cards[1].reverse(),
            self.cards[2].reverse(),
            self.cards[3].reverse(),
            self.cards[4].reverse(),
        ];
        Trick { trick_type: self.trick_type, cards }
    }

    /// The key lies between -1 and the span of a type, so that the type
    /// decides first.
    pub proof fn lemma_key_bounds(self)
        ensures
            -1 <= self.key() < TYPE_SPAN - 1,
    {
        lemma_top_strength_bounds(self.cards@, 5);
        lemma_block_strength_bounds(self.cards@, 3, 5);
        lemma_block_strength_bounds(self.cards@, 4, 5);
        crate::cards::card::lemma_strength_bounds(self.cards[0]);
        crate::cards::card::lemma_strength_bounds(self.cards[1]);
        crate::cards::card::lemma_strength_bounds(self.cards[2]);
        crate::cards::card::lemma_strength_bounds(self.cards[3]);
        crate::cards::card::lemma_strength_bounds(self.cards[4]);
    }

    /// The five cards of the trick read as one number.
    pub fn run_weight_value(&self) -> (w: i64)
        ensures
            w == run_weight(self.cards@),
            0 <= w < TYPE_SPAN - 1,
    {
        let a: u8 = self.cards[0].strength_value();
        let b: u8 = self.cards[1].strength_value();
        let c: u8 = self.cards[2].strength_value();
        let d: u8 = self.cards[3].strength_value();
        let e: u8 = self.cards[4].strength_value();
        weigh(a, b, c, d, e)
    }

    /// The five cards as a vector.
    pub fn to_vec(&self) -> (cards: Vec<Card>)
        ensures
            cards@ == self.cards@,
    {
        let mut cards: Vec<Card> = Vec::new();
        cards.push(self.cards[0]);
        cards.push(self.cards[1]);
        cards.push(self.cards[2]);
        cards.push(self.cards[3]);
        cards.push(self.cards[4]);
        assert(cards@ =~= self.cards@);
        cards
    }
}

impl Move {
    /// The cards of the move, in the order in which it holds them.
    pub open spec fn cards(self) -> Seq<Card> {
        match self {
            Move::Pass => Seq::empty(),
            Move::Single(a) => seq![a],
            Move::Pair(a, b) => seq![a, b],
            Move::Prial(a, b, c) => seq![a, b, c],
            Move::FiveCardTrick(t) => t.cards@,
        }
    }

    /// Both moves are of one category: both a pass, both a single and so on.
    pub open spec fn same_category(self, other: Move) -> bool {
        match self {
            Move::Pass => other is Pass,
            Move::Single(_) => other is Single,
            Move::Pair(_, _) => other is Pair,
            Move::Prial(_, _, _) => other is Prial,
            Move::FiveCardTrick(_) => other is FiveCardTrick,
        }
    }

    /// The move's place among the moves of its category. Every pass is
    /// rated alike. The cards of a single, a pair and a prial are read as
    /// one number, the strongest card counting most. A five card trick has
    /// the trick's rating.
    pub open spec fn rating(self) -> int {
        match self {
            Move::Pass => 0,
            Move::Single(a) => a.strength(),
            Move::Pair(a, b) => pair_weight(a.strength(), b.strength()),
            Move::Prial(a, b, c) => prial_weight(a.strength(), b.strength(), c.strength()),
            Move::FiveCardTrick(t) => t.rating(),
        }
    }

    /// This move is of the category of `other` and strictly stronger.
    pub open spec fn beats(self, other: Move) -> bool {
        self.same_category(other) && self.rating() > other.rating()
    }

    /// The same move with every card facing the other way.
    pub open spec fn flipped(self) -> Move {
        match self {
            Move::Pass => Move::Pass,
            Move::Single(c) => Move::Single(c.flipped()),
            Move::Pair(a, b) => Move::Pair(a.flipped(), b.flipped()),
            Move::Prial(a, b, c) => Move::Prial(a.flipped(), b.flipped(), c.flipped()),
            Move::FiveCardTrick(t) => Move::FiveCardTrick(t.flipped()),
        }
    }

    /// The same move with every card facing the other way.
    pub fn reverse(&self) -> (flipped: Move)
        ensures
            flipped == self.flipped(),
    {
        match *self {
            Move::Pass => Move::Pass,
            Move::Single(c) => Move::Single(c.reverse()),
            Move::Pair(a, b) => Move::Pair(a.reverse(), b.reverse()),
            Move::Prial(a, b, c) => Move::Prial(a.reverse(), b.reverse(), c.reverse()),
            Move::FiveCardTrick(t) => Move::FiveCardTrick(t.reverse()),
        }
    }

    pub fn is_pass(&self) -> (b: bool)
        ensures
            b == (*self is Pass),
    {
        match *self {
            Move::Pass => true,
            _ => false,
        }
    }

    pub fn is_single(&self) -> (b: bool)
        ensures
            b == (*self is Single),
    {
        match *self {
            Move::Single(_) => true,
            _ => false,
        }
    }

    pub fn is_pair(&self) -> (b: bool)
        ensures
            b == (*self is Pair),
    {
        match *self {
            Move::Pair(_, _) => true,
            _ => false,
        }
    }

    pub fn is_prial(&self) -> (b: bool)
        ensures
            b == (*self is Prial),
    {
        match *self {
            Move::Prial(_, _, _) => true,
            _ => false,
        }
    }

    pub fn is_five_card_trick(&self) -> (b: bool)
        ensures
            b == (*self is FiveCardTrick),
    {
        match *self {
            Move::FiveCardTrick(_) => true,
            _ => false,
        }
    }

    /// The trick of a five card trick.
    pub fn get_five_card_trick(&self) -> (trick: Option<Trick>)
        ensures
            trick == (match *self {
                Move::FiveCardTrick(t) => Some(t),
                _ => None,
            }),
    {
        match *self {
            Move::FiveCardTrick(t) => Some(t),
            _ => None,
        }
    }

    /// The cards of the move as a vector.
    pub fn to_vec(&self) -> (cards: Vec<Card>)
        ensures
            cards@ == self.cards(),
    {
        let mut cards: Vec<Card> = Vec::new();
        match *self {
            Move::Pass => {},
            Move::Single(a) => {
                cards.push(a);
            },
            Move::Pair(a, b) => {
                cards.push(a);
                cards.push(b);
            },
            Move::Prial(a, b, c) => {
                cards.push(a);
                cards.push(b);
                cards.push(c);
            },
            Move::FiveCardTrick(t) => {
                cards = t.to_vec();
            },
        }
        assert(cards@ =~= self.cards());
        cards
    }

    /// The strongest card of the move. A pass has none.
    pub fn get_top_card(&self) -> (top: Card)
        requires
            !(*self is Pass),
        ensures
            self.cards().contains(top),
            top.strength() == top_strength(self.cards()),
    {
        let cards = self.to_vec();
        get_max_card(&cards)
    }

    /// The rating of a single, a pair or a prial as a machine integer.
    pub fn stack_rating(&self) -> (r: i64)
        requires
            *self is Single || *self is Pair || *self is Prial,
        ensures
            r == self.rating(),
    {
        match *self {
            Move::Single(a) => a.strength_value() as i64,
            Move::Pair(a, b) => weigh_pair(a.strength_value(), b.strength_value()),
            Move::Prial(a, b, c) => weigh_prial(
                a.strength_value(),
                b.strength_value(),
                c.strength_value(),
            ),
            _ => unreached(),
        }
    }

    /// Whether both moves are of one category.
    pub fn types_match(&self, other: &Move) -> (b: bool)
        ensures
            b == self.same_category(*other),
    {
        match *self {
            Move::Pass => other.is_pass(),
            Move::Single(_) => other.is_single(),
            Move::Pair(_, _) => other.is_pair(),
            Move::Prial(_, _, _) => other.is_prial(),
            Move::FiveCardTrick(_) => other.is_five_card_trick(),
        }
    }
}

/// Compares two tricks by their strongest cards.
pub fn compare_top_card(this: &Trick, other: &Trick) -> (o: Option<Ordering>)
    ensures
        o == Some(order_of(top_strength(this.cards@), top_strength(other.cards@))),
{
    let top_this = get_max_card(&this.to_vec());
    let top_other = get_max_card(&other.to_vec());
    top_this.partial_cmp(&top_other)
}

/// Compares two tricks by the strongest cards of their blocks of `n`
/// cards of one rank; a trick without such a block is the weaker.
pub fn compare_main_set(this: &Trick, other: &Trick, n: usize) -> (o: Option<Ordering>)
    ensures
        o == Some(order_of(block_strength(this.cards@, n), block_strength(other.cards@, n))),
{
    let this_top_card = strength_or_none(get_top_of_n(&this.to_vec(), n));
    let other_top_card = strength_or_none(get_top_of_n(&other.to_vec(), n));
    Some(compare_numbers(this_top_card, other_top_card))
}

/// Compares two tricks card by card, from the first.
pub fn compare_card_by_card(this: &Trick, other: &Trick) -> (o: Option<Ordering>)
    ensures
        o == Some(order_of(run_weight(this.cards@), run_weight(other.cards@))),
{
    Some(compare_numbers(this.run_weight_value(), other.run_weight_value()))
}

impl PartialOrd for Trick {
    fn partial_cmp(&self, other: &Trick) -> (o: Option<Ordering>) {
        proof {
            self.lemma_key_bounds();
            other.lemma_key_bounds();
        }
        if self.trick_type == other.trick_type {
            match self.trick_type {
                TrickType::Flush | TrickType::FiveOfAKind | TrickType::Straight => compare_top_card(
                    self,
                    other,
                ),
                TrickType::FullHouse => compare_main_set(self, other, 3),
                TrickType::FourOfAKind => compare_main_set(self, other, 4),
                TrickType::StraightFlush => compare_card_by_card(self, other),
            }
        } else {
            Some(compare_numbers(self.trick_type.ordinal(), other.trick_type.ordinal()))
        }
    }
}

impl vstd::std_specs::cmp::PartialOrdSpecImpl for Trick {
    open spec fn obeys_partial_cmp_spec() -> bool {
        true
    }

    open spec fn partial_cmp_spec(&self, other: &Trick) -> Option<Ordering> {
        Some(order_of(self.rating(), other.rating()))
    }
}

impl PartialOrd for Move {
    fn partial_cmp(&self, other: &Move) -> (o: Option<Ordering>) {
        if !self.types_match(other) {
            return None;
        }
        match *self {
            Move::Pass => Some(Ordering::Equal),
            Move::FiveCardTrick(t) => match *other {
                Move::FiveCardTrick(u) => t.partial_cmp(&u),
                _ => None,
            },
            _ => Some(compare_numbers(self.stack_rating(), other.stack_rating())),
        }
    }
}

impl vstd::std_specs::cmp::PartialOrdSpecImpl for Move {
    open spec fn obeys_partial_cmp_spec() -> bool {
        true
    }

    open spec fn partial_cmp_spec(&self, other: &Move) -> Option<Ordering> {
        if self.same_category(*other) {
            Some(order_of(self.rating(), other.rating()))
        } else {
            None
        }
    }
}

/// `card` stands one step above `before`, the way `card` faces.
pub open spec fn follows(before: Card, card: Card) -> bool {
    before.rank.index() == card.rank.index() + (if card.reversed {
        1int
    } else {
        -1int
    })
}

/// Each card stands one step above the card before it.
pub open spec fn is_run(cards: Seq<Card>) -> bool {
    forall|i: int| #![trigger cards[i]] 1 <= i < cards.len() ==> follows(cards[i - 1], cards[i])
}

/// All cards are of one suit.
pub open spec fn one_suit(cards: Seq<Card>) -> bool {
    forall|i: int| #![trigger cards[i]] 0 <= i < cards.len() ==> cards[i].suit == cards[0].suit
}

/// No two cards are of the same rank.
pub open spec fn ranks_differ(cards: Seq<Card>) -> bool {
    forall|i: int|
        #![trigger cards[i]]
        0 <= i < cards.len() ==> occurrences(cards, cards[i].rank) == 1
}

/// The type of trick that five cards in canonical order make, if any.
pub open spec fn trick_type_of(cards: Seq<Card>) -> Option<TrickType> {
    if occurrences(cards, cards[0].rank) == 5 {
        Some(TrickType::FiveOfAKind)
    } else if has_block(cards, 4) {
        Some(TrickType::FourOfAKind)
    } else if has_block(cards, 3) && has_block(cards, 2) {
        Some(TrickType::FullHouse)
    } else if ranks_differ(cards) {
        if is_run(cards) && one_suit(cards) {
            Some(TrickType::StraightFlush)
        } else if is_run(cards) {
            Some(TrickType::Straight)
        } else if one_suit(cards) {
            Some(TrickType::Flush)
        } else {
            None
        }
    } else {
        None
    }
}

/// The trick of type `trick_type` that holds five cards in the order given.
pub open spec fn trick_of(trick_type: TrickType, cards: Seq<Card>) -> Move {
    Move::FiveCardTrick(
        Trick { trick_type, cards: [cards[0], cards[1], cards[2], cards[3], cards[4]] },
    )
}

/// The move that the cards make: a pass of none, a single of one, a pair
/// of two and a prial of three of one rank, held as they were given; of
/// five the trick that they make once in canonical order. Any other cards
/// make no move.
pub open spec fn classify(cards: Seq<Card>) -> Option<Move> {
    if cards.len() == 0 {
        Some(Move::Pass)
    } else if cards.len() == 1 {
        Some(Move::Single(cards[0]))
    } else if cards.len() == 2 {
        if cards[0].rank == cards[1].rank {
            Some(Move::Pair(cards[0], cards[1]))
        } else {
            None
        }
    } else if cards.len() == 3 {
        if cards[0].rank == cards[1].rank && cards[0].rank == cards[2].rank {
            Some(Move::Prial(cards[0], cards[1], cards[2]))
        } else {
            None
        }
    } else if cards.len() == 5 {
        match trick_type_of(in_order(cards)) {
            Some(trick_type) => Some(trick_of(trick_type, in_order(cards))),
            None => None,
        }
    } else {
        None
    }
}

/// No card is a joker that has not been given a card to stand for.
pub open spec fn no_bare_joker(player_cards: Seq<PlayerCard>) -> bool {
    forall|i: int| 0 <= i < player_cards.len() ==> !(#[trigger] player_cards[i] is Joker)
}

/// The cards that the player's cards stand for.
pub open spec fn bound_cards(player_cards: Seq<PlayerCard>) -> Seq<Card> {
    Seq::new(player_cards.len(), |i: int| player_cards[i].bound_card().unwrap())
}

/// The cards that player's cards stand for are the same, whatever the
/// order in which the player's cards are given.
pub proof fn lemma_bound_cards_ignore_order(a: Seq<PlayerCard>, b: Seq<PlayerCard>)
    requires
        a.to_multiset() == b.to_multiset(),
    ensures
        bound_cards(a).to_multiset() == bound_cards(b).to_multiset(),
    decreases a.len(),
{
    broadcast use vstd::seq_lib::group_to_multiset_ensures;

    vstd::seq_lib::to_multiset_len(a);
    vstd::seq_lib::to_multiset_len(b);
    if a.len() == 0 {
        assert(bound_cards(a) =~= bound_cards(b));
    } else {
        let x = a.last();
        assert(a.contains(x));
        assert(b.to_multiset().contains(x));
        let j = choose|j: int| 0 <= j < b.len() && b[j] == x;
        let a_rest = a.drop_last();
        let b_rest = b.remove(j);
        assert(a_rest =~= a.remove(a.len() - 1));
        lemma_bound_cards_ignore_order(a_rest, b_rest);
        let card = x.bound_card().unwrap();
        assert(bound_cards(a) =~= bound_cards(a_rest).push(card));
        assert(bound_cards(b) =~= bound_cards(b_rest).insert(j, card));
    }
}

/// Five cards make the same move in whatever order they are put down.
pub proof fn lemma_build_move_ignores_order(a: Seq<PlayerCard>, b: Seq<PlayerCard>)
    requires
        a.len() == 5,
        a.to_multiset() == b.to_multiset(),
    ensures
        classify(bound_cards(a)) == classify(bound_cards(b)),
{
    vstd::seq_lib::to_multiset_len(a);
    vstd::seq_lib::to_multiset_len(b);
    lemma_bound_cards_ignore_order(a, b);
    lemma_in_order_ignores_order(bound_cards(a), bound_cards(b));
}

/// A move that has been built holds the cards that were given, each as
/// often as it was given. A pair and a prial are of one rank. A trick
/// holds its cards in canonical order and is of the type that they make.
pub proof fn lemma_built_move_holds_the_cards(cards: Seq<Card>)
    ensures
        classify(cards) matches Some(mv) ==> {
            &&& mv.cards().to_multiset() == cards.to_multiset()
            &&& mv matches Move::Pair(a, b) ==> a.rank == b.rank
            &&& mv matches Move::Prial(a, b, c) ==> a.rank == b.rank && b.rank == c.rank
            &&& mv matches Move::FiveCardTrick(t) ==> t.cards@ == in_order(cards) && Some(
                t.trick_type,
            ) == trick_type_of(t.cards@)
        },
{
    lemma_in_order_is_sorted_permutation(cards);
    if let Some(mv) = classify(cards) {
        if cards.len() == 5 {
            assert(mv.cards() =~= in_order(cards));
        } else {
            assert(mv.cards() =~= cards);
        }
    }
}

/// Between moves of one category "beats" is a strict order that leaves
/// no two moves of different rating unordered: no move beats itself, no
/// two moves beat each other, a move that beats a second that beats a
/// third beats the third, and of two moves of one category one beats the
/// other unless their ratings are equal. Moves of different categories
/// do not beat one another.
pub proof fn lemma_beats_is_strict_order(a: Move, b: Move, c: Move)
    ensures
        !a.beats(a),
        a.beats(b) ==> !b.beats(a),
        a.beats(b) && b.beats(c) ==> a.beats(c),
        a.same_category(b) ==> a.beats(b) || b.beats(a) || a.rating() == b.rating(),
        !a.same_category(b) ==> !a.beats(b) && !b.beats(a),
{
}

/// Two moves can be compared where they are of one category, and the
/// first compares as greater where it beats the second.
pub proof fn lemma_comparison_follows_rating(a: Move, b: Move)
    ensures
        a.partial_cmp_spec(&b) is Some <==> a.same_category(b),
        a.partial_cmp_spec(&b) == Some(Ordering::Greater) <==> a.beats(b),
        a.partial_cmp_spec(&b) == Some(Ordering::Less) <==> b.beats(a),
{
}

/// Of two singles the one with the stronger card beats the other, so
/// that of two different singles exactly one beats the other.
pub proof fn lemma_single_beats_by_card(x: Card, y: Card)
    ensures
        Move::Single(x).beats(Move::Single(y)) <==> y.strength() < x.strength(),
        x != y ==> (Move::Single(x).beats(Move::Single(y)) <==> !Move::Single(y).beats(
            Move::Single(x),
        )),
{
    if x != y && x.strength() == y.strength() {
        crate::cards::card::lemma_strength_identifies_card(x, y);
    }
}

/// Pairs are compared by their stronger cards, and by the others where
/// those are alike; prials by their strongest cards, then by the cards
/// in the middle, then by the weakest.
pub proof fn lemma_pairs_and_prials_go_top_first(
    a: Card,
    b: Card,
    c: Card,
    d: Card,
    e: Card,
    f: Card,
)
    ensures
        Move::Pair(a, b).beats(Move::Pair(d, e)) <==> pair_weight(a.strength(), b.strength())
            > pair_weight(d.strength(), e.strength()),
        Move::Prial(a, b, c).beats(Move::Prial(d, e, f)) <==> prial_weight(
            a.strength(),
            b.strength(),
            c.strength(),
        ) > prial_weight(d.strength(), e.strength(), f.strength()),
        pair_weight(a.strength(), b.strength()) > pair_weight(d.strength(), e.strength()) <==> larger(
            a.strength(),
            b.strength(),
        ) > larger(d.strength(), e.strength()) || (larger(a.strength(), b.strength()) == larger(
            d.strength(),
            e.strength(),
        ) && smaller(a.strength(), b.strength()) > smaller(d.strength(), e.strength())),
{
    crate::cards::card::lemma_strength_bounds(a);
    crate::cards::card::lemma_strength_bounds(b);
    crate::cards::card::lemma_strength_bounds(c);
    crate::cards::card::lemma_strength_bounds(d);
    crate::cards::card::lemma_strength_bounds(e);
    crate::cards::card::lemma_strength_bounds(f);
    lemma_weights_order_top_first(
        a.strength(),
        b.strength(),
        c.strength(),
        d.strength(),
        e.strength(),
        f.strength(),
    );
}

/// Of two tricks of different types the one of the stronger type is the
/// stronger, whatever their cards; between tricks of one type the key
/// decides.
pub proof fn lemma_trick_order_by_type_then_key(a: Trick, b: Trick)
    ensures
        a.rating() < b.rating() <==> a.trick_type.index() < b.trick_type.index() || (a.trick_type
            == b.trick_type && a.key() < b.key()),
{
    a.lemma_key_bounds();
    b.lemma_key_bounds();
}

/// Of two numbers written with five digits to the base 208, the smaller
/// has the smaller digit at the first place where the two differ.
proof fn lemma_first_digit_decides(a: Seq<int>, b: Seq<int>)
    requires
        a.len() == 5,
        b.len() == 5,
        forall|i: int| 0 <= i < 5 ==> 0 <= #[trigger] a[i] < 208,
        forall|i: int| 0 <= i < 5 ==> 0 <= #[trigger] b[i] < 208,
    ensures
        (((a[0] * 208 + a[1]) * 208 + a[2]) * 208 + a[3]) * 208 + a[4] < (((b[0] * 208 + b[1]) * 208
            + b[2]) * 208 + b[3]) * 208 + b[4] <==> exists|i: int|
            0 <= i < 5 && #[trigger] a[i] < b[i] && forall|j: int| 0 <= j < i ==> a[j] == b[j],
{
    let wa = (((a[0] * 208 + a[1]) * 208 + a[2]) * 208 + a[3]) * 208 + a[4];
    let wb = (((b[0] * 208 + b[1]) * 208 + b[2]) * 208 + b[3]) * 208 + b[4];
    assert(0 <= a[0] < 208 && 0 <= a[1] < 208 && 0 <= a[2] < 208 && 0 <= a[3] < 208 && 0 <= a[4]
        < 208);
    assert(0 <= b[0] < 208 && 0 <= b[1] < 208 && 0 <= b[2] < 208 && 0 <= b[3] < 208 && 0 <= b[4]
        < 208);
    let first: int = if a[0] != b[0] {
        0
    } else if a[1] != b[1] {
        1
    } else if a[2] != b[2] {
        2
    } else if a[3] != b[3] {
        3
    } else if a[4] != b[4] {
        4
    } else {
        5
    };
    if first < 5 {
        assert(wa < wb <==> a[first] < b[first]);
        if a[first] < b[first] {
            assert(forall|j: int| 0 <= j < first ==> a[j] == b[j]);
        }
    } else {
        assert(wa == wb);
    }
}

/// Comparing the weights of two hands of five is comparing their cards
/// one by one: the hand of smaller weight has the weaker card at the
/// first place where the two differ.
pub proof fn lemma_run_weight_goes_card_by_card(a: Seq<Card>, b: Seq<Card>)
    requires
        a.len() == 5,
        b.len() == 5,
    ensures
        run_weight(a) < run_weight(b) <==> exists|i: int|
            0 <= i < 5 && #[trigger] a[i].strength() < b[i].strength() && forall|j: int|
                0 <= j < i ==> a[j].strength() == b[j].strength(),
{
    let sa = Seq::new(5, |i: int| a[i].strength());
    let sb = Seq::new(5, |i: int| b[i].strength());
    assert forall|i: int| 0 <= i < 5 implies 0 <= #[trigger] sa[i] < 208 by {
        crate::cards::card::lemma_strength_bounds(a[i]);
    }
    assert forall|i: int| 0 <= i < 5 implies 0 <= #[trigger] sb[i] < 208 by {
        crate::cards::card::lemma_strength_bounds(b[i]);
    }
    lemma_first_digit_decides(sa, sb);
    if run_weight(a) < run_weight(b) {
        let i = choose|i: int|
            0 <= i < 5 && #[trigger] sa[i] < sb[i] && forall|j: int| 0 <= j < i ==> sa[j] == sb[j];
        assert(a[i].strength() < b[i].strength());
        assert forall|j: int| 0 <= j < i implies a[j].strength() == b[j].strength() by {
            assert(sa[j] == sb[j]);
        }
    }
    if exists|i: int|
        0 <= i < 5 && #[trigger] a[i].strength() < b[i].strength() && forall|j: int|
            0 <= j < i ==> a[j].strength() == b[j].strength() {
        let i = choose|i: int|
            0 <= i < 5 && #[trigger] a[i].strength() < b[i].strength() && forall|j: int|
                0 <= j < i ==> a[j].strength() == b[j].strength();
        assert(sa[i] < sb[i]);
        assert forall|j: int| 0 <= j < i implies sa[j] == sb[j] by {
            assert(a[j].strength() == b[j].strength());
        }
    }
}

/// Turning a move over twice gives the move back.
pub proof fn lemma_flip_twice(mv: Move)
    ensures
        mv.flipped().flipped() == mv,
{
    if let Move::FiveCardTrick(t) = mv {
        assert(t.flipped().flipped().cards =~= t.cards);
    }
}

/// Whether each card stands one step above the card before it.
pub fn is_straight(cards: &Vec<Card>) -> (b: bool)
    ensures
        b == is_run(cards@),
{
    let mut i: usize = 1;
    while i < cards.len()
        invariant
            1 <= i,
            forall|k: int| #![trigger cards@[k]] 1 <= k < i ==> follows(cards@[k - 1], cards@[k]),
        decreases cards.len() - i,
    {
        let fits = match cards[i].previous_rank() {
            Some(rank) => cards[i - 1].rank == rank,
            None => false,
        };
        if !fits {
            assert(!follows(cards@[i - 1], cards@[i as int]));
            return false;
        }
        i = i + 1;
    }
    true
}

/// Whether all cards are of one suit.
pub fn is_flush(cards: &Vec<Card>) -> (b: bool)
    ensures
        b == one_suit(cards@),
{
    let mut i: usize = 1;
    while i < cards.len()
        invariant
            1 <= i,
            forall|k: int| #![trigger cards@[k]] 1 <= k < i ==> cards@[k].suit == cards@[0].suit,
        decreases cards.len() - i,
    {
        if cards[i].suit != cards[0].suit {
            return false;
        }
        i = i + 1;
    }
    true
}

/// Whether no two cards are of the same rank.
pub fn all_ranks_differ(cards: &Vec<Card>) -> (b: bool)
    ensures
        b == ranks_differ(cards@),
{
    let counts = get_counts(cards);
    let mut i: usize = 0;
    while i < counts.len()
        invariant
            counts.len() == cards.len(),
            forall|k: int|
                0 <= k < cards.len() ==> counts[k] == occurrences(cards@, #[trigger] cards[k].rank),
            forall|k: int| #![trigger cards@[k]] 0 <= k < i ==> occurrences(cards@, cards@[k].rank) == 1,
        decreases counts.len() - i,
    {
        if counts[i] != 1 {
            assert(occurrences(cards@, cards@[i as int].rank) != 1);
            return false;
        }
        i = i + 1;
    }
    true
}

/// The trick of the given type that holds the five cards as they stand.
pub fn build_fct(trick_type: TrickType, cards: &Vec<Card>) -> (mv: Option<Move>)
    requires
        cards.len() == 5,
    ensures
        mv == Some(trick_of(trick_type, cards@)),
{
    Some(
        Move::FiveCardTrick(
            Trick { trick_type, cards: [cards[0], cards[1], cards[2], cards[3], cards[4]] },
        ),
    )
}

/// Two cards make a pair where they are of one rank.
pub fn check_valid_pair(cards: Vec<Card>) -> (mv: Option<Move>)
    requires
        cards.len() == 2,
    ensures
        mv == classify(cards@),
{
    let counts = get_counts(&cards);
    proof {
        reveal_with_fuel(count_rank, 3);
    }
    if counts[0] == 2 {
        Some(Move::Pair(cards[0], cards[1]))
    } else {
        None
    }
}

/// Three cards make a prial where they are of one rank.
pub fn check_valid_prial(cards: Vec<Card>) -> (mv: Option<Move>)
    requires
        cards.len() == 3,
    ensures
        mv == classify(cards@),
{
    let counts = get_counts(&cards);
    proof {
        reveal_with_fuel(count_rank, 4);
    }
    if counts[0] == 3 {
        Some(Move::Prial(cards[0], cards[1], cards[2]))
    } else {
        None
    }
}

/// Five cards make a trick where, once sorted, they are of one of the six types.
pub fn check_valid_fct(c: Vec<Card>) -> (mv: Option<Move>)
    requires
        c.len() == 5,
    ensures
        mv == classify(c@),
{
    proof {
        crate::game::hand_order::lemma_in_order_is_sorted_permutation(c@);
    }
    let cards = sort_cards(c);
    let counts = get_counts(&cards);
    if counts[0] == 5 {
        build_fct(TrickType::FiveOfAKind, &cards)
    } else if get_top_of_n(&cards, 4).is_some() {
        build_fct(TrickType::FourOfAKind, &cards)
    } else if get_top_of_n(&cards, 3).is_some() && get_top_of_n(&cards, 2).is_some() {
        build_fct(TrickType::FullHouse, &cards)
    } else if all_ranks_differ(&cards) {
        let straight = is_straight(&cards);
        let flush = is_flush(&cards);
        match (straight, flush) {
            (true, true) => build_fct(TrickType::StraightFlush, &cards),
            (true, _) => build_fct(TrickType::Straight, &cards),
            (_, true) => build_fct(TrickType::Flush, &cards),
            _ => None,
        }
    } else {
        None
    }
}

/// Builds a move from the cards that a player puts down.
pub fn build_move(player_cards: Vec<PlayerCard>) -> (mv: Option<Move>)
    requires
        no_bare_joker(player_cards@),
    ensures
        mv == classify(bound_cards(player_cards@)),
{
    let mut cards: Vec<Card> = Vec::new();
    let mut i: usize = 0;
    while i < player_cards.len()
        invariant
            i <= player_cards.len(),
            no_bare_joker(player_cards@),
            cards@ == bound_cards(player_cards@.take(i as int)),
        decreases player_cards.len() - i,
    {
        cards.push(player_cards[i].to_card());
        assert(cards@ =~= bound_cards(player_cards@.take(i + 1)));
        i = i + 1;
    }
    assert(player_cards@.take(player_cards@.len() as int) =~= player_cards@);
    match cards.len() {
        0 => Some(Move::Pass),
        1 => Some(Move::Single(cards[0])),
        2 => check_valid_pair(cards),
        3 => check_valid_prial(cards),
        5 => check_valid_fct(cards),
        _ => None,
    }
}

} // verus!
