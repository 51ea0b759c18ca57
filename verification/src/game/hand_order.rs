//! Sequences of cards: their canonical order, their strongest card and how
//! often a rank occurs in them.

use crate::cards::card::{lemma_strength_bounds, lemma_strength_identifies_card, Card};
use crate::cards::types::Rank;
use vstd::prelude::*;
use vstd::relations::{sorted_by, total_ordering};
use vstd::seq_lib::lemma_sorted_unique;

verus! {

/// "No stronger than": the relation that hands are sorted by.
pub open spec fn by_strength() -> spec_fn(Card, Card) -> bool {
    |a: Card, b: Card| a.strength() <= b.strength()
}

/// The cards of `cards` from the weakest to the strongest.
pub open spec fn in_order(cards: Seq<Card>) -> Seq<Card> {
    cards.sort_by(by_strength())
}

/// How many of the first `k` cards have rank `rank`.
pub open spec fn count_rank(cards: Seq<Card>, rank: Rank, k: int) -> int
    decreases k,
{
    if k <= 0 {
        0
    } else {
        count_rank(cards, rank, k - 1) + if cards[k - 1].rank == rank {
            1int
        } else {
            0int
        }
    }
}

/// How many cards of `cards` have rank `rank`.
pub open spec fn occurrences(cards: Seq<Card>, rank: Rank) -> int {
    count_rank(cards, rank, cards.len() as int)
}

/// The greatest strength among the first `k` cards, or -1 where `k` is 0.
pub open spec fn top_strength_upto(cards: Seq<Card>, k: int) -> int
    decreases k,
{
    if k <= 0 {
        -1
    } else {
        let rest = top_strength_upto(cards, k - 1);
        if cards[k - 1].strength() > rest {
            cards[k - 1].strength()
        } else {
            rest
        }
    }
}

/// The strength of the strongest card, or -1 of no cards.
pub open spec fn top_strength(cards: Seq<Card>) -> int {
    top_strength_upto(cards, cards.len() as int)
}

/// The greatest strength among those of the first `k` cards whose rank
/// occurs exactly `n` times in `cards`, or -1 where there is none.
pub open spec fn block_strength_upto(cards: Seq<Card>, n: usize, k: int) -> int
    decreases k,
{
    if k <= 0 {
        -1
    } else {
        let rest = block_strength_upto(cards, n, k - 1);
        if occurrences(cards, cards[k - 1].rank) == n && cards[k - 1].strength() > rest {
            cards[k - 1].strength()
        } else {
            rest
        }
    }
}

/// The strength of the strongest card among those whose rank occurs
/// exactly `n` times in `cards`, or -1 where no rank does.
pub open spec fn block_strength(cards: Seq<Card>, n: usize) -> int {
    block_strength_upto(cards, n, cards.len() as int)
}

/// The strongest of some cards is one of them: where there is a card, its
/// strength is that of a card, and never below -1.
pub proof fn lemma_top_strength_bounds(cards: Seq<Card>, k: int)
    requires
        0 <= k <= cards.len(),
    ensures
        -1 <= top_strength_upto(cards, k) < 208,
        k > 0 ==> 0 <= top_strength_upto(cards, k),
        forall|i: int| 0 <= i < k ==> cards[i].strength() <= top_strength_upto(cards, k),
    decreases k,
{
    if k > 0 {
        lemma_strength_bounds(cards[k - 1]);
        lemma_top_strength_bounds(cards, k - 1);
    }
}

/// The same for the strongest card of a block.
pub proof fn lemma_block_strength_bounds(cards: Seq<Card>, n: usize, k: int)
    requires
        0 <= k <= cards.len(),
    ensures
        -1 <= block_strength_upto(cards, n, k) < 208,
        forall|i: int|
            0 <= i < k && occurrences(cards, cards[i].rank) == n ==> cards[i].strength()
                <= block_strength_upto(cards, n, k),
    decreases k,
{
    if k > 0 {
        lemma_strength_bounds(cards[k - 1]);
        lemma_block_strength_bounds(cards, n, k - 1);
    }
}

/// "No stronger than" is a total order on cards.
pub proof fn lemma_by_strength_is_total_order()
    ensures
        total_ordering(by_strength()),
{
    let leq = by_strength();
    assert forall|a: Card, b: Card| #[trigger] leq(a, b) && #[trigger] leq(b, a) implies a == b by {
        lemma_strength_identifies_card(a, b);
    }
}

/// The canonical order keeps every card, and puts no card before a weaker one.
pub proof fn lemma_in_order_is_sorted_permutation(cards: Seq<Card>)
    ensures
        in_order(cards).to_multiset() == cards.to_multiset(),
        in_order(cards).len() == cards.len(),
        forall|i: int, j: int|
            0 <= i < j < cards.len() ==> in_order(cards)[i].strength() <= in_order(
                cards,
            )[j].strength(),
{
    broadcast use vstd::seq_lib::to_multiset_len;

    lemma_by_strength_is_total_order();
    cards.lemma_sort_by_ensures(by_strength());
    let sorted = in_order(cards);
    assert(sorted.to_multiset().len() == cards.to_multiset().len());
    assert forall|i: int, j: int| 0 <= i < j < cards.len() implies sorted[i].strength()
        <= sorted[j].strength() by {
        assert(by_strength()(sorted[i], sorted[j]));
    }
}

/// The canonical order of a hand does not depend on the order in which its
/// cards were given.
pub proof fn lemma_in_order_ignores_order(a: Seq<Card>, b: Seq<Card>)
    requires
        a.to_multiset() == b.to_multiset(),
    ensures
        in_order(a) == in_order(b),
{
    lemma_by_strength_is_total_order();
    a.lemma_sort_by_ensures(by_strength());
    b.lemma_sort_by_ensures(by_strength());
    lemma_sorted_unique(in_order(a), in_order(b), by_strength());
}

/// Cards that hold what a hand holds, and of which none stands before a
/// weaker one, are the hand in canonical order.
pub proof fn lemma_in_order_is(cards: Seq<Card>, sorted: Seq<Card>)
    requires
        sorted.to_multiset() == cards.to_multiset(),
        forall|i: int, j: int| 0 <= i < j < sorted.len() ==> sorted[i].strength() <= sorted[j].strength(),
    ensures
        in_order(cards) == sorted,
{
    lemma_by_strength_is_total_order();
    cards.lemma_sort_by_ensures(by_strength());
    lemma_sorted_unique(sorted, in_order(cards), by_strength());
}

/// Sorts cards from the weakest to the strongest.
pub fn sort_cards(cards: Vec<Card>) -> (sorted: Vec<Card>)
    ensures
        sorted@ == in_order(cards@),
{
    let mut out: Vec<Card> = Vec::new();
    let mut i: usize = 0;
    assert(out@ =~= cards@.take(0));
    while i < cards.len()
        invariant
            i <= cards.len(),
            out.len() == i,
            sorted_by(out@, by_strength()),
            out@.to_multiset() == cards@.take(i as int).to_multiset(),
        decreases cards.len() - i,
    {
        let card = cards[i];
        let mut j: usize = 0;
        while j < out.len() && !card.weaker_than(&out[j])
            invariant
                j <= out.len(),
                forall|k: int| 0 <= k < j ==> out@[k].strength() <= card.strength(),
            decreases out.len() - j,
        {
            j = j + 1;
        }
        let ghost before = out@;
        out.insert(j, card);
        proof {
            broadcast use vstd::seq_lib::to_multiset_insert, vstd::seq_lib::to_multiset_build;

            assert(cards@.take(i + 1) =~= cards@.take(i as int).push(card));
            assert forall|p: int, q: int| 0 <= p < q < out@.len() implies #[trigger] by_strength()(
                out@[p],
                out@[q],
            ) by {
                if p < j && q > j {
                    assert(by_strength()(before[p], before[q - 1]));
                } else if p < j && q < j {
                    assert(by_strength()(before[p], before[q]));
                } else if p > j {
                    assert(by_strength()(before[p - 1], before[q - 1]));
                } else if p == j {
                    assert(by_strength()(before[j as int], before[q - 1]));
                }
            }
        }
        i = i + 1;
    }
    proof {
        assert(cards@.take(cards@.len() as int) =~= cards@);
        lemma_by_strength_is_total_order();
        cards@.lemma_sort_by_ensures(by_strength());
        lemma_sorted_unique(out@, in_order(cards@), by_strength());
    }
    out
}

/// The strength of a card that may be missing: -1 for none.
pub fn strength_or_none(card: Option<Card>) -> (s: i64)
    ensures
        s == (match card {
            Some(c) => c.strength(),
            None => -1,
        }),
        -1 <= s < 208,
{
    match card {
        Some(c) => c.strength_value() as i64,
        None => -1,
    }
}

/// Some rank occurs exactly `n` times in `cards`.
pub open spec fn has_block(cards: Seq<Card>, n: usize) -> bool {
    exists|i: int| 0 <= i < cards.len() && occurrences(cards, #[trigger] cards[i].rank) == n
}

/// Counts the cards of rank `rank`.
pub fn count_of_rank(cards: &Vec<Card>, rank: Rank) -> (n: usize)
    ensures
        n == occurrences(cards@, rank),
{
    let mut n: usize = 0;
    let mut i: usize = 0;
    while i < cards.len()
        invariant
            i <= cards.len(),
            n <= i,
            n == count_rank(cards@, rank, i as int),
        decreases cards.len() - i,
    {
        if cards[i].rank == rank {
            n = n + 1;
        }
        i = i + 1;
    }
    n
}

/// For each card, how many cards of the hand have its rank.
pub fn get_counts(cards: &Vec<Card>) -> (counts: Vec<usize>)
    ensures
        counts.len() == cards.len(),
        forall|i: int| 0 <= i < cards.len() ==> counts[i] == occurrences(cards@, #[trigger] cards[i].rank),
{
    let mut counts: Vec<usize> = Vec::new();
    let mut i: usize = 0;
    while i < cards.len()
        invariant
            i <= cards.len(),
            counts.len() == i,
            forall|k: int| 0 <= k < i ==> counts[k] == occurrences(cards@, #[trigger] cards[k].rank),
        decreases cards.len() - i,
    {
        counts.push(count_of_rank(cards, cards[i].rank));
        i = i + 1;
    }
    counts
}

/// The strongest of the cards.
pub fn get_max_card(cards: &Vec<Card>) -> (top: Card)
    requires
        cards.len() > 0,
    ensures
        cards@.contains(top),
        top.strength() == top_strength(cards@),
{
    let mut top = cards[0];
    let mut i: usize = 1;
    assert(top_strength_upto(cards@, 1) == cards[0].strength()) by {
        reveal_with_fuel(top_strength_upto, 2);
        lemma_strength_bounds(cards[0]);
    }
    while i < cards.len()
        invariant
            1 <= i <= cards.len(),
            cards@.contains(top),
            top.strength() == top_strength_upto(cards@, i as int),
        decreases cards.len() - i,
    {
        if top.weaker_than(&cards[i]) {
            top = cards[i];
        }
        i = i + 1;
    }
    top
}

/// The strongest of the cards whose rank occurs exactly `n` times, if
/// there is such a rank.
pub fn get_top_of_n(cards: &Vec<Card>, n: usize) -> (top: Option<Card>)
    ensures
        top is Some <==> has_block(cards@, n),
        match top {
            Some(c) => cards@.contains(c) && occurrences(cards@, c.rank) == n && c.strength()
                == block_strength(cards@, n),
            None => block_strength(cards@, n) == -1,
        },
{
    let mut top: Option<Card> = None;
    let mut i: usize = 0;
    while i < cards.len()
        invariant
            i <= cards.len(),
            top is None ==> forall|k: int|
                0 <= k < i ==> occurrences(cards@, #[trigger] cards[k].rank) != n,
            match top {
                Some(c) => cards@.contains(c) && occurrences(cards@, c.rank) == n && c.strength()
                    == block_strength_upto(cards@, n, i as int),
                None => block_strength_upto(cards@, n, i as int) == -1,
            },
        decreases cards.len() - i,
    {
        let card = cards[i];
        proof {
            lemma_strength_bounds(card);
        }
        if count_of_rank(cards, card.rank) == n {
            let stronger = match top {
                Some(c) => c.weaker_than(&card),
                None => true,
            };
            if stronger {
                top = Some(card);
            }
        }
        i = i + 1;
    }
    top
}

} // verus!
