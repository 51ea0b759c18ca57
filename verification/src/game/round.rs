//! The state of a round and the rule by which a move changes it.
//!
//! A round is a value: playing a move gives a new round, or gives the old
//! one back where the move is not allowed.

use crate::cards::card::{three_of_clubs, Card};
use crate::cards::types::{Rank, Suit};
use crate::game::player_move::Move;
use vstd::prelude::*;

verus! {

/// What a round holds, as plain values.
pub struct RoundState {
    /// The players still in the round, in the order of play.
    pub players: Seq<u64>,
    /// The player whose turn it is.
    pub current_player: u64,
    /// The move that lies on the table; a pass where the table is clear.
    pub last_move: Move,
    /// How many players have passed in a row.
    pub pass_count: int,
    /// Whether the first move of the game is still to come.
    pub first_round: bool,
}

/// The greatest position below `k` at which `who` stands in `players`, or
/// -1 where there is none.
pub open spec fn last_position(players: Seq<u64>, who: u64, k: int) -> int
    decreases k,
{
    if k <= 0 {
        -1
    } else if players[k - 1] == who {
        k - 1
    } else {
        last_position(players, who, k - 1)
    }
}

/// The position after `at` in a list of `len` players; the first follows the last.
pub open spec fn position_after(at: int, len: int) -> int {
    if at + 1 < len {
        at + 1
    } else {
        0
    }
}

/// The first player of `players` who is also in `keep`, looking at `left`
/// positions from `at` on and around the end of the list.
pub open spec fn first_kept(players: Seq<u64>, keep: Seq<u64>, at: int, left: int) -> Option<u64>
    decreases left,
{
    if left <= 0 {
        None
    } else if keep.contains(players[at]) {
        Some(players[at])
    } else {
        first_kept(players, keep, position_after(at, players.len() as int), left - 1)
    }
}

/// The move holds one, two or three cards, one of which no card that faces
/// the same way can beat.
pub open spec fn is_unbeatable(mv: Move) -> bool {
    (mv is Single || mv is Pair || mv is Prial) && exists|i: int|
        0 <= i < mv.cards().len() && (#[trigger] mv.cards()[i]).is_topmost()
}

impl RoundState {
    /// The player whose turn it is takes part in the round.
    pub open spec fn well_formed(self) -> bool {
        self.players.contains(self.current_player)
    }

    /// The player whose turn comes after the current player's.
    pub open spec fn next_player(self) -> u64 {
        self.players[position_after(
            last_position(self.players, self.current_player, self.players.len() as int),
            self.players.len() as int,
        )]
    }

    /// It is the player's turn, and the first move of a game holds the three of clubs.
    pub open spec fn allows(self, player_id: u64, mv: Move) -> bool {
        &&& player_id == self.current_player
        &&& self.first_round ==> mv.cards().contains(three_of_clubs())
    }

    /// The move is allowed: it is the player's turn; the first move of a
    /// game holds the three of clubs; nobody passes on a clear table; and
    /// a move onto another is of its category and beats it.
    pub open spec fn accepts(self, player_id: u64, mv: Move) -> bool {
        &&& self.allows(player_id, mv)
        &&& !(self.last_move is Pass && mv is Pass)
        &&& (self.last_move is Pass || mv is Pass || mv.beats(self.last_move))
    }

    /// The round after a pass: the table is cleared once all the others
    /// have passed.
    pub open spec fn after_pass(self) -> RoundState {
        RoundState {
            players: self.players,
            current_player: self.next_player(),
            last_move: if self.pass_count + 1 >= self.players.len() - 1 {
                Move::Pass
            } else {
                self.last_move
            },
            pass_count: self.pass_count + 1,
            first_round: false,
        }
    }

    /// The round after an allowed move. A pass hands the turn on. A move
    /// that cannot be beaten clears the table, and its player leads again.
    /// Any other move lies on the table for the next player.
    pub open spec fn after(self, player_id: u64, mv: Move) -> RoundState {
        if mv is Pass {
            self.after_pass()
        } else if !(self.last_move is Pass) && is_unbeatable(mv) {
            RoundState {
                players: self.players,
                current_player: player_id,
                last_move: Move::Pass,
                pass_count: 0,
                first_round: false,
            }
        } else {
            RoundState {
                players: self.players,
                current_player: self.next_player(),
                last_move: mv,
                pass_count: 0,
                first_round: false,
            }
        }
    }

    /// The player whose turn it is once only the players in `keep` are
    /// left: the current player if among them, else the first after the
    /// current player who is.
    pub open spec fn heir(self, keep: Seq<u64>) -> Option<u64> {
        if keep.contains(self.current_player) {
            Some(self.current_player)
        } else {
            first_kept(
                self.players,
                keep,
                position_after(
                    last_position(self.players, self.current_player, self.players.len() as int),
                    self.players.len() as int,
                ),
                self.players.len() as int,
            )
        }
    }
}

/// A player who takes part stands at a position of the list, and the
/// player after that one takes part too.
pub proof fn lemma_last_position(players: Seq<u64>, who: u64, k: int)
    requires
        0 <= k <= players.len(),
    ensures
        -1 <= last_position(players, who, k) < k,
        last_position(players, who, k) >= 0 ==> players[last_position(players, who, k)] == who,
        forall|i: int| last_position(players, who, k) < i < k ==> players[i] != who,
    decreases k,
{
    if k > 0 && players[k - 1] != who {
        lemma_last_position(players, who, k - 1);
    }
}

/// Whoever `first_kept` finds is in both lists; it finds nobody only
/// where it looked at nobody who is kept.
pub proof fn lemma_first_kept(players: Seq<u64>, keep: Seq<u64>, at: int, left: int)
    requires
        0 <= at < players.len(),
    ensures
        match first_kept(players, keep, at, left) {
            Some(p) => players.contains(p) && keep.contains(p),
            None => left <= 0 || !keep.contains(players[at]),
        },
    decreases left,
{
    if left > 0 && !keep.contains(players[at]) {
        lemma_first_kept(players, keep, position_after(at, players.len() as int), left - 1);
    }
}

/// In every round that a move leads to, the player whose turn it is
/// takes part.
pub proof fn lemma_turn_stays_with_a_player(state: RoundState, player_id: u64, mv: Move)
    requires
        state.well_formed(),
        state.allows(player_id, mv),
    ensures
        state.players.contains(state.next_player()),
        state.after(player_id, mv).well_formed(),
        state.after(player_id, mv).players == state.players,
        !state.after(player_id, mv).first_round,
{
    lemma_last_position(state.players, state.current_player, state.players.len() as int);
}

/// A snapshot of a round, to store it or to send it.
#[derive(Clone, Debug, PartialEq)]
pub struct RoundDefinition {
    pub players: Vec<u64>,
    pub current_player: u64,
    pub last_move: Move,
    pub pass_count: i64,
    pub first_round: bool,
}

impl View for RoundDefinition {
    type V = RoundState;

    open spec fn view(&self) -> RoundState {
        RoundState {
            players: self.players@,
            current_player: self.current_player,
            last_move: self.last_move,
            pass_count: self.pass_count as int,
            first_round: self.first_round,
        }
    }
}

/// A single round.
#[derive(Debug, PartialEq)]
pub struct Round {
    players: Vec<u64>,
    current_player: u64,
    last_move: Move,
    pass_count: i64,
    first_round: bool,
}

impl View for Round {
    type V = RoundState;

    closed spec fn view(&self) -> RoundState {
        RoundState {
            players: self.players@,
            current_player: self.current_player,
            last_move: self.last_move,
            pass_count: self.pass_count as int,
            first_round: self.first_round,
        }
    }
}

impl Clone for Round {
    fn clone(&self) -> (round: Round)
        ensures
            round@ == self@,
    {
        self.duplicate()
    }
}

/// A round that is made of five values and then exported gives the five
/// values back.
pub proof fn lemma_export_gives_back_what_made_the_round(
    players: Seq<u64>,
    current_player: u64,
    last_move: Move,
    passes: i64,
    first_round: bool,
    round: Round,
    definition: RoundDefinition,
)
    requires
        round@ == (RoundState {
            players,
            current_player,
            last_move,
            pass_count: passes as int,
            first_round,
        }),
        definition@ == round@,
    ensures
        definition.players@ == players,
        definition.current_player == current_player,
        definition.last_move == last_move,
        definition.pass_count == passes,
        definition.first_round == first_round,
{
}

/// Whether `who` is one of `players`.
pub fn contains_player(players: &Vec<u64>, who: u64) -> (b: bool)
    ensures
        b == players@.contains(who),
{
    let mut i: usize = 0;
    while i < players.len()
        invariant
            i <= players.len(),
            forall|k: int| 0 <= k < i ==> players@[k] != who,
        decreases players.len() - i,
    {
        if players[i] == who {
            return true;
        }
        i = i + 1;
    }
    false
}

impl Round {
    #[verifier::type_invariant]
    spec fn current_player_takes_part(self) -> bool {
        self.players@.contains(self.current_player)
    }

    /// Creates a round. The current player has to be one of the players.
    pub fn new(
        players: Vec<u64>,
        current_player: u64,
        last_move: Move,
        passes: i64,
        first_round: bool,
    ) -> (round: Round)
        requires
            players@.contains(current_player),
        ensures
            round@ == (RoundState {
                players: players@,
                current_player,
                last_move,
                pass_count: passes as int,
                first_round,
            }),
    {
        Round { players, current_player, last_move, pass_count: passes, first_round }
    }

    /// Check who should play the next move: one of the players of the round.
    pub fn get_next_player(&self) -> (player_id: u64)
        ensures
            player_id == self@.current_player,
            self@.well_formed(),
    {
        proof {
            use_type_invariant(self);
        }
        self.current_player
    }

    /// Check the last move.
    pub fn get_last_move(&self) -> (mv: Move)
        ensures
            mv == self@.last_move,
    {
        self.last_move
    }

    /// Export the round as a snapshot.
    pub fn export(&self) -> (definition: RoundDefinition)
        ensures
            definition@ == self@,
            definition@.well_formed(),
    {
        proof {
            use_type_invariant(self);
        }
        RoundDefinition {
            players: self.players.clone(),
            current_player: self.current_player,
            last_move: self.last_move,
            pass_count: self.pass_count,
            first_round: self.first_round,
        }
    }

    /// The same round once more.
    fn duplicate(&self) -> (round: Round)
        ensures
            round@ == self@,
    {
        proof {
            use_type_invariant(self);
        }
        Round {
            players: self.players.clone(),
            current_player: self.current_player,
            last_move: self.last_move,
            pass_count: self.pass_count,
            first_round: self.first_round,
        }
    }

    /// The position of the player after the current player; the first
    /// follows the last.
    fn next_position(&self) -> (index: usize)
        ensures
            index == position_after(
                last_position(self@.players, self@.current_player, self@.players.len() as int),
                self@.players.len() as int,
            ),
            index < self@.players.len(),
    {
        proof {
            use_type_invariant(self);
            lemma_last_position(self.players@, self.current_player, self.players@.len() as int);
        }
        let mut index: usize = 0;
        let mut i: usize = 0;
        while i < self.players.len()
            invariant
                i <= self.players.len(),
                index == last_position(self.players@, self.current_player, i as int) + 1,
                index <= i,
            decreases self.players.len() - i,
        {
            i = i + 1;
            if self.current_player == self.players[i - 1] {
                index = i;
            }
        }
        if index < self.players.len() {
            index
        } else {
            0
        }
    }

    /// The player after the current player; the first follows the last.
    fn determine_next_player(&self) -> (player_id: u64)
        ensures
            player_id == self@.next_player(),
            self@.players.contains(player_id),
    {
        self.players[self.next_position()]
    }

    /// The first player after the current player who is in `keep`.
    #[verifier::loop_isolation(false)]
    fn first_remaining(&self, keep: &Vec<u64>) -> (player_id: u64)
        requires
            !keep@.contains(self@.current_player),
            self@.heir(keep@) is Some,
        ensures
            Some(player_id) == self@.heir(keep@),
            keep@.contains(player_id),
    {
        let start = self.next_position();
        let mut at: usize = start;
        let mut left: usize = self.players.len();
        while left > 0
            invariant
                at < self.players.len(),
                first_kept(self.players@, keep@, at as int, left as int) == first_kept(
                    self.players@,
                    keep@,
                    start as int,
                    self.players@.len() as int,
                ),
            decreases left,
        {
            let player_id = self.players[at];
            if contains_player(keep, player_id) {
                return player_id;
            }
            at = if at + 1 < self.players.len() {
                at + 1
            } else {
                0
            };
            left = left - 1;
        }
        unreached()
    }

    /// Update the players in the round. Where the player whose turn it is
    /// has left, the turn goes to the first player after that one who is
    /// still there; some player of the round has to be.
    pub fn update_players(&self, players: Vec<u64>) -> (round: Round)
        requires
            self@.heir(players@) is Some,
        ensures
            round@ == (RoundState {
                players: players@,
                current_player: self@.heir(players@).unwrap(),
                ..self@
            }),
    {
        let current_player = if contains_player(&players, self.current_player) {
            self.current_player
        } else {
            self.first_remaining(&players)
        };
        Round {
            players,
            current_player,
            last_move: self.last_move,
            pass_count: self.pass_count,
            first_round: self.first_round,
        }
    }

    /// Whether the move is of the category of the move on the table and beats it.
    fn valid_move(&self, new_move: Move) -> (b: bool)
        ensures
            b == (!(self@.last_move is Pass) && new_move.beats(self@.last_move)),
    {
        let matching_type = !self.last_move.is_pass() && new_move.types_match(&self.last_move);
        matching_type && new_move > self.last_move
    }

    /// Whether the move holds the three of clubs.
    fn includes_three(&self, new_move: Move) -> (b: bool)
        ensures
            b == new_move.cards().contains(three_of_clubs()),
    {
        let cards = new_move.to_vec();
        let three = Card::new(Rank::Three, Suit::Clubs, false);
        let mut i: usize = 0;
        while i < cards.len()
            invariant
                i <= cards.len(),
                three == three_of_clubs(),
                cards@ == new_move.cards(),
                forall|k: int| 0 <= k < i ==> cards@[k] != three,
            decreases cards.len() - i,
        {
            if cards[i] == three {
                assert(cards@[i as int] == three_of_clubs());
                return true;
            }
            i = i + 1;
        }
        false
    }

    /// Whether the move holds a card that nothing can beat.
    fn is_unbeatable_move(&self, new_move: Move) -> (b: bool)
        ensures
            b == is_unbeatable(new_move),
    {
        match new_move {
            Move::Single(x) => {
                assert(new_move.cards()[0] == x);
                x.tops_the_deck()
            },
            Move::Pair(x, y) => {
                assert(new_move.cards()[0] == x && new_move.cards()[1] == y);
                x.tops_the_deck() || y.tops_the_deck()
            },
            Move::Prial(x, y, z) => {
                assert(new_move.cards()[0] == x && new_move.cards()[1] == y && new_move.cards()[2]
                    == z);
                x.tops_the_deck() || y.tops_the_deck() || z.tops_the_deck()
            },
            _ => false,
        }
    }

    /// The round after a pass by the current player.
    fn pass_on(&self) -> (round: Round)
        requires
            self@.pass_count < i64::MAX,
        ensures
            round@ == self@.after_pass(),
    {
        let next_player = self.determine_next_player();
        let pass_count = self.pass_count + 1;
        let others = self.players.len() - 1;
        let last_move = if pass_count >= 0 && pass_count as u64 >= others as u64 {
            Move::Pass
        } else {
            self.last_move
        };
        Round {
            players: self.players.clone(),
            current_player: next_player,
            last_move,
            pass_count,
            first_round: false,
        }
    }

    /// Play a move in the current round: `Ok` with the new round where the
    /// move is allowed, `Err` with the round as it was where it is not.
    pub fn play(&self, player_id: u64, new_move: Move) -> (res: Result<Round, Round>)
        requires
            new_move is Pass ==> self@.pass_count < i64::MAX,
        ensures
            match res {
                Ok(round) => self@.accepts(player_id, new_move) && round@ == self@.after(
                    player_id,
                    new_move,
                ),
                Err(round) => !self@.accepts(player_id, new_move) && round@ == self@,
            },
    {
        proof {
            use_type_invariant(self);
        }
        if player_id != self.current_player {
            return Err(self.duplicate());
        }
        if self.first_round && !self.includes_three(new_move) {
            return Err(self.duplicate());
        }
        if self.last_move.is_pass() && new_move.is_pass() {
            return Err(self.duplicate());
        }
        if new_move.is_pass() {
            Ok(self.pass_on())
        } else if self.last_move.is_pass() {
            Ok(
                Round {
                    players: self.players.clone(),
                    current_player: self.determine_next_player(),
                    last_move: new_move,
                    pass_count: 0,
                    first_round: false,
                },
            )
        } else if self.valid_move(new_move) {
            let (next_current, move_on_table) = if self.is_unbeatable_move(new_move) {
                (player_id, Move::Pass)
            } else {
                (self.determine_next_player(), new_move)
            };
            Ok(
                Round {
                    players: self.players.clone(),
                    current_player: next_current,
                    last_move: move_on_table,
                    pass_count: 0,
                    first_round: false,
                },
            )
        } else {
            Err(self.duplicate())
        }
    }

    /// Let the current player's turn go by, on a clear table too: `Ok`
    /// with the round after a pass where it is the player's turn and the
    /// first move of the game has been made, `Err` with the round as it
    /// was where not.
    pub fn skip(&self, player_id: u64) -> (res: Result<Round, Round>)
        requires
            self@.pass_count < i64::MAX,
        ensures
            match res {
                Ok(round) => self@.allows(player_id, Move::Pass) && round@ == self@.after_pass(),
                Err(round) => !self@.allows(player_id, Move::Pass) && round@ == self@,
            },
    {
        if player_id != self.current_player || self.first_round {
            return Err(self.duplicate());
        }
        Ok(self.pass_on())
    }

    /// The same round with another move on the table's place.
    pub fn reverse_last_move(&self) -> (round: Round)
        ensures
            round@ == (RoundState { last_move: self@.last_move.flipped(), ..self@ }),
    {
        proof {
            use_type_invariant(self);
        }
        Round {
            players: self.players.clone(),
            current_player: self.current_player,
            last_move: self.last_move.reverse(),
            pass_count: self.pass_count,
            first_round: self.first_round,
        }
    }

    /// The same round with another count of passes.
    pub fn set_pass_count(&self, c: i64) -> (round: Round)
        ensures
            round@ == (RoundState { pass_count: c as int, ..self@ }),
    {
        proof {
            use_type_invariant(self);
        }
        Round {
            players: self.players.clone(),
            current_player: self.current_player,
            last_move: self.last_move,
            pass_count: c,
            first_round: self.first_round,
        }
    }
}

} // verus!
