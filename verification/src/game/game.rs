//! A game: the players with their hands, the round in play and the
//! players who have finished.

use crate::cards::card::{three_of_clubs, Card, PlayerCard};
use crate::cards::deck::{dealt_to, fresh_cards, lemma_every_card_is_dealt, Deck};
use crate::cards::types::{Rank, Suit};
use crate::game::player::{flipped_hand, hand_after, holds_card, Player, PlayerState};
use crate::game::player_move::{bound_cards, build_move, classify, no_bare_joker, Move, TrickType};
use crate::game::round::{Round, RoundState};
use vstd::prelude::*;

verus! {

/// What a game holds, as plain values.
pub struct GameState {
    /// The players, those who have finished too.
    pub players: Seq<PlayerState>,
    /// The round in play.
    pub round: RoundState,
    /// The players who have finished, the first to finish first.
    pub winners: Seq<u64>,
    /// Whether the cards are turned over.
    pub reversed: bool,
}

/// The players as plain values.
pub open spec fn states_of(players: Seq<Player>) -> Seq<PlayerState> {
    Seq::new(players.len(), |i: int| players[i]@)
}

/// The first player at or after position `from` with the id `id`.
pub open spec fn find_player(players: Seq<PlayerState>, id: u64, from: int) -> Option<PlayerState>
    decreases players.len() - from,
{
    if from < 0 || from >= players.len() {
        None
    } else if players[from].id == id {
        Some(players[from])
    } else {
        find_player(players, id, from + 1)
    }
}

/// The first player at or after position `from` who holds the three of clubs.
pub open spec fn find_opener(players: Seq<PlayerState>, from: int) -> Option<PlayerState>
    decreases players.len() - from,
{
    if from < 0 || from >= players.len() {
        None
    } else if players[from].hand.contains(PlayerCard::Card(three_of_clubs())) {
        Some(players[from])
    } else {
        find_opener(players, from + 1)
    }
}

/// The players with `player` in the place of each player of the same id.
pub open spec fn with_player(players: Seq<PlayerState>, player: PlayerState) -> Seq<PlayerState> {
    Seq::new(
        players.len(),
        |i: int|
            if players[i].id == player.id {
                player
            } else {
                players[i]
            },
    )
}

/// The ids of those of the first `k` players who hold cards.
pub open spec fn holders(players: Seq<PlayerState>, k: int) -> Seq<u64>
    decreases k,
{
    if k <= 0 {
        Seq::empty()
    } else if players[k - 1].hand.len() > 0 {
        holders(players, k - 1).push(players[k - 1].id)
    } else {
        holders(players, k - 1)
    }
}

/// The players, each with every card facing the other way.
pub open spec fn with_flipped_hands(players: Seq<PlayerState>) -> Seq<PlayerState> {
    Seq::new(
        players.len(),
        |i: int| PlayerState { hand: flipped_hand(players[i].hand), id: players[i].id },
    )
}

/// Each real card among `cards` is in the hand, facing either way. A
/// joker played as a card is not looked for.
pub open spec fn holds_all(hand: Seq<PlayerCard>, cards: Seq<PlayerCard>) -> bool {
    forall|i: int|
        0 <= i < cards.len() && (#[trigger] cards[i]) is Card ==> hand.contains(cards[i])
            || flipped_hand(hand).contains(cards[i])
}

/// The move turns the cards over: four of a kind and five of a kind do.
pub open spec fn turns_cards(mv: Move) -> bool {
    mv matches Move::FiveCardTrick(t) && (t.trick_type == TrickType::FourOfAKind || t.trick_type
        == TrickType::FiveOfAKind)
}

/// The hands as plain values.
pub open spec fn hands_of(dealt: Seq<Vec<PlayerCard>>) -> Seq<Seq<PlayerCard>> {
    Seq::new(dealt.len(), |i: int| dealt[i]@)
}

/// One player for each id, each with the hand at the id's position.
pub open spec fn seated(ids: Seq<u64>, hands: Seq<Seq<PlayerCard>>) -> Seq<PlayerState> {
    Seq::new(ids.len(), |i: int| PlayerState { hand: hands[i], id: ids[i] })
}

/// The hands that `players` players are dealt from `deck`.
pub open spec fn dealt_hands(deck: Seq<PlayerCard>, players: int) -> Seq<Seq<PlayerCard>> {
    Seq::new(players as nat, |seat: int| dealt_to(deck, players, seat, deck.len() as int))
}

/// A game before its first move: the players hold their hands, the
/// table is clear, nobody has finished, and the first holder of the three
/// of clubs is to play.
pub open spec fn opening(ids: Seq<u64>, hands: Seq<Seq<PlayerCard>>) -> GameState {
    GameState {
        players: seated(ids, hands),
        round: RoundState {
            players: ids,
            current_player: find_opener(seated(ids, hands), 0).unwrap().id,
            last_move: Move::Pass,
            pass_count: 0,
            first_round: true,
        },
        winners: Seq::empty(),
        reversed: false,
    }
}

/// Whom `find_opener` finds is one of the players looked at and holds the
/// three of clubs; it finds nobody only where none of them holds it.
pub proof fn lemma_find_opener(players: Seq<PlayerState>, from: int)
    requires
        0 <= from <= players.len(),
    ensures
        match find_opener(players, from) {
            Some(p) => exists|k: int| from <= k < players.len() && players[k] == p,
            None => forall|k: int|
                from <= k < players.len() ==> !(#[trigger] players[k]).hand.contains(
                    PlayerCard::Card(three_of_clubs()),
                ),
        },
    decreases players.len() - from,
{
    if from < players.len() && !players[from].hand.contains(PlayerCard::Card(three_of_clubs())) {
        lemma_find_opener(players, from + 1);
    }
}

/// Whoever holds the cards of any order of a fresh deck, dealt to at
/// least one player: somebody holds the three of clubs.
pub proof fn lemma_somebody_opens(ids: Seq<u64>, deck: Seq<PlayerCard>)
    requires
        ids.len() > 0,
        deck.to_multiset() == fresh_cards(54).to_multiset(),
    ensures
        find_opener(seated(ids, dealt_hands(deck, ids.len() as int)), 0) is Some,
{
    broadcast use vstd::seq_lib::to_multiset_contains, vstd::seq_lib::to_multiset_len;

    let opener = PlayerCard::Card(three_of_clubs());
    assert(fresh_cards(54)[41] == opener);
    assert(fresh_cards(54).contains(opener));
    assert(deck.to_multiset().contains(opener));
    assert(deck.contains(opener));
    let k = choose|k: int| 0 <= k < deck.len() && deck[k] == opener;
    let n = ids.len() as int;
    let t = deck.len() - 1 - k;
    lemma_every_card_is_dealt(deck, n, t, deck.len() as int);
    let players = seated(ids, dealt_hands(deck, n));
    lemma_find_opener(players, 0);
    assert(players[crate::cards::deck::seat_of(t, n)].hand.contains(opener));
}

/// A definition of a game in progress.
#[derive(Clone, Debug)]
pub struct GameDefinition {
    /// players
    pub players: Vec<Player>,
    /// round
    pub round: Round,
    /// order of winners
    pub winners: Vec<u64>,
    /// whether the cards are turned over
    pub reversed: bool,
}

impl View for GameDefinition {
    type V = GameState;

    open spec fn view(&self) -> GameState {
        GameState {
            players: states_of(self.players@),
            round: self.round@,
            winners: self.winners@,
            reversed: self.reversed,
        }
    }
}

/// The Game module
pub struct Game {
    players: Vec<Player>,
    round: Round,
    winners: Vec<u64>,
    reversed: bool,
}

impl View for Game {
    type V = GameState;

    closed spec fn view(&self) -> GameState {
        GameState {
            players: states_of(self.players@),
            round: self.round@,
            winners: self.winners@,
            reversed: self.reversed,
        }
    }
}

/// A copy of the players.
pub fn copy_players(players: &Vec<Player>) -> (copy: Vec<Player>)
    ensures
        states_of(copy@) == states_of(players@),
{
    let mut copy: Vec<Player> = Vec::new();
    let mut i: usize = 0;
    while i < players.len()
        invariant
            i <= players.len(),
            copy.len() == i,
            forall|k: int| 0 <= k < i ==> (#[trigger] copy@[k])@ == players@[k]@,
        decreases players.len() - i,
    {
        copy.push(players[i].clone());
        i = i + 1;
    }
    assert(states_of(copy@) =~= states_of(players@));
    copy
}

impl Game {
    /// Create a new Game: a fresh deck is shuffled and dealt to the
    /// players, and the holder of the three of clubs is to play first.
    /// Whatever order the shuffle gives, the game is the opening of the
    /// hands dealt from a deck that holds the cards of a fresh one.
    pub fn setup(player_ids: Vec<u64>) -> (res: Result<GameDefinition, &'static str>)
        requires
            player_ids.len() > 0,
        ensures
            res matches Ok(definition) && exists|deck: Seq<PlayerCard>|
                deck.to_multiset() == fresh_cards(54).to_multiset() && definition@ == opening(
                    player_ids@,
                    #[trigger] dealt_hands(deck, player_ids@.len() as int),
                ),
    {
        let mut deck = Deck::new();
        deck.shuffle();
        let player_count = player_ids.len();
        let dealt_cards = deck.deal(player_count);
        proof {
            lemma_somebody_opens(player_ids@, deck@);
            assert(hands_of(dealt_cards@) =~= dealt_hands(deck@, player_count as int));
        }
        Ok(Game::seat_players(player_ids, dealt_cards))
    }

    /// The game before its first move, given the hands that were dealt,
    /// one for each player. One of the hands has to hold the three of clubs.
    pub fn seat_players(player_ids: Vec<u64>, dealt_cards: Vec<Vec<PlayerCard>>) -> (definition:
        GameDefinition)
        requires
            dealt_cards.len() == player_ids.len(),
            find_opener(seated(player_ids@, hands_of(dealt_cards@)), 0) is Some,
        ensures
            definition@ == opening(player_ids@, hands_of(dealt_cards@)),
    {
        let mut players: Vec<Player> = Vec::new();
        let mut i: usize = 0;
        while i < player_ids.len()
            invariant
                i <= player_ids.len(),
                dealt_cards.len() == player_ids.len(),
                players.len() == i,
                forall|k: int|
                    0 <= k < i ==> (#[trigger] players@[k])@ == seated(
                        player_ids@,
                        hands_of(dealt_cards@),
                    )[k],
            decreases player_ids.len() - i,
        {
            let player = Player::new(player_ids[i]);
            players.push(player.set_hand(dealt_cards[i].clone()));
            i = i + 1;
        }
        assert(states_of(players@) =~= seated(player_ids@, hands_of(dealt_cards@)));
        proof {
            lemma_find_opener(states_of(players@), 0);
        }
        let next_player = match Game::get_next(&players) {
            Some(player) => player.get_id(),
            None => unreached(),
        };
        let ghost found = choose|k: int|
            0 <= k < players@.len() && states_of(players@)[k] == find_opener(
                states_of(players@),
                0,
            ).unwrap();
        assert(player_ids@[found] == next_player);
        let round = Game::get_empty_round(player_ids, next_player);
        GameDefinition { players, round, winners: Vec::new(), reversed: false }
    }

    /// Load an existing game from a `GameDefinition`.
    pub fn load(game_definition: GameDefinition) -> (res: Result<Game, &'static str>)
        ensures
            res matches Ok(game) && game@ == game_definition@,
    {
        Ok(
            Game {
                players: game_definition.players,
                round: game_definition.round,
                winners: game_definition.winners,
                reversed: game_definition.reversed,
            },
        )
    }

    /// Get a player for querying information: the first with that id.
    pub fn get_player(&self, id: u64) -> (player: Option<Player>)
        ensures
            match player {
                Some(p) => Some(p@) == find_player(self@.players, id, 0),
                None => find_player(self@.players, id, 0) is None,
            },
    {
        self.get_current_player(id)
    }

    /// Get the next player to play: the holder of the three of clubs
    /// while there is one, else the player whose turn it is in the round.
    pub fn get_next_player(&self) -> (player: Option<Player>)
        ensures
            match player {
                Some(p) => Some(p@) == find_player(self@.players, self@.next_id(), 0),
                None => find_player(self@.players, self@.next_id(), 0) is None,
            },
    {
        let id = match Game::get_next(&self.players) {
            Some(player) => player.get_id(),
            _ => self.round.get_next_player(),
        };
        self.get_player(id)
    }

    /// Takes a player id and a vec of cards for a move. An error says that
    /// the cards make no move, that there is no such player, or that the
    /// player does not hold the cards. Otherwise the game is given as it
    /// stands after the move, changed or not.
    pub fn player_move(&self, player_id: u64, cards: Vec<PlayerCard>) -> (res: Result<
        GameDefinition,
        &'static str,
    >)
        requires
            no_bare_joker(cards@),
            cards@.len() == 0 ==> self@.round.pass_count < i64::MAX,
            self@.can_go_on(player_id, cards@),
        ensures
            match res {
                Ok(definition) => self@.can_put_down(player_id, cards@) && definition@
                    == self@.after_move(player_id, cards@),
                Err(message) => {
                    &&& !self@.can_put_down(player_id, cards@)
                    &&& message@ == (if classify(bound_cards(cards@)) is None {
                        "Invalid move!"@
                    } else if find_player(self@.players, player_id, 0) is None {
                        "Invalid player!"@
                    } else {
                        "Cannot play cards you do not have"@
                    })
                },
            },
    {
        let p_move = match build_move(cards.clone()) {
            Some(m) => m,
            None => {
                return Err("Invalid move!");
            },
        };
        let mut current_player = match self.get_current_player(player_id) {
            Some(p) => p,
            None => {
                return Err("Invalid player!");
            },
        };
        if !self.player_has_card(&current_player, &cards) {
            return Err("Cannot play cards you do not have");
        }
        let turned = match p_move {
            Move::FiveCardTrick(t) => match t.trick_type {
                TrickType::FourOfAKind | TrickType::FiveOfAKind => true,
                _ => false,
            },
            _ => false,
        };
        let mut players = copy_players(&self.players);
        let mut reversed = self.reversed;
        let round = match self.round.play(player_id, p_move) {
            Ok(r) => {
                current_player = current_player.remove(&cards);
                players = self.replace_current_player(&current_player);
                let player_ids = self.get_players_for_next_round(&players);
                let mut next = r.update_players(player_ids);
                if current_player.remaining_cards() == 0 {
                    next = next.set_pass_count(-1);
                }
                if turned {
                    next = next.reverse_last_move();
                    players = Game::reverse_hands(&players);
                    reversed = !self.reversed;
                }
                next
            },
            Err(r) => r,
        };
        let winners = self.get_winners(&current_player);
        Ok(GameDefinition { players, round, winners, reversed })
    }

    /// A round on a clear table, before the first move of a game.
    fn get_empty_round(player_ids: Vec<u64>, next: u64) -> (round: Round)
        requires
            player_ids@.contains(next),
        ensures
            round@ == (RoundState {
                players: player_ids@,
                current_player: next,
                last_move: Move::Pass,
                pass_count: 0,
                first_round: true,
            }),
    {
        Round::new(player_ids, next, Move::Pass, 0, true)
    }

    /// Those who have finished, with the player where the player holds no card.
    fn get_winners(&self, current_player: &Player) -> (winners: Vec<u64>)
        ensures
            winners@ == (if current_player@.hand.len() == 0 {
                self@.winners.push(current_player@.id)
            } else {
                self@.winners
            }),
    {
        let mut winners = self.winners.clone();
        if current_player.remaining_cards() == 0 {
            winners.push(current_player.get_id());
        }
        winners
    }

    /// The players with `current_player` in the place of each player of the same id.
    fn replace_current_player(&self, current_player: &Player) -> (players: Vec<Player>)
        ensures
            states_of(players@) == with_player(self@.players, current_player@),
    {
        let mut players: Vec<Player> = Vec::new();
        let mut i: usize = 0;
        while i < self.players.len()
            invariant
                i <= self.players.len(),
                players.len() == i,
                forall|k: int|
                    0 <= k < i ==> (#[trigger] players@[k])@ == with_player(
                        self@.players,
                        current_player@,
                    )[k],
            decreases self.players.len() - i,
        {
            if self.players[i].get_id() == current_player.get_id() {
                players.push(current_player.clone());
            } else {
                players.push(self.players[i].clone());
            }
            i = i + 1;
        }
        assert(states_of(players@) =~= with_player(self@.players, current_player@));
        players
    }

    /// The ids of the players who hold cards.
    fn get_players_for_next_round(&self, players: &Vec<Player>) -> (ids: Vec<u64>)
        ensures
            ids@ == holders(states_of(players@), players@.len() as int),
    {
        let mut ids: Vec<u64> = Vec::new();
        let mut i: usize = 0;
        while i < players.len()
            invariant
                i <= players.len(),
                ids@ == holders(states_of(players@), i as int),
            decreases players.len() - i,
        {
            if players[i].remaining_cards() > 0 {
                ids.push(players[i].get_id());
            }
            i = i + 1;
        }
        ids
    }

    /// The players, each with every card facing the other way.
    fn reverse_hands(players: &Vec<Player>) -> (flipped: Vec<Player>)
        ensures
            states_of(flipped@) == with_flipped_hands(states_of(players@)),
    {
        let mut flipped: Vec<Player> = Vec::new();
        let mut i: usize = 0;
        while i < players.len()
            invariant
                i <= players.len(),
                flipped.len() == i,
                forall|k: int|
                    0 <= k < i ==> (#[trigger] flipped@[k])@ == with_flipped_hands(
                        states_of(players@),
                    )[k],
            decreases players.len() - i,
        {
            flipped.push(players[i].reverse_hand());
            i = i + 1;
        }
        assert(states_of(flipped@) =~= with_flipped_hands(states_of(players@)));
        flipped
    }

    /// Whether the player holds each real card among `cards`, facing either way.
    fn player_has_card(&self, player: &Player, cards: &Vec<PlayerCard>) -> (b: bool)
        requires
            no_bare_joker(cards@),
        ensures
            b == holds_all(player@.hand, cards@),
    {
        let hand = player.get_hand();
        let reversed_hand = player.reverse_hand().get_hand();
        let mut i: usize = 0;
        while i < cards.len()
            invariant
                i <= cards.len(),
                hand@ == player@.hand,
                reversed_hand@ == flipped_hand(player@.hand),
                forall|k: int|
                    0 <= k < i && (#[trigger] cards@[k]) is Card ==> hand@.contains(cards@[k])
                        || reversed_hand@.contains(cards@[k]),
            decreases cards.len() - i,
        {
            match cards[i] {
                PlayerCard::Card(_) => {
                    if !holds_card(&hand, &cards[i]) && !holds_card(&reversed_hand, &cards[i]) {
                        return false;
                    }
                },
                _ => {},
            }
            i = i + 1;
        }
        true
    }

    /// The first player who holds the three of clubs.
    fn get_next(players: &Vec<Player>) -> (player: Option<Player>)
        ensures
            match player {
                Some(p) => Some(p@) == find_opener(states_of(players@), 0),
                None => find_opener(states_of(players@), 0) is None,
            },
    {
        let opener = PlayerCard::Card(Card::new(Rank::Three, Suit::Clubs, false));
        let mut i: usize = 0;
        while i < players.len()
            invariant
                i <= players.len(),
                opener == PlayerCard::Card(three_of_clubs()),
                find_opener(states_of(players@), i as int) == find_opener(states_of(players@), 0),
            decreases players.len() - i,
        {
            if holds_card(&players[i].get_hand(), &opener) {
                return Some(players[i].clone());
            }
            i = i + 1;
        }
        None
    }

    /// The first player with the id `player_id`.
    fn get_current_player(&self, player_id: u64) -> (player: Option<Player>)
        ensures
            match player {
                Some(p) => Some(p@) == find_player(self@.players, player_id, 0),
                None => find_player(self@.players, player_id, 0) is None,
            },
    {
        let mut i: usize = 0;
        while i < self.players.len()
            invariant
                i <= self.players.len(),
                find_player(self@.players, player_id, i as int) == find_player(
                    self@.players,
                    player_id,
                    0,
                ),
            decreases self.players.len() - i,
        {
            if self.players[i].get_id() == player_id {
                return Some(self.players[i].clone());
            }
            i = i + 1;
        }
        None
    }
}

impl GameState {
    /// The id of the player to play next: the holder of the three of
    /// clubs while there is one, else the player whose turn it is in the
    /// round.
    pub open spec fn next_id(self) -> u64 {
        match find_opener(self.players, 0) {
            Some(p) => p.id,
            None => self.round.current_player,
        }
    }

    /// The player of that id puts down cards that make a move and that
    /// the player holds.
    pub open spec fn can_put_down(self, player_id: u64, cards: Seq<PlayerCard>) -> bool {
        &&& classify(bound_cards(cards)) is Some
        &&& find_player(self.players, player_id, 0) matches Some(actor)
        &&& holds_all(actor.hand, cards)
    }

    /// The player as the cards leave the player's hand.
    pub open spec fn actor_after(self, player_id: u64, cards: Seq<PlayerCard>) -> PlayerState {
        let actor = find_player(self.players, player_id, 0).unwrap();
        PlayerState { hand: hand_after(actor.hand, cards), id: actor.id }
    }

    /// The ids of the players who hold cards once the cards have left the
    /// player's hand.
    pub open spec fn staying(self, player_id: u64, cards: Seq<PlayerCard>) -> Seq<u64> {
        let players = with_player(self.players, self.actor_after(player_id, cards));
        holders(players, players.len() as int)
    }

    /// Where the round allows the move, a player of the round holds
    /// cards afterwards, to take the next turn.
    pub open spec fn can_go_on(self, player_id: u64, cards: Seq<PlayerCard>) -> bool {
        let mv = classify(bound_cards(cards)).unwrap();
        self.can_put_down(player_id, cards) && self.round.accepts(player_id, mv)
            ==> self.round.after(player_id, mv).heir(self.staying(player_id, cards)) is Some
    }

    /// The game after the player has put down the cards. Where the round
    /// does not allow the move, nothing changes. Where it does, the cards
    /// leave the player's hand, the round goes on among the players who
    /// hold cards, and a player with no card left has finished: the count
    /// of passes is then -1, so that the others have a full set of
    /// passes. Four of a kind and five of a kind turn every card over, in
    /// the hands and on the table. A player who holds no card is entered
    /// among those who have finished.
    pub open spec fn after_move(self, player_id: u64, cards: Seq<PlayerCard>) -> GameState {
        let mv = classify(bound_cards(cards)).unwrap();
        let actor = find_player(self.players, player_id, 0).unwrap();
        if self.round.accepts(player_id, mv) {
            let left = self.actor_after(player_id, cards);
            let players = with_player(self.players, left);
            let staying = self.staying(player_id, cards);
            let played = self.round.after(player_id, mv);
            GameState {
                players: if turns_cards(mv) {
                    with_flipped_hands(players)
                } else {
                    players
                },
                round: RoundState {
                    players: staying,
                    current_player: played.heir(staying).unwrap(),
                    last_move: if turns_cards(mv) {
                        played.last_move.flipped()
                    } else {
                        played.last_move
                    },
                    pass_count: if left.hand.len() == 0 {
                        -1
                    } else {
                        played.pass_count
                    },
                    first_round: played.first_round,
                },
                winners: if left.hand.len() == 0 {
                    self.winners.push(left.id)
                } else {
                    self.winners
                },
                reversed: if turns_cards(mv) {
                    !self.reversed
                } else {
                    self.reversed
                },
            }
        } else {
            GameState {
                winners: if actor.hand.len() == 0 {
                    self.winners.push(actor.id)
                } else {
                    self.winners
                },
                ..self
            }
        }
    }
}

} // verus!
