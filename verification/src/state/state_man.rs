//! The session: its phase, whose turn it is, the deck, the registry of
//! players and the direction of play, with the operations that a connection
//! may ask for.

use super::msg::{Action, DynMessage};
use super::player::{Player, PlayerView, Role};
use super::registry::{Registry, RegistryView};
use crate::game::card::Card;
use crate::game::deck::{lemma_deal_conserves, standard_count, Deck, DeckView};
use vstd::multiset::Multiset;
use vstd::seq_lib::*;
use vstd::prelude::*;

verus! {

/// The direction in which turns go round the players.
#[derive(Clone, Copy, Debug, PartialEq, Eq, Structural)]
pub enum Direction {
    Forward,
    Backward,
}

impl Default for Direction {
    fn default() -> (direction: Self)
        ensures
            direction == Direction::Forward,
    {
        Direction::Forward
    }
}

/// Where a session stands.
#[derive(Clone, Copy, Debug, PartialEq, Eq, Structural)]
pub enum Phase {
    /// Players gather; the admin may start the game.
    Lobby,
    /// A game is being played.
    InGame,
    /// A player has reported an empty hand.
    Terminal,
}

/// The one shared record of a session.
pub struct GameState {
    pub phase: Phase,
    pub turn: u128,
    pub deck: Deck,
    pub players: Registry,
    direction: Direction,
}

/// What a session holds, as the contracts see it.
pub ghost struct GameStateView {
    pub phase: Phase,
    /// The identifier of the player whose turn it is.
    pub turn: u128,
    pub deck: DeckView,
    pub players: RegistryView,
    pub direction: Direction,
}

impl Default for GameState {
    /// A session in the lobby, as `GameState::new` makes it.
    fn default() -> (state: Self)
        ensures
            state@.phase == Phase::Lobby,
            state@.turn == 0,
            state@.direction == Direction::Forward,
            state@.players.ids.len() == 0,
            state@.players.players.len() == 0,
            state@.deck.draw_pile.len() == 0,
            state@.deck.discard_pile.len() == 0,
            state@.deck.in_play.len() == 0,
    {
        Self::new()
    }
}

impl View for GameState {
    type V = GameStateView;

    closed spec fn view(&self) -> GameStateView {
        GameStateView {
            phase: self.phase,
            turn: self.turn,
            deck: self.deck@,
            players: self.players@,
            direction: self.direction,
        }
    }
}

/// What the first player of a session is told.
pub const ADMIN_NOTICE: &'static str =
    "You're admin! Please type START to start the game when you'd like";

/// A message that comes from the server itself.
pub open spec fn server_msg(action: Action) -> DynMessage {
    DynMessage { sender: None, action }
}

/// Whether `message` is the notice that tells a player that they are admin.
pub open spec fn is_admin_notice(message: DynMessage) -> bool {
    &&& message.sender.is_none()
    &&& message.action matches Action::Message(text) && text@ == ADMIN_NOTICE@
}

/// Whether `after` is `before` made admin, with the admin's notice waiting
/// behind the messages that `before` already had.
pub open spec fn greeted_as_admin(before: PlayerView, after: PlayerView) -> bool {
    &&& after.outbox.len() == before.outbox.len() + 1
    &&& after.outbox.drop_last() == before.outbox
    &&& is_admin_notice(after.outbox.last())
    &&& after == (PlayerView { role: Role::Admin, outbox: after.outbox, ..before })
}

/// Whether `message` tells a player that the game has started and that
/// `cards` are theirs.
pub open spec fn is_started(message: DynMessage, cards: Seq<Card>) -> bool {
    &&& message.sender.is_none()
    &&& message.action matches Action::Started(hand) && hand@ == cards
}

/// Whether `after` is `before` with seven more cards in their hand, and
/// with the message that names those cards waiting behind the messages
/// that `before` already had.
pub open spec fn handed(before: PlayerView, after: PlayerView) -> bool {
    &&& after.hand.len() == before.hand.len() + 7
    &&& after.hand.take(before.hand.len() as int) == before.hand
    &&& after.outbox.len() == before.outbox.len() + 1
    &&& after.outbox.drop_last() == before.outbox
    &&& is_started(after.outbox.last(), after.hand.skip(before.hand.len() as int))
    &&& after == (PlayerView { hand: after.hand, outbox: after.outbox, ..before })
}

/// Whether `after` is `before` as the start of a game leaves them: dealt
/// seven cards and told so, and then told that `top` is the facing card.
pub open spec fn dealt_in(before: PlayerView, after: PlayerView, top: Card) -> bool {
    &&& after.outbox.len() > 0
    &&& after.outbox.last() == server_msg(Action::TopCard(top))
    &&& handed(before, PlayerView { outbox: after.outbox.drop_last(), ..after })
}

/// The cards that the players of `after` hold beyond those that the
/// players of `before` held, player by player.
pub open spec fn new_cards(before: Seq<PlayerView>, after: Seq<PlayerView>) -> Seq<Card>
    decreases before.len(),
{
    if before.len() == 0 || after.len() != before.len() {
        Seq::empty()
    } else {
        new_cards(before.drop_last(), after.drop_last()) + after.last().hand.skip(
            before.last().hand.len() as int,
        )
    }
}

/// The new cards depend on the hands alone.
pub proof fn lemma_new_cards_by_hands(
    before: Seq<PlayerView>,
    one: Seq<PlayerView>,
    other: Seq<PlayerView>,
)
    requires
        one.len() == other.len(),
        forall|j: int| 0 <= j < one.len() ==> one[j].hand == other[j].hand,
    ensures
        new_cards(before, one) == new_cards(before, other),
    decreases before.len(),
{
    if before.len() != 0 && one.len() == before.len() {
        lemma_new_cards_by_hands(before.drop_last(), one.drop_last(), other.drop_last());
    }
}

impl GameStateView {
    /// Whether the player under `requester` may start the game: the session
    /// is in the lobby, and they are its admin.
    pub open spec fn may_start(self, requester: u128) -> bool {
        &&& self.phase == Phase::Lobby
        &&& self.players.contains(requester)
        &&& self.players.player(requester).role == Role::Admin
    }

    /// Whether `next` is this session after `requester` asked for the game
    /// to start. Where they may, a game begins with them: a shuffled deck
    /// of one pack for each player is made, every player is dealt seven
    /// cards and told which, one card is turned up, and everyone is told
    /// that card. The cards dealt and the cards left in the piles are
    /// together the cards of the new deck. Where they may not, nothing
    /// happens.
    pub open spec fn started(self, next: GameStateView, requester: u128) -> bool {
        if self.may_start(requester) {
            let n = self.players.ids.len();
            &&& next.phase == Phase::InGame
            &&& next.turn == requester
            &&& next.direction == self.direction
            &&& next.players.ids == self.players.ids
            &&& next.players.players.len() == n
            &&& next.deck.in_play.len() == 0
            &&& next.deck.discard_pile.len() == 1
            &&& next.deck.draw_pile.len() == 108 * n - 7 * n - 1
            &&& forall|k: int|
                0 <= k < n ==> dealt_in(
                    self.players.players[k],
                    #[trigger] next.players.players[k],
                    next.deck.discard_pile[0],
                )
            &&& forall|card: Card|
                #[trigger] next.deck.piles().count(card) + new_cards(
                    self.players.players,
                    next.players.players,
                ).to_multiset().count(card) == n * standard_count(card)
        } else {
            next == self
        }
    }

    /// Whether `next` is this session after `player` has joined under `id`.
    /// The first to join an empty session becomes its admin and is told so;
    /// everyone else is registered as they come.
    pub open spec fn joined(self, next: GameStateView, id: u128, player: PlayerView) -> bool {
        &&& next == (GameStateView { players: next.players, ..self })
        &&& if self.players.ids.len() == 0 {
            &&& next.players.ids == seq![id]
            &&& next.players.players.len() == 1
            &&& greeted_as_admin(player, next.players.players[0])
        } else {
            next.players == self.players.inserted(id, player)
        }
    }

    /// Whether `next` is this session after the player under `id` took the
    /// display name `name`. Nothing changes for an unknown identifier.
    pub open spec fn renamed(self, next: GameStateView, id: u128, name: Seq<char>) -> bool {
        &&& next == (GameStateView { players: next.players, ..self })
        &&& if self.players.contains(id) {
            let named = next.players.player(id);
            &&& named.name matches Some(text) && text@ == name
            &&& next.players == self.players.replaced(
                id,
                PlayerView { name: named.name, ..self.players.player(id) },
            )
        } else {
            next.players == self.players
        }
    }

    /// The session after the player under `id` said `text`: every other
    /// player is sent the line under the speaker's name. A player without a
    /// name is not heard, nor is an unknown identifier.
    pub open spec fn chatted(self, id: u128, text: String) -> GameStateView {
        if self.players.contains(id) && self.players.player(id).name.is_some() {
            GameStateView {
                players: self.players.delivered(
                    DynMessage {
                        sender: self.players.player(id).name,
                        action: Action::Message(text),
                    },
                    seq![id],
                ),
                ..self
            }
        } else {
            self
        }
    }

    /// Whether the player under `requester` may act on the running game: a
    /// game is being played, and it is their turn.
    pub open spec fn has_turn(self, requester: u128) -> bool {
        &&& self.phase == Phase::InGame
        &&& self.turn == requester
        &&& self.players.contains(requester)
    }

    /// Whether a play of `card` by `requester` is accepted: it is their
    /// turn, and the card may be laid on the facing card.
    pub open spec fn accepts(self, requester: u128, card: Card) -> bool {
        &&& self.has_turn(requester)
        &&& self.deck.accepts(card)
    }

    /// The session after `requester` asked to play `card`. An accepted play
    /// lays the card on the discard pile and passes the turn on; the
    /// requester is told that the play was accepted, then everyone is told
    /// the new facing card under the requester's name, then the next player
    /// is told that it is their turn. A rejected play changes nothing but
    /// that the requester is told so. Out of turn nothing happens at all.
    pub open spec fn played(self, requester: u128, card: Card) -> GameStateView {
        if !self.has_turn(requester) {
            self
        } else if self.accepts(requester, card) {
            let next = next_in_cycle(self.players.ids, self.direction, requester).unwrap();
            let top = DynMessage {
                sender: self.players.player(requester).name,
                action: Action::TopCard(card),
            };
            GameStateView {
                turn: next,
                deck: self.deck.with_played(card),
                players: self.players.sent(requester, server_msg(Action::AcceptPlayCard)).delivered(
                    top,
                    Seq::empty(),
                ).sent(next, server_msg(Action::YourTurn)),
                ..self
            }
        } else {
            GameStateView {
                players: self.players.sent(requester, server_msg(Action::DenyPlayCard)),
                ..self
            }
        }
    }

    /// Whether `next` is this session after `requester` asked for a card
    /// and got `drawn`. In turn, and while the deck can give a card, one is
    /// drawn, added to the requester's hand and sent to them alone; the
    /// turn stays with them. Otherwise nothing happens.
    pub open spec fn drew(self, next: GameStateView, requester: u128, drawn: Option<Card>) -> bool {
        if self.has_turn(requester) && self.deck.can_draw() {
            &&& drawn matches Some(card)
            &&& self.deck.drew(next.deck, card)
            &&& next.players == self.players.given(requester, card).sent(
                requester,
                server_msg(Action::DrawnCard(card)),
            )
            &&& next == (GameStateView { deck: next.deck, players: next.players, ..self })
        } else {
            drawn.is_none() && next == self
        }
    }

    /// The session after `requester` reported an empty hand: a running game
    /// ends. The report of an unknown player, or one made while no game is
    /// running, changes nothing.
    pub open spec fn won(self, requester: u128) -> GameStateView {
        if self.phase == Phase::InGame && self.players.contains(requester) {
            GameStateView { phase: Phase::Terminal, ..self }
        } else {
            self
        }
    }

    /// The session after the player under `id` has gone. Nothing else is
    /// repaired: the turn may rest with the one who left.
    pub open spec fn left(self, id: u128) -> GameStateView {
        GameStateView { players: self.players.removed(id), ..self }
    }
}

/// The other direction.
pub open spec fn opposite(direction: Direction) -> Direction {
    match direction {
        Direction::Forward => Direction::Backward,
        Direction::Backward => Direction::Forward,
    }
}

/// The identifier whose turn follows that of `curr`, where the identifiers
/// stand in a circle in the order of `ids`: forward it is the one behind
/// `curr`, backward the one before it. An identifier that is not in the
/// circle has no successor.
pub open spec fn next_in_cycle(ids: Seq<u128>, direction: Direction, curr: u128) -> Option<u128> {
    if !ids.contains(curr) {
        None
    } else {
        let i = ids.index_of(curr);
        Some(
            match direction {
                Direction::Forward => if i + 1 == ids.len() {
                    ids[0]
                } else {
                    ids[i + 1]
                },
                Direction::Backward => if i == 0 {
                    ids[ids.len() - 1]
                } else {
                    ids[i - 1]
                },
            },
        )
    }
}

/// In a circle without repetitions, each place holds the identifier that
/// is found there.
pub proof fn lemma_position(ids: Seq<u128>, k: int)
    requires
        ids.no_duplicates(),
        0 <= k < ids.len(),
    ensures
        ids.contains(ids[k]),
        ids.index_of(ids[k]) == k,
{
    let j = ids.index_of(ids[k]);
    assert(0 <= j < ids.len() && ids[j] == ids[k]);
}

/// One step in a direction and one step in the other lead back to where
/// they began, for every identifier in a circle without repetitions.
pub proof fn lemma_step_and_back(ids: Seq<u128>, direction: Direction, curr: u128)
    requires
        ids.no_duplicates(),
        ids.contains(curr),
    ensures
        next_in_cycle(ids, direction, curr) matches Some(next) && next_in_cycle(
            ids,
            opposite(direction),
            next,
        ) == Some(curr),
{
    let i = ids.index_of(curr);
    assert(0 <= i < ids.len() && ids[i] == curr);
    let j = match direction {
        Direction::Forward => if i + 1 == ids.len() {
            0
        } else {
            i + 1
        },
        Direction::Backward => if i == 0 {
            ids.len() - 1
        } else {
            i - 1
        },
    };
    lemma_position(ids, j);
}

/// Whoever follows is a member of the circle.
pub proof fn lemma_next_is_member(ids: Seq<u128>, direction: Direction, curr: u128)
    ensures
        next_in_cycle(ids, direction, curr) matches Some(next) ==> ids.contains(next),
{
    if ids.contains(curr) {
        let i = ids.index_of(curr);
        assert(0 <= i < ids.len() && ids[i] == curr);
    }
}

/// While the player whose turn it is stays registered, a request to play
/// leaves the turn with a registered player, and changes neither the
/// phase nor who is registered.
pub proof fn lemma_play_keeps_turn_registered(state: GameStateView, requester: u128, card: Card)
    requires
        state.players.wf(),
        state.players.contains(state.turn),
    ensures
        state.played(requester, card).phase == state.phase,
        state.played(requester, card).players.ids == state.players.ids,
        state.played(requester, card).players.contains(state.played(requester, card).turn),
        !state.accepts(requester, card) ==> state.played(requester, card).turn == state.turn,
{
    lemma_next_is_member(state.players.ids, state.direction, requester);
}

/// Once a player has left the registry, no turn passes to them, whoever
/// had the turn before.
pub proof fn lemma_removed_is_never_next(
    players: RegistryView,
    gone: u128,
    direction: Direction,
    curr: u128,
)
    requires
        players.wf(),
    ensures
        !players.removed(gone).contains(gone),
        next_in_cycle(players.removed(gone).ids, direction, curr) != Some(gone),
{
    let ids = players.ids;
    let rest = players.removed(gone).ids;
    if ids.contains(gone) {
        let i = ids.index_of(gone);
        assert(0 <= i < ids.len() && ids[i] == gone);
        if rest.contains(gone) {
            let k = choose|k: int| 0 <= k < rest.len() && rest[k] == gone;
            if k < i {
                assert(ids[k] == gone);
            } else {
                assert(ids[k + 1] == gone);
            }
        }
    }
    lemma_next_is_member(rest, direction, curr);
}

impl GameState {
    /// A session in the lobby: no players, an empty deck, play going
    /// forward.
    pub fn new() -> (state: Self)
        ensures
            state@.phase == Phase::Lobby,
            state@.turn == 0,
            state@.direction == Direction::Forward,
            state@.players.ids.len() == 0,
            state@.players.players.len() == 0,
            state@.deck.draw_pile.len() == 0,
            state@.deck.discard_pile.len() == 0,
            state@.deck.in_play.len() == 0,
    {
        GameState {
            phase: Phase::Lobby,
            turn: 0,
            deck: Deck::new(0),
            players: Registry::new(),
            direction: Direction::Forward,
        }
    }

    /// Whether a game is being played.
    pub fn in_game(&self) -> (playing: bool)
        ensures
            playing == (self@.phase == Phase::InGame),
    {
        self.phase == Phase::InGame
    }

    /// The direction of play.
    pub fn direction(&self) -> (direction: Direction)
        ensures
            direction == self@.direction,
    {
        self.direction
    }

    /// Turns the direction of play round. Whose turn it is does not change.
    pub fn reverse(&mut self)
        ensures
            final(self)@ == (GameStateView {
                direction: opposite(old(self)@.direction),
                ..old(self)@
            }),
    {
        self.direction =
        match &self.direction {
            Direction::Forward => Direction::Backward,
            Direction::Backward => Direction::Forward,
        }
    }

    /// The player whose turn follows that of `curr` in the present
    /// direction of play, or nothing where `curr` is not registered. A
    /// player who is alone follows themselves.
    pub fn after(&self, curr: u128) -> (next: Option<u128>)
        ensures
            next == next_in_cycle(self@.players.ids, self@.direction, curr),
            next.is_some() == self@.players.contains(curr),
            next matches Some(id) ==> self@.players.contains(id),
    {
        let count = self.players.count();
        match self.players.index_of(curr) {
            None => None,
            Some(i) => {
                let place = match self.direction {
                    Direction::Forward => if i + 1 == count {
                        0
                    } else {
                        i + 1
                    },
                    Direction::Backward => if i == 0 {
                        count - 1
                    } else {
                        i - 1
                    },
                };
                Some(self.players.id_at(place))
            },
        }
    }

    /// The number of players.
    pub fn num_players(&self) -> (count: usize)
        ensures
            self@.players.wf(),
            count == self@.players.ids.len(),
    {
        self.players.count()
    }
}

impl GameState {
    /// Puts `msg` into the queue of the player under `player_id`.
    pub fn send_msg(&mut self, player_id: u128, msg: &DynMessage) -> (delivered: bool)
        ensures
            delivered == old(self)@.players.contains(player_id),
            final(self)@ == (GameStateView {
                players: old(self)@.players.sent(player_id, *msg),
                ..old(self)@
            }),
    {
        self.players.send_msg(player_id, msg)
    }

    /// Registers `player` under `id`. Whoever joins an empty session
    /// becomes its admin.
    pub fn add_player(&mut self, id: u128, player: Player)
        ensures
            final(self)@ == (GameStateView {
                players: old(self)@.players.inserted(
                    id,
                    if old(self)@.players.ids.len() == 0 {
                        PlayerView { role: Role::Admin, ..player@ }
                    } else {
                        player@
                    },
                ),
                ..old(self)@
            }),
    {
        let mut player = player;
        if self.num_players() == 0 {
            player.set_admin();
        }
        let _ = self.players.insert(id, player);
    }

    /// Puts `msg` into the queue of every player.
    pub fn broadcast(&mut self, msg: DynMessage)
        ensures
            final(self)@ == (GameStateView {
                players: old(self)@.players.delivered(msg, Seq::empty()),
                ..old(self)@
            }),
    {
        let nobody: Vec<u128> = Vec::new();
        self.broadcast_but(msg, nobody.as_slice())
    }

    /// Puts `msg` into the queue of every player but those in `without`.
    pub fn broadcast_but(&mut self, msg: DynMessage, without: &[u128])
        ensures
            final(self)@ == (GameStateView {
                players: old(self)@.players.delivered(msg, without@),
                ..old(self)@
            }),
    {
        self.players.broadcast_but(&msg, without);
    }

    /// Takes the messages that wait for the player under `id`, oldest
    /// first, for their connection to write.
    pub fn take_outbox(&mut self, id: u128) -> (pending: Vec<DynMessage>)
        ensures
            old(self)@.players.contains(id) ==> pending@ == old(self)@.players.player(id).outbox,
            !old(self)@.players.contains(id) ==> pending@.len() == 0,
            final(self)@ == (GameStateView {
                players: old(self)@.players.replaced(
                    id,
                    PlayerView { outbox: Seq::empty(), ..old(self)@.players.player(id) },
                ),
                ..old(self)@
            }),
    {
        self.players.take_outbox(id)
    }

    /// A new connection joins under `id`.
    pub fn join(&mut self, id: u128, player: Player)
        ensures
            old(self)@.joined(final(self)@, id, player@),
    {
        let ghost joining = player@;
        let mut player = player;
        if self.num_players() == 0 {
            player.set_admin();
            player.send_msg(&DynMessage::broadcast(ADMIN_NOTICE));
            let ghost greeted = player@;
            let _ = self.players.insert(id, player);
            proof {
                assert(!old(self)@.players.contains(id));
                assert(self@.players.ids =~= seq![id]);
                assert(self@.players.players[0] == greeted);
                assert(greeted.outbox.drop_last() =~= joining.outbox);
            }
        } else {
            let _ = self.players.insert(id, player);
        }
    }

    /// The player under `id` takes the display name `name`.
    pub fn set_name(&mut self, id: u128, name: &str) -> (renamed: bool)
        ensures
            renamed == old(self)@.players.contains(id),
            old(self)@.renamed(final(self)@, id, name@),
    {
        self.players.set_name(id, name)
    }

    /// The player under `id` says `text` to all the others.
    pub fn chat(&mut self, id: u128, text: String)
        ensures
            final(self)@ == old(self)@.chatted(id, text),
    {
        let name = match self.players.get(id) {
            Some(player) => player.clone_name(),
            None => None,
        };
        if name.is_some() {
            let msg = DynMessage::new_msg(name, Action::Message(text));
            let mut without: Vec<u128> = Vec::new();
            without.push(id);
            assert(without@ =~= seq![id]);
            self.players.broadcast_but(&msg, without.as_slice());
        }
    }

    /// The player under `requester` reports an empty hand. The claim is
    /// taken at their word.
    pub fn report_win(&mut self, requester: u128) -> (accepted: bool)
        ensures
            accepted == (old(self)@.phase == Phase::InGame && old(self)@.players.contains(
                requester,
            )),
            final(self)@ == old(self)@.won(requester),
    {
        if self.in_game() && self.players.contains(requester) {
            self.phase = Phase::Terminal;
            true
        } else {
            false
        }
    }

    /// The connection of the player under `id` is gone: the player leaves
    /// the registry and is handed back.
    pub fn leave(&mut self, id: u128) -> (gone: Option<Player>)
        ensures
            gone.is_some() == old(self)@.players.contains(id),
            gone matches Some(player) ==> player@ == old(self)@.players.player(id),
            final(self)@ == old(self)@.left(id),
            !final(self)@.players.contains(id),
    {
        self.players.remove(id)
    }

    /// Whether the player under `requester` may act on the running game.
    pub fn has_turn(&self, requester: u128) -> (ok: bool)
        ensures
            ok == self@.has_turn(requester),
    {
        self.in_game() && self.turn == requester && self.players.contains(requester)
    }

    /// The player under `requester` asks to play `card`.
    pub fn play_card(&mut self, requester: u128, card: Card) -> (accepted: bool)
        ensures
            accepted == old(self)@.accepts(requester, card),
            final(self)@ == old(self)@.played(requester, card),
    {
        if !self.has_turn(requester) {
            return false;
        }
        let accepted = self.deck.play(card).is_some();
        if accepted {
            let next = self.after(requester).unwrap();
            self.turn = next;
            let name = match self.players.get(requester) {
                Some(player) => player.clone_name(),
                None => None,
            };
            let nobody: Vec<u128> = Vec::new();
            assert(nobody@ =~= Seq::<u128>::empty());
            self.players.send_msg(requester, &DynMessage::new_msg(None, Action::AcceptPlayCard));
            self.players.broadcast_but(
                &DynMessage::new_msg(name, Action::TopCard(card)),
                nobody.as_slice(),
            );
            self.players.send_msg(next, &DynMessage::new_msg(None, Action::YourTurn));
        } else {
            self.players.send_msg(requester, &DynMessage::new_msg(None, Action::DenyPlayCard));
        }
        accepted
    }

    /// The player under `requester` asks for a card from the draw pile.
    pub fn draw_card(&mut self, requester: u128) -> (drawn: Option<Card>)
        ensures
            old(self)@.drew(final(self)@, requester, drawn),
    {
        if !self.has_turn(requester) {
            return None;
        }
        match self.deck.try_draw() {
            Some(card) => {
                self.players.give_card(requester, card);
                self.players.send_msg(requester, &DynMessage::draw(card));
                Some(card)
            },
            None => None,
        }
    }
}

/// Gives the player at place `k` the seven cards of `hand` and tells them
/// that the game has started with these cards.
fn hand_out(players: &mut Registry, k: usize, hand: [Card; 7])
    requires
        k < old(players)@.ids.len(),
    ensures
        final(players)@.ids == old(players)@.ids,
        final(players)@.players == old(players)@.players.update(
            k as int,
            PlayerView {
                hand: old(players)@.players[k as int].hand + hand@,
                outbox: old(players)@.players[k as int].outbox.push(
                    server_msg(Action::Started(hand)),
                ),
                ..old(players)@.players[k as int]
            },
        ),
{
    let _ = players.count();
    let id = players.id_at(k);
    let ghost before = players@;
    proof {
        lemma_position(before.ids, k as int);
    }
    let mut c: usize = 0;
    while c < 7
        invariant
            c <= 7,
            before.wf(),
            k < before.ids.len(),
            id == before.ids[k as int],
            before.position(id) == k,
            before.contains(id),
            players@.ids == before.ids,
            players@.players == before.players.update(
                k as int,
                PlayerView {
                    hand: before.players[k as int].hand + hand@.take(c as int),
                    ..before.players[k as int]
                },
            ),
        decreases 7 - c,
    {
        let ghost now = players@;
        players.give_card(id, hand[c]);
        proof {
            assert(now.players[k as int].hand.push(hand@[c as int]) =~= before.players[k as int].hand
                + hand@.take(c + 1));
            assert(players@.players =~= before.players.update(
                k as int,
                PlayerView {
                    hand: before.players[k as int].hand + hand@.take(c + 1),
                    ..before.players[k as int]
                },
            ));
        }
        c += 1;
    }
    proof {
        assert(hand@.take(7) =~= hand@);
    }
    players.send_msg(id, &DynMessage::new_msg(None, Action::Started(hand)));
    proof {
        assert(players@.players =~= before.players.update(
            k as int,
            PlayerView {
                hand: before.players[k as int].hand + hand@,
                outbox: before.players[k as int].outbox.push(server_msg(Action::Started(hand))),
                ..before.players[k as int]
            },
        ));
    }
}

impl GameState {
    /// The player under `requester` asks for the game to start.
    pub fn start(&mut self, requester: u128) -> (started: bool)
        ensures
            started == old(self)@.may_start(requester),
            old(self)@.started(final(self)@, requester),
    {
        let admin = match self.players.get(requester) {
            Some(player) => player.role() == Role::Admin,
            None => false,
        };
        if self.phase != Phase::Lobby || !admin {
            return false;
        }
        let n = self.players.count();
        let ghost before = self.players@;
        proof {
            let i = before.ids.index_of(requester);
            assert(0 <= i < before.ids.len());
        }
        self.phase = Phase::InGame;
        self.turn = requester;
        self.deck = Deck::new(n);
        let ghost fresh = self.deck@.draw_pile;
        proof {
            assert(new_cards(before.players.take(0), self.players@.players.take(0))
                =~= Seq::<Card>::empty());
            assert(Seq::<Card>::empty().to_multiset() =~= Multiset::<Card>::empty()) by {
                broadcast use group_to_multiset_ensures;

            }
            assert(fresh.to_multiset().add(Multiset::<Card>::empty()) =~= fresh.to_multiset());
        }
        let mut k: usize = 0;
        while k < n
            invariant
                k <= n,
                n >= 1,
                n == before.ids.len(),
                before.wf(),
                self.phase == Phase::InGame,
                self.turn == requester,
                self.direction == old(self).direction,
                self.players@.ids == before.ids,
                self.players@.players.len() == n,
                self.deck@.draw_pile.len() == 108 * n - 7 * k,
                self.deck@.discard_pile.len() == 0,
                self.deck@.in_play.len() == 0,
                forall|j: int|
                    0 <= j < k ==> handed(before.players[j], #[trigger] self.players@.players[j]),
                forall|j: int| k <= j < n ==> #[trigger] self.players@.players[j] == before.players[j],
                self.deck@.draw_pile.to_multiset().add(
                    new_cards(
                        before.players.take(k as int),
                        self.players@.players.take(k as int),
                    ).to_multiset(),
                ) == fresh.to_multiset(),
            decreases n - k,
        {
            let ghost deck_then = self.deck@;
            let ghost then = self.players@.players;
            let hand = self.deck.deal();
            hand_out(&mut self.players, k, hand);
            proof {
                let now = self.players@.players;
                let given = now[k as int];
                lemma_deal_conserves(deck_then, self.deck@, hand@);
                assert(given.hand.skip(before.players[k as int].hand.len() as int) =~= hand@);
                assert(given.hand.take(before.players[k as int].hand.len() as int)
                    =~= before.players[k as int].hand);
                assert(given.outbox.drop_last() =~= before.players[k as int].outbox);
                assert(before.players.take(k + 1).drop_last() =~= before.players.take(k as int));
                assert(now.take(k + 1).drop_last() =~= then.take(k as int));
                assert(new_cards(before.players.take(k + 1), now.take(k + 1)) == new_cards(
                    before.players.take(k as int),
                    then.take(k as int),
                ) + hand@);
                lemma_multiset_commutative(
                    new_cards(before.players.take(k as int), then.take(k as int)),
                    hand@,
                );
                assert(self.deck@.draw_pile.to_multiset().add(
                    new_cards(before.players.take(k + 1), now.take(k + 1)).to_multiset(),
                ) =~= fresh.to_multiset());
            }
            k += 1;
        }
        let ghost dealt = self.players@.players;
        let ghost pile = self.deck@.draw_pile;
        self.deck.start_game();
        let top = *self.deck.get_facing().unwrap();
        let nobody: Vec<u128> = Vec::new();
        self.players.broadcast_but(&DynMessage::top_card(top), nobody.as_slice());
        proof {
            broadcast use group_to_multiset_ensures;

            let now = self.players@.players;
            assert(nobody@ =~= Seq::<u128>::empty());
            assert forall|j: int| 0 <= j < n implies dealt_in(
                before.players[j],
                #[trigger] now[j],
                self.deck@.discard_pile[0],
            ) by {
                assert(now[j] == dealt[j].with_msg(server_msg(Action::TopCard(top))));
                assert(now[j].outbox.drop_last() =~= dealt[j].outbox);
                assert(handed(before.players[j], dealt[j]));
            }
            assert(before.players.take(n as int) =~= before.players);
            assert(dealt.take(n as int) =~= dealt);
            lemma_new_cards_by_hands(before.players, dealt, now);
            assert(pile =~= self.deck@.draw_pile.push(top));
            assert(self.deck@.discard_pile =~= Seq::<Card>::empty().push(top));
            assert(Seq::<Card>::empty().to_multiset() =~= Multiset::<Card>::empty());
            assert(self.deck@.piles() =~= pile.to_multiset());
            assert forall|card: Card|
                #[trigger] self.deck@.piles().count(card) + new_cards(
                    before.players,
                    now,
                ).to_multiset().count(card) == n * standard_count(card) by {
                assert(fresh.to_multiset().count(card) == n * standard_count(card));
                assert(pile.to_multiset().add(
                    new_cards(before.players, dealt).to_multiset(),
                ).count(card) == fresh.to_multiset().count(card));
            }
        }
        true
    }
}

} // verus!
