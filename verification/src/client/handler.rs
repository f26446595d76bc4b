//! The dispatch of one connection: a player joins, the actions that arrive
//! from them are applied to the session, and in the end they leave. Reading
//! and writing the connection is left to the caller, who hands in each
//! action as it was decoded and takes the messages that wait for each
//! player out of the session afterwards.

use crate::game::card::Card;
use crate::state::msg::Action;
use crate::state::player::{fresh_id, is_random_uuid, Player, PlayerView, Role};
use crate::state::state_man::{GameState, GameStateView};
use vstd::prelude::*;

verus! {

/// A player as they are when their connection has just been opened.
pub open spec fn is_newcomer(player: PlayerView) -> bool {
    &&& is_random_uuid(player.id)
    &&& player.role == Role::User
    &&& player.name.is_none()
    &&& player.hand.len() == 0
    &&& player.outbox.len() == 0
    &&& player.txt_color.0 >= 1
    &&& player.txt_color.1 >= 1
    &&& player.txt_color.2 >= 1
}

/// Whether `after` is the session `before` once `action`, sent by the
/// player under `id`, has been applied. An action that only the server
/// sends changes nothing when it arrives from a client.
pub open spec fn handled(
    before: GameStateView,
    after: GameStateView,
    id: u128,
    action: Action,
) -> bool {
    match action {
        Action::Message(text) => after == before.chatted(id, text),
        Action::Start => before.started(after, id),
        Action::Win => after == before.won(id),
        Action::DrawCard => exists|drawn: Option<Card>| before.drew(after, id, drawn),
        Action::PlayCard(card) => after == before.played(id, card),
        Action::SetName(name) => before.renamed(after, id, name@),
        _ => after == before,
    }
}

/// A new connection: a player is made for it and joins the session under a
/// new random identifier, which is handed back.
pub fn connect(state: &mut GameState) -> (id: u128)
    ensures
        is_random_uuid(id),
        exists|player: PlayerView|
            is_newcomer(player) && #[trigger] old(state)@.joined(final(state)@, id, player),
{
    let id = fresh_id();
    let player = Player::new();
    let ghost joining = player@;
    state.join(id, player);
    assert(old(state)@.joined(state@, id, joining));
    id
}

/// Applies one action that the player under `player_id` has sent.
pub fn handle_action(state: &mut GameState, player_id: u128, action: Action)
    ensures
        handled(old(state)@, final(state)@, player_id, action),
{
    match action {
        Action::Message(txt) => {
            state.chat(player_id, txt);
        },
        Action::Start => {
            let _ = state.start(player_id);
        },
        Action::Win => {
            let _ = state.report_win(player_id);
        },
        Action::DrawCard => {
            let drawn = state.draw_card(player_id);
            assert(old(state)@.drew(state@, player_id, drawn));
        },
        Action::PlayCard(card) => {
            let _ = state.play_card(player_id, card);
        },
        Action::SetName(name) => {
            let _ = state.set_name(player_id, name.as_str());
        },
        Action::DrawnCard(_)
        | Action::TopCard(_)
        | Action::Started(_)
        | Action::AcceptPlayCard
        | Action::DenyPlayCard
        | Action::YourTurn
        | Action::Skipped
        | Action::DrawFour(_)
        | Action::DrawTwo(_) => {},
    }
}

/// The connection of the player under `player_id` is closed.
pub fn disconnect(state: &mut GameState, player_id: u128)
    ensures
        final(state)@ == old(state)@.left(player_id),
        !final(state)@.players.contains(player_id),
{
    let _ = state.leave(player_id);
}

} // verus!
