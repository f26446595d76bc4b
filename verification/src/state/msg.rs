//! The messages that server and clients exchange.

use crate::game::card::Card;
use vstd::prelude::*;
use vstd::string::*;

verus! {

/// What a message asks for or reports.
#[derive(Debug, PartialEq, Eq)]
pub enum Action {
    /// A line of chat.
    Message(String),
    /// The sender lays a card; a wild card already bears its chosen colour.
    PlayCard(Card),
    /// The play was accepted.
    AcceptPlayCard,
    /// The play was rejected.
    DenyPlayCard,
    /// The sender reports an empty hand.
    Win,
    /// The sender asks for a card from the draw pile.
    DrawCard,
    /// The card that was drawn for the receiver.
    DrawnCard(Card),
    /// The admin asks for the game to start.
    Start,
    /// The game has started, and these are the receiver's cards.
    Started([Card; 7]),
    /// The card that now faces the players.
    TopCard(Card),
    /// The sender chooses a display name.
    SetName(String),
    /// It is the receiver's turn.
    YourTurn,
    /// The receiver's turn was skipped.
    Skipped,
    /// The receiver has to take these four cards.
    DrawFour([Card; 4]),
    /// The receiver has to take these two cards.
    DrawTwo([Card; 2]),
}

/// A message on the wire: an action, and the display name of the player it
/// comes from. A message of the server itself has no sender.
#[derive(Debug, PartialEq, Eq)]
pub struct DynMessage {
    pub sender: Option<String>,
    pub action: Action,
}

impl Clone for Action {
    fn clone(&self) -> (copy: Self)
        ensures
            copy == *self,
    {
        match self {
            Action::Message(text) => Action::Message(text.clone()),
            Action::PlayCard(card) => Action::PlayCard(*card),
            Action::AcceptPlayCard => Action::AcceptPlayCard,
            Action::DenyPlayCard => Action::DenyPlayCard,
            Action::Win => Action::Win,
            Action::DrawCard => Action::DrawCard,
            Action::DrawnCard(card) => Action::DrawnCard(*card),
            Action::Start => Action::Start,
            Action::Started(hand) => Action::Started(*hand),
            Action::TopCard(card) => Action::TopCard(*card),
            Action::SetName(name) => Action::SetName(name.clone()),
            Action::YourTurn => Action::YourTurn,
            Action::Skipped => Action::Skipped,
            Action::DrawFour(cards) => Action::DrawFour(*cards),
            Action::DrawTwo(cards) => Action::DrawTwo(*cards),
        }
    }
}

impl Clone for DynMessage {
    fn clone(&self) -> (copy: Self)
        ensures
            copy == *self,
    {
        let sender = match &self.sender {
            Some(name) => Some(name.clone()),
            None => None,
        };
        DynMessage { sender, action: self.action.clone() }
    }
}

impl DynMessage {
    /// A message with the given sender and action.
    pub fn new_msg(from: Option<String>, action: Action) -> (msg: Self)
        ensures
            msg.sender == from,
            msg.action == action,
    {
        Self { sender: from, action }
    }

    /// A line of chat from the server itself.
    pub fn broadcast(text: &str) -> (msg: Self)
        ensures
            msg.sender.is_none(),
            msg.action matches Action::Message(line) && line@ == text@,
    {
        Self { sender: None, action: Action::Message(String::from_str(text)) }
    }

    /// Tells a player which card was drawn for them.
    pub fn draw(drawn: Card) -> (msg: Self)
        ensures
            msg.sender.is_none(),
            msg.action == Action::DrawnCard(drawn),
    {
        Self { sender: None, action: Action::DrawnCard(drawn) }
    }

    /// Tells the players which card now faces them.
    pub fn top_card(top: Card) -> (msg: Self)
        ensures
            msg.sender.is_none(),
            msg.action == Action::TopCard(top),
    {
        Self { sender: None, action: Action::TopCard(top) }
    }
}

} // verus!
