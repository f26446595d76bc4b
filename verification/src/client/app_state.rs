//! What a client shows and remembers: the screen it is on, what was typed,
//! the lines of the chat, its hand and the facing card, and how all of that
//! changes when a message of the server arrives.

use super::hand::{can_select, resolved, Hand};
use crate::game::card::{card_text, Card, Color};
use crate::state::msg::{Action, DynMessage};
use std::collections::VecDeque;
use vstd::prelude::*;
use vstd::string::*;

verus! {

/// The screen a client is on.
#[derive(Copy, Clone, Debug, PartialEq, Eq, Structural)]
pub enum Screen {
    /// The player types their name.
    Input,
    /// The lobby and its chat.
    Action,
    /// The game.
    InGame,
}

/// The state of a client.
pub struct AppState {
    pub screen: Screen,
    /// The name as it is typed.
    pub input: String,
    /// The line of chat as it is typed.
    pub chat_input: String,
    /// The lines of the chat, oldest first.
    pub messages: VecDeque<String>,
    pub hand: Hand,
    /// The card that faces the players.
    pub top_card: Card,
    /// The place in the hand that the cursor is on.
    pub selected: usize,
    /// The colour picked for the next wild card.
    pub wild_color: Color,
    /// Whether the hand was emptied by an accepted play.
    pub won: bool,
}

/// A client's state as the contracts see it: texts as their characters,
/// and the hand laid open.
pub ghost struct AppStateView {
    pub screen: Screen,
    pub input: Seq<char>,
    pub chat_input: Seq<char>,
    pub messages: Seq<Seq<char>>,
    pub cards: Seq<Card>,
    pub last_choice: Option<usize>,
    pub top_card: Card,
    pub selected: usize,
    pub wild_color: Color,
    pub won: bool,
}

impl View for AppState {
    type V = AppStateView;

    open spec fn view(&self) -> AppStateView {
        AppStateView {
            screen: self.screen,
            input: self.input@,
            chat_input: self.chat_input@,
            messages: Seq::new(self.messages@.len(), |i: int| self.messages@[i]@),
            cards: self.hand.cards@,
            last_choice: self.hand.last_choice,
            top_card: self.top_card,
            selected: self.selected,
            wild_color: self.wild_color,
            won: self.won,
        }
    }
}

/// What stands before a line that a player has sent: their name and a
/// colon. A line of the server has nothing before it.
pub open spec fn prefix(sender: Option<String>) -> Seq<char> {
    match sender {
        Some(name) => name@ + ": "@,
        None => Seq::empty(),
    }
}

impl AppStateView {
    /// The state with one more line of chat.
    pub open spec fn with_line(self, line: Seq<char>) -> AppStateView {
        AppStateView { messages: self.messages.push(line), ..self }
    }

    /// The state with more cards in the hand.
    pub open spec fn with_cards(self, cards: Seq<Card>) -> AppStateView {
        AppStateView { cards: self.cards + cards, ..self }
    }

    /// The state after a message of the server has arrived. Chat and the
    /// notices of the server become lines of the chat; cards that are sent
    /// join the hand; the start of a game opens the game screen; an
    /// accepted play takes the chosen card out of the hand, and an empty
    /// hand after that is a win; a rejected play only forgets the choice;
    /// the end of a round empties the hand and leads back to the lobby. A
    /// message that only clients send changes nothing.
    pub open spec fn received(self, msg: DynMessage) -> AppStateView {
        match msg.action {
            Action::Message(text) => self.with_line(prefix(msg.sender) + text@),
            Action::Started(cards) => AppStateView {
                screen: Screen::InGame,
                ..self.with_cards(cards@)
            },
            Action::TopCard(card) => AppStateView { top_card: card, ..self },
            Action::DrawnCard(card) => self.with_cards(seq![card]),
            Action::AcceptPlayCard => match self.last_choice {
                Some(choice) => {
                    let cards = if choice < self.cards.len() {
                        self.cards.remove(choice as int)
                    } else {
                        self.cards
                    };
                    AppStateView {
                        cards,
                        last_choice: None,
                        won: self.won || cards.len() == 0,
                        ..self
                    }
                },
                None => self,
            },
            Action::PlayCard(card) => self.with_line(
                prefix(msg.sender) + " played "@ + card_text(card),
            ),
            Action::DenyPlayCard => AppStateView { last_choice: None, ..self },
            Action::YourTurn => self.with_line("It's your turn!"@),
            Action::Skipped => self.with_line("YOU GOT SKIPPED BOY"@),
            Action::DrawFour(cards) => self.with_cards(cards@),
            Action::DrawTwo(cards) => self.with_cards(cards@),
            Action::Win => AppStateView {
                won: false,
                cards: Seq::empty(),
                screen: Screen::Action,
                ..self
            },
            _ => self,
        }
    }
}

/// What stands before a line that a player has sent.
fn begin_line(sender: &Option<String>) -> (text: String)
    ensures
        text@ == prefix(*sender),
{
    match sender {
        Some(name) => {
            let mut text = name.clone();
            text.append(": ");
            text
        },
        None => String::new(),
    }
}

impl AppState {
    /// The state of a client that has just been opened: on the screen for
    /// the name, with nothing typed, no chat and no cards.
    pub fn new() -> (state: Self)
        ensures
            state@ == (AppStateView {
                screen: Screen::Input,
                input: Seq::empty(),
                chat_input: Seq::empty(),
                messages: Seq::empty(),
                cards: Seq::empty(),
                last_choice: None,
                top_card: Card::Wild(Color::Red),
                selected: 0,
                wild_color: Color::Unset,
                won: false,
            }),
    {
        let state = AppState {
            screen: Screen::Input,
            input: String::new(),
            chat_input: String::new(),
            messages: VecDeque::new(),
            hand: Hand::default(),
            top_card: Card::Wild(Color::Red),
            selected: 0,
            wild_color: Color::Unset,
            won: false,
        };
        assert(state@.messages =~= Seq::empty());
        assert(state@.cards =~= Seq::empty());
        state
    }

    /// Adds a line to the chat.
    fn push_line(&mut self, line: String)
        ensures
            final(self)@ == old(self)@.with_line(line@),
    {
        self.messages.push_back(line);
        assert(self@.messages =~= old(self)@.messages.push(line@));
    }

    /// Takes in a message of the server.
    pub fn receive(&mut self, msg: DynMessage)
        ensures
            final(self)@ == old(self)@.received(msg),
    {
        let begin_msg = begin_line(&msg.sender);
        match msg.action {
            Action::Message(text) => {
                let mut line = begin_msg;
                line.append(text.as_str());
                self.push_line(line);
            },
            Action::Started(starting_cards) => {
                self.hand.add(starting_cards.as_slice());
                self.screen = Screen::InGame;
            },
            Action::TopCard(card) => {
                self.top_card = card;
            },
            Action::DrawnCard(card) => {
                self.hand.cards.push(card);
                assert(self@.cards =~= old(self)@.cards + seq![card]);
            },
            Action::AcceptPlayCard => {
                if self.hand.last_choice.is_some() {
                    if self.hand.accept() {
                        self.won = true;
                    }
                }
            },
            Action::PlayCard(card) => {
                let mut line = begin_msg;
                line.append(" played ");
                line.append(card.to_string().as_str());
                self.push_line(line);
            },
            Action::DenyPlayCard => {
                self.hand.deny();
            },
            Action::YourTurn => {
                self.push_line(String::from_str("It's your turn!"));
            },
            Action::Skipped => {
                self.push_line(String::from_str("YOU GOT SKIPPED BOY"));
            },
            Action::DrawFour(cards) => {
                self.hand.add(cards.as_slice());
            },
            Action::DrawTwo(cards) => {
                self.hand.add(cards.as_slice());
            },
            Action::Win => {
                self.won = false;
                self.hand.clear();
                self.screen = Screen::Action;
                assert(self@.cards =~= Seq::empty());
            },
            Action::Start | Action::DrawCard | Action::SetName(_) => {},
        }
    }

    /// Moves the cursor one card to the left, and from the first card to
    /// the last. With an empty hand it stays where it is.
    pub fn select_left(&mut self)
        ensures
            final(self)@ == (AppStateView {
                selected: if old(self)@.cards.len() == 0 {
                    old(self)@.selected
                } else if old(self)@.selected == 0 {
                    (old(self)@.cards.len() - 1) as usize
                } else {
                    (old(self)@.selected - 1) as usize
                },
                ..old(self)@
            }),
    {
        if self.hand.cards.len() == 0 {
        } else if self.selected == 0 {
            self.selected = self.hand.cards.len() - 1;
        } else {
            self.selected -= 1;
        }
    }

    /// Moves the cursor one card to the right, and from the last card, or
    /// from beyond it, to the first. With an empty hand it stays where it
    /// is.
    pub fn select_right(&mut self)
        ensures
            final(self)@ == (AppStateView {
                selected: if old(self)@.cards.len() == 0 {
                    old(self)@.selected
                } else if old(self)@.selected >= old(self)@.cards.len() - 1 {
                    0
                } else {
                    (old(self)@.selected + 1) as usize
                },
                ..old(self)@
            }),
    {
        if self.hand.cards.len() == 0 {
        } else if self.selected >= self.hand.cards.len() - 1 {
            self.selected = 0;
        } else {
            self.selected += 1;
        }
    }

    /// Asks to play the card under the cursor, with the colour that was
    /// picked for a wild card. Where that card can be sent, the choice is
    /// remembered and the request comes back.
    pub fn play_selected(&mut self) -> (request: Option<Action>)
        ensures
            can_select(old(self)@.cards, old(self)@.selected, old(self)@.wild_color) ==> {
                &&& request == Some(
                    Action::PlayCard(
                        resolved(
                            old(self)@.cards[old(self)@.selected as int],
                            old(self)@.wild_color,
                        ),
                    ),
                )
                &&& final(self)@ == (AppStateView {
                    last_choice: Some(old(self)@.selected),
                    ..old(self)@
                })
            },
            !can_select(old(self)@.cards, old(self)@.selected, old(self)@.wild_color) ==> {
                &&& request.is_none()
                &&& final(self)@ == old(self)@
            },
    {
        self.hand.select(self.selected, self.wild_color)
    }
}

} // verus!
