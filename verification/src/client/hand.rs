//! The hand as a client keeps it: the cards it was sent, and the card it
//! has asked to play and not yet heard about.

use crate::game::card::{Card, Color};
use crate::state::msg::Action;
use vstd::prelude::*;

verus! {

/// The cards a client holds. `last_choice` is the place of the card whose
/// play is waiting for the server's answer.
pub struct Hand {
    pub cards: Vec<Card>,
    pub last_choice: Option<usize>,
}

/// The card as it is sent when it is played: a card of the wild family that
/// has no colour yet takes the colour `wild`, every other card goes as it
/// is.
pub open spec fn resolved(card: Card, wild: Color) -> Card {
    match card {
        Card::Wild(Color::Unset) => Card::Wild(wild),
        Card::DrawFour(Color::Unset) => Card::DrawFour(wild),
        _ => card,
    }
}

/// Whether the card at place `selected` can be sent: there is such a card,
/// and it has a colour once `wild` is taken for an open one.
pub open spec fn can_select(cards: Seq<Card>, selected: usize, wild: Color) -> bool {
    &&& selected < cards.len()
    &&& resolved(cards[selected as int], wild).spec_color() != Color::Unset
}

impl Default for Hand {
    fn default() -> (hand: Self)
        ensures
            hand.cards@.len() == 0,
            hand.last_choice.is_none(),
    {
        Hand { cards: Vec::new(), last_choice: None }
    }
}

impl Hand {
    /// Adds the cards that the server has sent, in their order.
    pub fn add(&mut self, cards: &[Card])
        ensures
            final(self).cards@ == old(self).cards@ + cards@,
            final(self).last_choice == old(self).last_choice,
    {
        let mut i: usize = 0;
        while i < cards.len()
            invariant
                i <= cards@.len(),
                self.cards@ == old(self).cards@ + cards@.take(i as int),
                self.last_choice == old(self).last_choice,
            decreases cards@.len() - i,
        {
            self.cards.push(cards[i]);
            assert(self.cards@ =~= old(self).cards@ + cards@.take(i + 1));
            i += 1;
        }
        assert(cards@.take(cards@.len() as int) =~= cards@);
    }

    /// Picks the card at place `selected` to be played, with `wild` as
    /// the colour for a card that has none yet. Where the card can be
    /// sent, the choice is remembered and the request to play it comes
    /// back. Otherwise nothing is chosen.
    pub fn select(&mut self, selected: usize, wild: Color) -> (request: Option<Action>)
        ensures
            final(self).cards@ == old(self).cards@,
            can_select(old(self).cards@, selected, wild) ==> {
                &&& final(self).last_choice == Some(selected)
                &&& request == Some(
                    Action::PlayCard(resolved(old(self).cards@[selected as int], wild)),
                )
            },
            !can_select(old(self).cards@, selected, wild) ==> {
                &&& final(self).last_choice == old(self).last_choice
                &&& request.is_none()
            },
    {
        if selected >= self.cards.len() {
            return None;
        }
        let chosen_card = self.cards[selected];
        let card = match chosen_card {
            Card::DrawFour(Color::Unset) => Card::DrawFour(wild),
            Card::Wild(Color::Unset) => Card::Wild(wild),
            _ => chosen_card,
        };
        if card.color() == Color::Unset {
            None
        } else {
            self.last_choice = Some(selected);
            Some(Action::PlayCard(card))
        }
    }

    /// The server has accepted the play: the chosen card leaves the hand.
    /// Says whether a card left and the hand is empty now.
    pub fn accept(&mut self) -> (won: bool)
        ensures
            final(self).last_choice.is_none(),
            final(self).cards@ == match old(self).last_choice {
                Some(choice) if choice < old(self).cards@.len() => old(self).cards@.remove(
                    choice as int,
                ),
                _ => old(self).cards@,
            },
            won == (old(self).last_choice.is_some() && final(self).cards@.len() == 0),
    {
        match self.last_choice {
            Some(choice) => {
                if choice < self.cards.len() {
                    let _ = self.cards.remove(choice);
                }
                self.last_choice = None;
                self.cards.len() == 0
            },
            None => false,
        }
    }

    /// The server has rejected the play: the choice is forgotten.
    pub fn deny(&mut self)
        ensures
            final(self).last_choice.is_none(),
            final(self).cards@ == old(self).cards@,
    {
        self.last_choice = None;
    }

    /// The round is over: the cards go.
    pub fn clear(&mut self)
        ensures
            final(self).cards@.len() == 0,
            final(self).last_choice == old(self).last_choice,
    {
        self.cards = Vec::new();
    }
}

} // verus!
