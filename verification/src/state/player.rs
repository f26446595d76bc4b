//! One participant of a session: who they are, what they hold, and the
//! queue of messages that waits to be written to their connection.

use super::msg::DynMessage;
use crate::game::card::Card;
use rand::Rng;
use uuid::Uuid;
use vstd::prelude::*;
use vstd::std_specs::cmp::PartialEqSpecImpl;
use vstd::string::*;

verus! {

/// What a player is allowed to do in the lobby.
#[derive(Clone, Copy, Debug, PartialEq, Eq, Structural)]
pub enum Role {
    Admin,
    User,
}

/// A connected player. Two players are the same where their identifiers
/// are, whatever else they hold.
#[derive(Debug)]
pub struct Player {
    id: u128,
    pub role: Role,
    txt_color: (u8, u8, u8),
    outbox: Vec<DynMessage>,
    pub name: Option<String>,
    hand: Vec<Card>,
}

/// What a player is, as the contracts see it.
pub ghost struct PlayerView {
    /// The player's own identifier.
    pub id: u128,
    pub role: Role,
    /// The colour in which the player's lines are shown.
    pub txt_color: (u8, u8, u8),
    /// The display name, once chosen.
    pub name: Option<String>,
    /// The cards in the player's hand, in the order in which they came.
    pub hand: Seq<Card>,
    /// The messages that wait to be written to the player's connection,
    /// oldest first.
    pub outbox: Seq<DynMessage>,
}

impl PlayerView {
    /// The same player with `message` appended to the queue.
    pub open spec fn with_msg(self, message: DynMessage) -> PlayerView {
        PlayerView { outbox: self.outbox.push(message), ..self }
    }

    /// The same player with `card` added to the hand.
    pub open spec fn with_card(self, card: Card) -> PlayerView {
        PlayerView { hand: self.hand.push(card), ..self }
    }
}

impl View for Player {
    type V = PlayerView;

    closed spec fn view(&self) -> PlayerView {
        PlayerView {
            id: self.id,
            role: self.role,
            txt_color: self.txt_color,
            name: self.name,
            hand: self.hand@,
            outbox: self.outbox@,
        }
    }
}

impl Clone for Player {
    /// A copy of the player, with copies of the cards they hold and of the
    /// messages that wait for them.
    fn clone(&self) -> (copy: Self)
        ensures
            copy@ == self@,
    {
        let mut outbox: Vec<DynMessage> = Vec::new();
        let mut i: usize = 0;
        while i < self.outbox.len()
            invariant
                i <= self.outbox@.len(),
                outbox@ == self.outbox@.take(i as int),
            decreases self.outbox@.len() - i,
        {
            outbox.push(self.outbox[i].clone());
            assert(outbox@ =~= self.outbox@.take(i + 1));
            i += 1;
        }
        assert(outbox@ =~= self.outbox@);
        let mut hand: Vec<Card> = Vec::new();
        let mut k: usize = 0;
        while k < self.hand.len()
            invariant
                k <= self.hand@.len(),
                hand@ == self.hand@.take(k as int),
            decreases self.hand@.len() - k,
        {
            hand.push(self.hand[k]);
            assert(hand@ =~= self.hand@.take(k + 1));
            k += 1;
        }
        assert(hand@ =~= self.hand@);
        Self {
            id: self.id,
            role: self.role,
            txt_color: self.txt_color,
            outbox,
            name: self.clone_name(),
            hand,
        }
    }
}

impl PartialEq for Player {
    fn eq(&self, other: &Self) -> (same: bool) {
        self.id == other.id
    }
}

impl PartialEqSpecImpl for Player {
    open spec fn obeys_eq_spec() -> bool {
        true
    }

    open spec fn eq_spec(&self, other: &Self) -> bool {
        self@.id == other@.id
    }
}

/// Whether `id` has the version and variant bits of a random UUID.
pub open spec fn is_random_uuid(id: u128) -> bool {
    id & 0x0000_0000_0000_f000_c000_0000_0000_0000u128
        == 0x0000_0000_0000_4000_8000_0000_0000_0000u128
}

/// Draws a new identifier with `uuid`'s `Uuid::new_v4` and hands it out as
/// the 128-bit number that `Uuid::as_u128` gives. The number is random; the
/// contract claims only the version and variant bits that `new_v4` sets in
/// every identifier it makes.
#[verifier::external_body]
pub(crate) fn fresh_id() -> (id: u128)
    ensures
        is_random_uuid(id),
{
    Uuid::new_v4().as_u128()
}

/// Draws a number from `low` to `high`, both included, with `rand`'s
/// `Rng::gen_range` on the thread's generator. Which number comes out is
/// left open; the contract claims only that it lies in the range, which
/// must not be empty.
#[verifier::external_body]
fn random_in(low: u8, high: u8) -> (number: u8)
    requires
        low <= high,
    ensures
        low <= number <= high,
{
    rand::thread_rng().gen_range(low..=high)
}

/// A random text colour, none of whose channels is zero.
fn gen_color() -> (color: (u8, u8, u8))
    ensures
        color.0 >= 1,
        color.1 >= 1,
        color.2 >= 1,
{
    (random_in(1, 255), random_in(1, 255), random_in(1, 255))
}

impl Player {
    /// A player who has just connected: an ordinary user without a name,
    /// without cards and without messages, under a new random identifier
    /// and with a random text colour.
    pub fn new() -> (player: Self)
        ensures
            is_random_uuid(player@.id),
            player@.role == Role::User,
            player@.name.is_none(),
            player@.hand.len() == 0,
            player@.outbox.len() == 0,
            player@.txt_color.0 >= 1,
            player@.txt_color.1 >= 1,
            player@.txt_color.2 >= 1,
    {
        Self {
            id: fresh_id(),
            outbox: Vec::new(),
            name: None,
            txt_color: gen_color(),
            hand: Vec::new(),
            role: Role::User,
        }
    }

    /// The player's own identifier.
    pub fn id(&self) -> (id: u128)
        ensures
            id == self@.id,
    {
        self.id
    }

    /// The player's role.
    pub fn role(&self) -> (role: Role)
        ensures
            role == self@.role,
    {
        self.role
    }

    /// Makes the player the admin of the session.
    pub fn set_admin(&mut self)
        ensures
            final(self)@ == (PlayerView { role: Role::Admin, ..old(self)@ }),
    {
        self.role = Role::Admin
    }

    pub fn get_color(&self) -> (color: (u8, u8, u8))
        ensures
            color == self@.txt_color,
    {
        self.txt_color
    }

    /// The display name, once the player has chosen one.
    pub fn get_name(&self) -> (name: Option<&str>)
        ensures
            name.is_some() == self@.name.is_some(),
            name matches Some(text) ==> text@ == self@.name.unwrap()@,
    {
        match &self.name {
            Some(inner_name) => Some(inner_name.as_str()),
            None => None,
        }
    }

    /// A copy of the display name.
    pub fn clone_name(&self) -> (name: Option<String>)
        ensures
            name == self@.name,
    {
        match &self.name {
            Some(inner_name) => Some(inner_name.clone()),
            None => None,
        }
    }

    /// Gives the player a new display name and hands back the one they had.
    pub fn set_name(&mut self, new_name: &str) -> (previous: Option<String>)
        ensures
            previous == old(self)@.name,
            final(self)@.name matches Some(name) && name@ == new_name@,
            final(self)@ == (PlayerView { name: final(self)@.name, ..old(self)@ }),
    {
        let tmp_name = self.name.take();
        self.name = Some(String::from_str(new_name));

        tmp_name
    }

    /// Appends a copy of `message` to the player's queue. The queue is
    /// unbounded, so this always succeeds.
    pub fn send_msg(&mut self, message: &DynMessage)
        ensures
            final(self)@ == old(self)@.with_msg(*message),
    {
        self.outbox.push(message.clone());
    }

    /// Empties the queue and hands out what was in it, oldest first, for
    /// the connection to write.
    pub fn take_outbox(&mut self) -> (pending: Vec<DynMessage>)
        ensures
            pending@ == old(self)@.outbox,
            final(self)@ == (PlayerView { outbox: Seq::empty(), ..old(self)@ }),
    {
        let mut pending: Vec<DynMessage> = Vec::new();
        pending.append(&mut self.outbox);
        assert(pending@ =~= old(self)@.outbox);
        pending
    }

    /// Adds `card` at the end of the hand.
    pub fn give_card(&mut self, card: Card)
        ensures
            final(self)@ == old(self)@.with_card(card),
    {
        self.hand.push(card)
    }

    /// Takes the card at position `loc` out of the hand. Where the hand has
    /// no such position, nothing is taken.
    pub fn take(&mut self, loc: usize) -> (taken: Option<Card>)
        ensures
            loc < old(self)@.hand.len() ==> taken == Some(old(self)@.hand[loc as int])
                && final(self)@ == (PlayerView {
                hand: old(self)@.hand.remove(loc as int),
                ..old(self)@
            }),
            loc >= old(self)@.hand.len() ==> taken.is_none() && final(self)@ == old(self)@,
    {
        if loc < self.hand.len() {
            Some(self.hand.remove(loc))
        } else {
            None
        }
    }

    /// The number of cards in the hand.
    pub fn hand_size(&self) -> (size: usize)
        ensures
            size == self@.hand.len(),
    {
        self.hand.len()
    }

    /// The cards in the hand, in order.
    pub fn hand(&self) -> (cards: &Vec<Card>)
        ensures
            cards@ == self@.hand,
    {
        &self.hand
    }
}

} // verus!
