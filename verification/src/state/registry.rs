//! The registry of connected players. It keeps them in the order in which
//! they joined, and that order is the cycle in which turns go round.

use super::msg::DynMessage;
use super::player::{Player, PlayerView};
use crate::game::card::Card;
use vstd::prelude::*;

verus! {

/// One player under the identifier they are registered with.
struct Entry {
    id: u128,
    player: Player,
}

/// The players of a session, each under an identifier that occurs once.
pub struct Registry {
    entries: Vec<Entry>,
}

/// What a registry holds: the identifiers in joining order, and beside each
/// the player registered under it.
pub ghost struct RegistryView {
    pub ids: Seq<u128>,
    pub players: Seq<PlayerView>,
}

impl RegistryView {
    /// Every identifier has its player, and none occurs twice.
    pub open spec fn wf(self) -> bool {
        &&& self.ids.len() == self.players.len()
        &&& self.ids.no_duplicates()
    }

    pub open spec fn contains(self, id: u128) -> bool {
        self.ids.contains(id)
    }

    /// The place of `id` in the joining order.
    pub open spec fn position(self, id: u128) -> int {
        self.ids.index_of(id)
    }

    /// The player registered under `id`.
    pub open spec fn player(self, id: u128) -> PlayerView {
        self.players[self.position(id)]
    }

    /// The registry after `player` was registered under `id`: in the place
    /// of the player who had that identifier, or else behind all others.
    pub open spec fn inserted(self, id: u128, player: PlayerView) -> RegistryView {
        if self.contains(id) {
            RegistryView { ids: self.ids, players: self.players.update(self.position(id), player) }
        } else {
            RegistryView { ids: self.ids.push(id), players: self.players.push(player) }
        }
    }

    /// The registry without `id`; the others keep their order.
    pub open spec fn removed(self, id: u128) -> RegistryView {
        if self.contains(id) {
            RegistryView {
                ids: self.ids.remove(self.position(id)),
                players: self.players.remove(self.position(id)),
            }
        } else {
            self
        }
    }

    /// The registry after the player under `id` was replaced by `player`.
    pub open spec fn replaced(self, id: u128, player: PlayerView) -> RegistryView {
        if self.contains(id) {
            RegistryView { ids: self.ids, players: self.players.update(self.position(id), player) }
        } else {
            self
        }
    }

    /// The registry after `message` was put into the queue of the player
    /// under `id`.
    pub open spec fn sent(self, id: u128, message: DynMessage) -> RegistryView {
        self.replaced(id, self.player(id).with_msg(message))
    }

    /// The registry after `card` was added to the hand of the player under
    /// `id`.
    pub open spec fn given(self, id: u128, card: Card) -> RegistryView {
        self.replaced(id, self.player(id).with_card(card))
    }

    /// The registry after `message` was put into the queue of every player
    /// whose identifier is not in `without`.
    pub open spec fn delivered(self, message: DynMessage, without: Seq<u128>) -> RegistryView {
        RegistryView {
            ids: self.ids,
            players: Seq::new(
                self.players.len(),
                |i: int|
                    if without.contains(self.ids[i]) {
                        self.players[i]
                    } else {
                        self.players[i].with_msg(message)
                    },
            ),
        }
    }
}

/// A message for everyone reaches every player of the registry, whoever
/// has joined or left before.
pub proof fn lemma_broadcast_reaches_everyone(players: RegistryView, message: DynMessage, k: int)
    requires
        0 <= k < players.players.len(),
    ensures
        players.delivered(message, Seq::empty()).ids == players.ids,
        players.delivered(message, Seq::empty()).players.len() == players.players.len(),
        players.delivered(message, Seq::empty()).players[k] == players.players[k].with_msg(
            message,
        ),
{
}

/// The identifiers and players of a list of entries, side by side.
spec fn model(entries: Seq<Entry>) -> RegistryView {
    RegistryView {
        ids: Seq::new(entries.len(), |i: int| entries[i].id),
        players: Seq::new(entries.len(), |i: int| entries[i].player@),
    }
}

impl View for Registry {
    type V = RegistryView;

    closed spec fn view(&self) -> RegistryView {
        model(self.entries@)
    }
}

/// Whether `id` is one of `ids`.
fn is_listed(ids: &[u128], id: u128) -> (listed: bool)
    ensures
        listed == ids@.contains(id),
{
    let mut i: usize = 0;
    while i < ids.len()
        invariant
            i <= ids.len(),
            forall|k: int| 0 <= k < i ==> ids@[k] != id,
        decreases ids.len() - i,
    {
        if ids[i] == id {
            return true;
        }
        i += 1;
    }
    false
}

/// The place of `id` among the entries.
fn find(entries: &Vec<Entry>, id: u128) -> (place: Option<usize>)
    requires
        model(entries@).wf(),
    ensures
        place.is_some() == model(entries@).contains(id),
        place matches Some(i) ==> i == model(entries@).position(id) && i < entries@.len(),
{
    let mut i: usize = 0;
    while i < entries.len()
        invariant
            i <= entries@.len(),
            model(entries@).wf(),
            forall|k: int| 0 <= k < i ==> model(entries@).ids[k] != id,
        decreases entries@.len() - i,
    {
        if entries[i].id == id {
            proof {
                let ids = model(entries@).ids;
                assert(ids[i as int] == id);
                let j = ids.index_of(id);
                assert(0 <= j < ids.len() && ids[j] == id);
            }
            return Some(i);
        }
        i += 1;
    }
    None
}

/// Changing the player of one entry changes that player in the model and
/// nothing else.
proof fn lemma_player_changed(before: Seq<Entry>, after: Seq<Entry>, i: int)
    requires
        0 <= i < before.len(),
        after.len() == before.len(),
        after[i].id == before[i].id,
        forall|k: int| 0 <= k < before.len() && k != i ==> after[k] == before[k],
    ensures
        model(after).ids == model(before).ids,
        model(after).players == model(before).players.update(i, after[i].player@),
{
    assert(model(after).ids =~= model(before).ids);
    assert(model(after).players =~= model(before).players.update(i, after[i].player@));
}

impl Registry {
    #[verifier::type_invariant]
    spec fn distinct(&self) -> bool {
        model(self.entries@).wf()
    }

    /// A registry without players.
    pub fn new() -> (registry: Self)
        ensures
            registry@.ids.len() == 0,
            registry@.players.len() == 0,
    {
        let entries: Vec<Entry> = Vec::new();
        assert(model(entries@).wf());
        Registry { entries }
    }

    /// The number of players.
    pub fn count(&self) -> (count: usize)
        ensures
            self@.wf(),
            count == self@.ids.len(),
    {
        proof {
            use_type_invariant(self);
        }
        self.entries.len()
    }

    /// The place of `id` in the joining order, if it is registered.
    pub fn index_of(&self, id: u128) -> (place: Option<usize>)
        ensures
            self@.wf(),
            place.is_some() == self@.contains(id),
            place matches Some(i) ==> i == self@.position(id) && i < self@.ids.len(),
    {
        proof {
            use_type_invariant(self);
        }
        find(&self.entries, id)
    }

    /// Whether a player is registered under `id`.
    pub fn contains(&self, id: u128) -> (found: bool)
        ensures
            found == self@.contains(id),
    {
        self.index_of(id).is_some()
    }

    /// The identifier at place `i` of the joining order.
    pub fn id_at(&self, i: usize) -> (id: u128)
        requires
            i < self@.ids.len(),
        ensures
            id == self@.ids[i as int],
    {
        self.entries[i].id
    }

    /// The identifiers in joining order.
    pub fn ids(&self) -> (ids: Vec<u128>)
        ensures
            ids@ == self@.ids,
    {
        let mut ids: Vec<u128> = Vec::new();
        let mut i: usize = 0;
        while i < self.entries.len()
            invariant
                i <= self.entries@.len(),
                ids@ == self@.ids.take(i as int),
            decreases self.entries@.len() - i,
        {
            ids.push(self.entries[i].id);
            assert(ids@ =~= self@.ids.take(i + 1));
            i += 1;
        }
        assert(ids@ =~= self@.ids);
        ids
    }

    /// The player registered under `id`.
    pub fn get(&self, id: u128) -> (found: Option<&Player>)
        ensures
            found.is_some() == self@.contains(id),
            found matches Some(player) ==> player@ == self@.player(id),
    {
        match self.index_of(id) {
            Some(i) => Some(&self.entries[i].player),
            None => None,
        }
    }

    /// Registers `player` under `id`. Where the identifier is taken, the new
    /// player stands in for the old one, who is handed back; otherwise the
    /// new player joins behind all others.
    pub fn insert(&mut self, id: u128, player: Player) -> (previous: Option<Player>)
        ensures
            final(self)@ == old(self)@.inserted(id, player@),
            previous.is_some() == old(self)@.contains(id),
            previous matches Some(before) ==> before@ == old(self)@.player(id),
    {
        proof {
            use_type_invariant(&*self);
        }
        let mut entries: Vec<Entry> = Vec::new();
        std::mem::swap(&mut self.entries, &mut entries);
        let ghost before = entries@;
        let previous = match find(&entries, id) {
            Some(i) => {
                let mut entry = Entry { id, player };
                std::mem::swap(&mut entries[i], &mut entry);
                assert(model(entries@).ids =~= model(before).ids);
                assert(model(entries@).players =~= model(before).players.update(
                    i as int,
                    player@,
                ));
                Some(entry.player)
            },
            None => {
                entries.push(Entry { id, player });
                assert(model(entries@).ids =~= model(before).ids.push(id));
                assert(model(entries@).players =~= model(before).players.push(player@));
                None
            },
        };
        std::mem::swap(&mut self.entries, &mut entries);
        previous
    }

    /// Takes the player under `id` out of the registry and hands them back.
    /// The others keep their order.
    pub fn remove(&mut self, id: u128) -> (removed: Option<Player>)
        ensures
            final(self)@ == old(self)@.removed(id),
            removed.is_some() == old(self)@.contains(id),
            removed matches Some(player) ==> player@ == old(self)@.player(id),
            !final(self)@.contains(id),
    {
        proof {
            use_type_invariant(&*self);
        }
        let mut entries: Vec<Entry> = Vec::new();
        std::mem::swap(&mut self.entries, &mut entries);
        let ghost before = entries@;
        let removed = match find(&entries, id) {
            Some(i) => {
                let entry = entries.remove(i);
                assert(model(entries@).ids =~= model(before).ids.remove(i as int));
                assert(model(entries@).players =~= model(before).players.remove(i as int));
                assert(!model(entries@).ids.contains(id)) by {
                    if model(entries@).ids.contains(id) {
                        let k = choose|k: int|
                            0 <= k < model(entries@).ids.len() && model(entries@).ids[k] == id;
                        if k < i {
                            assert(model(before).ids[k] == id);
                        } else {
                            assert(model(before).ids[k + 1] == id);
                        }
                    }
                }
                assert(model(entries@).ids.no_duplicates()) by {
                    assert forall|a: int, b: int|
                        0 <= a < model(entries@).ids.len() && 0 <= b < model(entries@).ids.len()
                            && a != b implies model(entries@).ids[a] != model(entries@).ids[b] by {
                        let a0 = if a < i { a } else { a + 1 };
                        let b0 = if b < i { b } else { b + 1 };
                        assert(model(before).ids[a0] != model(before).ids[b0]);
                    }
                }
                Some(entry.player)
            },
            None => None,
        };
        std::mem::swap(&mut self.entries, &mut entries);
        removed
    }
}

impl Registry {
    /// Puts a copy of `message` into the queue of the player under `id`, and
    /// says whether there is such a player.
    pub fn send_msg(&mut self, id: u128, message: &DynMessage) -> (delivered: bool)
        ensures
            delivered == old(self)@.contains(id),
            final(self)@ == old(self)@.sent(id, *message),
    {
        proof {
            use_type_invariant(&*self);
        }
        let mut entries: Vec<Entry> = Vec::new();
        std::mem::swap(&mut self.entries, &mut entries);
        let ghost before = entries@;
        let delivered = match find(&entries, id) {
            Some(i) => {
                entries[i].player.send_msg(message);
                proof {
                    lemma_player_changed(before, entries@, i as int);
                }
                true
            },
            None => false,
        };
        std::mem::swap(&mut self.entries, &mut entries);
        delivered
    }

    /// Adds `card` to the hand of the player under `id`, and says whether
    /// there is such a player.
    pub fn give_card(&mut self, id: u128, card: Card) -> (given: bool)
        ensures
            given == old(self)@.contains(id),
            final(self)@ == old(self)@.given(id, card),
    {
        proof {
            use_type_invariant(&*self);
        }
        let mut entries: Vec<Entry> = Vec::new();
        std::mem::swap(&mut self.entries, &mut entries);
        let ghost before = entries@;
        let given = match find(&entries, id) {
            Some(i) => {
                entries[i].player.give_card(card);
                proof {
                    lemma_player_changed(before, entries@, i as int);
                }
                true
            },
            None => false,
        };
        std::mem::swap(&mut self.entries, &mut entries);
        given
    }

    /// Gives the player under `id` the display name `name`, and says whether
    /// there is such a player.
    pub fn set_name(&mut self, id: u128, name: &str) -> (renamed: bool)
        ensures
            renamed == old(self)@.contains(id),
            final(self)@.ids == old(self)@.ids,
            !renamed ==> final(self)@ == old(self)@,
            renamed ==> {
                &&& final(self)@.player(id).name matches Some(text) && text@ == name@
                &&& final(self)@ == old(self)@.replaced(
                    id,
                    PlayerView { name: final(self)@.player(id).name, ..old(self)@.player(id) },
                )
            },
    {
        proof {
            use_type_invariant(&*self);
        }
        let mut entries: Vec<Entry> = Vec::new();
        std::mem::swap(&mut self.entries, &mut entries);
        let ghost before = entries@;
        let renamed = match find(&entries, id) {
            Some(i) => {
                let _ = entries[i].player.set_name(name);
                proof {
                    lemma_player_changed(before, entries@, i as int);
                }
                true
            },
            None => false,
        };
        std::mem::swap(&mut self.entries, &mut entries);
        renamed
    }

    /// Empties the queue of the player under `id` and hands out what was in
    /// it, oldest first. For an unknown identifier nothing comes out.
    pub fn take_outbox(&mut self, id: u128) -> (pending: Vec<DynMessage>)
        ensures
            old(self)@.contains(id) ==> pending@ == old(self)@.player(id).outbox,
            !old(self)@.contains(id) ==> pending@.len() == 0,
            final(self)@ == old(self)@.replaced(
                id,
                PlayerView { outbox: Seq::empty(), ..old(self)@.player(id) },
            ),
    {
        proof {
            use_type_invariant(&*self);
        }
        let mut entries: Vec<Entry> = Vec::new();
        std::mem::swap(&mut self.entries, &mut entries);
        let ghost before = entries@;
        let pending = match find(&entries, id) {
            Some(i) => {
                let pending = entries[i].player.take_outbox();
                proof {
                    lemma_player_changed(before, entries@, i as int);
                }
                pending
            },
            None => Vec::new(),
        };
        std::mem::swap(&mut self.entries, &mut entries);
        pending
    }

    /// Puts a copy of `message` into the queue of every player but those
    /// listed in `without`.
    pub fn broadcast_but(&mut self, message: &DynMessage, without: &[u128])
        ensures
            final(self)@ == old(self)@.delivered(*message, without@),
    {
        proof {
            use_type_invariant(&*self);
        }
        let mut entries: Vec<Entry> = Vec::new();
        std::mem::swap(&mut self.entries, &mut entries);
        let ghost before = entries@;
        let mut i: usize = 0;
        while i < entries.len()
            invariant
                i <= entries@.len(),
                entries@.len() == before.len(),
                forall|k: int| 0 <= k < before.len() ==> (#[trigger] entries@[k]).id == before[k].id,
                forall|k: int|
                    0 <= k < i ==> (#[trigger] entries@[k]).player@ == model(before).delivered(
                        *message,
                        without@,
                    ).players[k],
                forall|k: int| i <= k < before.len() ==> #[trigger] entries@[k] == before[k],
            decreases entries@.len() - i,
        {
            if !is_listed(without, entries[i].id) {
                entries[i].player.send_msg(message);
            }
            i += 1;
        }
        proof {
            assert(model(entries@).ids =~= model(before).ids);
            assert(model(entries@).players =~= model(before).delivered(
                *message,
                without@,
            ).players);
        }
        std::mem::swap(&mut self.entries, &mut entries);
    }
}

} // verus!
