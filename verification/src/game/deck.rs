//! The deck: a face-down draw pile, the discard pile whose top card is the
//! one facing the players, and the history of the cards played.

use super::card::{Card, Color};
use rand::seq::SliceRandom;
use vstd::multiset::Multiset;
use vstd::prelude::*;
use vstd::seq_lib::*;

verus! {

/// A deck of cards, split into its three piles.
pub struct Deck {
    deck: Vec<Card>,
    facing: Vec<Card>,
    in_play: Vec<Card>,
}

/// What a deck holds. The last card of each sequence is the top of its pile.
pub ghost struct DeckView {
    pub draw_pile: Seq<Card>,
    pub discard_pile: Seq<Card>,
    pub in_play: Seq<Card>,
}

impl View for Deck {
    type V = DeckView;

    closed spec fn view(&self) -> DeckView {
        DeckView { draw_pile: self.deck@, discard_pile: self.facing@, in_play: self.in_play@ }
    }
}

impl DeckView {
    /// The card that a play has to match: the top of the discard pile.
    pub open spec fn facing(self) -> Option<Card> {
        if self.discard_pile.len() == 0 {
            None
        } else {
            Some(self.discard_pile.last())
        }
    }

    /// Whether a card can be drawn: from the draw pile, or after the cards
    /// under the facing card have been turned over.
    pub open spec fn can_draw(self) -> bool {
        self.draw_pile.len() > 0 || self.discard_pile.len() > 1
    }

    /// The discarded cards that lie under the facing card.
    pub open spec fn covered(self) -> Seq<Card> {
        if self.discard_pile.len() == 0 {
            self.discard_pile
        } else {
            self.discard_pile.drop_last()
        }
    }

    /// The cards of the two piles together, in no order.
    pub open spec fn piles(self) -> Multiset<Card> {
        self.draw_pile.to_multiset().add(self.discard_pile.to_multiset())
    }

    /// Whether `next` is this deck after `card` was drawn from it: from the
    /// top of the draw pile, or, where that pile is empty, from among the
    /// cards under the facing card, which then form the new draw pile.
    pub open spec fn drew(self, next: DeckView, card: Card) -> bool {
        &&& next.in_play == self.in_play
        &&& if self.draw_pile.len() > 0 {
            &&& card == self.draw_pile.last()
            &&& next.draw_pile == self.draw_pile.drop_last()
            &&& next.discard_pile == self.discard_pile
        } else {
            &&& self.discard_pile.len() > 1
            &&& next.discard_pile == seq![self.discard_pile.last()]
            &&& next.draw_pile.to_multiset().insert(card) == self.covered().to_multiset()
        }
    }

    /// Whether `next` is this deck after the seven cards of `hand` were
    /// dealt from the top of the draw pile, the topmost first.
    pub open spec fn dealt(self, next: DeckView, hand: Seq<Card>) -> bool {
        &&& self.draw_pile.len() >= 7
        &&& hand.len() == 7
        &&& forall|i: int| 0 <= i < 7 ==> hand[i] == self.draw_pile[self.draw_pile.len() - 1 - i]
        &&& next.draw_pile == self.draw_pile.take(self.draw_pile.len() - 7)
        &&& next.discard_pile == self.discard_pile
        &&& next.in_play == self.in_play
    }

    /// The deck after the top of the draw pile was turned up onto the
    /// discard pile. With an empty draw pile nothing moves.
    pub open spec fn turned_up(self) -> DeckView {
        if self.draw_pile.len() == 0 {
            self
        } else {
            DeckView {
                draw_pile: self.draw_pile.drop_last(),
                discard_pile: self.discard_pile.push(self.draw_pile.last()),
                in_play: self.in_play,
            }
        }
    }

    /// Whether `card` may be played: there is a facing card, and `card` may
    /// be laid on it.
    pub open spec fn accepts(self, card: Card) -> bool {
        self.facing() matches Some(facing) && card.spec_is_playable(&facing)
    }

    /// The deck after `card` was offered for play: laid on the discard pile
    /// and recorded where it is accepted, and unchanged where it is not.
    pub open spec fn played(self, card: Card) -> DeckView {
        if self.accepts(card) {
            self.with_played(card)
        } else {
            self
        }
    }

    /// The deck after a card was laid on the discard pile and recorded.
    pub open spec fn with_played(self, card: Card) -> DeckView {
        DeckView {
            draw_pile: self.draw_pile,
            discard_pile: self.discard_pile.push(card),
            in_play: self.in_play.push(card),
        }
    }
}

/// How often a card occurs in one standard pack: each colour has one 0, two
/// of each number from 1 to 9 and two of each action card, and the pack has
/// four wild cards and four draw-four cards, none of them coloured.
pub open spec fn standard_count(card: Card) -> nat {
    match card {
        Card::Normal(color, number) => if color == Color::Unset || number > 9 {
            0
        } else if number == 0 {
            1
        } else {
            2
        },
        Card::DrawTwo(color) | Card::Reverse(color) | Card::Skip(color) => if color
            == Color::Unset {
            0
        } else {
            2
        },
        Card::Wild(color) | Card::DrawFour(color) => if color == Color::Unset {
            4
        } else {
            0
        },
    }
}

/// Every card of a standard pack is a card as the rules allow it: none but
/// the wild cards is without a colour, and the numbers run from 0 to 9.
pub proof fn lemma_standard_cards_are_well_formed(card: Card)
    requires
        standard_count(card) > 0,
    ensures
        card.well_formed(),
        card.is_wild_family() <==> card.spec_color() == Color::Unset,
{
}

/// The numbered cards of one colour up to `top`, in the order in which a
/// pack is laid out.
pub open spec fn numbered(color: Color, top: nat) -> Seq<Card>
    decreases top,
{
    if top == 0 {
        seq![Card::Normal(color, 0)]
    } else {
        numbered(color, (top - 1) as nat).push(Card::Normal(color, top as u8)).push(
            Card::Normal(color, top as u8),
        )
    }
}

/// The action cards of one colour.
pub open spec fn actions(color: Color) -> Seq<Card> {
    seq![
        Card::DrawTwo(color),
        Card::DrawTwo(color),
        Card::Reverse(color),
        Card::Reverse(color),
        Card::Skip(color),
        Card::Skip(color),
    ]
}

/// The 25 cards of one colour.
pub open spec fn suit(color: Color) -> Seq<Card> {
    numbered(color, 9) + actions(color)
}

/// The first `n` suits of a pack.
pub open spec fn suits_upto(n: nat) -> Seq<Card>
    decreases n,
{
    if n == 0 {
        Seq::empty()
    } else {
        suits_upto((n - 1) as nat) + suit(Color::suits()[n - 1])
    }
}

/// `n` pairs of one wild card and one draw-four card.
pub open spec fn wild_pairs(n: nat) -> Seq<Card>
    decreases n,
{
    if n == 0 {
        Seq::empty()
    } else {
        wild_pairs((n - 1) as nat).push(Card::Wild(Color::Unset)).push(
            Card::DrawFour(Color::Unset),
        )
    }
}

/// One standard pack, as it is laid out before it is shuffled.
pub open spec fn pack() -> Seq<Card> {
    suits_upto(4) + wild_pairs(4)
}

/// `times` standard packs, one after the other.
pub open spec fn packs(times: nat) -> Seq<Card>
    decreases times,
{
    if times == 0 {
        Seq::empty()
    } else {
        packs((times - 1) as nat) + pack()
    }
}

/// Brings the cards into a random order with `rand`'s
/// `SliceRandom::shuffle`, fed by the thread's generator. The order that
/// comes out is left open; the contract claims only that the same cards are
/// there afterwards, each as often as before.
#[verifier::external_body]
fn shuffle(cards: &mut Vec<Card>)
    ensures
        final(cards)@.to_multiset() == old(cards)@.to_multiset(),
{
    cards.shuffle(&mut rand::thread_rng());
}

/// How often a card occurs among the cards of one colour.
pub open spec fn suit_count(color: Color, card: Card) -> nat {
    match card {
        Card::Normal(c, number) => if c != color || number > 9 {
            0
        } else if number == 0 {
            1
        } else {
            2
        },
        Card::DrawTwo(c) | Card::Reverse(c) | Card::Skip(c) => if c == color {
            2
        } else {
            0
        },
        _ => 0,
    }
}

/// The numbered cards up to `top` hold one 0 and two of each other number.
pub proof fn lemma_numbered(color: Color, top: nat, card: Card)
    requires
        top <= 9,
    ensures
        numbered(color, top).len() == 2 * top + 1,
        numbered(color, top).to_multiset().count(card) == (match card {
            Card::Normal(c, number) => if c != color || number > top {
                0nat
            } else if number == 0 {
                1nat
            } else {
                2nat
            },
            _ => 0nat,
        }),
    decreases top,
{
    broadcast use group_to_multiset_ensures;

    if top == 0 {
        assert(numbered(color, 0) =~= Seq::<Card>::empty().push(Card::Normal(color, 0)));
        assert(Seq::<Card>::empty().to_multiset() =~= Multiset::<Card>::empty());
    } else {
        lemma_numbered(color, (top - 1) as nat, card);
    }
}

/// A suit holds 25 cards, each as often as `suit_count` says.
pub proof fn lemma_suit(color: Color, card: Card)
    ensures
        suit(color).len() == 25,
        suit(color).to_multiset().count(card) == suit_count(color, card),
{
    broadcast use group_to_multiset_ensures;

    lemma_numbered(color, 9, card);
    let a = Seq::<Card>::empty().push(Card::DrawTwo(color)).push(Card::DrawTwo(color)).push(
        Card::Reverse(color),
    ).push(Card::Reverse(color)).push(Card::Skip(color)).push(Card::Skip(color));
    assert(actions(color) =~= a);
    assert(Seq::<Card>::empty().to_multiset() =~= Multiset::<Card>::empty());
    lemma_multiset_commutative(numbered(color, 9), actions(color));
}

/// The first `n` suits hold the cards of the first `n` colours.
pub proof fn lemma_suits_upto(n: nat, card: Card)
    requires
        n <= 4,
    ensures
        suits_upto(n).len() == 25 * n,
        suits_upto(n).to_multiset().count(card) == (match card {
            Card::Wild(_) | Card::DrawFour(_) => 0nat,
            _ => if exists|k: int| 0 <= k < n && Color::suits()[k] == card.spec_color() {
                standard_count(card)
            } else {
                0nat
            },
        }),
    decreases n,
{
    broadcast use group_to_multiset_ensures;

    if n == 0 {
        assert(Seq::<Card>::empty().to_multiset() =~= Multiset::<Card>::empty());
    } else {
        let color = Color::suits()[n - 1];
        lemma_suits_upto((n - 1) as nat, card);
        lemma_suit(color, card);
        lemma_multiset_commutative(suits_upto((n - 1) as nat), suit(color));
        assert(Color::suits()[0] == Color::Red);
        assert(Color::suits()[1] == Color::Yellow);
        assert(Color::suits()[2] == Color::Green);
        assert(Color::suits()[3] == Color::Blue);
        if card.spec_color() == color {
            assert(0 <= n - 1 < n && Color::suits()[n - 1] == card.spec_color());
        }
    }
}

/// `n` pairs hold `n` wild cards and `n` draw-four cards, all uncoloured.
pub proof fn lemma_wild_pairs(n: nat, card: Card)
    ensures
        wild_pairs(n).len() == 2 * n,
        wild_pairs(n).to_multiset().count(card) == (if card == Card::Wild(Color::Unset) || card
            == Card::DrawFour(Color::Unset) {
            n
        } else {
            0nat
        }),
    decreases n,
{
    broadcast use group_to_multiset_ensures;

    if n == 0 {
        assert(Seq::<Card>::empty().to_multiset() =~= Multiset::<Card>::empty());
    } else {
        lemma_wild_pairs((n - 1) as nat, card);
    }
}

/// One pack holds 108 cards, each as often as `standard_count` says.
pub proof fn lemma_pack(card: Card)
    ensures
        pack().len() == 108,
        pack().to_multiset().count(card) == standard_count(card),
{
    lemma_suits_upto(4, card);
    lemma_wild_pairs(4, card);
    lemma_multiset_commutative(suits_upto(4), wild_pairs(4));
    assert(Color::suits()[0] == Color::Red);
    assert(Color::suits()[1] == Color::Yellow);
    assert(Color::suits()[2] == Color::Green);
    assert(Color::suits()[3] == Color::Blue);
}

/// `times` packs hold `108 * times` cards, each `times` as often as one
/// pack does.
pub proof fn lemma_packs(times: nat, card: Card)
    ensures
        packs(times).len() == 108 * times,
        packs(times).to_multiset().count(card) == times * standard_count(card),
    decreases times,
{
    broadcast use group_to_multiset_ensures;

    if times == 0 {
        assert(Seq::<Card>::empty().to_multiset() =~= Multiset::<Card>::empty());
    } else {
        let rest = (times - 1) as nat;
        lemma_packs(rest, card);
        lemma_pack(card);
        lemma_multiset_commutative(packs(rest), pack());
        assert(rest * standard_count(card) + standard_count(card) == times * standard_count(card))
            by (nonlinear_arith)
            requires
                rest + 1 == times,
        ;
    }
}

impl Deck {
    /// Builds `times` standard packs and shuffles them into the draw pile.
    /// The other two piles start empty.
    pub fn new(times: usize) -> (deck: Deck)
        ensures
            deck@.draw_pile.len() == 108 * times,
            forall|card: Card| #[trigger]
                deck@.draw_pile.to_multiset().count(card) == times * standard_count(card),
            deck@.discard_pile.len() == 0,
            deck@.in_play.len() == 0,
    {
        let mut deck: Vec<Card> = Vec::new();
        let facing: Vec<Card> = Vec::new();
        let in_play: Vec<Card> = Vec::new();
        let colors = Color::iterator();

        let mut round: usize = 0;
        while round < times
            invariant
                round <= times,
                colors@ == Color::suits(),
                deck@ == packs(round as nat),
            decreases times - round,
        {
            let ghost before = deck@;
            let mut k: usize = 0;
            while k < colors.len()
                invariant
                    k <= 4,
                    colors@ == Color::suits(),
                    deck@ == before + suits_upto(k as nat),
                decreases 4 - k,
            {
                let color = colors[k];
                let ghost lower = deck@;
                deck.push(Card::Normal(color, 0));
                assert(deck@ =~= lower + numbered(color, 0));
                let mut i: u8 = 1;
                while i <= 9
                    invariant
                        1 <= i <= 10,
                        deck@ == lower + numbered(color, (i - 1) as nat),
                    decreases 10 - i,
                {
                    deck.push(Card::Normal(color, i));
                    deck.push(Card::Normal(color, i));
                    assert(deck@ =~= lower + numbered(color, i as nat));
                    i += 1;
                }
                deck.push(Card::DrawTwo(color));
                deck.push(Card::DrawTwo(color));

                deck.push(Card::Reverse(color));
                deck.push(Card::Reverse(color));

                deck.push(Card::Skip(color));
                deck.push(Card::Skip(color));
                assert(deck@ =~= lower + suit(color));
                assert(deck@ =~= before + suits_upto((k + 1) as nat));
                k += 1;
            }

            let ghost suits = deck@;
            let mut j: usize = 0;
            while j < 4
                invariant
                    j <= 4,
                    deck@ == suits + wild_pairs(j as nat),
                decreases 4 - j,
            {
                deck.push(Card::Wild(Color::Unset));
                deck.push(Card::DrawFour(Color::Unset));
                assert(deck@ =~= suits + wild_pairs((j + 1) as nat));
                j += 1;
            }
            assert(deck@ =~= before + pack());
            round += 1;
        }

        shuffle(&mut deck);

        proof {
            broadcast use group_to_multiset_ensures;

            lemma_packs(times as nat, Card::Wild(Color::Unset));
            assert(deck@.to_multiset().len() == deck@.len());
            assert(packs(times as nat).to_multiset().len() == packs(times as nat).len());
            assert forall|card: Card| #[trigger]
                deck@.to_multiset().count(card) == times * standard_count(card) by {
                lemma_packs(times as nat, card);
            }
        }
        Self { deck, facing, in_play }
    }

    /// Turns the discard pile over: every card under the facing card goes
    /// back to the draw pile, which is then shuffled. The facing card stays
    /// where it is, and the history of plays is not touched.
    pub fn reshuffle(&mut self)
        ensures
            final(self)@.in_play == old(self)@.in_play,
            final(self)@.draw_pile.to_multiset() == old(self)@.draw_pile.to_multiset().add(
                old(self)@.covered().to_multiset(),
            ),
            old(self)@.discard_pile.len() == 0 ==> final(self)@.discard_pile.len() == 0,
            old(self)@.discard_pile.len() > 0 ==> final(self)@.discard_pile
                == seq![old(self)@.discard_pile.last()],
            final(self)@.piles() == old(self)@.piles(),
    {
        broadcast use group_to_multiset_ensures;

        let ghost draw = self.deck@;
        let ghost discard = self.facing@;
        let ghost covered = self@.covered();
        let top = self.facing.pop();
        self.deck.append(&mut self.facing);
        proof {
            assert(self.deck@ =~= draw + covered);
            lemma_multiset_commutative(draw, covered);
        }
        match top {
            Some(card) => {
                self.facing.push(card);
                assert(discard =~= covered.push(card));
                assert(self.facing@ =~= seq![discard.last()]);
                assert(Seq::<Card>::empty().to_multiset() =~= Multiset::<Card>::empty());
                assert(self.facing@ =~= Seq::<Card>::empty().push(card));
            },
            None => {
                assert(discard.to_multiset() =~= Multiset::<Card>::empty());
            },
        }
        shuffle(&mut self.deck);
        assert(self@.piles() =~= old(self)@.piles());
    }

    /// The number of cards in the draw pile.
    pub fn deck_size(&self) -> (size: usize)
        ensures
            size == self@.draw_pile.len(),
    {
        self.deck.len()
    }

    /// The number of cards in the discard pile.
    pub fn discard_size(&self) -> (size: usize)
        ensures
            size == self@.discard_pile.len(),
    {
        self.facing.len()
    }

    /// The number of cards played so far.
    pub fn played_size(&self) -> (size: usize)
        ensures
            size == self@.in_play.len(),
    {
        self.in_play.len()
    }

    /// Moves the top of the draw pile onto the discard pile, where it is the
    /// first facing card. Nothing is matched against it. On an empty draw
    /// pile nothing happens.
    pub fn start_game(&mut self)
        ensures
            final(self)@ == old(self)@.turned_up(),
    {
        if let Some(card) = self.deck.pop() {
            self.facing.push(card)
        }
    }

    /// The facing card: the one discarded last, if any.
    pub fn get_facing(&self) -> (facing: Option<&Card>)
        ensures
            self@.facing() == match facing {
                Some(card) => Some(*card),
                None => None,
            },
    {
        match self.facing.len() {
            0 => None,
            _ => Some(&self.facing[self.facing.len() - 1]),
        }
    }

    /// Lays `face` on the discard pile without matching it against anything.
    pub fn set_facing(&mut self, face: Card)
        ensures
            final(self)@.discard_pile == old(self)@.discard_pile.push(face),
            final(self)@.draw_pile == old(self)@.draw_pile,
            final(self)@.in_play == old(self)@.in_play,
    {
        self.facing.push(face)
    }

    /// Plays `to_play` against the facing card. Where there is a facing card
    /// and `to_play` may be laid on it, the card goes on top of the discard
    /// pile and into the history, and comes back as the new facing card. In
    /// every other case the play is rejected and the deck stays as it was.
    pub fn play(&mut self, to_play: Card) -> (played: Option<&Card>)
        ensures
            final(self)@ == old(self)@.played(to_play),
            played == if old(self)@.accepts(to_play) {
                Some(&to_play)
            } else {
                None
            },
    {
        let accepted = match self.get_facing() {
            Some(curr) => to_play.is_playable(curr),
            None => false,
        };
        if accepted {
            self.facing.push(to_play);
            self.in_play.push(to_play);
            Some(&self.in_play[self.in_play.len() - 1])
        } else {
            None
        }
    }

    /// Takes the top card of the draw pile. On an empty draw pile the
    /// discard pile is first turned over, as `reshuffle` does it. The caller
    /// sees to it that one of the two piles can give a card.
    pub fn draw(&mut self) -> (card: Card)
        requires
            old(self)@.can_draw(),
        ensures
            old(self)@.drew(final(self)@, card),
    {
        broadcast use group_to_multiset_ensures;

        let ghost before = self@;
        if self.deck.len() == 0 {
            self.reshuffle();
            assert(before.draw_pile.to_multiset() =~= Multiset::<Card>::empty());
            assert(self@.draw_pile.to_multiset() =~= before.covered().to_multiset());
            assert(self@.draw_pile.len() == before.discard_pile.len() - 1) by {
                assert(self@.draw_pile.to_multiset().len() == self@.draw_pile.len());
                assert(before.covered().to_multiset().len() == before.covered().len());
            }
        }
        let ghost pile = self.deck@;
        let card = self.deck.pop().unwrap();
        proof {
            assert(pile =~= self.deck@.push(card));
        }
        card
    }

    /// Deals a hand of seven cards from the top of the draw pile, which has
    /// to hold that many.
    pub fn deal(&mut self) -> (hand: [Card; 7])
        requires
            old(self)@.draw_pile.len() >= 7,
        ensures
            old(self)@.dealt(final(self)@, hand@),
    {
        let c0 = self.draw();
        let c1 = self.draw();
        let c2 = self.draw();
        let c3 = self.draw();
        let c4 = self.draw();
        let c5 = self.draw();
        let c6 = self.draw();
        let hand = [c0, c1, c2, c3, c4, c5, c6];
        assert(self@.draw_pile =~= old(self)@.draw_pile.take(old(self)@.draw_pile.len() - 7));
        hand
    }

    /// Draws a card where one can be drawn, and leaves the deck alone where
    /// both piles are exhausted.
    pub fn try_draw(&mut self) -> (drawn: Option<Card>)
        ensures
            drawn.is_some() == old(self)@.can_draw(),
            match drawn {
                Some(card) => old(self)@.drew(final(self)@, card),
                None => final(self)@ == old(self)@,
            },
    {
        if self.deck.len() > 0 || self.facing.len() > 1 {
            Some(self.draw())
        } else {
            None
        }
    }
}

/// Turning up the first card of a game takes one card from the draw pile
/// and puts one on the discard pile, where it is the facing card.
pub proof fn lemma_turned_up_moves_one(deck: DeckView)
    requires
        deck.draw_pile.len() > 0,
    ensures
        deck.turned_up().draw_pile.len() == deck.draw_pile.len() - 1,
        deck.turned_up().discard_pile.len() == deck.discard_pile.len() + 1,
        deck.turned_up().facing() == Some(deck.draw_pile.last()),
        deck.turned_up().piles() == deck.piles(),
{
    broadcast use group_to_multiset_ensures;

    assert(deck.draw_pile =~= deck.turned_up().draw_pile.push(deck.draw_pile.last()));
    assert(deck.turned_up().piles() =~= deck.piles());
}

/// After a play that was accepted the card played is the facing card; a
/// play that was rejected leaves the facing card as it was.
pub proof fn lemma_facing_after_play(deck: DeckView, card: Card)
    ensures
        deck.played(card).facing() == if deck.accepts(card) {
            Some(card)
        } else {
            deck.facing()
        },
{
}

/// The cards of a hand that was dealt are those that the draw pile has
/// lost.
pub proof fn lemma_deal_conserves(before: DeckView, after: DeckView, hand: Seq<Card>)
    requires
        before.dealt(after, hand),
    ensures
        after.draw_pile.to_multiset().add(hand.to_multiset()) == before.draw_pile.to_multiset(),
        after.draw_pile.len() + 7 == before.draw_pile.len(),
{
    assert(before.draw_pile =~= after.draw_pile + hand.reverse());
    lemma_multiset_commutative(after.draw_pile, hand.reverse());
    hand.lemma_reverse_to_multiset();
    assert(after.draw_pile.to_multiset().add(hand.to_multiset())
        =~= before.draw_pile.to_multiset());
}

/// A draw takes exactly one card out of the two piles: together with the
/// card drawn they hold what they held before, the facing card stays, and
/// so does the history of plays.
pub proof fn lemma_draw_conserves(before: DeckView, after: DeckView, card: Card)
    requires
        before.drew(after, card),
    ensures
        before.can_draw(),
        after.piles().insert(card) == before.piles(),
        after.draw_pile.len() + after.discard_pile.len() + 1 == before.draw_pile.len()
            + before.discard_pile.len(),
        after.facing() == before.facing(),
        after.in_play == before.in_play,
{
    broadcast use group_to_multiset_ensures;

    if before.draw_pile.len() > 0 {
        assert(before.draw_pile =~= after.draw_pile.push(card));
        assert(after.piles().insert(card) =~= before.piles());
    } else {
        let top = before.discard_pile.last();
        assert(before.draw_pile.to_multiset() =~= Multiset::<Card>::empty());
        assert(before.discard_pile =~= before.covered().push(top));
        assert(after.discard_pile =~= Seq::<Card>::empty().push(top));
        assert(Seq::<Card>::empty().to_multiset() =~= Multiset::<Card>::empty());
        assert(after.piles().insert(card) =~= before.piles());
        assert(after.draw_pile.to_multiset().insert(card).len() == after.draw_pile.len() + 1);
        assert(before.covered().to_multiset().len() == before.covered().len());
    }
}

impl Default for Deck {
    /// One shuffled standard pack.
    fn default() -> (deck: Deck)
        ensures
            deck@.draw_pile.len() == 108,
            forall|card: Card| #[trigger]
                deck@.draw_pile.to_multiset().count(card) == standard_count(card),
            deck@.discard_pile.len() == 0,
            deck@.in_play.len() == 0,
    {
        let deck = Self::new(1);
        assert forall|card: Card| #[trigger]
            deck@.draw_pile.to_multiset().count(card) == standard_count(card) by {
            assert(deck@.draw_pile.to_multiset().count(card) == 1 * standard_count(card));
        }
        deck
    }
}

} // verus!
