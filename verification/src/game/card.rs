//! Cards, their colours and ranks, and the rule that says which card may be
//! laid on which.

use vstd::prelude::*;
use vstd::string::*;

verus! {

/// Rank of a `Skip` card.
pub const SKIP: u8 = 10;

/// Rank of a `Reverse` card.
pub const REVERSE: u8 = 11;

/// Rank of a `DrawTwo` card.
pub const PLUS_TWO: u8 = 12;

/// Rank of a `DrawFour` card.
pub const PLUS_FOUR: u8 = 13;

/// Rank of a `Wild` card.
pub const WILD: u8 = 99;

/// The colour of a card. `Unset` is the colour of a wild card whose colour
/// has not been chosen yet.
#[derive(Copy, Clone, Debug, PartialEq, Eq, Structural)]
pub enum Color {
    Unset,
    Red,
    Yellow,
    Green,
    Blue,
}

/// A card of the game.
#[derive(Copy, Clone, Debug, PartialEq, Eq, Structural)]
pub enum Card {
    Normal(Color, u8),
    DrawTwo(Color),
    Reverse(Color),
    Skip(Color),
    Wild(Color),
    DrawFour(Color),
}

impl Color {
    /// The four colours that a deck is built from, in the order in which
    /// the suits are laid out.
    pub open spec fn suits() -> Seq<Color> {
        seq![Color::Red, Color::Yellow, Color::Green, Color::Blue]
    }

    /// The four real colours, in a fixed order. `Unset` is not among them.
    pub fn iterator() -> (colors: Vec<Color>)
        ensures
            colors@ == Color::suits(),
    {
        let mut colors: Vec<Color> = Vec::new();
        colors.push(Color::Red);
        colors.push(Color::Yellow);
        colors.push(Color::Green);
        colors.push(Color::Blue);
        assert(colors@ =~= Color::suits());
        colors
    }
}

impl Card {
    /// The colour a card carries.
    pub open spec fn spec_color(&self) -> Color {
        match *self {
            Card::Normal(color, _) => color,
            Card::DrawTwo(color) => color,
            Card::Reverse(color) => color,
            Card::Skip(color) => color,
            Card::Wild(color) => color,
            Card::DrawFour(color) => color,
        }
    }

    /// The rank of a card: the number of a normal card, and a fixed ordinal
    /// for each of the others.
    pub open spec fn spec_number(&self) -> u8 {
        match *self {
            Card::Normal(_, number) => number,
            Card::Wild(_) => WILD,
            Card::DrawFour(_) => PLUS_FOUR,
            Card::Reverse(_) => REVERSE,
            Card::Skip(_) => SKIP,
            Card::DrawTwo(_) => PLUS_TWO,
        }
    }

    /// Whether the card belongs to the wild family, which carries no colour
    /// until it is played.
    pub open spec fn is_wild_family(&self) -> bool {
        self is Wild || self is DrawFour
    }

    /// A card as the rules allow it: only the wild family may be without a
    /// colour, and a normal card bears a number from 0 to 9.
    pub open spec fn well_formed(&self) -> bool {
        match *self {
            Card::Normal(color, number) => color != Color::Unset && number <= 9,
            Card::Wild(_) | Card::DrawFour(_) => true,
            _ => self.spec_color() != Color::Unset,
        }
    }

    /// Whether `self` may be laid on `facing`: anything goes on a facing
    /// card of the wild family, and otherwise the two agree in colour or in
    /// rank. The rule looks at the facing card first and is not symmetric:
    /// a wild card in the hand needs its colour or its rank to agree like
    /// any other card. It is kept apart from `==`, which compares cards
    /// field by field.
    pub open spec fn spec_is_playable(&self, facing: &Card) -> bool {
        ||| facing.is_wild_family()
        ||| self.spec_color() == facing.spec_color()
        ||| self.spec_number() == facing.spec_number()
    }

    #[verifier::when_used_as_spec(spec_color)]
    pub fn color(&self) -> (color: Color)
        ensures
            color == self.spec_color(),
    {
        match self {
            Card::Normal(color, _)
            | Card::DrawTwo(color)
            | Card::Skip(color)
            | Card::Wild(color)
            | Card::DrawFour(color)
            | Card::Reverse(color) => *color,
        }
    }

    #[verifier::when_used_as_spec(spec_number)]
    pub fn number(&self) -> (number: u8)
        ensures
            number == self.spec_number(),
    {
        match self {
            Card::Normal(_, num) => *num,
            Card::Wild(_) => WILD,
            Card::DrawFour(_) => PLUS_FOUR,
            Card::Reverse(_) => REVERSE,
            Card::Skip(_) => SKIP,
            Card::DrawTwo(_) => PLUS_TWO,
        }
    }

    /// Decides whether `self` may be laid on `facing`.
    #[verifier::when_used_as_spec(spec_is_playable)]
    pub fn is_playable(&self, facing: &Card) -> (playable: bool)
        ensures
            playable == self.spec_is_playable(facing),
    {
        match facing {
            Card::Wild(_) | Card::DrawFour(_) => {
                return true;
            },
            _ => {},
        }
        if self.color() == facing.color() {
            return true;
        }
        if self.number() == facing.number() {
            return true;
        }
        false
    }
}

/// Every card may be laid on a card of the wild family.
pub proof fn lemma_wild_facing_takes_any(candidate: Card, facing: Card)
    requires
        facing.is_wild_family(),
    ensures
        candidate.spec_is_playable(&facing),
{
}

/// Two normal cards match exactly when they agree in colour or in number.
pub proof fn lemma_normal_cards_match(candidate: Card, facing: Card)
    requires
        candidate is Normal,
        facing is Normal,
    ensures
        candidate.spec_is_playable(&facing) <==> (candidate.spec_color() == facing.spec_color()
            || candidate.spec_number() == facing.spec_number()),
{
}

/// The rule is one-directional: a numbered card goes on a wild card that
/// has no colour, and that wild card does not go on the numbered card.
pub proof fn lemma_rule_is_not_symmetric(color: Color, number: u8)
    requires
        color != Color::Unset,
        number != WILD,
    ensures
        Card::Normal(color, number).spec_is_playable(&Card::Wild(Color::Unset)),
        !Card::Wild(Color::Unset).spec_is_playable(&Card::Normal(color, number)),
{
}

/// The name of a colour as players read it. A card without a colour reads
/// as wild.
pub open spec fn color_text(color: Color) -> Seq<char> {
    match color {
        Color::Red => "Red"@,
        Color::Blue => "Blue"@,
        Color::Yellow => "Yellow"@,
        Color::Green => "Green"@,
        Color::Unset => "Wild"@,
    }
}

/// The numeral of one decimal digit.
pub open spec fn digit_text(digit: nat) -> Seq<char> {
    if digit == 0 {
        "0"@
    } else if digit == 1 {
        "1"@
    } else if digit == 2 {
        "2"@
    } else if digit == 3 {
        "3"@
    } else if digit == 4 {
        "4"@
    } else if digit == 5 {
        "5"@
    } else if digit == 6 {
        "6"@
    } else if digit == 7 {
        "7"@
    } else if digit == 8 {
        "8"@
    } else {
        "9"@
    }
}

/// A number written in decimal, without leading zeros.
pub open spec fn decimal_text(n: nat) -> Seq<char>
    decreases n,
{
    if n < 10 {
        digit_text(n)
    } else {
        decimal_text(n / 10) + digit_text(n % 10)
    }
}

/// A card as players read it: its colour and then its number or its kind.
/// A wild or draw-four card whose colour is still open reads as its kind
/// alone.
pub open spec fn card_text(card: Card) -> Seq<char> {
    match card {
        Card::Normal(color, number) => color_text(color) + " "@ + decimal_text(number as nat),
        Card::DrawTwo(color) => color_text(color) + " Plus Two"@,
        Card::DrawFour(color) => if color == Color::Unset {
            "Plus Four"@
        } else {
            color_text(color) + " Plus Four"@
        },
        Card::Reverse(color) => color_text(color) + " Reverse"@,
        Card::Skip(color) => color_text(color) + " Skip"@,
        Card::Wild(color) => if color == Color::Unset {
            "Wild"@
        } else {
            color_text(color) + " Wild"@
        },
    }
}

/// The numeral of one decimal digit.
fn digit_str(digit: u8) -> (text: &'static str)
    requires
        digit < 10,
    ensures
        text@ == digit_text(digit as nat),
{
    match digit {
        0 => "0",
        1 => "1",
        2 => "2",
        3 => "3",
        4 => "4",
        5 => "5",
        6 => "6",
        7 => "7",
        8 => "8",
        _ => "9",
    }
}

/// Writes `n` in decimal.
fn decimal(n: u8) -> (text: String)
    ensures
        text@ == decimal_text(n as nat),
{
    let mut text = String::new();
    if n >= 100 {
        text.append(digit_str(n / 100));
    }
    if n >= 10 {
        text.append(digit_str((n / 10) % 10));
    }
    text.append(digit_str(n % 10));
    proof {
        let m = n as nat;
        if m >= 100 {
            assert(decimal_text(m / 10) == decimal_text(m / 100) + digit_text((m / 10) % 10));
            assert(text@ =~= decimal_text(m / 10) + digit_text(m % 10));
        } else if m >= 10 {
            assert(text@ =~= decimal_text(m / 10) + digit_text(m % 10));
        } else {
            assert(text@ =~= digit_text(m));
        }
    }
    text
}

impl Color {
    /// The name of the colour as players read it.
    pub fn to_string(&self) -> (text: String)
        ensures
            text@ == color_text(*self),
    {
        String::from_str(
            match self {
                Color::Red => "Red",
                Color::Blue => "Blue",
                Color::Yellow => "Yellow",
                Color::Green => "Green",
                Color::Unset => "Wild",
            },
        )
    }
}

impl Card {
    /// The card as players read it.
    pub fn to_string(&self) -> (text: String)
        ensures
            text@ == card_text(*self),
    {
        match self {
            Card::Normal(color, number) => {
                let mut text = color.to_string();
                text.append(" ");
                text.append(decimal(*number).as_str());
                text
            },
            Card::DrawTwo(color) => color.to_string().concat(" Plus Two"),
            Card::DrawFour(color) => {
                if *color == Color::Unset {
                    String::from_str("Plus Four")
                } else {
                    color.to_string().concat(" Plus Four")
                }
            },
            Card::Reverse(color) => color.to_string().concat(" Reverse"),
            Card::Skip(color) => color.to_string().concat(" Skip"),
            Card::Wild(color) => {
                if *color == Color::Unset {
                    String::from_str("Wild")
                } else {
                    color.to_string().concat(" Wild")
                }
            },
        }
    }
}

} // verus!
