use vstd::prelude::*;

use crate::style::TextColor;

verus! {

/// One of the thirteen ranks a card can have.
#[derive(Debug, Copy, Clone, PartialEq, Eq, Structural, Hash)]
pub enum Value {
    Ace,
    Two,
    Three,
    Four,
    Five,
    Six,
    Seven,
    Eight,
    Nine,
    Ten,
    Jack,
    Queen,
    King,
}

/// One of the four suits a card can have.
#[derive(Debug, Copy, Clone, PartialEq, Eq, Structural, Hash)]
pub enum Suit {
    Clubs,
    Diamonds,
    Hearts,
    Spades,
}

/// A playing card: a value and a suit.
#[derive(Debug, Copy, Clone, PartialEq, Eq, Structural, Hash)]
pub struct Card {
    value: Value,
    suit: Suit,
}

/// The effective count of a value: Ace is 1, number cards count their pips, Jack 11, Queen 12, King 13.
pub open spec fn value_count(v: Value) -> nat {
    match v {
        Value::Ace => 1,
        Value::Two => 2,
        Value::Three => 3,
        Value::Four => 4,
        Value::Five => 5,
        Value::Six => 6,
        Value::Seven => 7,
        Value::Eight => 8,
        Value::Nine => 9,
        Value::Ten => 10,
        Value::Jack => 11,
        Value::Queen => 12,
        Value::King => 13,
    }
}

/// The glyph printed on a card of value `v`.
pub open spec fn value_glyph(v: Value) -> Seq<char> {
    match v {
        Value::Ace => seq!['A'],
        Value::Two => seq!['2'],
        Value::Three => seq!['3'],
        Value::Four => seq!['4'],
        Value::Five => seq!['5'],
        Value::Six => seq!['6'],
        Value::Seven => seq!['7'],
        Value::Eight => seq!['8'],
        Value::Nine => seq!['9'],
        Value::Ten => seq!['1', '0'],
        Value::Jack => seq!['J'],
        Value::Queen => seq!['Q'],
        Value::King => seq!['K'],
    }
}

/// The symbol of suit `s`.
pub open spec fn suit_glyph(s: Suit) -> Seq<char> {
    match s {
        Suit::Clubs => seq!['\u{2663}'],
        Suit::Diamonds => seq!['\u{2666}'],
        Suit::Hearts => seq!['\u{2665}'],
        Suit::Spades => seq!['\u{2660}'],
    }
}

/// Diamonds and hearts are red; clubs and spades keep the default color.
pub open spec fn is_red(s: Suit) -> bool {
    s is Diamonds || s is Hearts
}

/// The card of value `v` and suit `s`.
pub closed spec fn card_of(v: Value, s: Suit) -> Card {
    Card { value: v, suit: s }
}

/// The card of value `v` and suit `s` has that value and that suit.
pub proof fn lemma_card_of(v: Value, s: Suit)
    ensures
        card_of(v, s).spec_value() == v,
        card_of(v, s).spec_suit() == s,
{
}

/// A card is its value and its suit: two cards that agree on both are equal.
pub proof fn lemma_card_eq(a: Card, b: Card)
    requires
        a.spec_value() == b.spec_value(),
        a.spec_suit() == b.spec_suit(),
    ensures
        a == b,
{
}

impl Card {
    pub closed spec fn spec_value(self) -> Value {
        self.value
    }

    pub closed spec fn spec_suit(self) -> Suit {
        self.suit
    }

    /// Makes the card of value `value` and suit `suit`.
    pub fn new(value: Value, suit: Suit) -> (r: Self)
        ensures
            r.spec_value() == value,
            r.spec_suit() == suit,
    {
        Self { value, suit }
    }

    /// The card's suit.
    pub fn suit(&self) -> (r: Suit)
        ensures
            r == self.spec_suit(),
    {
        self.suit
    }

    /// The card's value.
    pub fn value(&self) -> (r: Value)
        ensures
            r == self.spec_value(),
    {
        self.value
    }

    /// The card as printed: its value's glyph followed by its suit's symbol.
    pub fn label(&self) -> (r: String)
        ensures
            r@ == value_glyph(self.spec_value()) + suit_glyph(self.spec_suit()),
    {
        let mut s = String::from_str(self.value.name());
        s.append(self.suit.name());
        s
    }
}

impl Value {
    /// The glyph printed on a card of this value.
    pub fn name(&self) -> (r: &'static str)
        ensures
            r@ == value_glyph(*self),
    {
        match self {
            Self::Ace => {
                proof { reveal_strlit("A"); }
                "A"
            },
            Self::Two => {
                proof { reveal_strlit("2"); }
                "2"
            },
            Self::Three => {
                proof { reveal_strlit("3"); }
                "3"
            },
            Self::Four => {
                proof { reveal_strlit("4"); }
                "4"
            },
            Self::Five => {
                proof { reveal_strlit("5"); }
                "5"
            },
            Self::Six => {
                proof { reveal_strlit("6"); }
                "6"
            },
            Self::Seven => {
                proof { reveal_strlit("7"); }
                "7"
            },
            Self::Eight => {
                proof { reveal_strlit("8"); }
                "8"
            },
            Self::Nine => {
                proof { reveal_strlit("9"); }
                "9"
            },
            Self::Ten => {
                proof { reveal_strlit("10"); }
                "10"
            },
            Self::Jack => {
                proof { reveal_strlit("J"); }
                "J"
            },
            Self::Queen => {
                proof { reveal_strlit("Q"); }
                "Q"
            },
            Self::King => {
                proof { reveal_strlit("K"); }
                "K"
            },
        }
    }

    /// The effective count of this value, from 1 (Ace) to 13 (King).
    pub fn count(&self) -> (r: u8)
        ensures
            r as nat == value_count(*self),
            1 <= r <= 13,
    {
        match self {
            Self::Ace => 1,
            Self::Two => 2,
            Self::Three => 3,
            Self::Four => 4,
            Self::Five => 5,
            Self::Six => 6,
            Self::Seven => 7,
            Self::Eight => 8,
            Self::Nine => 9,
            Self::Ten => 10,
            Self::Jack => 11,
            Self::Queen => 12,
            Self::King => 13,
        }
    }
}

impl Suit {
    /// The symbol of this suit.
    pub fn name(&self) -> (r: &'static str)
        ensures
            r@ == suit_glyph(*self),
    {
        match self {
            Self::Clubs => {
                proof { reveal_strlit("\u{2663}"); }
                "\u{2663}"
            },
            Self::Diamonds => {
                proof { reveal_strlit("\u{2666}"); }
                "\u{2666}"
            },
            Self::Hearts => {
                proof { reveal_strlit("\u{2665}"); }
                "\u{2665}"
            },
            Self::Spades => {
                proof { reveal_strlit("\u{2660}"); }
                "\u{2660}"
            },
        }
    }

    /// The color the suit is drawn in: red for diamonds and hearts, the default otherwise.
    pub fn color(&self) -> (r: TextColor)
        ensures
            r == (if is_red(*self) { TextColor::Red } else { TextColor::Plain }),
    {
        match self {
            Self::Clubs => TextColor::Plain,
            Self::Spades => TextColor::Plain,
            Self::Diamonds => TextColor::Red,
            Self::Hearts => TextColor::Red,
        }
    }
}

} // verus!
