//! The playing-card value model: faces, suits, the derived color, and the
//! immutable `Card` value with its exact rendering.

use crate::text::{decimal_string, spec_decimal};
use vstd::prelude::*;

verus! {

/// The face of a playing card. Numeric faces carry their value; the two
/// jokers are faces of their own and carry no suit.
#[derive(Debug, Clone, Copy, PartialEq, Eq, Structural)]
pub enum FaceType {
    Number(u8),
    King,
    Queen,
    Jack,
    Ace,
    BigJoker,
    LittleJoker,
}

/// The suit of a playing card; `NoSuit` is reserved for jokers.
#[derive(Debug, Clone, Copy, PartialEq, Eq, Structural)]
pub enum Suit {
    Hearts,
    Diamonds,
    Spades,
    Clubs,
    NoSuit,
}

/// The color of a card, derived from its suit (and, for jokers, its face).
#[derive(Debug, Clone, Copy, PartialEq, Eq, Structural)]
pub enum Color {
    Red,
    Black,
}

/// The color a card must carry: red for hearts and diamonds, black for
/// spades and clubs; among the suitless jokers the big one is black and
/// the little one red.
pub open spec fn spec_color_of(face: FaceType, suit: Suit) -> Color {
    match suit {
        Suit::Hearts | Suit::Diamonds => Color::Red,
        Suit::Spades | Suit::Clubs => Color::Black,
        Suit::NoSuit => if face == FaceType::BigJoker {
            Color::Black
        } else {
            Color::Red
        },
    }
}

/// One playing card. The fields are fixed at construction; the color is a
/// pure function of the other two and is never settable on its own.
#[derive(Debug, Clone, Copy, PartialEq, Eq, Structural)]
pub struct Card {
    face: FaceType,
    suit: Suit,
    color: Color,
}

impl Card {
    /// The card `new(face, suit)` builds.
    pub closed spec fn spec_new(face: FaceType, suit: Suit) -> Card {
        Card { face, suit, color: spec_color_of(face, suit) }
    }

    /// The face this card carries.
    pub closed spec fn spec_face(self) -> FaceType {
        self.face
    }

    /// The suit this card carries.
    pub closed spec fn spec_suit(self) -> Suit {
        self.suit
    }

    /// The color this card carries.
    pub closed spec fn spec_color(self) -> Color {
        self.color
    }

    /// Builds a card, deriving its color; total over every face and suit.
    pub fn new(value: FaceType, suit: Suit) -> (c: Card)
        ensures
            c == Card::spec_new(value, suit),
    {
        let color = match suit {
            Suit::Hearts | Suit::Diamonds => Color::Red,
            Suit::Spades | Suit::Clubs => Color::Black,
            Suit::NoSuit => match value {
                FaceType::BigJoker => Color::Black,
                _ => Color::Red,
            },
        };
        Card { face: value, suit, color }
    }

    pub fn face_value(&self) -> (r: FaceType)
        ensures
            r == self.spec_face(),
    {
        self.face
    }

    pub fn suit(&self) -> (r: Suit)
        ensures
            r == self.spec_suit(),
    {
        self.suit
    }

    pub fn color(&self) -> (r: Color)
        ensures
            r == self.spec_color(),
    {
        self.color
    }

    /// The numeric value of a numeric face, `None` for every named face.
    pub fn num_val(&self) -> (r: Option<u8>)
        ensures
            r == spec_num_val(self.spec_face()),
    {
        match self.face {
            FaceType::Number(x) => Some(x),
            _ => None,
        }
    }

    /// Renders the card: `"<face> of <Suit>"` for suited cards, the bare
    /// face for the suitless jokers.
    pub fn string(&self) -> (r: String)
        ensures
            r@ == spec_card_str(self.spec_face(), self.spec_suit()),
    {
        let mut s: String = match self.face {
            FaceType::Number(n) => decimal_string(n),
            FaceType::King => String::from_str("King"),
            FaceType::Queen => String::from_str("Queen"),
            FaceType::Jack => String::from_str("Jack"),
            FaceType::Ace => String::from_str("Ace"),
            FaceType::BigJoker => String::from_str("Big Joker"),
            FaceType::LittleJoker => String::from_str("Little Joker"),
        };
        match self.suit {
            Suit::NoSuit => s,
            _ => {
                s.append(" of ");
                s.append(suit_str(self.suit));
                s
            },
        }
    }
}

pub open spec fn spec_num_val(face: FaceType) -> Option<u8> {
    match face {
        FaceType::Number(x) => Some(x),
        _ => None,
    }
}

/// The rendering of a face on its own.
pub open spec fn spec_face_str(face: FaceType) -> Seq<char> {
    match face {
        FaceType::Number(n) => spec_decimal(n as int),
        FaceType::King => "King"@,
        FaceType::Queen => "Queen"@,
        FaceType::Jack => "Jack"@,
        FaceType::Ace => "Ace"@,
        FaceType::BigJoker => "Big Joker"@,
        FaceType::LittleJoker => "Little Joker"@,
    }
}

/// The name of a suit.
pub open spec fn spec_suit_str(suit: Suit) -> Seq<char>
    recommends
        suit != Suit::NoSuit,
{
    match suit {
        Suit::Hearts => "Hearts"@,
        Suit::Diamonds => "Diamonds"@,
        Suit::Spades => "Spades"@,
        Suit::Clubs => "Clubs"@,
        Suit::NoSuit => Seq::empty(),
    }
}

/// The full rendering of a card with the given face and suit.
pub open spec fn spec_card_str(face: FaceType, suit: Suit) -> Seq<char> {
    if suit == Suit::NoSuit {
        spec_face_str(face)
    } else {
        spec_face_str(face) + " of "@ + spec_suit_str(suit)
    }
}

fn suit_str(suit: Suit) -> (r: &'static str)
    requires
        suit != Suit::NoSuit,
    ensures
        r@ == spec_suit_str(suit),
{
    match suit {
        Suit::Hearts => "Hearts",
        Suit::Diamonds => "Diamonds",
        Suit::Spades => "Spades",
        _ => "Clubs",
    }
}

/// Two cards with the same face, suit and color are the same card.
pub proof fn lemma_card_eq(c: Card, d: Card)
    requires
        c.spec_face() == d.spec_face(),
        c.spec_suit() == d.spec_suit(),
        c.spec_color() == d.spec_color(),
    ensures
        c == d,
{
}

/// What `spec_new` fixes: the two given fields, and the derived color.
pub broadcast proof fn lemma_spec_new(face: FaceType, suit: Suit)
    ensures
        (#[trigger] Card::spec_new(face, suit)).spec_face() == face,
        Card::spec_new(face, suit).spec_suit() == suit,
        Card::spec_new(face, suit).spec_color() == spec_color_of(face, suit),
{
}

} // verus!
