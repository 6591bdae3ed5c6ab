//! The tarot value model and deck: the 22 named cards of the major arcana
//! with their declared ordinals, the 56 suited cards of the minor arcana,
//! and a container mirroring the playing-card deck's sampling contract.

use crate::engine::{self, InsufficientCards};
use crate::source::IndexSource;
use crate::text::{decimal_string, spec_decimal};
use vstd::prelude::*;

verus! {

/// The 22 cards of the major arcana. Each carries a declared ordinal,
/// `spec_ordinal` below, from TheFool at 0 to TheWorld at 21.
#[derive(Debug, Clone, Copy, PartialEq, Eq, Structural)]
pub enum MajorArcana {
    TheFool,
    TheMagician,
    TheHighPriestess,
    TheEmpress,
    TheEmperor,
    TheHierophant,
    TheLovers,
    TheChariot,
    Strength,
    TheHermit,
    WheelOfFortune,
    Justice,
    TheHangedMan,
    Death,
    Temperance,
    TheDevil,
    TheTower,
    TheStar,
    TheMoon,
    TheSun,
    Judgement,
    TheWorld,
}

/// The four suits of the minor arcana.
#[derive(Debug, Clone, Copy, PartialEq, Eq, Structural)]
pub enum MinorArcanaSuits {
    Swords,
    Wands,
    Coins,
    Cups,
}

/// The face of a minor-arcana card: a number from one to ten, or one of
/// the four court faces.
#[derive(Debug, Clone, Copy, PartialEq, Eq, Structural)]
pub enum MinorArcanaCardType {
    Number(u8),
    King,
    Queen,
    Knight,
    Page,
}

/// One tarot card: a greater secret of the major arcana, or a lesser
/// secret of the minor arcana.
#[derive(Debug, Clone, Copy, PartialEq, Eq, Structural)]
pub enum TarotCard {
    GreaterSecret { arcana: MajorArcana },
    LesserSecret { suit: MinorArcanaSuits, value: MinorArcanaCardType },
}

/// The declared ordinal of each major-arcana card: the index table that
/// the roman-numeral rendering reads.
pub open spec fn spec_ordinal(a: MajorArcana) -> int {
    match a {
        MajorArcana::TheFool => 0,
        MajorArcana::TheMagician => 1,
        MajorArcana::TheHighPriestess => 2,
        MajorArcana::TheEmpress => 3,
        MajorArcana::TheEmperor => 4,
        MajorArcana::TheHierophant => 5,
        MajorArcana::TheLovers => 6,
        MajorArcana::TheChariot => 7,
        MajorArcana::Strength => 8,
        MajorArcana::TheHermit => 9,
        MajorArcana::WheelOfFortune => 10,
        MajorArcana::Justice => 11,
        MajorArcana::TheHangedMan => 12,
        MajorArcana::Death => 13,
        MajorArcana::Temperance => 14,
        MajorArcana::TheDevil => 15,
        MajorArcana::TheTower => 16,
        MajorArcana::TheStar => 17,
        MajorArcana::TheMoon => 18,
        MajorArcana::TheSun => 19,
        MajorArcana::Judgement => 20,
        MajorArcana::TheWorld => 21,
    }
}

/// The major-arcana card standing at ordinal `i`.
pub open spec fn arcana_of(i: int) -> MajorArcana
    recommends
        0 <= i < 22,
{
    if i == 0 {
        MajorArcana::TheFool
    } else if i == 1 {
        MajorArcana::TheMagician
    } else if i == 2 {
        MajorArcana::TheHighPriestess
    } else if i == 3 {
        MajorArcana::TheEmpress
    } else if i == 4 {
        MajorArcana::TheEmperor
    } else if i == 5 {
        MajorArcana::TheHierophant
    } else if i == 6 {
        MajorArcana::TheLovers
    } else if i == 7 {
        MajorArcana::TheChariot
    } else if i == 8 {
        MajorArcana::Strength
    } else if i == 9 {
        MajorArcana::TheHermit
    } else if i == 10 {
        MajorArcana::WheelOfFortune
    } else if i == 11 {
        MajorArcana::Justice
    } else if i == 12 {
        MajorArcana::TheHangedMan
    } else if i == 13 {
        MajorArcana::Death
    } else if i == 14 {
        MajorArcana::Temperance
    } else if i == 15 {
        MajorArcana::TheDevil
    } else if i == 16 {
        MajorArcana::TheTower
    } else if i == 17 {
        MajorArcana::TheStar
    } else if i == 18 {
        MajorArcana::TheMoon
    } else if i == 19 {
        MajorArcana::TheSun
    } else if i == 20 {
        MajorArcana::Judgement
    } else {
        MajorArcana::TheWorld
    }
}

/// The declared ordinal, as a value.
pub fn ordinal(a: MajorArcana) -> (n: u8)
    ensures
        n as int == spec_ordinal(a),
        n <= 21,
{
    match a {
        MajorArcana::TheFool => 0,
        MajorArcana::TheMagician => 1,
        MajorArcana::TheHighPriestess => 2,
        MajorArcana::TheEmpress => 3,
        MajorArcana::TheEmperor => 4,
        MajorArcana::TheHierophant => 5,
        MajorArcana::TheLovers => 6,
        MajorArcana::TheChariot => 7,
        MajorArcana::Strength => 8,
        MajorArcana::TheHermit => 9,
        MajorArcana::WheelOfFortune => 10,
        MajorArcana::Justice => 11,
        MajorArcana::TheHangedMan => 12,
        MajorArcana::Death => 13,
        MajorArcana::Temperance => 14,
        MajorArcana::TheDevil => 15,
        MajorArcana::TheTower => 16,
        MajorArcana::TheStar => 17,
        MajorArcana::TheMoon => 18,
        MajorArcana::TheSun => 19,
        MajorArcana::Judgement => 20,
        MajorArcana::TheWorld => 21,
    }
}

fn arcana_at(i: usize) -> (a: MajorArcana)
    requires
        i < 22,
    ensures
        a == arcana_of(i as int),
{
    match i {
        0 => MajorArcana::TheFool,
        1 => MajorArcana::TheMagician,
        2 => MajorArcana::TheHighPriestess,
        3 => MajorArcana::TheEmpress,
        4 => MajorArcana::TheEmperor,
        5 => MajorArcana::TheHierophant,
        6 => MajorArcana::TheLovers,
        7 => MajorArcana::TheChariot,
        8 => MajorArcana::Strength,
        9 => MajorArcana::TheHermit,
        10 => MajorArcana::WheelOfFortune,
        11 => MajorArcana::Justice,
        12 => MajorArcana::TheHangedMan,
        13 => MajorArcana::Death,
        14 => MajorArcana::Temperance,
        15 => MajorArcana::TheDevil,
        16 => MajorArcana::TheTower,
        17 => MajorArcana::TheStar,
        18 => MajorArcana::TheMoon,
        19 => MajorArcana::TheSun,
        20 => MajorArcana::Judgement,
        _ => MajorArcana::TheWorld,
    }
}

/// The readable name of each major-arcana card: the words of its title,
/// space-separated.
pub open spec fn spec_arcana_name(a: MajorArcana) -> Seq<char> {
    match a {
        MajorArcana::TheFool => "The Fool"@,
        MajorArcana::TheMagician => "The Magician"@,
        MajorArcana::TheHighPriestess => "The High Priestess"@,
        MajorArcana::TheEmpress => "The Empress"@,
        MajorArcana::TheEmperor => "The Emperor"@,
        MajorArcana::TheHierophant => "The Hierophant"@,
        MajorArcana::TheLovers => "The Lovers"@,
        MajorArcana::TheChariot => "The Chariot"@,
        MajorArcana::Strength => "Strength"@,
        MajorArcana::TheHermit => "The Hermit"@,
        MajorArcana::WheelOfFortune => "Wheel Of Fortune"@,
        MajorArcana::Justice => "Justice"@,
        MajorArcana::TheHangedMan => "The Hanged Man"@,
        MajorArcana::Death => "Death"@,
        MajorArcana::Temperance => "Temperance"@,
        MajorArcana::TheDevil => "The Devil"@,
        MajorArcana::TheTower => "The Tower"@,
        MajorArcana::TheStar => "The Star"@,
        MajorArcana::TheMoon => "The Moon"@,
        MajorArcana::TheSun => "The Sun"@,
        MajorArcana::Judgement => "Judgement"@,
        MajorArcana::TheWorld => "The World"@,
    }
}

fn arcana_name(a: MajorArcana) -> (r: &'static str)
    ensures
        r@ == spec_arcana_name(a),
{
    match a {
        MajorArcana::TheFool => "The Fool",
        MajorArcana::TheMagician => "The Magician",
        MajorArcana::TheHighPriestess => "The High Priestess",
        MajorArcana::TheEmpress => "The Empress",
        MajorArcana::TheEmperor => "The Emperor",
        MajorArcana::TheHierophant => "The Hierophant",
        MajorArcana::TheLovers => "The Lovers",
        MajorArcana::TheChariot => "The Chariot",
        MajorArcana::Strength => "Strength",
        MajorArcana::TheHermit => "The Hermit",
        MajorArcana::WheelOfFortune => "Wheel Of Fortune",
        MajorArcana::Justice => "Justice",
        MajorArcana::TheHangedMan => "The Hanged Man",
        MajorArcana::Death => "Death",
        MajorArcana::Temperance => "Temperance",
        MajorArcana::TheDevil => "The Devil",
        MajorArcana::TheTower => "The Tower",
        MajorArcana::TheStar => "The Star",
        MajorArcana::TheMoon => "The Moon",
        MajorArcana::TheSun => "The Sun",
        MajorArcana::Judgement => "Judgement",
        MajorArcana::TheWorld => "The World",
    }
}

/// The roman numeral that the `roman` crate writes for `n`: a fixed
/// function of `n` alone.
pub uninterp spec fn roman_of(n: int) -> Seq<char>;

/// Relies on roman::to: answers `Some` exactly for 1 up to 3999 (its
/// declared maximum), and the numeral depends on the number alone.
#[verifier::external_body]
fn roman_numeral(n: i32) -> (r: Option<String>)
    ensures
        r is Some <==> 1 <= n <= 3999,
        r matches Some(s) ==> s@ == roman_of(n as int),
{
    roman::to(n)
}

/// The name of a minor-arcana suit.
pub open spec fn spec_minor_suit_str(suit: MinorArcanaSuits) -> Seq<char> {
    match suit {
        MinorArcanaSuits::Swords => "Swords"@,
        MinorArcanaSuits::Wands => "Wands"@,
        MinorArcanaSuits::Coins => "Coins"@,
        MinorArcanaSuits::Cups => "Cups"@,
    }
}

fn minor_suit_str(suit: MinorArcanaSuits) -> (r: &'static str)
    ensures
        r@ == spec_minor_suit_str(suit),
{
    match suit {
        MinorArcanaSuits::Swords => "Swords",
        MinorArcanaSuits::Wands => "Wands",
        MinorArcanaSuits::Coins => "Coins",
        MinorArcanaSuits::Cups => "Cups",
    }
}

/// The rendering of a minor-arcana face on its own.
pub open spec fn spec_minor_value_str(value: MinorArcanaCardType) -> Seq<char> {
    match value {
        MinorArcanaCardType::Number(n) => spec_decimal(n as int),
        MinorArcanaCardType::King => "King"@,
        MinorArcanaCardType::Queen => "Queen"@,
        MinorArcanaCardType::Knight => "Knight"@,
        MinorArcanaCardType::Page => "Page"@,
    }
}

/// The full rendering of a tarot card: a greater secret as its readable
/// name with its ordinal bracketed as a roman numeral (the ordinal 0 of
/// TheFool as the plain digit, no roman numeral standing for zero), a
/// lesser secret as `"<value> of <Suit>"`.
pub open spec fn spec_tarot_str(c: TarotCard) -> Seq<char> {
    match c {
        TarotCard::GreaterSecret { arcana } => spec_arcana_name(arcana) + " ["@ + (if spec_ordinal(
            arcana,
        ) == 0 {
            "0"@
        } else {
            roman_of(spec_ordinal(arcana))
        }) + "]"@,
        TarotCard::LesserSecret { suit, value } => spec_minor_value_str(value) + " of "@
            + spec_minor_suit_str(suit),
    }
}

impl TarotCard {
    /// Renders the card.
    pub fn string(&self) -> (r: String)
        ensures
            r@ == spec_tarot_str(*self),
    {
        match *self {
            TarotCard::GreaterSecret { arcana } => {
                let ord = ordinal(arcana);
                let mut s = String::from_str(arcana_name(arcana));
                s.append(" [");
                if ord == 0 {
                    s.append("0");
                } else {
                    match roman_numeral(ord as i32) {
                        Some(numeral) => s.append(numeral.as_str()),
                        None => unreached(),
                    }
                }
                s.append("]");
                s
            },
            TarotCard::LesserSecret { suit, value } => {
                let mut s = match value {
                    MinorArcanaCardType::Number(n) => decimal_string(n),
                    MinorArcanaCardType::King => String::from_str("King"),
                    MinorArcanaCardType::Queen => String::from_str("Queen"),
                    MinorArcanaCardType::Knight => String::from_str("Knight"),
                    MinorArcanaCardType::Page => String::from_str("Page"),
                };
                s.append(" of ");
                s.append(minor_suit_str(suit));
                s
            },
        }
    }
}

/// The minor-arcana face at rank position `r` of a suit's fourteen cards:
/// the numbers one to ten first, then King, Queen, Knight and Page.
pub open spec fn minor_face_of_rank(r: int) -> MinorArcanaCardType
    recommends
        0 <= r < 14,
{
    if r < 10 {
        MinorArcanaCardType::Number((r + 1) as u8)
    } else if r == 10 {
        MinorArcanaCardType::King
    } else if r == 11 {
        MinorArcanaCardType::Queen
    } else if r == 12 {
        MinorArcanaCardType::Knight
    } else {
        MinorArcanaCardType::Page
    }
}

/// The rank position a minor-arcana face stands at.
pub open spec fn rank_of_minor_face(v: MinorArcanaCardType) -> int {
    match v {
        MinorArcanaCardType::Number(n) => n - 1,
        MinorArcanaCardType::King => 10,
        MinorArcanaCardType::Queen => 11,
        MinorArcanaCardType::Knight => 12,
        MinorArcanaCardType::Page => 13,
    }
}

/// The position of a minor-arcana suit in the canonical order.
pub open spec fn index_of_minor_suit(s: MinorArcanaSuits) -> int {
    match s {
        MinorArcanaSuits::Swords => 0,
        MinorArcanaSuits::Wands => 1,
        MinorArcanaSuits::Coins => 2,
        MinorArcanaSuits::Cups => 3,
    }
}

/// The minor-arcana suit at position `s` of the canonical order.
pub open spec fn minor_suit_of_index(s: int) -> MinorArcanaSuits
    recommends
        0 <= s < 4,
{
    if s == 0 {
        MinorArcanaSuits::Swords
    } else if s == 1 {
        MinorArcanaSuits::Wands
    } else if s == 2 {
        MinorArcanaSuits::Coins
    } else {
        MinorArcanaSuits::Cups
    }
}

/// The 22 greater secrets, in ordinal order.
pub open spec fn major_run() -> Seq<TarotCard> {
    Seq::new(22, |i: int| TarotCard::GreaterSecret { arcana: arcana_of(i) })
}

/// The fourteen lesser secrets of one suit, in canonical rank order.
pub open spec fn minor_run(suit: MinorArcanaSuits) -> Seq<TarotCard> {
    Seq::new(14, |r: int| TarotCard::LesserSecret { suit, value: minor_face_of_rank(r) })
}

/// The canonical 78-card tarot population: the major arcana first, then
/// each minor suit's run.
pub open spec fn tarot_full_seq() -> Seq<TarotCard> {
    major_run() + minor_run(MinorArcanaSuits::Swords) + minor_run(MinorArcanaSuits::Wands)
        + minor_run(MinorArcanaSuits::Coins) + minor_run(MinorArcanaSuits::Cups)
}

fn minor_face_at(r: usize) -> (v: MinorArcanaCardType)
    requires
        r < 14,
    ensures
        v == minor_face_of_rank(r as int),
{
    if r < 10 {
        MinorArcanaCardType::Number((r + 1) as u8)
    } else if r == 10 {
        MinorArcanaCardType::King
    } else if r == 11 {
        MinorArcanaCardType::Queen
    } else if r == 12 {
        MinorArcanaCardType::Knight
    } else {
        MinorArcanaCardType::Page
    }
}

/// An ordered, mutable population of tarot cards, with the same sampling
/// contract as the playing-card deck.
#[derive(Debug, Clone, PartialEq, Eq)]
pub struct TarotDeck {
    cards: Vec<TarotCard>,
}

impl View for TarotDeck {
    type V = Seq<TarotCard>;

    closed spec fn view(&self) -> Seq<TarotCard> {
        self.cards@
    }
}

fn push_minor_suit(cards: &mut Vec<TarotCard>, suit: MinorArcanaSuits)
    ensures
        final(cards)@ == old(cards)@ + minor_run(suit),
{
    let ghost orig = cards@;
    for r in 0..14usize
        invariant
            cards@ == orig + minor_run(suit).take(r as int),
    {
        cards.push(TarotCard::LesserSecret { suit, value: minor_face_at(r) });
        proof {
            assert(minor_run(suit).take(r + 1) =~= minor_run(suit).take(r as int).push(
                TarotCard::LesserSecret { suit, value: minor_face_of_rank(r as int) },
            ));
        }
    }
    proof {
        assert(orig + minor_run(suit).take(14) =~= orig + minor_run(suit));
    }
}

fn push_major(cards: &mut Vec<TarotCard>)
    ensures
        final(cards)@ == old(cards)@ + major_run(),
{
    let ghost orig = cards@;
    for i in 0..22usize
        invariant
            cards@ == orig + major_run().take(i as int),
    {
        cards.push(TarotCard::GreaterSecret { arcana: arcana_at(i) });
        proof {
            assert(major_run().take(i + 1) =~= major_run().take(i as int).push(
                TarotCard::GreaterSecret { arcana: arcana_of(i as int) },
            ));
        }
    }
    proof {
        assert(orig + major_run().take(22) =~= orig + major_run());
    }
}

impl TarotDeck {
    fn new() -> (d: Self)
        ensures
            d@ == Seq::<TarotCard>::empty(),
    {
        TarotDeck { cards: Vec::new() }
    }

    fn add(&mut self, card: TarotCard)
        ensures
            final(self)@ == old(self)@.push(card),
    {
        self.cards.push(card);
    }

    /// The canonical 78-card deck: 22 greater secrets, then the four minor
    /// suits of fourteen cards each.
    pub fn full_deck() -> (d: Self)
        ensures
            d@ == tarot_full_seq(),
    {
        let mut cards: Vec<TarotCard> = Vec::new();
        push_major(&mut cards);
        push_minor_suit(&mut cards, MinorArcanaSuits::Swords);
        push_minor_suit(&mut cards, MinorArcanaSuits::Wands);
        push_minor_suit(&mut cards, MinorArcanaSuits::Coins);
        push_minor_suit(&mut cards, MinorArcanaSuits::Cups);
        proof {
            assert(cards@ =~= tarot_full_seq());
        }
        TarotDeck { cards }
    }

    /// The 22-card deck of the major arcana alone.
    pub fn no_minor_deck() -> (d: Self)
        ensures
            d@ == major_run(),
    {
        let mut cards: Vec<TarotCard> = Vec::new();
        push_major(&mut cards);
        TarotDeck { cards }
    }

    /// How many cards remain.
    pub fn size(&self) -> (n: usize)
        ensures
            n == self@.len(),
    {
        self.cards.len()
    }

    /// Says whether a draw of `amount` can be honoured; the error carries
    /// the request and what was actually available.
    pub fn check_draw(&self, amount: usize) -> (r: Result<(), InsufficientCards>)
        ensures
            r is Ok <==> amount <= self@.len(),
            r matches Err(e) ==> e == (InsufficientCards {
                requested: amount,
                available: self@.len() as usize,
            }),
    {
        if amount <= self.cards.len() {
            Ok(())
        } else {
            Err(InsufficientCards { requested: amount, available: self.cards.len() })
        }
    }

    /// Draws `amount` cards without replacement, leaving this deck as it
    /// was. Fails, changing nothing, exactly when more cards are asked for
    /// than remain.
    pub fn draw<R: IndexSource>(&self, amount: usize, picker: &mut R) -> (r: Result<
        Self,
        InsufficientCards,
    >)
        ensures
            r is Ok <==> amount <= self@.len(),
            r matches Ok(drawn) ==> drawn@.len() == amount && drawn@.to_multiset().subset_of(
                self@.to_multiset(),
            ),
            r matches Err(e) ==> e == (InsufficientCards {
                requested: amount,
                available: self@.len() as usize,
            }),
    {
        if amount > self.cards.len() {
            return Err(InsufficientCards { requested: amount, available: self.cards.len() });
        }
        Ok(TarotDeck { cards: engine::sample_nondestructive(&self.cards, amount, picker) })
    }

    /// Draws `amount` cards without replacement, removing them: afterwards
    /// this deck holds exactly the complement. Fails, changing nothing,
    /// exactly when more cards are asked for than remain.
    pub fn draw_destructive<R: IndexSource>(&mut self, amount: usize, picker: &mut R) -> (r: Result<
        Self,
        InsufficientCards,
    >)
        ensures
            r is Ok <==> amount <= old(self)@.len(),
            r matches Ok(drawn) ==> drawn@.len() == amount && final(self)@.len() + amount == old(
                self,
            )@.len() && final(self)@.to_multiset().add(drawn@.to_multiset()) == old(
                self,
            )@.to_multiset() && engine::is_subsequence_of(final(self)@, old(self)@),
            r matches Err(e) ==> final(self)@ == old(self)@ && e == (InsufficientCards {
                requested: amount,
                available: old(self)@.len() as usize,
            }),
            amount == 0 ==> final(self)@ == old(self)@,
    {
        if amount > self.cards.len() {
            return Err(InsufficientCards { requested: amount, available: self.cards.len() });
        }
        let drawn = engine::sample_destructive(&mut self.cards, amount, picker);
        Ok(TarotDeck { cards: drawn })
    }

    /// Removes and returns the front card, in original order; `None` once
    /// the deck is exhausted. Repeated calls drain the deck.
    pub fn next(&mut self) -> (r: Option<TarotCard>)
        ensures
            old(self)@.len() == 0 ==> r is None && final(self)@ == old(self)@,
            old(self)@.len() > 0 ==> r == Some(old(self)@[0]) && final(self)@ == old(
                self,
            )@.drop_first(),
    {
        if self.cards.len() == 0 {
            None
        } else {
            Some(self.cards.remove(0))
        }
    }

    /// The order-preserving subsequence of cards the condition approves.
    pub fn filter_cards<F: Fn(TarotCard) -> bool>(&self, condition: F) -> (r: Self)
        requires
            forall|i: int| 0 <= i < self@.len() ==> call_requires(condition, (self@[i],)),
        ensures
            exists|keep: Seq<bool>|
                keep.len() == self@.len() && (forall|i: int|
                    0 <= i < self@.len() ==> call_ensures(condition, (self@[i],), keep[i]))
                    && r@ == engine::selected(self@, keep),
            forall|j: int| 0 <= j < r@.len() ==> self@.contains(r@[j]),
    {
        proof {
            assert forall|i: int| 0 <= i < self.cards@.len() implies call_requires(
                condition,
                (self.cards@[i],),
            ) by {
                assert(call_requires(condition, (self@[i],)));
            }
        }
        let inner = engine::filter_items(&self.cards, condition);
        proof {
            let keep = choose|keep: Seq<bool>|
                keep.len() == self.cards@.len() && (forall|i: int|
                    0 <= i < self.cards@.len() ==> call_ensures(condition, (self.cards@[i],), keep[i]))
                    && inner@ == engine::selected(self.cards@, keep);
            assert(keep.len() == self@.len() && (forall|i: int|
                0 <= i < self@.len() ==> call_ensures(condition, (self@[i],), keep[i])) && inner@
                == engine::selected(self@, keep));
        }
        TarotDeck { cards: inner }
    }
}

/// Where each canonical tarot card stands in the full deck: the greater
/// secrets at their ordinals, then fourteen slots per minor suit.
pub open spec fn tarot_slot(c: TarotCard) -> int {
    match c {
        TarotCard::GreaterSecret { arcana } => spec_ordinal(arcana),
        TarotCard::LesserSecret { suit, value } => 22 + 14 * index_of_minor_suit(suit)
            + rank_of_minor_face(value),
    }
}

proof fn lemma_ordinal_roundtrip(i: int)
    requires
        0 <= i < 22,
    ensures
        spec_ordinal(arcana_of(i)) == i,
{
}

proof fn lemma_minor_rank_roundtrip(r: int)
    requires
        0 <= r < 14,
    ensures
        rank_of_minor_face(minor_face_of_rank(r)) == r,
{
}

proof fn lemma_tarot_full_indexing()
    ensures
        forall|i: int| 0 <= i < 78 ==> #[trigger] tarot_slot(tarot_full_seq()[i]) == i,
{
    assert forall|i: int| 0 <= i < 78 implies #[trigger] tarot_slot(tarot_full_seq()[i]) == i by {
        if i < 22 {
            lemma_ordinal_roundtrip(i);
            assert(tarot_full_seq()[i] == TarotCard::GreaterSecret { arcana: arcana_of(i) });
        } else if i < 36 {
            lemma_minor_rank_roundtrip(i - 22);
            assert(tarot_full_seq()[i] == TarotCard::LesserSecret {
                suit: MinorArcanaSuits::Swords,
                value: minor_face_of_rank(i - 22),
            });
        } else if i < 50 {
            lemma_minor_rank_roundtrip(i - 36);
            assert(tarot_full_seq()[i] == TarotCard::LesserSecret {
                suit: MinorArcanaSuits::Wands,
                value: minor_face_of_rank(i - 36),
            });
        } else if i < 64 {
            lemma_minor_rank_roundtrip(i - 50);
            assert(tarot_full_seq()[i] == TarotCard::LesserSecret {
                suit: MinorArcanaSuits::Coins,
                value: minor_face_of_rank(i - 50),
            });
        } else {
            lemma_minor_rank_roundtrip(i - 64);
            assert(tarot_full_seq()[i] == TarotCard::LesserSecret {
                suit: MinorArcanaSuits::Cups,
                value: minor_face_of_rank(i - 64),
            });
        }
    }
}

/// The canonical tarot populations hold exactly 78 and 22 cards, with no
/// card repeated: 22 greater secrets, and fourteen lesser secrets in each
/// of four suits.
pub proof fn lemma_canonical_tarot_unique()
    ensures
        tarot_full_seq().len() == 78,
        tarot_full_seq().no_duplicates(),
        major_run().len() == 22,
        major_run().no_duplicates(),
{
    lemma_tarot_full_indexing();
    assert forall|i: int, j: int| 0 <= i < 78 && 0 <= j < 78 && i != j implies tarot_full_seq()[i]
        != tarot_full_seq()[j] by {
        assert(tarot_slot(tarot_full_seq()[i]) == i);
        assert(tarot_slot(tarot_full_seq()[j]) == j);
    }
    assert forall|i: int, j: int| 0 <= i < 22 && 0 <= j < 22 && i != j implies major_run()[i]
        != major_run()[j] by {
        assert(tarot_full_seq()[i] == major_run()[i]);
        assert(tarot_full_seq()[j] == major_run()[j]);
    }
}

} // verus!
