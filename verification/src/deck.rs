//! The playing-card deck: an ordered container of cards with the two
//! sampling operations, deterministic draining, filtering, and the two
//! canonical populations (with and without jokers).

use crate::card::{lemma_card_eq, spec_color_of, Card, FaceType, Suit};
use crate::engine::{self, InsufficientCards};
use crate::source::IndexSource;
use vstd::prelude::*;

verus! {

broadcast use crate::card::lemma_spec_new;

/// An ordered, mutable population of cards. Insertion order is the order
/// the deck holds; duplicates are allowed when a deck is hand-assembled,
/// though the canonical constructors never produce any.
#[derive(Debug, Clone, PartialEq, Eq)]
pub struct Deck {
    cards: Vec<Card>,
}

impl View for Deck {
    type V = Seq<Card>;

    closed spec fn view(&self) -> Seq<Card> {
        self.cards@
    }
}

/// The face at rank position `r` of a suit's thirteen cards: the numbers
/// two to ten first, then King, Queen, Jack and Ace.
pub open spec fn face_of_rank(r: int) -> FaceType
    recommends
        0 <= r < 13,
{
    if r < 9 {
        FaceType::Number((r + 2) as u8)
    } else if r == 9 {
        FaceType::King
    } else if r == 10 {
        FaceType::Queen
    } else if r == 11 {
        FaceType::Jack
    } else {
        FaceType::Ace
    }
}

/// The rank position a face stands at within its suit's run.
pub open spec fn rank_of_face(f: FaceType) -> int {
    match f {
        FaceType::Number(n) => n - 2,
        FaceType::King => 9,
        FaceType::Queen => 10,
        FaceType::Jack => 11,
        FaceType::Ace => 12,
        FaceType::BigJoker => 13,
        FaceType::LittleJoker => 14,
    }
}

/// The suit at position `s` of the canonical suit order.
pub open spec fn suit_of_index(s: int) -> Suit
    recommends
        0 <= s < 4,
{
    if s == 0 {
        Suit::Hearts
    } else if s == 1 {
        Suit::Diamonds
    } else if s == 2 {
        Suit::Spades
    } else {
        Suit::Clubs
    }
}

/// The position a suit stands at in the canonical suit order.
pub open spec fn index_of_suit(s: Suit) -> int {
    match s {
        Suit::Hearts => 0,
        Suit::Diamonds => 1,
        Suit::Spades => 2,
        Suit::Clubs => 3,
        Suit::NoSuit => 4,
    }
}

/// The thirteen cards of one suit, in canonical rank order.
pub open spec fn suit_run(suit: Suit) -> Seq<Card> {
    Seq::new(13, |r: int| Card::spec_new(face_of_rank(r), suit))
}

/// The two jokers, big one first.
pub open spec fn joker_pair() -> Seq<Card> {
    seq![
        Card::spec_new(FaceType::BigJoker, Suit::NoSuit),
        Card::spec_new(FaceType::LittleJoker, Suit::NoSuit),
    ]
}

/// The canonical 52-card population: suit-major, rank-minor.
pub open spec fn standard_deck_seq() -> Seq<Card> {
    suit_run(Suit::Hearts) + suit_run(Suit::Diamonds) + suit_run(Suit::Spades) + suit_run(
        Suit::Clubs,
    )
}

/// The canonical 54-card population: the 52 suited cards, jokers last.
pub open spec fn full_deck_seq() -> Seq<Card> {
    standard_deck_seq() + joker_pair()
}

fn face_at(r: usize) -> (f: FaceType)
    requires
        r < 13,
    ensures
        f == face_of_rank(r as int),
{
    if r < 9 {
        FaceType::Number((r + 2) as u8)
    } else if r == 9 {
        FaceType::King
    } else if r == 10 {
        FaceType::Queen
    } else if r == 11 {
        FaceType::Jack
    } else {
        FaceType::Ace
    }
}

fn push_suit(cards: &mut Vec<Card>, suit: Suit)
    ensures
        final(cards)@ == old(cards)@ + suit_run(suit),
{
    let ghost orig = cards@;
    for r in 0..13usize
        invariant
            cards@ == orig + suit_run(suit).take(r as int),
    {
        cards.push(Card::new(face_at(r), suit));
        proof {
            assert(suit_run(suit).take(r + 1) =~= suit_run(suit).take(r as int).push(
                Card::spec_new(face_of_rank(r as int), suit),
            ));
        }
    }
    proof {
        assert(orig + suit_run(suit).take(13) =~= orig + suit_run(suit));
    }
}

impl Deck {
    /// Wraps a hand-assembled population, in the given order.
    pub fn new(deck: Vec<Card>) -> (d: Self)
        ensures
            d@ == deck@,
    {
        Deck { cards: deck }
    }

    /// An empty deck.
    pub fn new_empty() -> (d: Self)
        ensures
            d@ == Seq::<Card>::empty(),
    {
        Deck { cards: Vec::new() }
    }

    /// The canonical deck of 54: thirteen ranks in each of the four suits,
    /// the two jokers appended last.
    pub fn deck() -> (d: Self)
        ensures
            d@ == full_deck_seq(),
    {
        let mut cards: Vec<Card> = Vec::new();
        push_suit(&mut cards, Suit::Hearts);
        push_suit(&mut cards, Suit::Diamonds);
        push_suit(&mut cards, Suit::Spades);
        push_suit(&mut cards, Suit::Clubs);
        cards.push(Card::new(FaceType::BigJoker, Suit::NoSuit));
        cards.push(Card::new(FaceType::LittleJoker, Suit::NoSuit));
        proof {
            assert(cards@ =~= full_deck_seq());
        }
        Deck { cards }
    }

    /// The canonical deck of 52: as `deck`, without the jokers.
    pub fn deck_no_jokers() -> (d: Self)
        ensures
            d@ == standard_deck_seq(),
    {
        let mut cards: Vec<Card> = Vec::new();
        push_suit(&mut cards, Suit::Hearts);
        push_suit(&mut cards, Suit::Diamonds);
        push_suit(&mut cards, Suit::Spades);
        push_suit(&mut cards, Suit::Clubs);
        proof {
            assert(cards@ =~= standard_deck_seq());
        }
        Deck { cards }
    }

    /// Appends a card at the back.
    pub fn add(&mut self, card: Card)
        ensures
            final(self)@ == old(self)@.push(card),
    {
        self.cards.push(card);
    }

    /// Removes the card at the back, if any.
    pub fn rem_end(&mut self)
        ensures
            old(self)@.len() == 0 ==> final(self)@ == old(self)@,
            old(self)@.len() > 0 ==> final(self)@ == old(self)@.drop_last(),
    {
        let _ = self.cards.pop();
    }

    /// How many cards remain.
    pub fn size(&self) -> (n: usize)
        ensures
            n == self@.len(),
    {
        self.cards.len()
    }

    /// The remaining cards, front first, as a fresh vector.
    pub fn raw(&self) -> (v: Vec<Card>)
        ensures
            v@ == self@,
    {
        engine::copy_all(&self.cards)
    }

    /// Says whether a draw of `amount` can be honoured; the error carries
    /// the request and what was actually available.
    pub fn check_draw(&self, amount: usize) -> (r: Result<(), InsufficientCards>)
        ensures
            r is Ok <==> amount <= self@.len(),
            r matches Err(e) ==> e == (InsufficientCards {
                requested: amount,
                available: self@.len() as usize,
            }),
    {
        if amount <= self.cards.len() {
            Ok(())
        } else {
            Err(InsufficientCards { requested: amount, available: self.cards.len() })
        }
    }

    /// Draws `amount` cards without replacement, leaving this deck as it
    /// was. Fails, changing nothing, exactly when more cards are asked for
    /// than remain.
    pub fn draw<R: IndexSource>(&self, amount: usize, picker: &mut R) -> (r: Result<
        Self,
        InsufficientCards,
    >)
        ensures
            r is Ok <==> amount <= self@.len(),
            r matches Ok(drawn) ==> drawn@.len() == amount && drawn@.to_multiset().subset_of(
                self@.to_multiset(),
            ),
            r matches Err(e) ==> e == (InsufficientCards {
                requested: amount,
                available: self@.len() as usize,
            }),
    {
        if amount > self.cards.len() {
            return Err(InsufficientCards { requested: amount, available: self.cards.len() });
        }
        Ok(Deck { cards: engine::sample_nondestructive(&self.cards, amount, picker) })
    }

    /// Draws `amount` cards without replacement, removing them: afterwards
    /// this deck holds exactly the complement. Fails, changing nothing,
    /// exactly when more cards are asked for than remain.
    pub fn draw_destructive<R: IndexSource>(&mut self, amount: usize, picker: &mut R) -> (r: Result<
        Self,
        InsufficientCards,
    >)
        ensures
            r is Ok <==> amount <= old(self)@.len(),
            r matches Ok(drawn) ==> drawn@.len() == amount && final(self)@.len() + amount == old(
                self,
            )@.len() && final(self)@.to_multiset().add(drawn@.to_multiset()) == old(
                self,
            )@.to_multiset() && engine::is_subsequence_of(final(self)@, old(self)@),
            r matches Err(e) ==> final(self)@ == old(self)@ && e == (InsufficientCards {
                requested: amount,
                available: old(self)@.len() as usize,
            }),
            amount == 0 ==> final(self)@ == old(self)@,
    {
        if amount > self.cards.len() {
            return Err(InsufficientCards { requested: amount, available: self.cards.len() });
        }
        let drawn = engine::sample_destructive(&mut self.cards, amount, picker);
        Ok(Deck { cards: drawn })
    }

    /// Removes and returns the front card, in original order; `None` once
    /// the deck is exhausted. Repeated calls drain the deck.
    pub fn next(&mut self) -> (r: Option<Card>)
        ensures
            old(self)@.len() == 0 ==> r is None && final(self)@ == old(self)@,
            old(self)@.len() > 0 ==> r == Some(old(self)@[0]) && final(self)@ == old(
                self,
            )@.drop_first(),
    {
        if self.cards.len() == 0 {
            None
        } else {
            Some(self.cards.remove(0))
        }
    }

    /// The order-preserving subsequence of cards the condition approves.
    pub fn filter_cards<F: Fn(Card) -> bool>(&self, condition: F) -> (r: Self)
        requires
            forall|i: int| 0 <= i < self@.len() ==> call_requires(condition, (self@[i],)),
        ensures
            exists|keep: Seq<bool>|
                keep.len() == self@.len() && (forall|i: int|
                    0 <= i < self@.len() ==> call_ensures(condition, (self@[i],), keep[i]))
                    && r@ == engine::selected(self@, keep),
            forall|j: int| 0 <= j < r@.len() ==> self@.contains(r@[j]),
    {
        proof {
            assert forall|i: int| 0 <= i < self.cards@.len() implies call_requires(
                condition,
                (self.cards@[i],),
            ) by {
                assert(call_requires(condition, (self@[i],)));
            }
        }
        let inner = engine::filter_items(&self.cards, condition);
        proof {
            let keep = choose|keep: Seq<bool>|
                keep.len() == self.cards@.len() && (forall|i: int|
                    0 <= i < self.cards@.len() ==> call_ensures(condition, (self.cards@[i],), keep[i]))
                    && inner@ == engine::selected(self.cards@, keep);
            assert(keep.len() == self@.len() && (forall|i: int|
                0 <= i < self@.len() ==> call_ensures(condition, (self@[i],), keep[i])) && inner@
                == engine::selected(self@, keep));
        }
        Deck { cards: inner }
    }
}

/// Where each canonical card stands in the full deck: thirteen slots per
/// suit, ranks in order, the jokers in the last two.
pub open spec fn card_slot(c: Card) -> int {
    match c.spec_face() {
        FaceType::BigJoker => 52,
        FaceType::LittleJoker => 53,
        _ => 13 * index_of_suit(c.spec_suit()) + rank_of_face(c.spec_face()),
    }
}

proof fn lemma_rank_roundtrip(r: int)
    requires
        0 <= r < 13,
    ensures
        rank_of_face(face_of_rank(r)) == r,
        face_of_rank(r) != FaceType::BigJoker,
        face_of_rank(r) != FaceType::LittleJoker,
{
}

proof fn lemma_full_deck_indexing()
    ensures
        forall|i: int| 0 <= i < 54 ==> #[trigger] card_slot(full_deck_seq()[i]) == i,
{
    assert forall|i: int| 0 <= i < 54 implies #[trigger] card_slot(full_deck_seq()[i]) == i by {
        if i < 13 {
            lemma_rank_roundtrip(i);
            assert(full_deck_seq()[i] == Card::spec_new(face_of_rank(i), Suit::Hearts));
        } else if i < 26 {
            lemma_rank_roundtrip(i - 13);
            assert(full_deck_seq()[i] == Card::spec_new(face_of_rank(i - 13), Suit::Diamonds));
        } else if i < 39 {
            lemma_rank_roundtrip(i - 26);
            assert(full_deck_seq()[i] == Card::spec_new(face_of_rank(i - 26), Suit::Spades));
        } else if i < 52 {
            lemma_rank_roundtrip(i - 39);
            assert(full_deck_seq()[i] == Card::spec_new(face_of_rank(i - 39), Suit::Clubs));
        } else if i == 52 {
            assert(full_deck_seq()[i] == Card::spec_new(FaceType::BigJoker, Suit::NoSuit));
        } else {
            assert(full_deck_seq()[i] == Card::spec_new(FaceType::LittleJoker, Suit::NoSuit));
        }
    }
}

/// The canonical populations hold exactly 54 and 52 cards, with no card
/// repeated: thirteen ranks in each of four suits, plus the two jokers.
pub proof fn lemma_canonical_decks_unique()
    ensures
        full_deck_seq().len() == 54,
        full_deck_seq().no_duplicates(),
        standard_deck_seq().len() == 52,
        standard_deck_seq().no_duplicates(),
{
    lemma_full_deck_indexing();
    assert forall|i: int, j: int| 0 <= i < 54 && 0 <= j < 54 && i != j implies full_deck_seq()[i]
        != full_deck_seq()[j] by {
        assert(card_slot(full_deck_seq()[i]) == i);
        assert(card_slot(full_deck_seq()[j]) == j);
    }
    assert forall|i: int, j: int| 0 <= i < 52 && 0 <= j < 52 && i != j implies standard_deck_seq()[i]
        != standard_deck_seq()[j] by {
        assert(standard_deck_seq()[i] == full_deck_seq()[i]);
        assert(standard_deck_seq()[j] == full_deck_seq()[j]);
    }
}

/// A card of one of the four suits, its face a number from two to ten or
/// one of the four court faces, its color the derived one.
pub open spec fn is_standard_card(c: Card) -> bool {
    &&& c.spec_suit() != Suit::NoSuit
    &&& c.spec_face() != FaceType::BigJoker
    &&& c.spec_face() != FaceType::LittleJoker
    &&& (c.spec_face() matches FaceType::Number(n) ==> 2 <= n <= 10)
    &&& c.spec_color() == spec_color_of(c.spec_face(), c.spec_suit())
}

/// One of the two suitless jokers, its color the derived one.
pub open spec fn is_joker_card(c: Card) -> bool {
    &&& c.spec_suit() == Suit::NoSuit
    &&& (c.spec_face() == FaceType::BigJoker || c.spec_face() == FaceType::LittleJoker)
    &&& c.spec_color() == spec_color_of(c.spec_face(), c.spec_suit())
}

/// The full deck holds a card exactly when it is a standard suited card or
/// a joker; the 52-card deck, exactly the standard suited cards.
pub proof fn lemma_canonical_decks_membership()
    ensures
        forall|c: Card| #[trigger]
            full_deck_seq().contains(c) <==> is_standard_card(c) || is_joker_card(c),
        forall|c: Card| #[trigger] standard_deck_seq().contains(c) <==> is_standard_card(c),
{
    assert forall|c: Card| #[trigger] standard_deck_seq().contains(c) implies is_standard_card(
        c,
    ) by {
        let i = choose|i: int| 0 <= i < 52 && standard_deck_seq()[i] == c;
        let s = i / 13;
        let r = i % 13;
        assert(i == 13 * s + r && 0 <= s < 4 && 0 <= r < 13) by (nonlinear_arith)
            requires
                0 <= i < 52,
                s == i / 13,
                r == i % 13,
        ;
        assert(standard_deck_seq()[13 * s + r] == Card::spec_new(face_of_rank(r), suit_of_index(s)));
        lemma_rank_roundtrip(r);
    }
    assert forall|c: Card| is_standard_card(c) implies #[trigger] standard_deck_seq().contains(
        c,
    ) by {
        let s = index_of_suit(c.spec_suit());
        let r = rank_of_face(c.spec_face());
        let i = 13 * s + r;
        assert(0 <= s < 4);
        assert(0 <= r < 13);
        assert(standard_deck_seq()[i] == Card::spec_new(face_of_rank(r), suit_of_index(s)));
        assert(face_of_rank(r) == c.spec_face());
        assert(suit_of_index(s) == c.spec_suit());
        lemma_card_eq(c, Card::spec_new(c.spec_face(), c.spec_suit()));
        assert(standard_deck_seq()[i] == c);
    }
    assert forall|c: Card| #[trigger] full_deck_seq().contains(c) implies is_standard_card(c)
        || is_joker_card(c) by {
        let i = choose|i: int| 0 <= i < 54 && full_deck_seq()[i] == c;
        if i < 52 {
            assert(standard_deck_seq()[i] == c);
            assert(standard_deck_seq().contains(c));
        } else if i == 52 {
            assert(c == Card::spec_new(FaceType::BigJoker, Suit::NoSuit));
        } else {
            assert(c == Card::spec_new(FaceType::LittleJoker, Suit::NoSuit));
        }
    }
    assert forall|c: Card| is_standard_card(c) || is_joker_card(c) implies #[trigger]
        full_deck_seq().contains(c) by {
        if is_standard_card(c) {
            assert(standard_deck_seq().contains(c));
            let i = choose|i: int| 0 <= i < 52 && standard_deck_seq()[i] == c;
            assert(full_deck_seq()[i] == c);
        } else if c.spec_face() == FaceType::BigJoker {
            lemma_card_eq(c, Card::spec_new(FaceType::BigJoker, Suit::NoSuit));
            assert(full_deck_seq()[52] == c);
        } else {
            lemma_card_eq(c, Card::spec_new(FaceType::LittleJoker, Suit::NoSuit));
            assert(full_deck_seq()[53] == c);
        }
    }
}

} // verus!
