use discarded::card::{Card, Color, FaceType, Suit};
use discarded::deck::Deck;
use discarded::engine::InsufficientCards;
use discarded::source::{CycleSource, ThreadRandom};

fn count_of(cards: &[Card], wanted: Card) -> usize {
    cards.iter().filter(|c| **c == wanted).count()
}

fn assert_all_unique(cards: &[Card]) {
    for i in 0..cards.len() {
        for j in (i + 1)..cards.len() {
            assert_ne!(cards[i], cards[j]);
        }
    }
}

#[test]
fn canonical_deck_has_54_unique_cards() {
    let d = Deck::deck();
    let cards = d.raw();
    assert_eq!(cards.len(), 54);
    assert_all_unique(&cards);
    let suits = [Suit::Hearts, Suit::Diamonds, Suit::Spades, Suit::Clubs];
    for suit in suits {
        for n in 2..=10u8 {
            assert_eq!(count_of(&cards, Card::new(FaceType::Number(n), suit)), 1);
        }
        for face in [FaceType::King, FaceType::Queen, FaceType::Jack, FaceType::Ace] {
            assert_eq!(count_of(&cards, Card::new(face, suit)), 1);
        }
    }
    assert_eq!(count_of(&cards, Card::new(FaceType::BigJoker, Suit::NoSuit)), 1);
    assert_eq!(count_of(&cards, Card::new(FaceType::LittleJoker, Suit::NoSuit)), 1);
}

#[test]
fn no_jokers_deck_has_52_unique_cards() {
    let d = Deck::deck_no_jokers();
    let cards = d.raw();
    assert_eq!(cards.len(), 52);
    assert_all_unique(&cards);
    assert_eq!(count_of(&cards, Card::new(FaceType::BigJoker, Suit::NoSuit)), 0);
    assert_eq!(count_of(&cards, Card::new(FaceType::LittleJoker, Suit::NoSuit)), 0);
}

#[test]
fn canonical_order_starts_with_hearts_and_ends_with_jokers() {
    let cards = Deck::deck().raw();
    assert_eq!(cards[0], Card::new(FaceType::Number(2), Suit::Hearts));
    assert_eq!(cards[8], Card::new(FaceType::Number(10), Suit::Hearts));
    assert_eq!(cards[9], Card::new(FaceType::King, Suit::Hearts));
    assert_eq!(cards[12], Card::new(FaceType::Ace, Suit::Hearts));
    assert_eq!(cards[13], Card::new(FaceType::Number(2), Suit::Diamonds));
    assert_eq!(cards[52], Card::new(FaceType::BigJoker, Suit::NoSuit));
    assert_eq!(cards[53], Card::new(FaceType::LittleJoker, Suit::NoSuit));
}

#[test]
fn destructive_draw_conserves_the_population() {
    let mut d = Deck::deck();
    let before = d.raw();
    let mut picker = ThreadRandom::new();
    let drawn = d.draw_destructive(20, &mut picker).unwrap();
    let hand = drawn.raw();
    let rest = d.raw();
    assert_eq!(hand.len(), 20);
    assert_eq!(rest.len(), 34);
    assert_eq!(d.size(), 34);
    for c in &before {
        assert_eq!(count_of(&hand, *c) + count_of(&rest, *c), 1);
    }
}

#[test]
fn destructive_draw_of_everything_empties_the_deck() {
    let mut d = Deck::deck_no_jokers();
    let mut picker = ThreadRandom::new();
    let drawn = d.draw_destructive(52, &mut picker).unwrap();
    assert_eq!(drawn.size(), 52);
    assert_eq!(d.size(), 0);
    assert_all_unique(&drawn.raw());
}

#[test]
fn overdraw_fails_identically_for_both_variants() {
    let mut d = Deck::deck();
    let before = d.raw();
    let mut picker = ThreadRandom::new();
    let expected = InsufficientCards { requested: 55, available: 54 };
    assert_eq!(d.draw(55, &mut picker).unwrap_err(), expected);
    assert_eq!(d.draw_destructive(55, &mut picker).unwrap_err(), expected);
    assert_eq!(d.raw(), before);
}

#[test]
fn zero_draw_succeeds_and_changes_nothing() {
    let mut d = Deck::deck();
    let before = d.raw();
    let mut picker = ThreadRandom::new();
    let nondestructive = d.draw(0, &mut picker).unwrap();
    assert_eq!(nondestructive.size(), 0);
    let destructive = d.draw_destructive(0, &mut picker).unwrap();
    assert_eq!(destructive.size(), 0);
    assert_eq!(d.raw(), before);
}

#[test]
fn nondestructive_draw_leaves_the_source_as_it_was() {
    let d = Deck::deck();
    let before = d.raw();
    let mut picker = ThreadRandom::new();
    let drawn = d.draw(10, &mut picker).unwrap();
    let hand = drawn.raw();
    assert_eq!(hand.len(), 10);
    assert_eq!(d.raw(), before);
    assert_all_unique(&hand);
    for c in &hand {
        assert_eq!(count_of(&before, *c), 1);
    }
}

#[test]
fn check_draw_reports_the_same_condition_as_the_draws() {
    let d = Deck::deck();
    assert!(d.check_draw(54).is_ok());
    assert!(d.check_draw(0).is_ok());
    assert_eq!(
        d.check_draw(100).unwrap_err(),
        InsufficientCards { requested: 100, available: 54 }
    );
}

#[test]
fn cycling_source_at_zero_draws_from_the_front() {
    let mut d = Deck::deck();
    let mut picker = CycleSource::new(vec![0]);
    let drawn = d.draw_destructive(3, &mut picker).unwrap();
    let hand = drawn.raw();
    assert_eq!(hand[0], Card::new(FaceType::Number(2), Suit::Hearts));
    assert_eq!(hand[1], Card::new(FaceType::Number(3), Suit::Hearts));
    assert_eq!(hand[2], Card::new(FaceType::Number(4), Suit::Hearts));
    assert_eq!(d.size(), 51);
}

#[test]
fn cycling_source_follows_its_listed_indices() {
    let mut d = Deck::new(vec![
        Card::new(FaceType::Number(2), Suit::Hearts),
        Card::new(FaceType::Number(3), Suit::Hearts),
        Card::new(FaceType::Number(4), Suit::Hearts),
        Card::new(FaceType::Number(5), Suit::Hearts),
    ]);
    let mut picker = CycleSource::new(vec![1, 1, 1, 1]);
    let drawn = d.draw_destructive(4, &mut picker).unwrap();
    let hand = drawn.raw();
    assert_eq!(hand[0], Card::new(FaceType::Number(3), Suit::Hearts));
    assert_eq!(hand[1], Card::new(FaceType::Number(4), Suit::Hearts));
    assert_eq!(hand[2], Card::new(FaceType::Number(5), Suit::Hearts));
    assert_eq!(hand[3], Card::new(FaceType::Number(2), Suit::Hearts));
    assert_eq!(d.size(), 0);
}

#[test]
fn next_drains_in_original_order() {
    let mut d = Deck::new(vec![
        Card::new(FaceType::Ace, Suit::Spades),
        Card::new(FaceType::King, Suit::Spades),
    ]);
    assert_eq!(d.next(), Some(Card::new(FaceType::Ace, Suit::Spades)));
    assert_eq!(d.next(), Some(Card::new(FaceType::King, Suit::Spades)));
    assert_eq!(d.next(), None);
    assert_eq!(d.size(), 0);
}

#[test]
fn add_and_rem_end_work_at_the_back() {
    let mut d = Deck::new_empty();
    d.add(Card::new(FaceType::Jack, Suit::Hearts));
    d.add(Card::new(FaceType::Queen, Suit::Hearts));
    assert_eq!(d.size(), 2);
    d.rem_end();
    assert_eq!(d.raw(), vec![Card::new(FaceType::Jack, Suit::Hearts)]);
    d.rem_end();
    d.rem_end();
    assert_eq!(d.size(), 0);
}

#[test]
fn filter_cards_keeps_the_reds_in_order() {
    let d = Deck::deck();
    let reds = d.filter_cards(|c: Card| c.color() == Color::Red);
    let cards = reds.raw();
    // 13 hearts, 13 diamonds and the little joker
    assert_eq!(cards.len(), 27);
    assert_eq!(cards[0], Card::new(FaceType::Number(2), Suit::Hearts));
    assert_eq!(cards[13], Card::new(FaceType::Number(2), Suit::Diamonds));
    assert_eq!(cards[26], Card::new(FaceType::LittleJoker, Suit::NoSuit));
    for c in &cards {
        assert_eq!(c.color(), Color::Red);
    }
}

#[test]
fn filter_cards_by_suit_finds_thirteen_spades() {
    let d = Deck::deck();
    let spades = d.filter_cards(|c: Card| c.suit() == Suit::Spades);
    assert_eq!(spades.size(), 13);
}

#[test]
fn a_hand_assembled_deck_may_hold_duplicates() {
    let twin = Card::new(FaceType::Number(9), Suit::Clubs);
    let mut d = Deck::new(vec![twin, twin]);
    let mut picker = ThreadRandom::new();
    let drawn = d.draw_destructive(2, &mut picker).unwrap();
    assert_eq!(drawn.raw(), vec![twin, twin]);
    assert_eq!(d.size(), 0);
}
