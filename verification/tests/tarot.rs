use discarded::engine::InsufficientCards;
use discarded::source::{CycleSource, ThreadRandom};
use discarded::tarot::{
    MajorArcana, MinorArcanaCardType, MinorArcanaSuits, TarotCard, TarotDeck,
};

fn assert_all_unique(cards: &[TarotCard]) {
    for i in 0..cards.len() {
        for j in (i + 1)..cards.len() {
            assert_ne!(cards[i], cards[j]);
        }
    }
}

fn drain(mut deck: TarotDeck) -> Vec<TarotCard> {
    let mut out = Vec::new();
    while let Some(card) = deck.next() {
        out.push(card);
    }
    out
}

#[test]
fn full_deck_has_78_unique_cards() {
    let cards = drain(TarotDeck::full_deck());
    assert_eq!(cards.len(), 78);
    assert_all_unique(&cards);
    let major = cards
        .iter()
        .filter(|c| matches!(c, TarotCard::GreaterSecret { .. }))
        .count();
    assert_eq!(major, 22);
    assert_eq!(cards.len() - major, 56);
}

#[test]
fn major_only_deck_has_22_unique_cards() {
    let cards = drain(TarotDeck::no_minor_deck());
    assert_eq!(cards.len(), 22);
    assert_all_unique(&cards);
    for c in &cards {
        assert!(matches!(c, TarotCard::GreaterSecret { .. }));
    }
}

#[test]
fn fool_renders_with_a_plain_zero() {
    let c = TarotCard::GreaterSecret { arcana: MajorArcana::TheFool };
    assert_eq!(c.string(), "The Fool [0]");
}

#[test]
fn magician_renders_with_roman_one() {
    let c = TarotCard::GreaterSecret { arcana: MajorArcana::TheMagician };
    assert_eq!(c.string(), "The Magician [I]");
}

#[test]
fn world_renders_with_roman_twenty_one() {
    let c = TarotCard::GreaterSecret { arcana: MajorArcana::TheWorld };
    assert_eq!(c.string(), "The World [XXI]");
}

#[test]
fn multiword_titles_render_space_separated() {
    let priestess = TarotCard::GreaterSecret { arcana: MajorArcana::TheHighPriestess };
    assert_eq!(priestess.string(), "The High Priestess [II]");
    let wheel = TarotCard::GreaterSecret { arcana: MajorArcana::WheelOfFortune };
    assert_eq!(wheel.string(), "Wheel Of Fortune [X]");
    let hermit = TarotCard::GreaterSecret { arcana: MajorArcana::TheHermit };
    assert_eq!(hermit.string(), "The Hermit [IX]");
}

#[test]
fn lesser_secrets_render_value_of_suit() {
    let seven = TarotCard::LesserSecret {
        suit: MinorArcanaSuits::Cups,
        value: MinorArcanaCardType::Number(7),
    };
    assert_eq!(seven.string(), "7 of Cups");
    let knight = TarotCard::LesserSecret {
        suit: MinorArcanaSuits::Swords,
        value: MinorArcanaCardType::Knight,
    };
    assert_eq!(knight.string(), "Knight of Swords");
}

#[test]
fn tarot_destructive_draw_conserves_the_population() {
    let mut d = TarotDeck::full_deck();
    let before = drain(TarotDeck::full_deck());
    let mut picker = ThreadRandom::new();
    let drawn = d.draw_destructive(10, &mut picker).unwrap();
    assert_eq!(d.size(), 68);
    let hand = drain(drawn);
    assert_eq!(hand.len(), 10);
    let rest = drain(d);
    for c in &before {
        let in_hand = hand.iter().filter(|x| *x == c).count();
        let in_rest = rest.iter().filter(|x| *x == c).count();
        assert_eq!(in_hand + in_rest, 1);
    }
}

#[test]
fn tarot_overdraw_fails_identically_for_both_variants() {
    let mut d = TarotDeck::no_minor_deck();
    let mut picker = ThreadRandom::new();
    let expected = InsufficientCards { requested: 23, available: 22 };
    assert_eq!(d.draw(23, &mut picker).unwrap_err(), expected);
    assert_eq!(d.draw_destructive(23, &mut picker).unwrap_err(), expected);
    assert_eq!(d.size(), 22);
}

#[test]
fn tarot_zero_draw_succeeds_and_changes_nothing() {
    let mut d = TarotDeck::full_deck();
    let mut picker = ThreadRandom::new();
    assert_eq!(d.draw(0, &mut picker).unwrap().size(), 0);
    assert_eq!(d.draw_destructive(0, &mut picker).unwrap().size(), 0);
    assert_eq!(d.size(), 78);
}

#[test]
fn tarot_nondestructive_draw_leaves_the_source_as_it_was() {
    let d = TarotDeck::full_deck();
    let mut picker = ThreadRandom::new();
    let drawn = d.draw(5, &mut picker).unwrap();
    assert_eq!(drawn.size(), 5);
    assert_eq!(d.size(), 78);
    assert_eq!(drain(d), drain(TarotDeck::full_deck()));
}

#[test]
fn tarot_cycling_source_draws_the_front_in_order() {
    let mut d = TarotDeck::no_minor_deck();
    let mut picker = CycleSource::new(vec![0]);
    let drawn = d.draw_destructive(2, &mut picker).unwrap();
    let hand = drain(drawn);
    assert_eq!(hand[0], TarotCard::GreaterSecret { arcana: MajorArcana::TheFool });
    assert_eq!(hand[1], TarotCard::GreaterSecret { arcana: MajorArcana::TheMagician });
}

#[test]
fn tarot_filter_keeps_one_suit_in_order() {
    let d = TarotDeck::full_deck();
    let cups = d.filter_cards(|c: TarotCard| {
        matches!(c, TarotCard::LesserSecret { suit: MinorArcanaSuits::Cups, .. })
    });
    let cards = drain(cups);
    assert_eq!(cards.len(), 14);
    assert_eq!(
        cards[0],
        TarotCard::LesserSecret {
            suit: MinorArcanaSuits::Cups,
            value: MinorArcanaCardType::Number(1),
        }
    );
    assert_eq!(
        cards[13],
        TarotCard::LesserSecret {
            suit: MinorArcanaSuits::Cups,
            value: MinorArcanaCardType::Page,
        }
    );
}

#[test]
fn full_deck_order_is_major_then_minor_suits() {
    let cards = drain(TarotDeck::full_deck());
    assert_eq!(cards[0], TarotCard::GreaterSecret { arcana: MajorArcana::TheFool });
    assert_eq!(cards[21], TarotCard::GreaterSecret { arcana: MajorArcana::TheWorld });
    assert_eq!(
        cards[22],
        TarotCard::LesserSecret {
            suit: MinorArcanaSuits::Swords,
            value: MinorArcanaCardType::Number(1),
        }
    );
    assert_eq!(
        cards[77],
        TarotCard::LesserSecret {
            suit: MinorArcanaSuits::Cups,
            value: MinorArcanaCardType::Page,
        }
    );
}
