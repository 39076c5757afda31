use mao::card::{Card, Suit, Value};
use mao::deck::Deck;
use mao::player::Player;
use mao::style::{TextColor, TextStyle};
use std::collections::VecDeque;

#[test]
fn card_keeps_value_and_suit() {
    let c = Card::new(Value::Queen, Suit::Hearts);
    assert_eq!(c.value(), Value::Queen);
    assert_eq!(c.suit(), Suit::Hearts);
}

#[test]
fn value_counts_run_from_ace_to_king() {
    assert_eq!(Value::Ace.count(), 1);
    assert_eq!(Value::Seven.count(), 7);
    assert_eq!(Value::Ten.count(), 10);
    assert_eq!(Value::Jack.count(), 11);
    assert_eq!(Value::Queen.count(), 12);
    assert_eq!(Value::King.count(), 13);
}

#[test]
fn glyphs_and_labels() {
    assert_eq!(Value::Ace.name(), "A");
    assert_eq!(Value::Ten.name(), "10");
    assert_eq!(Value::Jack.name(), "J");
    assert_eq!(Suit::Clubs.name(), "\u{2663}");
    assert_eq!(Suit::Hearts.name(), "\u{2665}");
    assert_eq!(Card::new(Value::Ten, Suit::Spades).label(), "10\u{2660}");
}

#[test]
fn red_suits_are_diamonds_and_hearts() {
    assert_eq!(Suit::Diamonds.color(), TextColor::Red);
    assert_eq!(Suit::Hearts.color(), TextColor::Red);
    assert_eq!(Suit::Clubs.color(), TextColor::Plain);
    assert_eq!(Suit::Spades.color(), TextColor::Plain);
}

#[test]
fn ansi_codes_of_colors() {
    assert_eq!(TextColor::Red.ansi_fg_id(), "31");
    assert_eq!(TextColor::Red.ansi_bg_id(), "41");
    assert_eq!(TextColor::Plain.ansi_fg_id(), "");
    let s = TextStyle::fg_only(TextColor::Red);
    assert_eq!((s.fg, s.bg), (TextColor::Red, TextColor::Plain));
    let s = TextStyle::bg_only(TextColor::Red);
    assert_eq!((s.fg, s.bg), (TextColor::Plain, TextColor::Red));
    let s = TextStyle::default();
    assert_eq!((s.fg, s.bg), (TextColor::Plain, TextColor::Plain));
}

fn deck_of(cards: &[Card]) -> Deck {
    Deck::new(cards.iter().copied().collect::<VecDeque<Card>>())
}

fn c(v: Value, s: Suit) -> Card {
    Card::new(v, s)
}

#[test]
fn full_deck_is_in_order_and_complete() {
    let d = Deck::default_52();
    assert_eq!(d.size(), 52);
    let cards = d.cards();
    assert_eq!(cards[0], c(Value::Ace, Suit::Clubs));
    assert_eq!(cards[1], c(Value::Ace, Suit::Diamonds));
    assert_eq!(cards[4], c(Value::Two, Suit::Clubs));
    assert_eq!(cards[51], c(Value::King, Suit::Spades));
    for i in 0..52 {
        for j in (i + 1)..52 {
            assert_ne!(cards[i], cards[j]);
        }
    }
}

#[test]
fn shuffle_keeps_the_cards() {
    let mut d = Deck::default_52();
    d.shuffle();
    assert_eq!(d.size(), 52);
    let full = Deck::default_52();
    for card in full.cards().iter() {
        assert_eq!(d.cards().iter().filter(|x| *x == card).count(), 1);
    }
    // 52 cards left in their order after a uniform shuffle: odds of 1 in 52!
    assert_ne!(d.cards(), full.cards());
}

#[test]
fn empty_deck_is_empty() {
    assert_eq!(Deck::empty().size(), 0);
}

#[test]
fn deal_moves_cards_from_the_top() {
    let mut d = deck_of(&[c(Value::Two, Suit::Clubs), c(Value::Three, Suit::Clubs), c(Value::Four, Suit::Clubs)]);
    let mut p = Player::new(String::from("Ann"));
    assert_eq!(d.deal(2, &mut p), Ok(()));
    assert_eq!(p.hand(), &vec![c(Value::Two, Suit::Clubs), c(Value::Three, Suit::Clubs)]);
    assert_eq!(d.size(), 1);
    assert_eq!(d.cards()[0], c(Value::Four, Suit::Clubs));
}

#[test]
fn deal_of_exactly_the_pile_succeeds() {
    let mut d = deck_of(&[c(Value::Two, Suit::Clubs), c(Value::Three, Suit::Clubs)]);
    let mut p = Player::new(String::from("Ann"));
    assert_eq!(d.deal(2, &mut p), Ok(()));
    assert_eq!(p.num_cards(), 2);
    assert_eq!(d.size(), 0);
}

#[test]
fn dealing_nothing_from_an_empty_pile_succeeds() {
    let mut d = Deck::empty();
    let mut p = Player::new(String::from("Ann"));
    assert_eq!(d.deal(0, &mut p), Ok(()));
    assert_eq!(p.num_cards(), 0);
    assert_eq!(d.size(), 0);
}

#[test]
fn deal_short_reports_the_shortfall() {
    let mut d = deck_of(&[c(Value::Two, Suit::Clubs), c(Value::Three, Suit::Clubs)]);
    let mut p = Player::new(String::from("Ann"));
    assert_eq!(d.deal(5, &mut p), Err(3));
    assert_eq!(p.num_cards(), 2);
    assert_eq!(d.size(), 0);
    assert_eq!(d.deal(4, &mut p), Err(4));
    assert_eq!(p.num_cards(), 2);
}

#[test]
fn inject_moves_cards_reversed_onto_the_other_pile() {
    let mut a = deck_of(&[c(Value::Ace, Suit::Hearts), c(Value::Two, Suit::Hearts), c(Value::Three, Suit::Hearts)]);
    let mut b = deck_of(&[c(Value::King, Suit::Clubs)]);
    assert_eq!(a.inject(2, &mut b), Ok(()));
    let got: Vec<Card> = b.cards().iter().copied().collect();
    assert_eq!(got, vec![c(Value::Two, Suit::Hearts), c(Value::Ace, Suit::Hearts), c(Value::King, Suit::Clubs)]);
    assert_eq!(a.size(), 1);
    assert_eq!(a.inject(3, &mut b), Err(2));
    assert_eq!(a.size(), 0);
    assert_eq!(b.size(), 4);
    assert_eq!(b.cards()[0], c(Value::Three, Suit::Hearts));
}

#[test]
fn append_and_prepend() {
    let mut d = deck_of(&[c(Value::Five, Suit::Clubs)]);
    d.append([c(Value::Six, Suit::Clubs), c(Value::Seven, Suit::Clubs)].into_iter().collect());
    d.prepend([c(Value::Ace, Suit::Spades), c(Value::Two, Suit::Spades)].into_iter().collect());
    d.push_top(c(Value::King, Suit::Hearts));
    let got: Vec<Card> = d.into_cards().into_iter().collect();
    assert_eq!(
        got,
        vec![
            c(Value::King, Suit::Hearts),
            c(Value::Two, Suit::Spades),
            c(Value::Ace, Suit::Spades),
            c(Value::Five, Suit::Clubs),
            c(Value::Six, Suit::Clubs),
            c(Value::Seven, Suit::Clubs),
        ]
    );
}

#[test]
fn player_draws_the_top_card() {
    let mut d = deck_of(&[c(Value::Nine, Suit::Diamonds), c(Value::Ten, Suit::Diamonds)]);
    let mut p = Player::new(String::from("Bo"));
    assert_eq!(p.newest_card(), None);
    p.draw(&mut d);
    assert_eq!(p.newest_card(), Some(c(Value::Nine, Suit::Diamonds)));
    assert_eq!(d.size(), 1);
    assert_eq!(p.name(), "Bo");
}

#[test]
fn draw_fallible_fails_on_an_empty_pile() {
    let mut d = Deck::empty();
    let mut p = Player::new(String::from("Bo"));
    assert_eq!(p.draw_fallible(&mut d), Err(1));
    assert_eq!(p.num_cards(), 0);
}

#[test]
fn drawing_from_an_empty_pile_tops_it_up_with_a_full_deck() {
    let mut d = Deck::empty();
    let mut p = Player::new(String::from("Bo"));
    p.draw(&mut d);
    assert_eq!(p.num_cards(), 1);
    assert_eq!(d.size(), 51);
    // the cards in play grew by exactly one full deck
    assert_eq!(p.num_cards() + d.size(), 52);
    let drawn = p.newest_card().unwrap();
    assert!(d.cards().iter().all(|x| *x != drawn));
}

#[test]
fn play_card_swaps_in_the_last_card() {
    let mut p = Player::new(String::from("Cy"));
    p.mut_hand().extend([c(Value::Ace, Suit::Clubs), c(Value::Two, Suit::Clubs), c(Value::Three, Suit::Clubs)]);
    let mut used = Deck::empty();
    p.play_card(0, &mut used);
    assert_eq!(p.hand(), &vec![c(Value::Three, Suit::Clubs), c(Value::Two, Suit::Clubs)]);
    assert_eq!(used.cards()[0], c(Value::Ace, Suit::Clubs));
    p.play_card(1, &mut used);
    assert_eq!(p.hand(), &vec![c(Value::Three, Suit::Clubs)]);
    assert_eq!(used.cards()[0], c(Value::Two, Suit::Clubs));
    assert_eq!(used.size(), 2);
}
