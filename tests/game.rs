use mao::card::{Card, Suit, Value};
use mao::deck::Deck;
use mao::game::{AddingRuleError, Game, Order, TurnChoice};
use mao::player::Player;
use mao::rule::priority::ActionOption;
use mao::rule::{Action, Event, Rule};

fn players(names: &[&str]) -> Vec<Player> {
    names.iter().map(|n| Player::new(n.to_string())).collect()
}

fn three() -> Game {
    Game::new(players(&["Ann", "Bo", "Cy"]))
}

#[test]
fn new_game_deals_one_card_each_and_opens_the_used_pile() {
    let g = three();
    assert_eq!(g.num_players(), 3);
    for p in g.players() {
        assert_eq!(p.num_cards(), 1);
    }
    assert_eq!(g.used_pile().size(), 1);
    assert!(g.draw_pile().size() >= 24);
    assert_eq!(g.order(), Order::Forward);
    assert_eq!(g.player_index(), 0);
    assert!(!g.game_over());
    assert_eq!(g.current_player().name(), "Ann");
    assert_eq!(g.total_cards(), 52);
}

#[test]
fn new_game_keeps_the_draw_pile_stocked() {
    let names: Vec<String> = (0..40).map(|i| format!("p{}", i)).collect();
    let g = Game::new(names.into_iter().map(Player::new).collect());
    assert!(g.draw_pile().size() >= 24);
    assert_eq!(g.total_cards() % 52, 0);
    assert_eq!(g.total_cards(), 104);
}

#[test]
fn builtin_rules_are_registered() {
    let g = three();
    let m = g.rule_map();
    let say = m.get(&ActionOption::Say).unwrap();
    assert_eq!(say.len(), 1);
    assert_eq!(say[0].event(), Event::ValuePlayed(Value::Seven));
    assert_eq!(say[0].action(), Action::Say(String::from("have a nice day")));
    let skip = m.get(&ActionOption::Skip).unwrap();
    assert_eq!(skip.len(), 1);
    assert_eq!(skip[0].event(), Event::ValuePlayed(Value::Ace));
    assert_eq!(m.get(&ActionOption::Repeat).unwrap()[0].event(), Event::ValuePlayed(Value::Two));
    assert_eq!(m.get(&ActionOption::Reverse).unwrap()[0].event(), Event::ValuePlayed(Value::Eight));
    assert_eq!(m.len_of(&ActionOption::Wild), Some(0));
    assert_eq!(m.len_of(&ActionOption::Draw), Some(0));
}

#[test]
fn builtin_jack_skip_is_refused_as_conflicting() {
    let mut g = three();
    let r = g.add_rule(Rule::new(Event::ValuePlayed(Value::Jack), Action::Skip));
    assert!(matches!(r, Err(AddingRuleError::ConflictingAction)));
}

#[test]
fn forward_wraps_from_last_to_first() {
    let mut g = three();
    assert_eq!(g.next_player().name(), "Bo");
    assert_eq!(g.next_player().name(), "Cy");
    assert_eq!(g.player_index(), 2);
    assert_eq!(g.next_player().name(), "Ann");
    assert_eq!(g.player_index(), 0);
}

#[test]
fn backward_wraps_from_first_to_last() {
    let mut g = three();
    g.flip_order();
    assert_eq!(g.order(), Order::Backward);
    assert_eq!(g.next_player().name(), "Cy");
    assert_eq!(g.player_index(), 2);
    assert_eq!(g.next_player().name(), "Bo");
}

#[test]
fn order_flip_and_step() {
    assert_eq!(Order::Forward.flip(), Order::Backward);
    assert_eq!(Order::Backward.flip(), Order::Forward);
    assert_eq!(Order::Forward.val(), 1);
    assert_eq!(Order::Backward.val(), -1);
}

fn give(g: &mut Game, card: Card) {
    g.current_player_mut().mut_hand().push(card);
}

#[test]
fn jack_skips_the_next_player_once_registered() {
    let mut g = three();
    g.clear_rules(ActionOption::Skip);
    assert!(g.add_rule(Rule::new(Event::ValuePlayed(Value::Jack), Action::Skip)).is_ok());
    give(&mut g, Card::new(Value::Jack, Suit::Spades));
    let total = g.total_cards();
    let card = g.perform_action(TurnChoice::Play(1));
    assert_eq!(card, Card::new(Value::Jack, Suit::Spades));
    assert_eq!(g.used_pile().cards()[0], card);
    let report = g.resolve_turn(card, &vec![]);
    assert!(report.effects.skipped);
    assert!(report.effects.mistake.is_none());
    assert!(!report.effects.drew && !report.effects.reversed && !report.effects.repeated);
    assert_eq!(report.winner, None);
    assert_eq!(g.player_index(), 2);
    assert_eq!(g.total_cards(), total);
}

#[test]
fn jack_under_builtin_rules_triggers_nothing() {
    let mut g = three();
    give(&mut g, Card::new(Value::Jack, Suit::Hearts));
    let card = g.perform_action(TurnChoice::Play(1));
    let report = g.resolve_turn(card, &vec![]);
    assert!(!report.effects.skipped);
    assert!(report.effects.mistake.is_none());
    assert_eq!(g.player_index(), 1);
}

#[test]
fn seven_without_the_greeting_is_a_mistake() {
    let mut g = three();
    give(&mut g, Card::new(Value::Seven, Suit::Clubs));
    let card = g.perform_action(TurnChoice::Play(1));
    let report = g.resolve_turn(card, &vec![]);
    let (extra, missing) = report.effects.mistake.expect("a mistake");
    assert!(extra.is_empty());
    assert_eq!(missing, vec![String::from("have a nice day")]);
    assert_eq!(g.player_index(), 1);
}

#[test]
fn seven_with_the_greeting_is_fine() {
    let mut g = three();
    give(&mut g, Card::new(Value::Seven, Suit::Clubs));
    let card = g.perform_action(TurnChoice::Play(1));
    let report = g.resolve_turn(card, &vec![String::from("have a nice day")]);
    assert!(report.effects.mistake.is_none());
}

#[test]
fn speaking_without_a_rule_is_a_mistake() {
    let mut g = three();
    give(&mut g, Card::new(Value::Five, Suit::Clubs));
    let card = g.perform_action(TurnChoice::Play(1));
    let report = g.resolve_turn(card, &vec![String::from("hello")]);
    let (extra, missing) = report.effects.mistake.expect("a mistake");
    assert_eq!(extra, vec![String::from("hello")]);
    assert!(missing.is_empty());
}

#[test]
fn eight_reverses_and_two_repeats() {
    let mut g = three();
    give(&mut g, Card::new(Value::Eight, Suit::Clubs));
    let card = g.perform_action(TurnChoice::Play(1));
    let report = g.resolve_turn(card, &vec![]);
    assert!(report.effects.reversed);
    assert_eq!(g.order(), Order::Backward);
    assert_eq!(g.player_index(), 2);
    give(&mut g, Card::new(Value::Two, Suit::Clubs));
    let card = g.perform_action(TurnChoice::Play(1));
    let report = g.resolve_turn(card, &vec![]);
    assert!(report.effects.repeated);
    assert_eq!(g.player_index(), 2);
}

#[test]
fn a_draw_rule_makes_the_player_draw() {
    let mut g = three();
    assert!(g.add_rule(Rule::new(Event::ValuePlayed(Value::Queen), Action::Draw)).is_ok());
    give(&mut g, Card::new(Value::Queen, Suit::Clubs));
    let total = g.total_cards();
    let card = g.perform_action(TurnChoice::Play(1));
    let report = g.resolve_turn(card, &vec![]);
    assert!(report.effects.drew);
    assert_eq!(g.players()[0].num_cards(), 2);
    assert_eq!(g.total_cards(), total);
}

#[test]
fn emptying_the_hand_wins_at_once() {
    let mut g = three();
    let card = g.perform_action(TurnChoice::Play(0));
    let report = g.resolve_turn(card, &vec![String::from("have a nice day")]);
    if report.effects.drew {
        return;
    }
    assert!(g.game_over());
    assert_eq!(report.winner, Some(0));
    assert_eq!(g.player_index(), 0);
    assert_eq!(g.current_player().num_cards(), 0);
}

#[test]
fn drawing_keeps_the_card_count() {
    let mut g = three();
    let total = g.total_cards();
    let pile = g.draw_pile().size();
    let top = g.draw_pile().cards()[0];
    let card = g.perform_action(TurnChoice::Draw);
    assert_eq!(card, top);
    assert_eq!(g.current_player().num_cards(), 2);
    assert_eq!(g.draw_pile().size(), pile - 1);
    assert_eq!(g.total_cards(), total);
    let card = g.perform_action(TurnChoice::Play(0));
    assert_eq!(g.used_pile().cards()[0], card);
    assert_eq!(g.total_cards(), total);
}

#[test]
fn game_check_quotes_delegates() {
    let g = three();
    let q = vec![String::from("a")];
    assert!(g.check_quotes(&q, &q).is_ok());
    assert!(g.check_quotes(&q, &vec![]).is_err());
}

#[test]
fn refill_only_below_the_threshold() {
    let mut d = mao::deck::Deck::empty();
    Game::check_size_and_append(&mut d, 0);
    assert_eq!(d.size(), 0);
    Game::check_size_and_append(&mut d, 1);
    assert_eq!(d.size(), 52);
    Game::check_size_and_append(&mut d, 52);
    assert_eq!(d.size(), 52);
    Game::check_size_and_append(&mut d, 53);
    assert_eq!(d.size(), 104);
}

#[test]
fn new_game_holds_whole_decks() {
    let names: Vec<String> = (0..40).map(|i| format!("p{}", i)).collect();
    let g = Game::new(names.into_iter().map(Player::new).collect());
    let mut all: Vec<Card> = Vec::new();
    for p in g.players() {
        all.extend(p.hand().iter().copied());
    }
    all.extend(g.draw_pile().cards().iter().copied());
    all.extend(g.used_pile().cards().iter().copied());
    let decks = all.len() / 52;
    assert_eq!(all.len() % 52, 0);
    for card in Deck::default_52().cards().iter() {
        assert_eq!(all.iter().filter(|c| *c == card).count(), decks);
    }
}

#[test]
fn rule_messages_are_compared_lowered_and_trimmed() {
    let mut g = three();
    g.clear_rules(ActionOption::Say);
    assert!(g
        .add_rule(Rule::new(Event::ValuePlayed(Value::Nine), Action::Say(String::from("  Have A Nice Day "))))
        .is_ok());
    give(&mut g, Card::new(Value::Nine, Suit::Clubs));
    let card = g.perform_action(TurnChoice::Play(1));
    let report = g.resolve_turn(card, &vec![String::from("have a nice day")]);
    assert!(report.effects.mistake.is_none());
}
