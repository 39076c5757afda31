use mao::card::{Card, Suit, Value};
use mao::game::AddingRuleError;
use mao::quote::check_quotes;
use mao::rule::priority::{ActionOption, Priority};
use mao::rule::rule_map::RuleMap;
use mao::rule::{Action, Event, Rule};

fn say(v: Value, msg: &str) -> Rule {
    Rule::new(Event::ValuePlayed(v), Action::Say(String::from(msg)))
}

fn strings(v: &[&str]) -> Vec<String> {
    v.iter().map(|s| s.to_string()).collect()
}

#[test]
fn event_ignores_the_suit() {
    let e = Event::ValuePlayed(Value::Seven);
    assert!(e.arg_matches(Card::new(Value::Seven, Suit::Clubs)));
    assert!(e.arg_matches(Card::new(Value::Seven, Suit::Hearts)));
    assert!(!e.arg_matches(Card::new(Value::Eight, Suit::Clubs)));
}

#[test]
fn category_of_each_action() {
    assert_eq!(ActionOption::from(Action::Say(String::from("hi"))), ActionOption::Say);
    assert_eq!(ActionOption::from(Action::Wild), ActionOption::Wild);
    assert_eq!(ActionOption::from(Action::Draw), ActionOption::Draw);
    assert_eq!(ActionOption::from(Action::Repeat), ActionOption::Repeat);
    assert_eq!(ActionOption::from(Action::Reverse), ActionOption::Reverse);
    assert_eq!(ActionOption::from(Action::Skip), ActionOption::Skip);
    assert_eq!(ActionOption::Say.action(String::from("hi")), Action::Say(String::from("hi")));
    assert_eq!(ActionOption::Skip.action(String::from("hi")), Action::Skip);
}

#[test]
fn rule_keeps_event_and_action() {
    let r = say(Value::Seven, "have a nice day");
    assert_eq!(r.event(), Event::ValuePlayed(Value::Seven));
    assert_eq!(r.action(), Action::Say(String::from("have a nice day")));
}

#[test]
fn default_priority_order() {
    let p = Priority::default();
    assert_eq!(p.len(), 6);
    let order: Vec<ActionOption> = p.iter().copied().collect();
    assert_eq!(
        order,
        vec![
            ActionOption::Say,
            ActionOption::Wild,
            ActionOption::Draw,
            ActionOption::Repeat,
            ActionOption::Reverse,
            ActionOption::Skip,
        ]
    );
    assert_eq!(p.at(5), ActionOption::Skip);
    let custom = Priority::new(vec![ActionOption::Skip, ActionOption::Say]);
    assert_eq!(custom.len(), 2);
    assert_eq!(custom.at(0), ActionOption::Skip);
}

#[test]
fn default_registry_has_every_category_empty() {
    let m = RuleMap::default();
    for o in [
        ActionOption::Say,
        ActionOption::Wild,
        ActionOption::Draw,
        ActionOption::Repeat,
        ActionOption::Reverse,
        ActionOption::Skip,
    ] {
        assert_eq!(m.len_of(&o), Some(0));
        assert!(m.get(&o).unwrap().is_empty());
    }
}

#[test]
fn registry_without_a_key() {
    let mut m = RuleMap::new(vec![(ActionOption::Say, vec![say(Value::Seven, "hi")])]);
    assert_eq!(m.len_of(&ActionOption::Say), Some(1));
    assert_eq!(m.len_of(&ActionOption::Skip), None);
    assert!(m.get(&ActionOption::Skip).is_none());
    let r = Rule::new(Event::ValuePlayed(Value::Ace), Action::Skip);
    assert!(m.push_to(ActionOption::Skip, r.clone()).is_err());
    assert!(matches!(m.add_rule(r), Err(AddingRuleError::InvalidAction)));
}

#[test]
fn registry_later_entry_wins() {
    let m = RuleMap::new(vec![
        (ActionOption::Say, vec![say(Value::Seven, "a"), say(Value::Six, "b")]),
        (ActionOption::Say, vec![say(Value::Five, "c")]),
    ]);
    assert_eq!(m.len_of(&ActionOption::Say), Some(1));
    assert_eq!(m.get(&ActionOption::Say).unwrap()[0].event(), Event::ValuePlayed(Value::Five));
}

#[test]
fn push_and_empty() {
    let mut m = RuleMap::default();
    assert!(m.push_to(ActionOption::Draw, Rule::new(Event::ValuePlayed(Value::Two), Action::Draw)).is_ok());
    assert!(m.push_to(ActionOption::Draw, Rule::new(Event::ValuePlayed(Value::Three), Action::Draw)).is_ok());
    assert_eq!(m.len_of(&ActionOption::Draw), Some(2));
    m.empty_vec(ActionOption::Draw);
    assert_eq!(m.len_of(&ActionOption::Draw), Some(0));
}

#[test]
fn second_rule_of_a_category_conflicts() {
    let mut m = RuleMap::default();
    assert!(m.add_rule(Rule::new(Event::ValuePlayed(Value::Ace), Action::Skip)).is_ok());
    assert!(matches!(
        m.add_rule(Rule::new(Event::ValuePlayed(Value::Jack), Action::Skip)),
        Err(AddingRuleError::ConflictingAction)
    ));
    assert!(m.add_rule(Rule::new(Event::ValuePlayed(Value::Eight), Action::Reverse)).is_ok());
    assert!(matches!(
        m.add_rule(Rule::new(Event::ValuePlayed(Value::Eight), Action::Reverse)),
        Err(AddingRuleError::ConflictingAction)
    ));
    assert_eq!(m.len_of(&ActionOption::Skip), Some(1));
    assert_eq!(m.len_of(&ActionOption::Reverse), Some(1));
}

#[test]
fn say_rules_with_distinct_messages_coexist() {
    let mut m = RuleMap::default();
    assert!(m.add_rule(say(Value::Seven, "have a nice day")).is_ok());
    assert!(m.add_rule(say(Value::Seven, "have a great day")).is_ok());
    assert_eq!(m.len_of(&ActionOption::Say), Some(2));
}

#[test]
fn say_rules_with_the_same_message_conflict() {
    let mut m = RuleMap::default();
    assert!(m.add_rule(say(Value::Seven, "have a nice day")).is_ok());
    assert!(matches!(
        m.add_rule(say(Value::Queen, "have a nice day")),
        Err(AddingRuleError::ConflictingAction)
    ));
    assert_eq!(m.len_of(&ActionOption::Say), Some(1));
}

#[test]
fn exact_quotes_pass_in_any_order() {
    assert!(check_quotes(&strings(&["b", "a"]), &strings(&["a", "b"])).is_ok());
    assert!(check_quotes(&vec![], &vec![]).is_ok());
    assert!(check_quotes(&strings(&["a", "a"]), &strings(&["a", "a"])).is_ok());
}

#[test]
fn missing_quote_is_reported() {
    let r = check_quotes(&strings(&["a"]), &strings(&["a", "b"]));
    assert_eq!(r, Err((vec![], strings(&["b"]))));
}

#[test]
fn extra_quote_is_reported() {
    let r = check_quotes(&strings(&["a", "zzz", "b"]), &strings(&["a", "b"]));
    assert_eq!(r, Err((strings(&["zzz"]), vec![])));
}

#[test]
fn dropped_requirement_reports_the_quote_as_incorrect() {
    let r = check_quotes(&strings(&["a", "b"]), &strings(&["a"]));
    assert_eq!(r, Err((strings(&["b"]), vec![])));
}

#[test]
fn both_lists_are_reported_together() {
    let r = check_quotes(&strings(&["x", "a"]), &strings(&["a", "y", "a"]));
    assert_eq!(r, Err((strings(&["x"]), strings(&["y", "a"]))));
}
