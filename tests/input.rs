use mao::game::TurnChoice;
use mao::input::{choose_action, parse_card_choice, parse_speech, split_phrases, spoken_phrases};

fn strings(v: &[&str]) -> Vec<String> {
    v.iter().map(|s| s.to_string()).collect()
}

#[test]
fn draw_is_d_in_either_case() {
    assert_eq!(parse_card_choice("d", 3), Some(TurnChoice::Draw));
    assert_eq!(parse_card_choice("  D \n", 3), Some(TurnChoice::Draw));
    assert_eq!(parse_card_choice("dd", 3), None);
}

#[test]
fn card_numbers_count_from_one() {
    assert_eq!(parse_card_choice("1", 3), Some(TurnChoice::Play(0)));
    assert_eq!(parse_card_choice(" 3\n", 3), Some(TurnChoice::Play(2)));
    assert_eq!(parse_card_choice("+2", 3), Some(TurnChoice::Play(1)));
}

#[test]
fn out_of_range_or_garbage_is_no_choice() {
    assert_eq!(parse_card_choice("0", 3), None);
    assert_eq!(parse_card_choice("4", 3), None);
    assert_eq!(parse_card_choice("-1", 3), None);
    assert_eq!(parse_card_choice("two", 3), None);
    assert_eq!(parse_card_choice("", 3), None);
    assert_eq!(parse_card_choice("1", 0), None);
    assert_eq!(choose_action(" 1", 3), None);
    assert_eq!(choose_action("1", 3), Some(TurnChoice::Play(0)));
}

#[test]
fn split_on_periods() {
    assert_eq!(split_phrases("a.b."), strings(&["a", "b", ""]));
    assert_eq!(split_phrases(""), strings(&[""]));
    assert_eq!(split_phrases("no period"), strings(&["no period"]));
}

#[test]
fn empty_phrases_are_dropped() {
    assert_eq!(spoken_phrases(strings(&["", "a", "", "b"])), strings(&["a", "b"]));
}

#[test]
fn speech_is_lowered_trimmed_and_split() {
    assert_eq!(
        parse_speech("Have a Nice Day.  OK . ."),
        strings(&["have a nice day", "ok"])
    );
    assert_eq!(parse_speech(""), Vec::<String>::new());
    assert_eq!(parse_speech("   "), Vec::<String>::new());
}
