//! The vocabulary of rules: what triggers a rule (an [`Event`]), what it
//! does (an [`Action`]), and the pair of the two (a [`Rule`]).
use vstd::prelude::*;

use crate::card::Card;
use crate::card::Value;
use crate::rule::priority::ActionOption;

pub mod priority;
pub mod rule_map;

verus! {

/// What triggers a rule.
#[derive(Debug, Copy, Clone, PartialEq, Eq, Structural, Hash)]
pub enum Event {
    /// A card of this value is played, whatever its suit.
    ValuePlayed(Value),
}

/// What a rule does once triggered.
#[derive(Debug, PartialEq, Eq, Hash)]
pub enum Action {
    /// The player must say this message.
    Say(String),
    Skip,
    Repeat,
    Reverse,
    Wild,
    Draw,
}

/// When a card matching `event` is played, apply `action`.
#[derive(Debug, Clone, PartialEq, Eq, Hash)]
pub struct Rule {
    event: Event,
    action: Action,
}

/// Whether `event` is triggered by playing `card`.
pub open spec fn event_matches(event: Event, card: Card) -> bool {
    match event {
        Event::ValuePlayed(v) => card.spec_value() == v,
    }
}

/// The category of an action: its variant without the payload.
pub open spec fn category(action: Action) -> ActionOption {
    match action {
        Action::Say(_) => ActionOption::Say,
        Action::Wild => ActionOption::Wild,
        Action::Draw => ActionOption::Draw,
        Action::Repeat => ActionOption::Repeat,
        Action::Reverse => ActionOption::Reverse,
        Action::Skip => ActionOption::Skip,
    }
}

impl Event {
    /// Whether this event is triggered by playing `card`; the suit plays no part.
    pub fn arg_matches(&self, card: Card) -> (r: bool)
        ensures
            r == event_matches(*self, card),
    {
        match self {
            Event::ValuePlayed(v) => card.value() == *v,
        }
    }
}

impl Clone for Action {
    fn clone(&self) -> (r: Self)
        ensures
            r == *self,
    {
        match self {
            Action::Say(msg) => Action::Say(msg.clone()),
            Action::Skip => Action::Skip,
            Action::Repeat => Action::Repeat,
            Action::Reverse => Action::Reverse,
            Action::Wild => Action::Wild,
            Action::Draw => Action::Draw,
        }
    }
}

impl Rule {
    pub closed spec fn spec_event(self) -> Event {
        self.event
    }

    pub closed spec fn spec_action(self) -> Action {
        self.action
    }

    /// The rule that applies `action` when a card matching `event` is played.
    pub fn new(event: Event, action: Action) -> (r: Self)
        ensures
            r.spec_event() == event,
            r.spec_action() == action,
    {
        Self { event, action }
    }

    /// What triggers this rule.
    pub fn event(&self) -> (r: Event)
        ensures
            r == self.spec_event(),
    {
        self.event
    }

    /// What this rule does.
    pub fn action(&self) -> (r: Action)
        ensures
            r == self.spec_action(),
    {
        self.action.clone()
    }

    /// What this rule does, borrowed.
    pub fn action_ref(&self) -> (r: &Action)
        ensures
            *r == self.spec_action(),
    {
        &self.action
    }
}

} // verus!
