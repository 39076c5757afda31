//! The registry of rules, keyed by the category of their action.
use vstd::prelude::*;

use crate::game::AddingRuleError;
use crate::rule::category;
use crate::rule::priority::slot;
use crate::rule::priority::ActionOption;
use crate::rule::Action;
use crate::rule::Rule;

verus! {

/// The key type of a [`RuleMap`].
pub type Key = ActionOption;

/// A registry from each category of action to the rules of that category,
/// in the order they were added. A category that is not a key is absent,
/// which is distinct from one that has no rules.
#[derive(Debug)]
pub struct RuleMap {
    slots: [Option<Vec<Rule>>; 6],
}

/// The map built by inserting each entry of `entries` in turn; a later
/// entry for a key replaces an earlier one.
pub open spec fn map_of_entries(entries: Seq<(ActionOption, Vec<Rule>)>) -> Map<ActionOption, Seq<Rule>>
    decreases entries.len(),
{
    if entries.len() == 0 {
        Map::empty()
    } else {
        map_of_entries(entries.drop_last()).insert(entries.last().0, entries.last().1@)
    }
}

/// Whether `action` is a `Say` of a message equal to `msg`.
pub open spec fn says(action: Action, msg: Seq<char>) -> bool {
    match action {
        Action::Say(m) => m@ == msg,
        _ => false,
    }
}

/// Whether some rule of `rules` has the same `Say` message as `action`.
pub open spec fn message_taken(rules: Seq<Rule>, action: Action) -> bool {
    match action {
        Action::Say(msg) => exists|i: int| 0 <= i < rules.len() && says(#[trigger] rules[i].spec_action(), msg@),
        _ => false,
    }
}

/// Why adding `rule` to the registry `m` is refused, or `None` when it is accepted.
pub open spec fn add_refusal(m: Map<ActionOption, Seq<Rule>>, rule: Rule) -> Option<AddingRuleError> {
    let k = category(rule.spec_action());
    if !m.contains_key(k) {
        Some(AddingRuleError::InvalidAction)
    } else if m[k].len() == 0 {
        None
    } else if k != ActionOption::Say {
        Some(AddingRuleError::ConflictingAction)
    } else if message_taken(m[k], rule.spec_action()) {
        Some(AddingRuleError::ConflictingAction)
    } else {
        None
    }
}

/// The registry `m` once `rule` has been accepted: appended to its category.
pub open spec fn with_rule(m: Map<ActionOption, Seq<Rule>>, rule: Rule) -> Map<ActionOption, Seq<Rule>> {
    let k = category(rule.spec_action());
    m.insert(k, m[k].push(rule))
}

/// The registry `m` after adding `rule`: unchanged when refused.
pub open spec fn after_add(m: Map<ActionOption, Seq<Rule>>, rule: Rule) -> Map<ActionOption, Seq<Rule>> {
    if add_refusal(m, rule) is None {
        with_rule(m, rule)
    } else {
        m
    }
}

/// Whether every category is a key of `m`.
pub open spec fn all_keys(m: Map<ActionOption, Seq<Rule>>) -> bool {
    forall|k: ActionOption| #[trigger] m.contains_key(k)
}

/// The registry of the default construction: every category, each with no rules.
pub open spec fn empty_registry() -> Map<ActionOption, Seq<Rule>> {
    Map::new(|k: ActionOption| true, |k: ActionOption| Seq::<Rule>::empty())
}

/// At most one rule per category other than `Say`: once a rule of such a
/// category has been added to a registry that holds the category, a second
/// rule of the same category is refused as conflicting.
pub proof fn lemma_exclusive_category(m: Map<ActionOption, Seq<Rule>>, first: Rule, second: Rule)
    requires
        m.contains_key(category(first.spec_action())),
        category(first.spec_action()) == category(second.spec_action()),
        category(first.spec_action()) != ActionOption::Say,
    ensures
        add_refusal(after_add(m, first), second) == Some(AddingRuleError::ConflictingAction),
{
    let k = category(first.spec_action());
    if add_refusal(m, first) is None {
        assert(after_add(m, first)[k] == m[k].push(first));
    }
}

/// Two `Say` rules with different messages, neither of which the registry
/// holds yet, are both accepted, one after the other.
pub proof fn lemma_distinct_messages(m: Map<ActionOption, Seq<Rule>>, first: Rule, second: Rule)
    requires
        m.contains_key(ActionOption::Say),
        first.spec_action() is Say,
        second.spec_action() is Say,
        first.spec_action()->Say_0@ != second.spec_action()->Say_0@,
        !message_taken(m[ActionOption::Say], first.spec_action()),
        !message_taken(m[ActionOption::Say], second.spec_action()),
    ensures
        add_refusal(m, first) is None,
        add_refusal(after_add(m, first), second) is None,
        after_add(after_add(m, first), second)[ActionOption::Say] == m[ActionOption::Say].push(first).push(second),
{
    let rules = m[ActionOption::Say].push(first);
    assert(after_add(m, first)[ActionOption::Say] == rules);
    if message_taken(rules, second.spec_action()) {
        let i = choose|i: int| 0 <= i < rules.len() && says(#[trigger] rules[i].spec_action(), second.spec_action()->Say_0@);
        if i < m[ActionOption::Say].len() {
            assert(says(m[ActionOption::Say][i].spec_action(), second.spec_action()->Say_0@));
        }
    }
}

/// A `Say` rule whose message equals that of a `Say` rule added before it is
/// refused as conflicting.
pub proof fn lemma_repeated_message(m: Map<ActionOption, Seq<Rule>>, first: Rule, second: Rule)
    requires
        m.contains_key(ActionOption::Say),
        first.spec_action() is Say,
        second.spec_action() is Say,
        first.spec_action()->Say_0@ == second.spec_action()->Say_0@,
    ensures
        add_refusal(after_add(m, first), second) == Some(AddingRuleError::ConflictingAction),
{
    let msg = second.spec_action()->Say_0@;
    if add_refusal(m, first) is None {
        let rules = m[ActionOption::Say].push(first);
        assert(after_add(m, first)[ActionOption::Say] == rules);
        assert(says(rules[rules.len() - 1].spec_action(), msg));
    } else {
        let rules = m[ActionOption::Say];
        let i = choose|i: int| 0 <= i < rules.len() && says(#[trigger] rules[i].spec_action(), first.spec_action()->Say_0@);
        assert(says(rules[i].spec_action(), msg));
    }
}

impl View for RuleMap {
    type V = Map<ActionOption, Seq<Rule>>;

    closed spec fn view(&self) -> Map<ActionOption, Seq<Rule>> {
        Map::new(
            |k: ActionOption| self.slots@[slot(k) as int] is Some,
            |k: ActionOption| self.slots@[slot(k) as int]->0@,
        )
    }
}

impl RuleMap {
    /// A registry without any key.
    fn absent() -> (r: Self)
        ensures
            r@ == Map::<ActionOption, Seq<Rule>>::empty(),
    {
        let slots: [Option<Vec<Rule>>; 6] = [None, None, None, None, None, None];
        let r = Self { slots };
        assert(r@ =~= Map::<ActionOption, Seq<Rule>>::empty());
        r
    }

    /// Makes `option` a key with the rules `rules`, replacing what it held.
    fn put(&mut self, option: Key, rules: Vec<Rule>)
        ensures
            final(self)@ == old(self)@.insert(option, rules@),
    {
        let i = self.index_of(option);
        self.slots[i] = Some(rules);
        assert(final(self)@ =~= old(self)@.insert(option, rules@));
    }

    fn index_of(&self, option: Key) -> (r: usize)
        ensures
            r == slot(option),
            r < 6,
    {
        match option {
            ActionOption::Say => 0,
            ActionOption::Wild => 1,
            ActionOption::Draw => 2,
            ActionOption::Repeat => 3,
            ActionOption::Reverse => 4,
            ActionOption::Skip => 5,
        }
    }

    /// The registry whose keys and rules are those of `map`; where `map`
    /// names a key twice, the later entry holds.
    pub fn new(map: Vec<(Key, Vec<Rule>)>) -> (r: Self)
        ensures
            r@ == map_of_entries(map@),
    {
        let mut rest = map;
        let ghost all = rest@;
        let mut r = Self::absent();
        while rest.len() > 0
            invariant
                all.subrange(all.len() - rest@.len(), all.len() as int) == rest@,
                rest@.len() <= all.len(),
                r@ == map_of_entries(all.subrange(0, all.len() - rest@.len())),
            decreases rest@.len(),
        {
            let ghost done = all.len() - rest@.len();
            let (k, rules) = rest.remove(0);
            proof {
                assert(all[done] == (k, rules));
                assert(all.subrange(0, done + 1).drop_last() =~= all.subrange(0, done));
            }
            r.put(k, rules);
            assert(all.subrange(all.len() - rest@.len(), all.len() as int) =~= rest@);
        }
        assert(all.subrange(0, all.len() as int) =~= all);
        r
    }

    /// The registry that holds every category, each with no rules.
    pub fn default() -> (r: Self)
        ensures
            r@ == empty_registry(),
            all_keys(r@),
    {
        let slots: [Option<Vec<Rule>>; 6] = [
            Some(Vec::new()),
            Some(Vec::new()),
            Some(Vec::new()),
            Some(Vec::new()),
            Some(Vec::new()),
            Some(Vec::new()),
        ];
        let r = Self { slots };
        assert(r@ =~= empty_registry());
        r
    }

    /// Appends `rule` to the rules of `option`; fails when `option` is not a key.
    pub fn push_to(&mut self, option: Key, rule: Rule) -> (r: Result<(), &'static str>)
        ensures
            r is Ok <==> old(self)@.contains_key(option),
            r is Ok ==> final(self)@ == old(self)@.insert(option, old(self)@[option].push(rule)),
            r is Err ==> final(self)@ == old(self)@ && r == Err::<(), &'static str>("Invalid option, not in map."),
    {
        let i = self.index_of(option);
        match &mut self.slots[i] {
            Some(rules) => {
                rules.push(rule);
            },
            None => {
                return Err("Invalid option, not in map.");
            },
        }
        assert(final(self)@ =~= old(self)@.insert(option, old(self)@[option].push(rule)));
        Ok(())
    }

    /// Removes every rule of `option`, which must be a key.
    pub fn empty_vec(&mut self, option: Key)
        requires
            old(self)@.contains_key(option),
        ensures
            final(self)@ == old(self)@.insert(option, Seq::<Rule>::empty()),
    {
        let i = self.index_of(option);
        match &mut self.slots[i] {
            Some(rules) => {
                rules.clear();
            },
            None => {},
        }
        assert(final(self)@ =~= old(self)@.insert(option, Seq::<Rule>::empty()));
    }

    /// The rules of `option` in the order they were added, or `None` when
    /// `option` is not a key.
    pub fn get(&self, option: &Key) -> (r: Option<&Vec<Rule>>)
        ensures
            r is Some <==> self@.contains_key(*option),
            r is Some ==> r->0@ == self@[*option],
    {
        let i = self.index_of(*option);
        self.slots[i].as_ref()
    }

    /// The number of rules of `option`, or `None` when `option` is not a key.
    pub fn len_of(&self, option: &Key) -> (r: Option<usize>)
        ensures
            r is Some <==> self@.contains_key(*option),
            r is Some ==> r->0 == self@[*option].len(),
    {
        match self.get(option) {
            Some(rules) => Some(rules.len()),
            None => None,
        }
    }

    /// Registers `rule` under its category. A category with no rules takes
    /// any rule; besides, `Say` takes a rule whose message none of its rules
    /// has; every other case is a conflict. A category that is not a key is
    /// an invalid action.
    pub fn add_rule(&mut self, rule: Rule) -> (r: Result<(), AddingRuleError>)
        ensures
            r is Ok <==> add_refusal(old(self)@, rule) is None,
            r is Err ==> add_refusal(old(self)@, rule) == Some(r->Err_0),
            final(self)@ == after_add(old(self)@, rule),
    {
        let option = ActionOption::of(rule.action_ref());
        let conflict = match self.get(&option) {
            None => {
                return Err(AddingRuleError::InvalidAction);
            },
            Some(rules) => {
                if rules.len() == 0 {
                    false
                } else if option != ActionOption::Say {
                    true
                } else {
                    Self::message_in(rules, rule.action_ref())
                }
            },
        };
        if conflict {
            Err(AddingRuleError::ConflictingAction)
        } else {
            let pushed = self.push_to(option, rule);
            assert(pushed is Ok);
            Ok(())
        }
    }

    /// Whether some rule of `rules` has the same `Say` message as `action`.
    fn message_in(rules: &Vec<Rule>, action: &Action) -> (r: bool)
        ensures
            r == message_taken(rules@, *action),
    {
        match action {
            Action::Say(msg) => {
                let mut i: usize = 0;
                while i < rules.len()
                    invariant
                        i <= rules@.len(),
                        *action == Action::Say(*msg),
                        forall|j: int| 0 <= j < i ==> !says(#[trigger] rules@[j].spec_action(), msg@),
                    decreases rules@.len() - i,
                {
                    let current = rules[i].action_ref();
                    match current {
                        Action::Say(m) => {
                            if *m == *msg {
                                assert(says(rules@[i as int].spec_action(), msg@));
                                return true;
                            }
                        },
                        _ => {},
                    }
                    assert(!says(rules@[i as int].spec_action(), msg@));
                    i += 1;
                }
                false
            },
            _ => false,
        }
    }
}

} // verus!
