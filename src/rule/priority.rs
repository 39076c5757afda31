//! The categories of actions and the order in which they are applied.
use vstd::prelude::*;

use crate::rule::category;
use crate::rule::Action;

verus! {

/// The category of an [`Action`]: its variant without the payload. The
/// order of the variants is the default order of application.
#[derive(Debug, Copy, Clone, PartialEq, Eq, Structural, Hash)]
pub enum ActionOption {
    Say,
    Wild,
    Draw,
    Repeat,
    Reverse,
    Skip,
}

/// The order in which the categories of rules are applied to a played card.
#[derive(Debug, Clone, PartialEq, Eq, Hash)]
pub struct Priority {
    queue: Vec<ActionOption>,
}

/// All six categories, in the order of their declaration.
pub open spec fn default_order() -> Seq<ActionOption> {
    seq![
        ActionOption::Say,
        ActionOption::Wild,
        ActionOption::Draw,
        ActionOption::Repeat,
        ActionOption::Reverse,
        ActionOption::Skip,
    ]
}

/// The position of category `o` in the declaration order.
pub open spec fn slot(o: ActionOption) -> nat {
    match o {
        ActionOption::Say => 0,
        ActionOption::Wild => 1,
        ActionOption::Draw => 2,
        ActionOption::Repeat => 3,
        ActionOption::Reverse => 4,
        ActionOption::Skip => 5,
    }
}

/// Whether `order` holds every category exactly once, as an order that
/// drives rule application must.
pub open spec fn is_complete_order(order: Seq<ActionOption>) -> bool {
    &&& order.len() == 6
    &&& order.no_duplicates()
}

impl View for Priority {
    type V = Seq<ActionOption>;

    closed spec fn view(&self) -> Seq<ActionOption> {
        self.queue@
    }
}

impl Priority {
    /// The priority that applies the categories in the order of `order_queue`.
    pub fn new(order_queue: Vec<ActionOption>) -> (r: Self)
        ensures
            r@ == order_queue@,
    {
        Self { queue: order_queue }
    }

    /// The default priority: Say, Wild, Draw, Repeat, Reverse, Skip.
    pub fn default() -> (r: Self)
        ensures
            r@ == default_order(),
            is_complete_order(r@),
    {
        let queue = vec![
            ActionOption::Say,
            ActionOption::Wild,
            ActionOption::Draw,
            ActionOption::Repeat,
            ActionOption::Reverse,
            ActionOption::Skip,
        ];
        assert(queue@ =~= default_order());
        Self { queue }
    }

    /// The number of categories in the order.
    pub fn len(&self) -> (r: usize)
        ensures
            r == self@.len(),
    {
        self.queue.len()
    }

    /// The category at position `i` of the order.
    pub fn at(&self, i: usize) -> (r: ActionOption)
        requires
            i < self@.len(),
        ensures
            r == self@[i as int],
    {
        self.queue[i]
    }

    /// Iterates over the categories in order.
    pub fn iter(&self) -> (r: std::slice::Iter<'_, ActionOption>)
        ensures
            vstd::std_specs::iter::IteratorSpec::remaining(&r) == self@.as_ref(),
    {
        self.queue.iter()
    }
}

impl ActionOption {
    /// The action of this category; `value` is the message of a `Say` and is
    /// dropped by the other categories.
    pub fn action(self, value: String) -> (r: Action)
        ensures
            category(r) == self,
            self == ActionOption::Say ==> r == Action::Say(value),
    {
        match self {
            Self::Say => Action::Say(value),
            Self::Wild => Action::Wild,
            Self::Draw => Action::Draw,
            Self::Repeat => Action::Repeat,
            Self::Reverse => Action::Reverse,
            Self::Skip => Action::Skip,
        }
    }

    /// The category of `action`, borrowed.
    pub fn of(action: &Action) -> (r: Self)
        ensures
            r == category(*action),
    {
        match action {
            Action::Say(_) => ActionOption::Say,
            Action::Wild => ActionOption::Wild,
            Action::Draw => ActionOption::Draw,
            Action::Repeat => ActionOption::Repeat,
            Action::Reverse => ActionOption::Reverse,
            Action::Skip => ActionOption::Skip,
        }
    }
}

impl From<Action> for ActionOption {
    fn from(action: Action) -> (r: Self) {
        ActionOption::of(&action)
    }
}

impl vstd::std_specs::convert::FromSpecImpl<Action> for ActionOption {
    open spec fn obeys_from_spec() -> bool {
        true
    }

    open spec fn from_spec(v: Action) -> Self {
        category(v)
    }
}

} // verus!
