//! The game: players, piles, the rule registry and the turn state machine.
use vstd::multiset::Multiset;
use vstd::prelude::*;
use vstd::seq_lib::lemma_multiset_commutative;

use crate::card::Card;
use crate::card::Value;
use crate::deck::full_deck;
use crate::deck::is_full_deck;
use crate::deck::lemma_full_deck_unique;
use crate::deck::lemma_shuffled_deck_cards;
use crate::deck::is_shuffled_deck;
use crate::deck::lemma_shuffled_deck_len;
use crate::deck::Deck;
use crate::input::lowercase;
use crate::input::normalized;
use crate::input::trim_text;
use crate::player::Player;
use crate::quote::extra_phrases;
use crate::quote::missing_phrases;
use crate::quote::phrases;
use crate::quote::quotes_accepted;
use crate::rule::event_matches;
use crate::rule::priority::default_order;
use crate::rule::priority::ActionOption;
use crate::rule::priority::Priority;
use crate::rule::rule_map::add_refusal;
use crate::rule::rule_map::after_add;
use crate::rule::rule_map::all_keys;
use crate::rule::rule_map::empty_registry;
use crate::rule::rule_map::says;
use crate::rule::rule_map::RuleMap;
use crate::rule::Action;
use crate::rule::Event;
use crate::rule::Rule;

verus! {

broadcast use vstd::multiset::group_multiset_axioms;

/// Why a rule could not be registered.
#[derive(Debug, Copy, Clone, PartialEq, Eq, Structural)]
pub enum AddingRuleError {
    /// The rule's category is not a key of the registry.
    InvalidAction,
    /// The rule conflicts with one already registered.
    ConflictingAction,
}

/// The result of registering a rule.
pub type AddingRuleResult<T> = Result<T, AddingRuleError>;

/// The direction of play.
#[derive(Debug, Copy, Clone, PartialEq, Eq, Structural)]
pub enum Order {
    Forward,
    Backward,
}

/// A match of the game: it owns its players, its piles, its registry of
/// rules and the order in which the categories of rules apply.
#[derive(Debug)]
pub struct Game {
    players: Vec<Player>,
    draw_pile: Deck,
    used_pile: Deck,
    order: Order,
    player_index: usize,
    game_over: bool,
    priority: Priority,
    rule_map: RuleMap,
}

/// The direction of play once reversed.
pub open spec fn flipped(o: Order) -> Order {
    match o {
        Order::Forward => Order::Backward,
        Order::Backward => Order::Forward,
    }
}

/// The index of the player after `i` among `n` players, in direction `o`;
/// both ends wrap around.
pub open spec fn successor(i: int, n: int, o: Order) -> int {
    match o {
        Order::Forward => if i == n - 1 { 0 } else { i + 1 },
        Order::Backward => if i == 0 { n - 1 } else { i - 1 },
    }
}

/// The number of cards in the hands of `players`.
pub open spec fn hands_total(players: Seq<Player>) -> int
    decreases players.len(),
{
    if players.len() == 0 {
        0
    } else {
        hands_total(players.drop_last()) + players.last().spec_hand().len()
    }
}

/// The phrase every built-in `Say` rule asks for on a Seven.
pub open spec fn greeting() -> Seq<char> {
    "have a nice day"@
}

/// Whether `rules` is the one rule triggered by `event` with an action of
/// the category of `action`, equal to it unless a `Say`.
pub open spec fn holds_only(rules: Seq<Rule>, event: Event, action: Action) -> bool {
    &&& rules.len() == 1
    &&& rules[0].spec_event() == event
    &&& rules[0].spec_action() == action
}

/// Whether `m` is the registry a new game starts with: Seven asks for the
/// greeting, Ace skips, Two repeats, Eight reverses. The built-in rule of
/// Jack skipping is refused, since Ace already holds the one `Skip` rule.
pub open spec fn is_builtin_registry(m: Map<ActionOption, Seq<Rule>>) -> bool {
    &&& all_keys(m)
    &&& m[ActionOption::Say].len() == 1
    &&& m[ActionOption::Say][0].spec_event() == Event::ValuePlayed(Value::Seven)
    &&& says(m[ActionOption::Say][0].spec_action(), greeting())
    &&& holds_only(m[ActionOption::Skip], Event::ValuePlayed(Value::Ace), Action::Skip)
    &&& holds_only(m[ActionOption::Repeat], Event::ValuePlayed(Value::Two), Action::Repeat)
    &&& holds_only(m[ActionOption::Reverse], Event::ValuePlayed(Value::Eight), Action::Reverse)
    &&& m[ActionOption::Wild].len() == 0
    &&& m[ActionOption::Draw].len() == 0
}

/// Whether some rule of `rules` is triggered by `card`.
pub open spec fn fires(rules: Seq<Rule>, card: Card) -> bool {
    exists|i: int| 0 <= i < rules.len() && event_matches((#[trigger] rules[i]).spec_event(), card)
}

/// The messages of the `Say` rules of `rules` that `card` triggers, in
/// order, lowered and trimmed as spoken phrases are.
pub open spec fn required_phrases(rules: Seq<Rule>, card: Card) -> Seq<Seq<char>>
    decreases rules.len(),
{
    if rules.len() == 0 {
        Seq::empty()
    } else {
        let r = rules.last();
        let before = required_phrases(rules.drop_last(), card);
        match r.spec_action() {
            Action::Say(msg) => if event_matches(r.spec_event(), card) {
                before.push(normalized(msg@))
            } else {
                before
            },
            _ => before,
        }
    }
}

/// Whether `b` is `a` once the active player of `a` has drawn a card: the
/// top of the draw pile, or, from an empty draw pile, a card of a freshly
/// shuffled full deck whose other 51 cards became the draw pile.
pub open spec fn drew_card(a: Game, b: Game) -> bool {
    let i = a.spec_index() as int;
    let h = a.spec_players()[i].spec_hand();
    let h2 = b.spec_players()[i].spec_hand();
    &&& b.spec_players().len() == a.spec_players().len()
    &&& b.spec_players() == a.spec_players().update(i, b.spec_players()[i])
    &&& b.spec_players()[i].spec_name() == a.spec_players()[i].spec_name()
    &&& a.spec_draw_pile().len() > 0 ==> b.spec_draw_pile() == a.spec_draw_pile().drop_first() && h2
        == h.push(a.spec_draw_pile()[0])
    &&& a.spec_draw_pile().len() == 0 ==> h2.len() == h.len() + 1 && h2.drop_last() == h
        && is_shuffled_deck(seq![h2.last()] + b.spec_draw_pile())
}

/// The index of the player who plays after player `i` of `n`, in direction
/// `o`: the same player on a repeat, the one after next on a skip, else the next.
pub open spec fn turn_after(i: int, n: int, o: Order, repeated: bool, skipped: bool) -> int {
    if repeated {
        i
    } else if skipped {
        successor(successor(i, n, o), n, o)
    } else {
        successor(i, n, o)
    }
}

/// The choice of the active player: play the card at an index of the hand,
/// or draw.
#[derive(Debug, Copy, Clone, PartialEq, Eq, Structural)]
pub enum TurnChoice {
    Play(usize),
    Draw,
}

/// What the rules triggered by a card did.
#[derive(Debug)]
pub struct RuleEffects {
    /// The failed quote verification, if any: the incorrect or unnecessary
    /// phrases, then the missing ones.
    pub mistake: Option<(Vec<String>, Vec<String>)>,
    /// The active player drew a card.
    pub drew: bool,
    /// The direction of play was reversed.
    pub reversed: bool,
    /// The next player in order is skipped.
    pub skipped: bool,
    /// The active player plays again.
    pub repeated: bool,
    /// The player may declare what the next play must match; the game
    /// itself does not enforce such a declaration.
    pub wild: bool,
}

/// The outcome of a turn: what the rules did, and the winner if the game ended.
#[derive(Debug)]
pub struct TurnReport {
    pub effects: RuleEffects,
    pub winner: Option<usize>,
}

/// Whether `b` is `a` after the rules of `a` triggered by `card` were
/// applied with the spoken `quotes`, as `e` reports; the active player and
/// the end of the game are not part of it.
pub open spec fn rules_applied(a: Game, b: Game, card: Card, quotes: Seq<String>, e: RuleEffects) -> bool {
    let m = a.spec_rules();
    let demanded = required_phrases(m[ActionOption::Say], card).to_multiset();
    &&& e.mistake is None <==> phrases(quotes) == demanded
    &&& e.mistake matches Some((extra, missing)) ==> phrases(extra@) == phrases(quotes).sub(demanded)
        && phrases(missing@) == demanded.sub(phrases(quotes))
    &&& e.drew == fires(m[ActionOption::Draw], card)
    &&& e.reversed == fires(m[ActionOption::Reverse], card)
    &&& e.skipped == fires(m[ActionOption::Skip], card)
    &&& e.repeated == fires(m[ActionOption::Repeat], card)
    &&& e.wild == fires(m[ActionOption::Wild], card)
    &&& e.drew ==> drew_card(a, b)
    &&& !e.drew ==> b.spec_players() == a.spec_players() && b.spec_draw_pile() == a.spec_draw_pile()
    &&& b.spec_order() == if e.reversed { flipped(a.spec_order()) } else { a.spec_order() }
    &&& b.spec_used_pile() == a.spec_used_pile()
    &&& b.spec_priority() == a.spec_priority()
    &&& b.spec_rules() == a.spec_rules()
}

/// The cards in the hands of `players`.
pub open spec fn hands_multiset(players: Seq<Player>) -> Multiset<Card>
    decreases players.len(),
{
    if players.len() == 0 {
        Multiset::empty()
    } else {
        hands_multiset(players.drop_last()).add(players.last().spec_hand().to_multiset())
    }
}

/// The cards of `k` full decks.
pub open spec fn decks(k: nat) -> Multiset<Card>
    decreases k,
{
    if k == 0 {
        Multiset::empty()
    } else {
        decks((k - 1) as nat).add(full_deck().to_multiset())
    }
}

proof fn lemma_hands_multiset_update(s: Seq<Player>, i: int, p: Player)
    requires
        0 <= i < s.len(),
    ensures
        hands_multiset(s.update(i, p)).add(s[i].spec_hand().to_multiset()) == hands_multiset(s).add(
            p.spec_hand().to_multiset(),
        ),
    decreases s.len(),
{
    let t = s.update(i, p);
    assert(t.len() == s.len());
    if i == s.len() - 1 {
        assert(t.drop_last() =~= s.drop_last());
        assert(t.last() == p);
        assert(hands_multiset(t) == hands_multiset(s.drop_last()).add(p.spec_hand().to_multiset()));
        assert(hands_multiset(s) == hands_multiset(s.drop_last()).add(s[i].spec_hand().to_multiset()));
        assert(hands_multiset(s.update(i, p)).add(s[i].spec_hand().to_multiset()) =~= hands_multiset(s).add(
            p.spec_hand().to_multiset(),
        ));
    } else {
        lemma_hands_multiset_update(s.drop_last(), i, p);
        assert(t.drop_last() =~= s.drop_last().update(i, p));
        assert(t.last() == s.last());
        assert(hands_multiset(t) == hands_multiset(t.drop_last()).add(s.last().spec_hand().to_multiset()));
        assert(s.drop_last()[i] == s[i]);
        assert(hands_multiset(s.update(i, p)).add(s[i].spec_hand().to_multiset()) =~= hands_multiset(s).add(
            p.spec_hand().to_multiset(),
        ));
    }
}

proof fn lemma_hands_total_update(s: Seq<Player>, i: int, p: Player)
    requires
        0 <= i < s.len(),
    ensures
        hands_total(s.update(i, p)) == hands_total(s) - s[i].spec_hand().len() + p.spec_hand().len(),
    decreases s.len(),
{
    if i == s.len() - 1 {
        assert(s.update(i, p).drop_last() =~= s.drop_last());
    } else {
        lemma_hands_total_update(s.drop_last(), i, p);
        assert(s.update(i, p).drop_last() =~= s.drop_last().update(i, p));
    }
}

proof fn lemma_hands_total_prefix(s: Seq<Player>, k: int)
    requires
        0 <= k <= s.len(),
    ensures
        0 <= hands_total(s.take(k)) <= hands_total(s),
    decreases s.len(),
{
    if k == s.len() {
        assert(s.take(k) =~= s);
        if s.len() > 0 {
            lemma_hands_total_prefix(s.drop_last(), k - 1);
            assert(s.drop_last().take(k - 1) =~= s.drop_last());
        }
    } else {
        lemma_hands_total_prefix(s.drop_last(), k);
        assert(s.drop_last().take(k) =~= s.take(k));
    }
}

impl Order {
    /// The other direction.
    pub fn flip(&self) -> (r: Self)
        ensures
            r == flipped(*self),
    {
        match self {
            Self::Forward => Self::Backward,
            Self::Backward => Self::Forward,
        }
    }

    /// The step of the direction: 1 forward, -1 backward.
    pub fn val(&self) -> (r: isize)
        ensures
            r == (if *self == Order::Forward { 1isize } else { -1isize }),
    {
        match self {
            Self::Forward => 1,
            Self::Backward => -1,
        }
    }
}

impl Game {
    pub closed spec fn spec_players(self) -> Seq<Player> {
        self.players@
    }

    pub closed spec fn spec_draw_pile(self) -> Seq<Card> {
        self.draw_pile@
    }

    pub closed spec fn spec_used_pile(self) -> Seq<Card> {
        self.used_pile@
    }

    pub closed spec fn spec_order(self) -> Order {
        self.order
    }

    pub closed spec fn spec_index(self) -> nat {
        self.player_index as nat
    }

    pub closed spec fn spec_over(self) -> bool {
        self.game_over
    }

    pub closed spec fn spec_priority(self) -> Seq<ActionOption> {
        self.priority@
    }

    pub closed spec fn spec_rules(self) -> Map<ActionOption, Seq<Rule>> {
        self.rule_map@
    }

    /// The hand of the active player.
    pub open spec fn active_hand(self) -> Seq<Card> {
        self.spec_players()[self.spec_index() as int].spec_hand()
    }

    /// The cards in play: in every hand and in both piles.
    pub open spec fn cards_in_play(self) -> Multiset<Card> {
        hands_multiset(self.spec_players()).add(self.spec_draw_pile().to_multiset()).add(
            self.spec_used_pile().to_multiset(),
        )
    }

    /// The number of cards of the game: in every hand and in both piles.
    pub open spec fn card_total(self) -> int {
        hands_total(self.spec_players()) + self.spec_draw_pile().len() + self.spec_used_pile().len()
    }

    /// A game in play: it has players, the active one among them, the
    /// default priority, and every category in its registry.
    pub open spec fn wf(self) -> bool {
        &&& self.spec_players().len() > 0
        &&& self.spec_index() < self.spec_players().len()
        &&& self.spec_priority() == default_order()
        &&& all_keys(self.spec_rules())
    }

    /// Whether `b` has the piles, direction, turn, end and rules of `a`.
    pub open spec fn same_table(a: Game, b: Game) -> bool {
        &&& b.spec_draw_pile() == a.spec_draw_pile()
        &&& b.spec_used_pile() == a.spec_used_pile()
        &&& b.spec_order() == a.spec_order()
        &&& b.spec_index() == a.spec_index()
        &&& b.spec_over() == a.spec_over()
        &&& b.spec_priority() == a.spec_priority()
        &&& b.spec_rules() == a.spec_rules()
    }

    /// Starts a match between `players`: each is dealt one card from a
    /// shuffled full deck, the draw pile is kept at 24 cards or more by
    /// adding shuffled full decks, one card opens the used pile, and the
    /// built-in rules are registered. Play goes forward from the first player.
    pub fn new(players: Vec<Player>) -> (r: Self)
        requires
            players@.len() > 0,
        ensures
            r.wf(),
            r.spec_players().len() == players@.len(),
            forall|i: int|
                0 <= i < players@.len() ==> (#[trigger] r.spec_players()[i]).spec_name() == players@[i].spec_name()
                    && r.spec_players()[i].spec_hand().len() == players@[i].spec_hand().len() + 1
                    && r.spec_players()[i].spec_hand().drop_last() == players@[i].spec_hand(),
            r.spec_used_pile().len() == 1,
            r.spec_draw_pile().len() >= 24,
            r.spec_order() == Order::Forward,
            r.spec_index() == 0,
            !r.spec_over(),
            is_builtin_registry(r.spec_rules()),
            exists|k: nat| k >= 1 && r.cards_in_play() == hands_multiset(players@).add(#[trigger] decks(k)),
    {
        let mut game = Self {
            players,
            draw_pile: Deck::default_52(),
            used_pile: Deck::empty(),
            order: Order::Forward,
            player_index: 0,
            game_over: false,
            rule_map: RuleMap::default(),
            priority: Priority::default(),
        };
        proof {
            lemma_full_deck_unique(game.draw_pile@);
        }
        game.draw_pile.shuffle();
        let ghost mut k: nat = 1;
        proof {
            assert(decks(0) == Multiset::<Card>::empty());
            assert(decks(1) =~= full_deck().to_multiset());
            assert(game.players@ == players@);
        }
        let n = game.players.len();
        let mut i: usize = 0;
        while i < n
            invariant
                n == players@.len(),
                k >= 1,
                hands_multiset(game.players@).add(game.draw_pile@.to_multiset()) == hands_multiset(players@).add(
                    decks(k),
                ),
                i <= n,
                game.players@.len() == n,
                game.draw_pile@.len() >= 24,
                forall|k: int|
                    0 <= k < i ==> (#[trigger] game.players@[k]).spec_name() == players@[k].spec_name()
                        && game.players@[k].spec_hand().len() == players@[k].spec_hand().len() + 1
                        && game.players@[k].spec_hand().drop_last() == players@[k].spec_hand(),
                forall|k: int| i <= k < n ==> #[trigger] game.players@[k] == players@[k],
                game.used_pile@.len() == 0,
                game.rule_map@ == empty_registry(),
                game.priority@ == default_order(),
                game.order == Order::Forward,
                game.player_index == 0,
                !game.game_over,
            decreases n - i,
        {
            let ghost before = game.players@;
            let ghost d0 = game.draw_pile@;
            let dealt = game.draw_pile.deal(1, &mut game.players[i]);
            assert(dealt is Ok);
            proof {
                let h0 = before[i as int].spec_hand();
                let top = d0.subrange(0, 1);
                let p = game.players@[i as int];
                assert(game.players@ =~= before.update(i as int, p));
                assert(p.spec_hand() == h0 + top);
                lemma_hands_multiset_update(before, i as int, p);
                lemma_multiset_commutative(h0, top);
                assert(d0 =~= top + d0.subrange(1, d0.len() as int));
                assert(game.draw_pile@ == d0.subrange(1, d0.len() as int));
                lemma_multiset_commutative(top, d0.subrange(1, d0.len() as int));
                let hb = hands_multiset(before);
                let ha = hands_multiset(game.players@);
                assert(ha.add(h0.to_multiset()) == hb.add(h0.to_multiset()).add(top.to_multiset()));
                assert forall|v: Card| #[trigger] ha.add(game.draw_pile@.to_multiset()).count(v) == hb.add(
                    d0.to_multiset(),
                ).count(v) by {
                    assert(ha.add(h0.to_multiset()).count(v) == hb.add(h0.to_multiset()).add(top.to_multiset()).count(v));
                }
                assert(hands_multiset(game.players@).add(game.draw_pile@.to_multiset()) =~= hands_multiset(
                    before,
                ).add(d0.to_multiset()));
                let h = game.players@[i as int].spec_hand();
                assert(h.drop_last() =~= players@[i as int].spec_hand());
                assert forall|k: int| i < k < n implies #[trigger] game.players@[k] == players@[k] by {
                    assert(game.players@[k] == before[k]);
                }
            }
            let ghost d1 = game.draw_pile@;
            Game::check_size_and_append(&mut game.draw_pile, 24);
            proof {
                if d1.len() < 24 {
                    k = Self::lemma_refilled(hands_multiset(game.players@), hands_multiset(players@), d1, game.draw_pile@, k);
                }
            }
            i += 1;
        }
        let ghost d1 = game.draw_pile@;
        Game::check_size_and_append(&mut game.draw_pile, 25);
        proof {
            if d1.len() < 25 {
                k = Self::lemma_refilled(hands_multiset(game.players@), hands_multiset(players@), d1, game.draw_pile@, k);
            }
        }
        let ghost d2 = game.draw_pile@;
        let opened = game.draw_pile.inject(1, &mut game.used_pile);
        assert(opened is Ok);
        proof {
            assert(game.rule_map@ == empty_registry());
            assert(d2 =~= d2.subrange(0, 1) + game.draw_pile@);
            lemma_multiset_commutative(d2.subrange(0, 1), game.draw_pile@);
            assert(game.used_pile@ =~= d2.subrange(0, 1));
            assert(game.cards_in_play() =~= hands_multiset(players@).add(decks(k)));
        }
        let ghost m0 = game.rule_map@;
        game.add_rule(Rule::new(Event::ValuePlayed(Value::Seven), Action::Say(String::from_str("have a nice day"))));
        let ghost m1 = game.rule_map@;
        game.add_rule(Rule::new(Event::ValuePlayed(Value::Ace), Action::Skip));
        let ghost m2 = game.rule_map@;
        game.add_rule(Rule::new(Event::ValuePlayed(Value::Two), Action::Repeat));
        let ghost m3 = game.rule_map@;
        game.add_rule(Rule::new(Event::ValuePlayed(Value::Eight), Action::Reverse));
        let ghost m4 = game.rule_map@;
        game.add_rule(Rule::new(Event::ValuePlayed(Value::Jack), Action::Skip));
        proof {
            assert(m0[ActionOption::Skip].len() == 0);
            assert(m1[ActionOption::Skip].len() == 0);
            assert(m2[ActionOption::Skip].len() == 1);
            assert(m4[ActionOption::Skip].len() == 1);
            assert(game.rule_map@ == m4);
            assert(m4[ActionOption::Say] == m1[ActionOption::Say]);
            assert(m1[ActionOption::Say].len() == 1);
            assert(game.cards_in_play() == hands_multiset(players@).add(decks(k)));
        }
        game
    }

    /// A pile `after` that is `before` with a shuffled full deck added under
    /// it holds one more deck; returns the new count of decks.
    proof fn lemma_refilled(hands: Multiset<Card>, start: Multiset<Card>, before: Seq<Card>, after: Seq<Card>, k: nat) -> (k2: nat)
        requires
            hands.add(before.to_multiset()) == start.add(decks(k)),
            after.len() == before.len() + 52,
            after.subrange(0, before.len() as int) == before,
            is_shuffled_deck(after.subrange(before.len() as int, after.len() as int)),
        ensures
            k2 == k + 1,
            hands.add(after.to_multiset()) == start.add(decks(k2)),
    {
        let added = after.subrange(before.len() as int, after.len() as int);
        lemma_shuffled_deck_cards(added);
        assert(after =~= before + added);
        lemma_multiset_commutative(before, added);
        let k2 = (k + 1) as nat;
        assert(decks(k2) == decks(k).add(full_deck().to_multiset()));
        assert(after.to_multiset() == before.to_multiset().add(full_deck().to_multiset()));
        assert forall|v: Card| #[trigger] hands.add(after.to_multiset()).count(v) == start.add(decks(k2)).count(v) by {
            assert(hands.add(before.to_multiset()).count(v) == start.add(decks(k)).count(v));
            assert(after.to_multiset().count(v) == before.to_multiset().count(v) + full_deck().to_multiset().count(v));
            assert(decks(k2).count(v) == decks(k).count(v) + full_deck().to_multiset().count(v));
            assert(hands.add(after.to_multiset()).count(v) == hands.count(v) + after.to_multiset().count(v));
            assert(start.add(decks(k2)).count(v) == start.count(v) + decks(k2).count(v));
            assert(hands.add(before.to_multiset()).count(v) == hands.count(v) + before.to_multiset().count(v));
            assert(start.add(decks(k)).count(v) == start.count(v) + decks(k).count(v));
        }
        assert(hands.add(after.to_multiset()) =~= start.add(decks(k2)));
        k2
    }

    /// Registers `rule` in the game's registry; see [`RuleMap::add_rule`].
    pub fn add_rule(&mut self, rule: Rule) -> (r: AddingRuleResult<()>)
        ensures
            r is Ok <==> add_refusal(old(self).spec_rules(), rule) is None,
            r is Err ==> add_refusal(old(self).spec_rules(), rule) == Some(r->Err_0),
            final(self).spec_rules() == after_add(old(self).spec_rules(), rule),
            final(self).spec_players() == old(self).spec_players(),
            final(self).spec_draw_pile() == old(self).spec_draw_pile(),
            final(self).spec_used_pile() == old(self).spec_used_pile(),
            final(self).spec_order() == old(self).spec_order(),
            final(self).spec_index() == old(self).spec_index(),
            final(self).spec_over() == old(self).spec_over(),
            final(self).spec_priority() == old(self).spec_priority(),
            old(self).wf() ==> final(self).wf(),
    {
        let r = self.rule_map.add_rule(rule);
        proof {
            if old(self).wf() && r is Ok {
                assert(all_keys(self.rule_map@)) by {
                    assert forall|k: ActionOption| #[trigger] self.rule_map@.contains_key(k) by {
                        assert(old(self).spec_rules().contains_key(k));
                    }
                }
            }
        }
        r
    }

    /// Removes every rule of category `option`, so that another rule of that
    /// category can take its place.
    pub fn clear_rules(&mut self, option: ActionOption)
        requires
            old(self).wf(),
        ensures
            final(self).wf(),
            final(self).spec_rules() == old(self).spec_rules().insert(option, Seq::<Rule>::empty()),
            final(self).spec_players() == old(self).spec_players(),
            final(self).spec_draw_pile() == old(self).spec_draw_pile(),
            final(self).spec_used_pile() == old(self).spec_used_pile(),
            final(self).spec_order() == old(self).spec_order(),
            final(self).spec_index() == old(self).spec_index(),
            final(self).spec_over() == old(self).spec_over(),
    {
        self.rule_map.empty_vec(option);
        assert forall|k: ActionOption| #[trigger] self.rule_map@.contains_key(k) by {
            assert(old(self).spec_rules().contains_key(k));
        }
    }

    /// Checks the spoken `quotes` against the required `reqs`; see
    /// [`crate::quote::check_quotes`].
    pub fn check_quotes(&self, quotes: &Vec<String>, reqs: &Vec<String>) -> (r: Result<(), (Vec<String>, Vec<String>)>)
        ensures
            r is Ok <==> quotes_accepted(quotes@, reqs@),
            r matches Err((extra, missing)) ==> phrases(extra@) == extra_phrases(quotes@, reqs@)
                && phrases(missing@) == missing_phrases(quotes@, reqs@),
    {
        crate::quote::check_quotes(quotes, reqs)
    }

    /// Hands the turn to the next player in the direction of play, wrapping
    /// around at either end, and returns that player.
    pub fn next_player(&mut self) -> (r: &Player)
        requires
            old(self).wf(),
        ensures
            final(self).wf(),
            final(self).spec_index() == successor(
                old(self).spec_index() as int,
                old(self).spec_players().len() as int,
                old(self).spec_order(),
            ),
            *r == final(self).spec_players()[final(self).spec_index() as int],
            final(self).spec_players() == old(self).spec_players(),
            final(self).spec_draw_pile() == old(self).spec_draw_pile(),
            final(self).spec_used_pile() == old(self).spec_used_pile(),
            final(self).spec_order() == old(self).spec_order(),
            final(self).spec_over() == old(self).spec_over(),
            final(self).spec_priority() == old(self).spec_priority(),
            final(self).spec_rules() == old(self).spec_rules(),
    {
        let n = self.players.len();
        self.player_index = match self.order {
            Order::Forward => {
                if self.player_index == n - 1 {
                    0
                } else {
                    self.player_index + 1
                }
            },
            Order::Backward => {
                if self.player_index == 0 {
                    n - 1
                } else {
                    self.player_index - 1
                }
            },
        };
        &self.players[self.player_index]
    }

    /// The active player.
    pub fn current_player(&self) -> (r: &Player)
        requires
            self.wf(),
        ensures
            *r == self.spec_players()[self.spec_index() as int],
    {
        &self.players[self.player_index]
    }

    /// The active player, to change in place.
    pub fn current_player_mut(&mut self) -> (r: &mut Player)
        requires
            old(self).wf(),
        ensures
            *r == old(self).spec_players()[old(self).spec_index() as int],
            final(self).spec_players() == old(self).spec_players().update(
                old(self).spec_index() as int,
                *final(r),
            ),
            Game::same_table(*old(self), *final(self)),
    {
        &mut self.players[self.player_index]
    }

    /// Reverses the direction of play.
    pub fn flip_order(&mut self)
        ensures
            final(self).spec_order() == flipped(old(self).spec_order()),
            final(self).spec_players() == old(self).spec_players(),
            final(self).spec_draw_pile() == old(self).spec_draw_pile(),
            final(self).spec_used_pile() == old(self).spec_used_pile(),
            final(self).spec_index() == old(self).spec_index(),
            final(self).spec_over() == old(self).spec_over(),
            final(self).spec_priority() == old(self).spec_priority(),
            final(self).spec_rules() == old(self).spec_rules(),
    {
        self.order = self.order.flip();
    }

    /// The players, in order of play.
    pub fn players(&self) -> (r: &Vec<Player>)
        ensures
            r@ == self.spec_players(),
    {
        &self.players
    }

    /// The number of players.
    pub fn num_players(&self) -> (r: usize)
        ensures
            r == self.spec_players().len(),
    {
        self.players.len()
    }

    /// The pile players draw from.
    pub fn draw_pile(&self) -> (r: &Deck)
        ensures
            r@ == self.spec_draw_pile(),
    {
        &self.draw_pile
    }

    /// The pile played cards go to; its top is the card last played.
    pub fn used_pile(&self) -> (r: &Deck)
        ensures
            r@ == self.spec_used_pile(),
    {
        &self.used_pile
    }

    /// Whether a player has emptied their hand.
    pub fn game_over(&self) -> (r: bool)
        ensures
            r == self.spec_over(),
    {
        self.game_over
    }

    /// The direction of play.
    pub fn order(&self) -> (r: Order)
        ensures
            r == self.spec_order(),
    {
        self.order
    }

    /// The index of the active player.
    pub fn player_index(&self) -> (r: usize)
        ensures
            r == self.spec_index(),
    {
        self.player_index
    }

    /// The registry of rules.
    pub fn rule_map(&self) -> (r: &RuleMap)
        ensures
            r@ == self.spec_rules(),
    {
        &self.rule_map
    }

    /// The number of cards in the game: in every hand and in both piles.
    pub fn total_cards(&self) -> (r: u32)
        requires
            self.card_total() <= u32::MAX,
        ensures
            r == self.card_total(),
    {
        let mut count: u32 = 0;
        let mut k: usize = 0;
        proof {
            lemma_hands_total_prefix(self.players@, 0);
        }
        while k < self.players.len()
            invariant
                k <= self.players@.len(),
                count == hands_total(self.players@.take(k as int)),
                self.card_total() <= u32::MAX,
            decreases self.players@.len() - k,
        {
            proof {
                assert(self.players@.take(k + 1).drop_last() =~= self.players@.take(k as int));
                lemma_hands_total_prefix(self.players@, k + 1);
                lemma_hands_total_prefix(self.players@, k as int);
            }
            count += self.players[k].hand().len() as u32;
            k += 1;
        }
        assert(self.players@.take(k as int) =~= self.players@);
        count += self.draw_pile.size() as u32;
        count += self.used_pile.size() as u32;
        count
    }

    /// Whether some rule of `rules` is triggered by `card`.
    fn any_fires(rules: &Vec<Rule>, card: Card) -> (r: bool)
        ensures
            r == fires(rules@, card),
    {
        let mut i: usize = 0;
        while i < rules.len()
            invariant
                i <= rules@.len(),
                forall|j: int| 0 <= j < i ==> !event_matches((#[trigger] rules@[j]).spec_event(), card),
            decreases rules@.len() - i,
        {
            if rules[i].event().arg_matches(card) {
                return true;
            }
            i += 1;
        }
        false
    }

    /// The messages of the `Say` rules of `rules` that `card` triggers, in
    /// order, lowered and trimmed as spoken phrases are.
    fn required_messages(rules: &Vec<Rule>, card: Card) -> (r: Vec<String>)
        ensures
            r@.map_values(|x: String| x@) == required_phrases(rules@, card),
    {
        let mut reqs: Vec<String> = Vec::new();
        let mut i: usize = 0;
        assert(rules@.take(0) =~= Seq::<Rule>::empty());
        assert(reqs@.map_values(|x: String| x@) =~= Seq::<Seq<char>>::empty());
        while i < rules.len()
            invariant
                i <= rules@.len(),
                reqs@.map_values(|x: String| x@) == required_phrases(rules@.take(i as int), card),
            decreases rules@.len() - i,
        {
            let ghost before = reqs@;
            assert(rules@.take(i + 1).drop_last() =~= rules@.take(i as int));
            let rule = &rules[i];
            if rule.event().arg_matches(card) {
                match rule.action_ref() {
                    Action::Say(msg) => {
                        let lowered = lowercase(msg.as_str());
                        reqs.push(trim_text(lowered.as_str()));
                        assert(reqs@.map_values(|x: String| x@) =~= before.map_values(|x: String| x@).push(
                            normalized(msg@),
                        ));
                    },
                    _ => {},
                }
            }
            i += 1;
        }
        assert(rules@.take(rules@.len() as int) =~= rules@);
        reqs
    }

    /// Applies the rules that `card`, just played or drawn, triggers, one
    /// category after the other in the order of the priority. The spoken
    /// `quotes` are checked against the messages of the triggered `Say`
    /// rules, lowered and trimmed; a mismatch is reported, not fatal. A triggered `Draw` makes the
    /// active player draw a card and a `Reverse` reverses the direction of
    /// play; `Skip`, `Repeat` and `Wild` are reported for the turn to act on.
    pub fn apply_rules(&mut self, card: Card, quotes: &Vec<String>) -> (r: RuleEffects)
        requires
            old(self).wf(),
        ensures
            final(self).wf(),
            rules_applied(*old(self), *final(self), card, quotes@, r),
            final(self).spec_index() == old(self).spec_index(),
            final(self).spec_over() == old(self).spec_over(),
            final(self).card_total() == old(self).card_total() + if r.drew && old(self).spec_draw_pile().len()
                == 0 {
                52int
            } else {
                0int
            },
    {
        let ghost m = self.rule_map@;
        let ghost demanded = required_phrases(m[ActionOption::Say], card).to_multiset();
        let mut effects = RuleEffects {
            mistake: None,
            drew: false,
            reversed: false,
            skipped: false,
            repeated: false,
            wild: false,
        };
        let n = self.priority.len();
        let mut k: usize = 0;
        while k < n
            invariant
                n == 6,
                k <= n,
                self.wf(),
                m == old(self).spec_rules(),
                demanded == required_phrases(m[ActionOption::Say], card).to_multiset(),
                self.rule_map@ == m,
                self.priority@ == old(self).spec_priority(),
                self.used_pile@ == old(self).spec_used_pile(),
                self.player_index == old(self).spec_index(),
                self.game_over == old(self).spec_over(),
                effects.wild == (k > 1 && fires(m[ActionOption::Wild], card)),
                effects.drew == (k > 2 && fires(m[ActionOption::Draw], card)),
                effects.repeated == (k > 3 && fires(m[ActionOption::Repeat], card)),
                effects.reversed == (k > 4 && fires(m[ActionOption::Reverse], card)),
                effects.skipped == (k > 5 && fires(m[ActionOption::Skip], card)),
                k == 0 ==> effects.mistake is None,
                k > 0 ==> (effects.mistake is None <==> phrases(quotes@) == demanded),
                effects.mistake matches Some((extra, missing)) ==> phrases(extra@) == phrases(quotes@).sub(demanded)
                    && phrases(missing@) == demanded.sub(phrases(quotes@)),
                effects.drew ==> drew_card(*old(self), *self),
                !effects.drew ==> self.players@ == old(self).spec_players() && self.draw_pile@ == old(
                    self,
                ).spec_draw_pile(),
                self.order == if effects.reversed { flipped(old(self).spec_order()) } else { old(self).spec_order() },
                self.card_total() == old(self).card_total() + if effects.drew && old(self).spec_draw_pile().len()
                    == 0 {
                    52int
                } else {
                    0int
                },
            decreases n - k,
        {
            let option = self.priority.at(k);
            assert(option == default_order()[k as int]);
            let fired = match self.rule_map.get(&option) {
                Some(rules) => {
                    if option == ActionOption::Say {
                        let reqs = Self::required_messages(rules, card);
                        match crate::quote::check_quotes(quotes, &reqs) {
                            Ok(()) => {},
                            Err(e) => {
                                effects.mistake = Some(e);
                            },
                        }
                        false
                    } else {
                        Self::any_fires(rules, card)
                    }
                },
                None => false,
            };
            match option {
                ActionOption::Say => {},
                ActionOption::Wild => {
                    effects.wild = fired;
                },
                ActionOption::Draw => {
                    if fired {
                        let i = self.player_index;
                        let ghost before = self.players@;
                        self.players[i].draw(&mut self.draw_pile);
                        proof {
                            lemma_hands_total_update(before, i as int, self.players@[i as int]);
                            let h2 = self.players@[i as int].spec_hand();
                            if old(self).spec_draw_pile().len() == 0 {
                                lemma_shuffled_deck_len(seq![h2.last()] + self.draw_pile@);
                            }
                        }
                        effects.drew = true;
                    }
                },
                ActionOption::Repeat => {
                    effects.repeated = fired;
                },
                ActionOption::Reverse => {
                    if fired {
                        self.order = self.order.flip();
                    }
                    effects.reversed = fired;
                },
                ActionOption::Skip => {
                    effects.skipped = fired;
                },
            }
            k += 1;
        }
        effects
    }

    /// Carries out the choice of the active player: plays the card at index
    /// `i` of the hand onto the used pile (the last card of the hand takes
    /// its place), or draws a card. Returns the card played or drawn.
    pub fn perform_action(&mut self, choice: TurnChoice) -> (r: Card)
        requires
            old(self).wf(),
            choice matches TurnChoice::Play(i) ==> i < old(self).active_hand().len(),
        ensures
            final(self).wf(),
            final(self).spec_order() == old(self).spec_order(),
            final(self).spec_index() == old(self).spec_index(),
            final(self).spec_over() == old(self).spec_over(),
            final(self).spec_priority() == old(self).spec_priority(),
            final(self).spec_rules() == old(self).spec_rules(),
            choice matches TurnChoice::Play(i) ==> {
                let idx = old(self).spec_index() as int;
                let h = old(self).active_hand();
                &&& r == h[i as int]
                &&& final(self).spec_players() == old(self).spec_players().update(idx, final(self).spec_players()[idx])
                &&& final(self).spec_players()[idx].spec_name() == old(self).spec_players()[idx].spec_name()
                &&& final(self).active_hand() == h.update(i as int, h.last()).drop_last()
                &&& final(self).spec_used_pile() == seq![r] + old(self).spec_used_pile()
                &&& final(self).spec_draw_pile() == old(self).spec_draw_pile()
            },
            choice is Draw ==> drew_card(*old(self), *final(self)) && r == final(self).active_hand().last()
                && final(self).spec_used_pile() == old(self).spec_used_pile(),
            final(self).card_total() == old(self).card_total() + if choice is Draw && old(self).spec_draw_pile().len()
                == 0 {
                52int
            } else {
                0int
            },
    {
        let idx = self.player_index;
        let ghost before = self.players@;
        match choice {
            TurnChoice::Play(i) => {
                let card = self.players[idx].hand()[i];
                self.players[idx].play_card(i, &mut self.used_pile);
                proof {
                    lemma_hands_total_update(before, idx as int, self.players@[idx as int]);
                }
                card
            },
            TurnChoice::Draw => {
                self.players[idx].draw(&mut self.draw_pile);
                proof {
                    lemma_hands_total_update(before, idx as int, self.players@[idx as int]);
                    let h2 = self.players@[idx as int].spec_hand();
                    if old(self).spec_draw_pile().len() == 0 {
                        lemma_shuffled_deck_len(seq![h2.last()] + self.draw_pile@);
                    }
                }
                let hand = self.players[idx].hand();
                hand[hand.len() - 1]
            },
        }
    }

    /// Ends the turn in which `card` was played or drawn and `quotes` were
    /// spoken: applies the rules `card` triggers, then ends the game if the
    /// active player's hand is empty, with that player as the winner and the
    /// turn not passed on. Otherwise the turn passes in the direction of
    /// play: to the same player on a repeat, over the next player on a skip.
    pub fn resolve_turn(&mut self, card: Card, quotes: &Vec<String>) -> (r: TurnReport)
        requires
            old(self).wf(),
            !old(self).spec_over(),
        ensures
            final(self).wf(),
            rules_applied(*old(self), *final(self), card, quotes@, r.effects),
            final(self).card_total() == old(self).card_total() + if r.effects.drew && old(self).spec_draw_pile().len()
                == 0 {
                52int
            } else {
                0int
            },
            old(self).active_hand().len() == 0 && !r.effects.drew ==> final(self).spec_over()
                && final(self).spec_index() == old(self).spec_index() && r.winner == Some(
                old(self).spec_index() as usize,
            ),
            final(self).spec_players()[old(self).spec_index() as int].spec_hand().len() == 0 ==> {
                &&& final(self).spec_over()
                &&& final(self).spec_index() == old(self).spec_index()
                &&& r.winner == Some(old(self).spec_index() as usize)
            },
            final(self).spec_players()[old(self).spec_index() as int].spec_hand().len() > 0 ==> {
                &&& !final(self).spec_over()
                &&& r.winner is None
                &&& final(self).spec_index() == turn_after(
                    old(self).spec_index() as int,
                    old(self).spec_players().len() as int,
                    final(self).spec_order(),
                    r.effects.repeated,
                    r.effects.skipped,
                )
            },
    {
        let effects = self.apply_rules(card, quotes);
        if self.players[self.player_index].num_cards() == 0 {
            self.game_over = true;
            return TurnReport { effects, winner: Some(self.player_index) };
        }
        if !effects.repeated {
            self.next_player();
            if effects.skipped {
                self.next_player();
            }
        }
        TurnReport { effects, winner: None }
    }

    /// Refills `pile` with a freshly shuffled full deck under its bottom
    /// when it holds fewer than `cmp` cards.
    pub fn check_size_and_append(pile: &mut Deck, cmp: usize)
        ensures
            old(pile)@.len() >= cmp ==> final(pile)@ == old(pile)@,
            old(pile)@.len() < cmp ==> final(pile)@.len() == old(pile)@.len() + 52
                && final(pile)@.subrange(0, old(pile)@.len() as int) == old(pile)@
                && is_shuffled_deck(final(pile)@.subrange(old(pile)@.len() as int, final(pile)@.len() as int)),
    {
        if pile.size() < cmp {
            let mut another = Deck::default_52();
            let ghost full = another@;
            another.shuffle();
            let ghost added = another@;
            pile.append(another.into_cards());
            proof {
                assert(final(pile)@.subrange(0, old(pile)@.len() as int) =~= old(pile)@);
                assert(final(pile)@.subrange(old(pile)@.len() as int, final(pile)@.len() as int) =~= added);
                assert(is_full_deck(full) && full.to_multiset() == added.to_multiset());
            }
        }
    }
}

} // verus!
