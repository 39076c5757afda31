//! Reading what a player types: the choice of a turn, and the phrases they
//! speak.
use vstd::prelude::*;

use crate::game::TurnChoice;

verus! {

/// The text `s` lowered as `str::to_lowercase` does.
pub uninterp spec fn lower_of(s: Seq<char>) -> Seq<char>;

/// Whether `c` has the Unicode `White_Space` property, as `char::is_whitespace` tests.
pub open spec fn is_whitespace(c: char) -> bool {
    ('\u{9}' <= c <= '\u{d}') || c == ' ' || c == '\u{85}' || c == '\u{a0}' || c == '\u{1680}' || ('\u{2000}' <= c
        <= '\u{200a}') || c == '\u{2028}' || c == '\u{2029}' || c == '\u{202f}' || c == '\u{205f}' || c == '\u{3000}'
}

/// The text `s` without its leading whitespace.
pub open spec fn trimmed_start(s: Seq<char>) -> Seq<char>
    decreases s.len(),
{
    if s.len() > 0 && is_whitespace(s[0]) {
        trimmed_start(s.drop_first())
    } else {
        s
    }
}

/// The text `s` without its trailing whitespace.
pub open spec fn trimmed_end(s: Seq<char>) -> Seq<char>
    decreases s.len(),
{
    if s.len() > 0 && is_whitespace(s.last()) {
        trimmed_end(s.drop_last())
    } else {
        s
    }
}

/// The text `s` without leading and trailing whitespace.
pub open spec fn trimmed(s: Seq<char>) -> Seq<char> {
    trimmed_end(trimmed_start(s))
}

/// Relies on `str::to_lowercase`: its result depends on the text alone.
#[verifier::external_body]
pub(crate) fn lowercase(s: &str) -> (r: String)
    ensures
        r@ == lower_of(s@),
{
    s.to_lowercase()
}

/// Relies on `str::trim`: it removes the leading and trailing characters
/// for which `char::is_whitespace` holds.
#[verifier::external_body]
pub(crate) fn trim_text(s: &str) -> (r: String)
    ensures
        r@ == trimmed(s@),
{
    s.trim().to_string()
}

/// Whether `s` is one or more ASCII digits.
pub open spec fn is_digits(s: Seq<char>) -> bool {
    s.len() > 0 && forall|i: int| 0 <= i < s.len() ==> '0' <= #[trigger] s[i] <= '9'
}

/// The number the decimal digits `s` write.
pub open spec fn digits_value(s: Seq<char>) -> nat
    decreases s.len(),
{
    if s.len() == 0 {
        0
    } else {
        digits_value(s.drop_last()) * 10 + (s.last() as nat - '0' as nat) as nat
    }
}

/// The digits of a decimal number that may start with `+`.
pub open spec fn unsigned_body(s: Seq<char>) -> Seq<char> {
    if s.len() > 0 && s[0] == '+' {
        s.drop_first()
    } else {
        s
    }
}

/// Relies on `str::parse::<usize>`: it accepts an optional `+` followed by
/// one or more ASCII digits whose value fits in `usize`, and nothing else.
#[verifier::external_body]
fn parse_usize(s: &str) -> (r: Option<usize>)
    ensures
        r == (if is_digits(unsigned_body(s@)) && digits_value(unsigned_body(s@)) <= usize::MAX {
            Some(digits_value(unsigned_body(s@)) as usize)
        } else {
            None
        }),
{
    s.parse::<usize>().ok()
}

/// What the trimmed text `t` chooses when the hand holds `hand_size`
/// cards: `D` or `d` draws, a number from 1 to `hand_size` plays that card
/// of the hand (counted from 1), anything else is no choice.
pub open spec fn choice_of(t: Seq<char>, hand_size: nat) -> Option<TurnChoice> {
    if t == seq!['D'] || t == seq!['d'] {
        Some(TurnChoice::Draw)
    } else if is_digits(unsigned_body(t)) && 1 <= digits_value(unsigned_body(t)) <= hand_size {
        Some(TurnChoice::Play((digits_value(unsigned_body(t)) - 1) as usize))
    } else {
        None
    }
}

/// The choice written by the trimmed text `t` for a hand of `hand_size` cards.
pub fn choose_action(t: &str, hand_size: usize) -> (r: Option<TurnChoice>)
    ensures
        r == choice_of(t@, hand_size as nat),
{
    let len = t.unicode_len();
    if len == 1 {
        let c = t.get_char(0);
        if c == 'D' || c == 'd' {
            assert(t@ =~= seq![c]);
            return Some(TurnChoice::Draw);
        }
        assert(t@ != seq!['D'] && t@ != seq!['d']) by {
            assert(t@[0] == c);
        }
    } else {
        assert(t@ != seq!['D'] && t@ != seq!['d']) by {
            assert(seq!['D'].len() == 1 && seq!['d'].len() == 1);
        }
    }
    match parse_usize(t) {
        Some(n) => {
            if n >= 1 && n <= hand_size {
                Some(TurnChoice::Play(n - 1))
            } else {
                None
            }
        },
        None => None,
    }
}

/// The choice a player typed as `input` for a hand of `hand_size` cards,
/// once surrounding whitespace is removed.
pub fn parse_card_choice(input: &str, hand_size: usize) -> (r: Option<TurnChoice>)
    ensures
        r == choice_of(trimmed(input@), hand_size as nat),
{
    let t = trim_text(input);
    choose_action(t.as_str(), hand_size)
}

/// The pieces of `s` between the `.` characters, as `str::split('.')`
/// gives them: a text without `.` is one piece, and a trailing `.` ends
/// with an empty piece.
pub open spec fn split_dots(s: Seq<char>) -> Seq<Seq<char>>
    decreases s.len(),
{
    if s.len() == 0 {
        seq![Seq::empty()]
    } else {
        let p = split_dots(s.drop_last());
        if s.last() == '.' {
            p.push(Seq::empty())
        } else {
            p.update(p.len() - 1, p.last().push(s.last()))
        }
    }
}

/// `s` without its empty texts.
pub open spec fn nonempty_only(s: Seq<Seq<char>>) -> Seq<Seq<char>>
    decreases s.len(),
{
    if s.len() == 0 {
        Seq::empty()
    } else if s.last().len() == 0 {
        nonempty_only(s.drop_last())
    } else {
        nonempty_only(s.drop_last()).push(s.last())
    }
}

/// A spoken phrase as it is compared: lowered, then trimmed.
pub open spec fn normalized(p: Seq<char>) -> Seq<char> {
    trimmed(lower_of(p))
}

/// The phrases of the spoken text `s`: its pieces between `.` characters,
/// each lowered and trimmed, without the empty ones.
pub open spec fn speech_of(s: Seq<char>) -> Seq<Seq<char>> {
    nonempty_only(split_dots(s).map_values(|p: Seq<char>| normalized(p)))
}

/// The pieces of `raw` between its `.` characters, in order.
pub fn split_phrases(raw: &str) -> (r: Vec<String>)
    ensures
        r@.map_values(|x: String| x@) == split_dots(raw@),
{
    let len = raw.unicode_len();
    let mut pieces: Vec<String> = Vec::new();
    let mut start: usize = 0;
    let mut i: usize = 0;
    assert(raw@.take(0) =~= Seq::<char>::empty());
    assert(raw@.subrange(0, 0) =~= Seq::<char>::empty());
    assert(pieces@.map_values(|x: String| x@).push(raw@.subrange(0, 0)) =~= split_dots(raw@.take(0)));
    while i < len
        invariant
            len == raw@.len(),
            start <= i <= len,
            pieces@.map_values(|x: String| x@).push(raw@.subrange(start as int, i as int)) == split_dots(
                raw@.take(i as int),
            ),
        decreases len - i,
    {
        let ghost before = pieces@.map_values(|x: String| x@);
        let c = raw.get_char(i);
        assert(raw@.take(i + 1).drop_last() =~= raw@.take(i as int));
        assert(raw@.take(i + 1).last() == c);
        if c == '.' {
            let piece = String::from_str(raw.substring_char(start, i));
            pieces.push(piece);
            assert(raw@.subrange(i + 1, i + 1) =~= Seq::<char>::empty());
            assert(pieces@.map_values(|x: String| x@) =~= before.push(raw@.subrange(start as int, i as int)));
            start = i + 1;
        } else {
            assert(raw@.subrange(start as int, i + 1) =~= raw@.subrange(start as int, i as int).push(c));
            assert(before.push(raw@.subrange(start as int, i + 1)) =~= before.push(
                raw@.subrange(start as int, i as int),
            ).update(before.len() as int, raw@.subrange(start as int, i as int).push(c)));
        }
        i += 1;
    }
    let ghost before = pieces@.map_values(|x: String| x@);
    let last = String::from_str(raw.substring_char(start, len));
    pieces.push(last);
    assert(raw@.take(len as int) =~= raw@);
    assert(pieces@.map_values(|x: String| x@) =~= before.push(raw@.subrange(start as int, len as int)));
    pieces
}

/// The texts of `phrases` that are not empty, in order.
pub fn spoken_phrases(phrases: Vec<String>) -> (r: Vec<String>)
    ensures
        r@.map_values(|x: String| x@) == nonempty_only(phrases@.map_values(|x: String| x@)),
{
    let mut kept: Vec<String> = Vec::new();
    let mut rest = phrases;
    let ghost all = rest@;
    let ghost views = all.map_values(|x: String| x@);
    let mut i: usize = 0;
    let n = rest.len();
    assert(views.take(0) =~= Seq::<Seq<char>>::empty());
    assert(kept@.map_values(|x: String| x@) =~= Seq::<Seq<char>>::empty());
    while i < n
        invariant
            n == all.len(),
            i <= n,
            rest@.len() == n - i,
            forall|j: int| 0 <= j < rest@.len() ==> #[trigger] rest@[j] == all[j + i],
            views == all.map_values(|x: String| x@),
            kept@.map_values(|x: String| x@) == nonempty_only(views.take(i as int)),
        decreases n - i,
    {
        let ghost before = kept@.map_values(|x: String| x@);
        let ghost was = rest@;
        let p = rest.remove(0);
        assert(p == all[i as int]);
        assert(views.take(i + 1).drop_last() =~= views.take(i as int));
        assert(views.take(i + 1).last() == p@);
        if p.unicode_len() > 0 {
            kept.push(p);
            assert(kept@.map_values(|x: String| x@) =~= before.push(all[i as int]@));
        }
        assert forall|j: int| 0 <= j < rest@.len() implies #[trigger] rest@[j] == all[j + i + 1] by {
            assert(rest@[j] == was[j + 1]);
        }
        i += 1;
    }
    assert(views.take(n as int) =~= views);
    kept
}

/// The phrases a player spoke in `raw`: the pieces between `.` characters,
/// each lowered and trimmed, without the empty ones.
pub fn parse_speech(raw: &str) -> (r: Vec<String>)
    ensures
        r@.map_values(|x: String| x@) == speech_of(raw@),
{
    let pieces = split_phrases(raw);
    let ghost views = pieces@.map_values(|x: String| x@);
    let mut normal: Vec<String> = Vec::new();
    let mut i: usize = 0;
    while i < pieces.len()
        invariant
            i <= pieces@.len(),
            views == pieces@.map_values(|x: String| x@),
            normal@.len() == i,
            forall|j: int| 0 <= j < i ==> (#[trigger] normal@[j])@ == normalized(views[j]),
        decreases pieces@.len() - i,
    {
        let lowered = lowercase(pieces[i].as_str());
        let t = trim_text(lowered.as_str());
        normal.push(t);
        i += 1;
    }
    assert(normal@.map_values(|x: String| x@) =~= split_dots(raw@).map_values(|p: Seq<char>| normalized(p)));
    spoken_phrases(normal)
}

} // verus!
