//! Quote verification: whether the phrases a player spoke are exactly the
//! phrases the triggered rules require.
//!
//! Phrases are compared as a multiset: the order in which they were spoken
//! plays no part, but a phrase required twice must be spoken twice.
use vstd::multiset::Multiset;
use vstd::prelude::*;

verus! {

broadcast use vstd::seq_lib::group_to_multiset_ensures;

/// The phrases of `s` as a multiset of character sequences.
pub open spec fn phrases(s: Seq<String>) -> Multiset<Seq<char>> {
    s.map_values(|x: String| x@).to_multiset()
}

/// Whether `quotes` meets `reqs`: the same phrases, as many times each.
pub open spec fn quotes_accepted(quotes: Seq<String>, reqs: Seq<String>) -> bool {
    phrases(quotes) == phrases(reqs)
}

/// What was spoken beyond the requirements: the incorrect or unnecessary phrases.
pub open spec fn extra_phrases(quotes: Seq<String>, reqs: Seq<String>) -> Multiset<Seq<char>> {
    phrases(quotes).sub(phrases(reqs))
}

/// What was required and not spoken.
pub open spec fn missing_phrases(quotes: Seq<String>, reqs: Seq<String>) -> Multiset<Seq<char>> {
    phrases(reqs).sub(phrases(quotes))
}

proof fn lemma_phrases_push(s: Seq<String>, x: String)
    ensures
        phrases(s.push(x)) == phrases(s).insert(x@),
{
    assert(s.push(x).map_values(|x: String| x@) =~= s.map_values(|x: String| x@).push(x@));
}

proof fn lemma_phrases_remove(s: Seq<String>, i: int)
    requires
        0 <= i < s.len(),
    ensures
        phrases(s.remove(i)) == phrases(s).remove(s[i]@),
{
    assert(s.remove(i).map_values(|x: String| x@) =~= s.map_values(|x: String| x@).remove(i));
}

proof fn lemma_phrases_present(s: Seq<String>, i: int)
    requires
        0 <= i < s.len(),
    ensures
        phrases(s).count(s[i]@) > 0,
{
    let v = s.map_values(|x: String| x@);
    assert(v[i] == s[i]@);
    assert(v.contains(s[i]@));
}

proof fn lemma_phrases_absent(s: Seq<String>, p: Seq<char>)
    requires
        forall|l: int| 0 <= l < s.len() ==> (#[trigger] s[l])@ != p,
    ensures
        phrases(s).count(p) == 0,
{
    let v = s.map_values(|x: String| x@);
    if v.contains(p) {
        let l = choose|l: int| 0 <= l < v.len() && v[l] == p;
        assert(s[l]@ == p);
    }
}

/// The first position of `v` whose phrase equals `s`.
fn position_of(v: &Vec<String>, s: &String) -> (r: Option<usize>)
    ensures
        r matches Some(k) ==> k < v@.len() && v@[k as int]@ == s@,
        r is None ==> forall|l: int| 0 <= l < v@.len() ==> (#[trigger] v@[l])@ != s@,
{
    let mut k: usize = 0;
    while k < v.len()
        invariant
            k <= v@.len(),
            forall|l: int| 0 <= l < k ==> (#[trigger] v@[l])@ != s@,
        decreases v@.len() - k,
    {
        if v[k] == *s {
            return Some(k);
        }
        k += 1;
    }
    None
}

/// Reconciles the spoken `quotes` with the required `reqs`. Each required
/// phrase in turn is matched with an equal spoken phrase not matched yet;
/// both leave their bags when one is found. Succeeds when both bags end
/// empty; otherwise fails with what is left of each: first the incorrect
/// or unnecessary phrases, then the missing ones.
pub fn check_quotes(quotes: &Vec<String>, reqs: &Vec<String>) -> (r: Result<(), (Vec<String>, Vec<String>)>)
    ensures
        r is Ok <==> quotes_accepted(quotes@, reqs@),
        r matches Err((extra, missing)) ==> phrases(extra@) == extra_phrases(quotes@, reqs@)
            && phrases(missing@) == missing_phrases(quotes@, reqs@),
{
    if quotes.len() == 0 && reqs.len() == 0 {
        assert(phrases(quotes@) =~= phrases(reqs@)) by {
            assert(quotes@.map_values(|x: String| x@) =~= reqs@.map_values(|x: String| x@));
        }
        return Ok(());
    }
    let mut rest: Vec<String> = Vec::new();
    let mut i: usize = 0;
    while i < quotes.len()
        invariant
            i <= quotes@.len(),
            rest@.len() == i,
            forall|l: int| 0 <= l < i ==> (#[trigger] rest@[l])@ == quotes@[l]@,
        decreases quotes@.len() - i,
    {
        rest.push(quotes[i].clone());
        i += 1;
    }
    assert(rest@.map_values(|x: String| x@) =~= quotes@.map_values(|x: String| x@));
    let mut missing: Vec<String> = Vec::new();
    let mut j: usize = 0;
    assert(reqs@.take(0) =~= Seq::<String>::empty());
    assert(phrases(Seq::<String>::empty()) =~= Multiset::empty()) by {
        assert(Seq::<String>::empty().map_values(|x: String| x@) =~= Seq::<Seq<char>>::empty());
    }
    assert(missing@ =~= Seq::<String>::empty());
    while j < reqs.len()
        invariant
            j <= reqs@.len(),
            phrases(rest@).add(phrases(reqs@.take(j as int))) == phrases(quotes@).add(phrases(missing@)),
            forall|p: Seq<char>| #[trigger] phrases(rest@).count(p) == 0 || phrases(missing@).count(p) == 0,
        decreases reqs@.len() - j,
    {
        let ghost before = rest@;
        let ghost lacking = missing@;
        proof {
            assert(reqs@.take(j + 1) =~= reqs@.take(j as int).push(reqs@[j as int]));
            lemma_phrases_push(reqs@.take(j as int), reqs@[j as int]);
        }
        match position_of(&rest, &reqs[j]) {
            Some(k) => {
                rest.remove(k);
                proof {
                    lemma_phrases_remove(before, k as int);
                    lemma_phrases_present(before, k as int);
                    assert(phrases(rest@).add(phrases(reqs@.take(j + 1))) =~= phrases(quotes@).add(
                        phrases(missing@),
                    ));
                }
            },
            None => {
                missing.push(reqs[j].clone());
                proof {
                    lemma_phrases_absent(before, reqs@[j as int]@);
                    lemma_phrases_push(lacking, reqs@[j as int]);
                    let x = reqs@[j as int]@;
                    assert forall|p: Seq<char>|
                        #[trigger] phrases(rest@).add(phrases(reqs@.take(j + 1))).count(p) == phrases(
                            quotes@,
                        ).add(phrases(missing@)).count(p) by {
                        assert(phrases(rest@).add(phrases(reqs@.take(j as int))).count(p) == phrases(
                            quotes@,
                        ).add(phrases(lacking)).count(p));
                    }
                    assert(phrases(rest@).add(phrases(reqs@.take(j + 1))) =~= phrases(quotes@).add(
                        phrases(missing@),
                    ));
                }
            },
        }
        j += 1;
    }
    assert(reqs@.take(reqs@.len() as int) =~= reqs@);
    let ghost a = phrases(rest@);
    let ghost m = phrases(missing@);
    let ghost q = phrases(quotes@);
    let ghost rq = phrases(reqs@);
    assert forall|p: Seq<char>| #[trigger] a.count(p) == q.sub(rq).count(p) by {
        assert(a.add(rq).count(p) == q.add(m).count(p));
    }
    assert forall|p: Seq<char>| #[trigger] m.count(p) == rq.sub(q).count(p) by {
        assert(a.add(rq).count(p) == q.add(m).count(p));
    }
    assert(a =~= q.sub(rq));
    assert(m =~= rq.sub(q));
    if rest.len() == 0 && missing.len() == 0 {
        assert(a =~= Multiset::empty()) by {
            assert(rest@.map_values(|x: String| x@) =~= Seq::<Seq<char>>::empty());
        }
        assert(m =~= Multiset::empty()) by {
            assert(missing@.map_values(|x: String| x@) =~= Seq::<Seq<char>>::empty());
        }
        assert(q =~= rq) by {
            assert forall|p: Seq<char>| #[trigger] q.count(p) == rq.count(p) by {
                assert(a.add(rq).count(p) == q.add(m).count(p));
            }
        }
        Ok(())
    } else {
        proof {
            if q == rq {
                assert forall|p: Seq<char>| #[trigger] a.count(p) == 0 by {
                    assert(a.add(rq).count(p) == q.add(m).count(p));
                }
                assert forall|p: Seq<char>| #[trigger] m.count(p) == 0 by {
                    assert(a.add(rq).count(p) == q.add(m).count(p));
                }
                assert(a =~= Multiset::empty());
                assert(m =~= Multiset::empty());
                assert(a.len() == 0);
                assert(m.len() == 0);
                assert(rest@.map_values(|x: String| x@).len() == 0);
                assert(missing@.map_values(|x: String| x@).len() == 0);
            }
        }
        Err((rest, missing))
    }
}

/// Speaking exactly the required phrases, in any order, is accepted.
pub proof fn lemma_exact_quotes_accepted(quotes: Seq<String>, reqs: Seq<String>)
    requires
        phrases(quotes) == phrases(reqs),
    ensures
        quotes_accepted(quotes, reqs),
        extra_phrases(quotes, reqs) =~= Multiset::empty(),
        missing_phrases(quotes, reqs) =~= Multiset::empty(),
{
}

/// Leaving out one of the required phrases is refused, with exactly that
/// phrase missing and nothing extra.
pub proof fn lemma_unspoken_requirement(quotes: Seq<String>, reqs: Seq<String>, i: int)
    requires
        phrases(quotes) == phrases(reqs),
        0 <= i < quotes.len(),
    ensures
        !quotes_accepted(quotes.remove(i), reqs),
        missing_phrases(quotes.remove(i), reqs) =~= Multiset::singleton(quotes[i]@),
        extra_phrases(quotes.remove(i), reqs) =~= Multiset::empty(),
{
    lemma_phrases_remove(quotes, i);
    lemma_phrases_present(quotes, i);
    assert(phrases(quotes.remove(i)).count(quotes[i]@) != phrases(reqs).count(quotes[i]@));
}

/// Dropping one phrase from the requirements while the spoken phrases stay
/// as they were is refused, with exactly that phrase reported as incorrect
/// (spoken and no longer required) and nothing missing.
pub proof fn lemma_dropped_requirement(quotes: Seq<String>, reqs: Seq<String>, i: int)
    requires
        phrases(quotes) == phrases(reqs),
        0 <= i < reqs.len(),
    ensures
        !quotes_accepted(quotes, reqs.remove(i)),
        extra_phrases(quotes, reqs.remove(i)) =~= Multiset::singleton(reqs[i]@),
        missing_phrases(quotes, reqs.remove(i)) =~= Multiset::empty(),
{
    lemma_phrases_remove(reqs, i);
    lemma_phrases_present(reqs, i);
    assert(phrases(quotes).count(reqs[i]@) != phrases(reqs.remove(i)).count(reqs[i]@));
}

/// Speaking one phrase beyond the requirements is refused, with exactly
/// that phrase reported as incorrect and nothing missing.
pub proof fn lemma_extra_quote(quotes: Seq<String>, reqs: Seq<String>, extra: String)
    requires
        phrases(quotes) == phrases(reqs),
    ensures
        !quotes_accepted(quotes.push(extra), reqs),
        extra_phrases(quotes.push(extra), reqs) =~= Multiset::singleton(extra@),
        missing_phrases(quotes.push(extra), reqs) =~= Multiset::empty(),
{
    lemma_phrases_push(quotes, extra);
    assert(phrases(quotes.push(extra)).count(extra@) != phrases(reqs).count(extra@));
}

} // verus!
