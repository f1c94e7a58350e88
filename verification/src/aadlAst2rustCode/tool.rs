//! Keeping the repeated entries of a list of (component, port) pairs.

use vstd::prelude::*;
use crate::text::{str_eq, strings_view};

verus! {

/// How many times `x` occurs in `s`.
pub open spec fn spec_count<A>(s: Seq<A>, x: A) -> nat
    decreases s.len(),
{
    if s.len() == 0 {
        0
    } else {
        spec_count(s.drop_last(), x) + if s.last() == x {
            1nat
        } else {
            0nat
        }
    }
}

/// The distinct elements of `s`, each where it first occurs.
pub open spec fn spec_first_occurrences<A>(s: Seq<A>) -> Seq<A>
    decreases s.len(),
{
    if s.len() == 0 {
        Seq::empty()
    } else {
        let d = spec_first_occurrences(s.drop_last());
        if d.contains(s.last()) {
            d
        } else {
            d.push(s.last())
        }
    }
}

/// The elements that occur at least twice in `s`, each once, in the order of
/// their first occurrence.
pub open spec fn spec_min_two_unique<A>(s: Seq<A>) -> Seq<A> {
    spec_first_occurrences(s.filter(|x: A| spec_count(s, x) >= 2))
}

/// The character sequences of a list of string pairs.
pub open spec fn pairs_view(v: Seq<(String, String)>) -> Seq<(Seq<char>, Seq<char>)> {
    v.map_values(|p: (String, String)| (p.0@, p.1@))
}

fn pair_eq(a: &(String, String), b: &(String, String)) -> (res: bool)
    ensures
        res == ((a.0@, a.1@) == (b.0@, b.1@)),
{
    a.0 == b.0 && a.1 == b.1
}

fn count_in(v: &Vec<(String, String)>, x: &(String, String)) -> (n: usize)
    ensures
        n == spec_count(pairs_view(v@), (x.0@, x.1@)),
{
    let ghost pv = pairs_view(v@);
    let mut n: usize = 0;
    let mut i: usize = 0;
    while i < v.len()
        invariant
            i <= v@.len(),
            pv == pairs_view(v@),
            n == spec_count(pv.take(i as int), (x.0@, x.1@)),
            n <= i,
        decreases v@.len() - i,
    {
        proof {
            assert(pv.take(i + 1).drop_last() =~= pv.take(i as int));
        }
        if pair_eq(&v[i], x) {
            n = n + 1;
        }
        i = i + 1;
    }
    assert(pv.take(v@.len() as int) =~= pv);
    n
}

fn contains_pair(v: &Vec<(String, String)>, x: &(String, String)) -> (res: bool)
    ensures
        res == pairs_view(v@).contains((x.0@, x.1@)),
{
    let mut i: usize = 0;
    while i < v.len()
        invariant
            i <= v@.len(),
            forall|j: int| 0 <= j < i ==> pairs_view(v@)[j] != (x.0@, x.1@),
        decreases v@.len() - i,
    {
        if pair_eq(&v[i], x) {
            assert(pairs_view(v@)[i as int] == (x.0@, x.1@));
            return true;
        }
        i = i + 1;
    }
    false
}

/// Keeps the pairs that occur at least twice in `vec`, each once, in the order
/// of their first occurrence; `vec` is left holding the same list, and a copy
/// of it is returned.
pub fn dedup_with_min_two_unique(vec: &mut Vec<(String, String)>) -> (res: Vec<(String, String)>)
    ensures
        pairs_view(res@) == spec_min_two_unique(pairs_view(old(vec)@)),
        pairs_view(final(vec)@) == pairs_view(res@),
{
    let ghost s = pairs_view(vec@);
    let mut kept: Vec<(String, String)> = Vec::new();
    let mut copy: Vec<(String, String)> = Vec::new();
    let mut i: usize = 0;
    assert(pairs_view(kept@) =~= Seq::<(Seq<char>, Seq<char>)>::empty());
    while i < vec.len()
        invariant
            i <= vec@.len(),
            s == pairs_view(vec@),
            pairs_view(kept@) == spec_first_occurrences(
                s.take(i as int).filter(|x: (Seq<char>, Seq<char>)| spec_count(s, x) >= 2),
            ),
            pairs_view(copy@) == pairs_view(kept@),
        decreases vec@.len() - i,
    {
        let item = &vec[i];
        let c = count_in(vec, item);
        let ghost x = (item.0@, item.1@);
        let ghost pred = |y: (Seq<char>, Seq<char>)| spec_count(s, y) >= 2;
        let ghost f = s.take(i as int).filter(pred);
        proof {
            reveal_with_fuel(Seq::filter, 1);
            assert(s.take(i + 1).drop_last() =~= s.take(i as int));
            assert(s.take(i + 1).last() == x);
            assert(s.take(i + 1).filter(pred) == if pred(x) {
                f.push(x)
            } else {
                f
            });
            assert(f.push(x).drop_last() =~= f);
        }
        if c >= 2 {
            if !contains_pair(&kept, item) {
                let ghost before = pairs_view(kept@);
                kept.push((item.0.clone(), item.1.clone()));
                copy.push((item.0.clone(), item.1.clone()));
                assert(pairs_view(kept@) =~= before.push(x));
                assert(pairs_view(copy@) =~= before.push(x));
            }
        }
        i = i + 1;
    }
    assert(s.take(vec@.len() as int) =~= s);
    *vec = copy;
    kept
}

fn count_string(v: &Vec<String>, x: &String) -> (n: usize)
    ensures
        n == spec_count(strings_view(v@), x@),
{
    let ghost sv = strings_view(v@);
    let mut n: usize = 0;
    let mut i: usize = 0;
    while i < v.len()
        invariant
            i <= v@.len(),
            sv == strings_view(v@),
            n == spec_count(sv.take(i as int), x@),
            n <= i,
        decreases v@.len() - i,
    {
        proof {
            assert(sv.take(i + 1).drop_last() =~= sv.take(i as int));
        }
        if str_eq(v[i].as_str(), x.as_str()) {
            n = n + 1;
        }
        i = i + 1;
    }
    assert(sv.take(v@.len() as int) =~= sv);
    n
}

fn contains_string(v: &Vec<String>, x: &String) -> (res: bool)
    ensures
        res == strings_view(v@).contains(x@),
{
    let mut i: usize = 0;
    while i < v.len()
        invariant
            i <= v@.len(),
            forall|j: int| 0 <= j < i ==> strings_view(v@)[j] != x@,
        decreases v@.len() - i,
    {
        if str_eq(v[i].as_str(), x.as_str()) {
            assert(strings_view(v@)[i as int] == x@);
            return true;
        }
        i = i + 1;
    }
    false
}

/// Keeps the names that occur at least twice in `vec`, each once, in the
/// order of their first occurrence; `vec` is left holding the same list, and
/// a copy of it is returned.
pub fn dedup_with_min_two_unique_single_string(vec: &mut Vec<String>) -> (res: Vec<String>)
    ensures
        strings_view(res@) == spec_min_two_unique(strings_view(old(vec)@)),
        strings_view(final(vec)@) == strings_view(res@),
{
    let ghost s = strings_view(vec@);
    let mut kept: Vec<String> = Vec::new();
    let mut copy: Vec<String> = Vec::new();
    let mut i: usize = 0;
    assert(strings_view(kept@) =~= Seq::<Seq<char>>::empty());
    while i < vec.len()
        invariant
            i <= vec@.len(),
            s == strings_view(vec@),
            strings_view(kept@) == spec_first_occurrences(
                s.take(i as int).filter(|x: Seq<char>| spec_count(s, x) >= 2),
            ),
            strings_view(copy@) == strings_view(kept@),
        decreases vec@.len() - i,
    {
        let item = &vec[i];
        let c = count_string(vec, item);
        let ghost x = item@;
        let ghost pred = |y: Seq<char>| spec_count(s, y) >= 2;
        let ghost f = s.take(i as int).filter(pred);
        proof {
            reveal_with_fuel(Seq::filter, 1);
            assert(s.take(i + 1).drop_last() =~= s.take(i as int));
            assert(s.take(i + 1).last() == x);
            assert(s.take(i + 1).filter(pred) == if pred(x) {
                f.push(x)
            } else {
                f
            });
            assert(f.push(x).drop_last() =~= f);
        }
        if c >= 2 {
            if !contains_string(&kept, item) {
                let ghost before = strings_view(kept@);
                kept.push(item.clone());
                copy.push(item.clone());
                assert(strings_view(kept@) =~= before.push(x));
                assert(strings_view(copy@) =~= before.push(x));
            }
        }
        i = i + 1;
    }
    assert(s.take(vec@.len() as int) =~= s);
    *vec = copy;
    kept
}

proof fn lemma_count_contains<A>(s: Seq<A>, x: A)
    ensures
        spec_count(s, x) >= 1 <==> s.contains(x),
    decreases s.len(),
{
    if s.len() > 0 {
        lemma_count_contains(s.drop_last(), x);
        if s.drop_last().contains(x) {
            let k = choose|k: int| 0 <= k < s.drop_last().len() && s.drop_last()[k] == x;
            assert(s[k] == x);
        }
        if s.contains(x) && s.last() != x {
            let k = choose|k: int| 0 <= k < s.len() && s[k] == x;
            assert(s.drop_last()[k] == x);
        }
        if s.last() == x {
            assert(s[s.len() - 1] == x);
        }
    }
}

proof fn lemma_count_no_duplicates<A>(s: Seq<A>, x: A)
    requires
        s.no_duplicates(),
    ensures
        spec_count(s, x) <= 1,
    decreases s.len(),
{
    if s.len() > 0 {
        assert(s.drop_last().no_duplicates());
        lemma_count_no_duplicates(s.drop_last(), x);
        if s.last() == x {
            lemma_count_contains(s.drop_last(), x);
            if s.drop_last().contains(x) {
                let k = choose|k: int| 0 <= k < s.drop_last().len() && s.drop_last()[k] == x;
                assert(s[k] == s[s.len() - 1]);
            }
        }
    }
}

proof fn lemma_first_occurrences<A>(s: Seq<A>)
    ensures
        spec_first_occurrences(s).no_duplicates(),
        forall|x: A| #[trigger] spec_first_occurrences(s).contains(x) <==> s.contains(x),
    decreases s.len(),
{
    if s.len() > 0 {
        lemma_first_occurrences(s.drop_last());
        let d = spec_first_occurrences(s.drop_last());
        assert forall|x: A| #[trigger] spec_first_occurrences(s).contains(x) <==> s.contains(x) by {
            if s.drop_last().contains(x) {
                let k = choose|k: int| 0 <= k < s.drop_last().len() && s.drop_last()[k] == x;
                assert(s[k] == x);
            }
            if s.contains(x) && s.last() != x {
                let k = choose|k: int| 0 <= k < s.len() && s[k] == x;
                assert(s.drop_last()[k] == x);
            }
            if s.last() == x {
                assert(s[s.len() - 1] == x);
            }
            if !d.contains(s.last()) {
                if d.push(s.last()).contains(x) && x != s.last() {
                    let k = choose|k: int| 0 <= k < d.push(s.last()).len() && d.push(s.last())[k] == x;
                    assert(d[k] == x);
                }
                if d.contains(x) {
                    let k = choose|k: int| 0 <= k < d.len() && d[k] == x;
                    assert(d.push(s.last())[k] == x);
                }
                if x == s.last() {
                    assert(d.push(s.last())[d.len() as int] == x);
                }
            }
        }
    }
}

proof fn lemma_filter_contains<A>(s: Seq<A>, p: spec_fn(A) -> bool, x: A)
    ensures
        s.filter(p).contains(x) <==> (s.contains(x) && p(x)),
    decreases s.len(),
{
    reveal_with_fuel(Seq::filter, 1);
    if s.len() > 0 {
        lemma_filter_contains(s.drop_last(), p, x);
        let f = s.drop_last().filter(p);
        if s.drop_last().contains(x) {
            let k = choose|k: int| 0 <= k < s.drop_last().len() && s.drop_last()[k] == x;
            assert(s[k] == x);
        }
        if s.contains(x) && s.last() != x {
            let k = choose|k: int| 0 <= k < s.len() && s[k] == x;
            assert(s.drop_last()[k] == x);
        }
        if s.last() == x {
            assert(s[s.len() - 1] == x);
        }
        if p(s.last()) {
            if f.push(s.last()).contains(x) && x != s.last() {
                let k = choose|k: int| 0 <= k < f.push(s.last()).len() && f.push(s.last())[k] == x;
                assert(f[k] == x);
            }
            if f.contains(x) {
                let k = choose|k: int| 0 <= k < f.len() && f[k] == x;
                assert(f.push(s.last())[k] == x);
            }
            if x == s.last() {
                assert(f.push(s.last())[f.len() as int] == x);
            }
        }
    }
}

/// What the kept list holds: no entry twice, and exactly the entries that
/// occur at least twice in the input.
pub proof fn lemma_min_two_unique_contents<A>(s: Seq<A>)
    ensures
        spec_min_two_unique(s).no_duplicates(),
        forall|x: A| #[trigger] spec_min_two_unique(s).contains(x) <==> spec_count(s, x) >= 2,
{
    let p = |y: A| spec_count(s, y) >= 2;
    lemma_first_occurrences(s.filter(p));
    assert forall|x: A| #[trigger] spec_min_two_unique(s).contains(x) <==> spec_count(s, x) >= 2 by {
        lemma_filter_contains(s, p, x);
        lemma_count_contains(s, x);
    }
}

/// Keeping the repeated entries of a list that has no repeated entries, such
/// as the result of a first pass, keeps nothing.
pub proof fn lemma_min_two_unique_second_pass_empty<A>(s: Seq<A>)
    ensures
        spec_min_two_unique(spec_min_two_unique(s)).len() == 0,
{
    let t = spec_min_two_unique(s);
    lemma_min_two_unique_contents(s);
    lemma_min_two_unique_contents(t);
    if spec_min_two_unique(t).len() > 0 {
        let x = spec_min_two_unique(t)[0];
        assert(spec_min_two_unique(t).contains(x));
        lemma_count_no_duplicates(t, x);
    }
}

} // verus!
