//! The capability matcher's core: a requirement list is met exactly when
//! the case-insensitive multiset of required names equals the
//! case-insensitive multiset of advertised names — equality, not
//! containment, so unrequested extra capabilities disqualify an agent.
use vstd::prelude::*;

use crate::ext::lower_of;
use crate::ext::lowercase;

verus! {

broadcast use vstd::multiset::group_multiset_axioms, vstd::seq_lib::group_to_multiset_ensures;

/// How many entries of `s` equal `x`.
pub open spec fn count_of<A>(s: Seq<A>, x: A) -> nat
    decreases s.len(),
{
    if s.len() == 0 {
        0
    } else {
        count_of(s.drop_last(), x) + (if s.last() == x {
            1nat
        } else {
            0nat
        })
    }
}

/// `count_of` counts exactly what the sequence's multiset counts.
pub proof fn lemma_count_is_multiset_count<A>(s: Seq<A>, x: A)
    ensures
        count_of(s, x) == s.to_multiset().count(x),
    decreases s.len(),
{
    if s.len() == 0 {
        assert(!s.contains(x));
        assert(s.to_multiset().count(x) == 0);
    } else {
        let s0 = s.drop_last();
        let a = s.last();
        lemma_count_is_multiset_count(s0, x);
        assert(s =~= s0.push(a));
        assert(s0.push(a).to_multiset() =~= s0.to_multiset().insert(a));
        assert(s0.to_multiset().insert(a).count(x) == s0.to_multiset().count(x) + (if x == a {
            1nat
        } else {
            0nat
        }));
    }
}

/// Count how many strings of `v` equal `x`.
fn count_matches(v: &Vec<String>, x: &String) -> (n: usize)
    ensures
        n == count_of(v.deep_view(), x@),
{
    let mut n: usize = 0;
    let mut i: usize = 0;
    while i < v.len()
        invariant
            i <= v.len(),
            n <= i,
            n == count_of(v.deep_view().take(i as int), x@),
        decreases v.len() - i,
    {
        proof {
            assert(v.deep_view().take(i as int + 1).drop_last() =~= v.deep_view().take(i as int));
            assert(v.deep_view().take(i as int + 1).last() == v.deep_view()[i as int]);
            assert(v.deep_view()[i as int] == v@[i as int]@);
        }
        if v[i] == *x {
            n = n + 1;
        }
        i = i + 1;
    }
    proof {
        assert(v.deep_view().take(v.len() as int) =~= v.deep_view());
    }
    n
}

/// Do `a` and `b` hold the same strings, each the same number of times?
fn same_entries(a: &Vec<String>, b: &Vec<String>) -> (r: bool)
    ensures
        r <==> a.deep_view().to_multiset() == b.deep_view().to_multiset(),
{
    let ghost av = a.deep_view();
    let ghost bv = b.deep_view();
    let mut i: usize = 0;
    while i < a.len()
        invariant
            i <= a.len(),
            av == a.deep_view(),
            bv == b.deep_view(),
            forall|j: int| 0 <= j < i ==> count_of(av, #[trigger] av[j]) == count_of(bv, av[j]),
        decreases a.len() - i,
    {
        let ca = count_matches(a, &a[i]);
        let cb = count_matches(b, &a[i]);
        if ca != cb {
            proof {
                lemma_count_is_multiset_count(av, av[i as int]);
                lemma_count_is_multiset_count(bv, av[i as int]);
            }
            return false;
        }
        i = i + 1;
    }
    let mut k: usize = 0;
    while k < b.len()
        invariant
            k <= b.len(),
            av == a.deep_view(),
            bv == b.deep_view(),
            forall|j: int| 0 <= j < av.len() ==> count_of(av, #[trigger] av[j]) == count_of(
                bv,
                av[j],
            ),
            forall|j: int| 0 <= j < k ==> count_of(bv, #[trigger] bv[j]) == count_of(av, bv[j]),
        decreases b.len() - k,
    {
        let ca = count_matches(a, &b[k]);
        let cb = count_matches(b, &b[k]);
        if ca != cb {
            proof {
                lemma_count_is_multiset_count(av, bv[k as int]);
                lemma_count_is_multiset_count(bv, bv[k as int]);
            }
            return false;
        }
        k = k + 1;
    }
    proof {
        assert forall|x: Seq<char>| av.to_multiset().count(x) == bv.to_multiset().count(x) by {
            lemma_count_is_multiset_count(av, x);
            lemma_count_is_multiset_count(bv, x);
            if av.to_multiset().count(x) > 0 {
                assert(av.contains(x));
                let j = choose|j: int| 0 <= j < av.len() && av[j] == x;
                assert(count_of(av, av[j]) == count_of(bv, av[j]));
            } else if bv.to_multiset().count(x) > 0 {
                assert(bv.contains(x));
                let j = choose|j: int| 0 <= j < bv.len() && bv[j] == x;
                assert(count_of(bv, bv[j]) == count_of(av, bv[j]));
            }
        }
        assert(av.to_multiset() =~= bv.to_multiset());
    }
    true
}

/// Every name of `names`, lowercased.
pub open spec fn lowered(names: Seq<Seq<char>>) -> Seq<Seq<char>> {
    names.map_values(|n: Seq<char>| lower_of(n))
}

fn lowercase_all(names: &Vec<String>) -> (r: Vec<String>)
    ensures
        r.deep_view() == lowered(names.deep_view()),
{
    let ghost goal = lowered(names.deep_view());
    let mut r: Vec<String> = Vec::new();
    let mut i: usize = 0;
    while i < names.len()
        invariant
            i <= names.len(),
            goal == lowered(names.deep_view()),
            r.deep_view() =~= goal.take(i as int),
        decreases names.len() - i,
    {
        let ghost prefix = r.deep_view();
        let low = lowercase(names[i].as_str());
        proof {
            assert(low@ == lower_of(names.deep_view()[i as int]));
            assert(low@ == goal[i as int]);
        }
        r.push(low);
        proof {
            assert(r.deep_view() =~= prefix.push(low@));
            assert(prefix.push(low@) =~= goal.take(i as int + 1));
        }
        i = i + 1;
    }
    proof {
        assert(goal.take(names.len() as int) =~= goal);
    }
    r
}

/// Whether the requirement names `needs` are met by the capability names
/// `caps`: the two lists, lowercased, hold the same names with the same
/// multiplicities.
pub open spec fn meets(needs: Seq<Seq<char>>, caps: Seq<Seq<char>>) -> bool {
    lowered(needs).to_multiset() == lowered(caps).to_multiset()
}

/// Case-insensitive multiset equality of two name lists.
pub fn names_match(needs: &Vec<String>, caps: &Vec<String>) -> (r: bool)
    ensures
        r == meets(needs.deep_view(), caps.deep_view()),
{
    let low_needs = lowercase_all(needs);
    let low_caps = lowercase_all(caps);
    same_entries(&low_needs, &low_caps)
}

/// Matching is exact: it holds precisely when every name occurs equally
/// often on both sides (case-insensitively), and never between lists of
/// different lengths — a strict subset or superset of the requirements
/// does not match.
pub proof fn lemma_meets_is_count_equality(needs: Seq<Seq<char>>, caps: Seq<Seq<char>>)
    ensures
        meets(needs, caps) <==> (forall|x: Seq<char>|
            count_of(lowered(needs), x) == count_of(lowered(caps), x)),
        meets(needs, caps) ==> needs.len() == caps.len(),
{
    let ln = lowered(needs);
    let lc = lowered(caps);
    assert forall|x: Seq<char>| count_of(ln, x) == ln.to_multiset().count(x) by {
        lemma_count_is_multiset_count(ln, x);
    }
    assert forall|x: Seq<char>| count_of(lc, x) == lc.to_multiset().count(x) by {
        lemma_count_is_multiset_count(lc, x);
    }
    if (forall|x: Seq<char>| count_of(ln, x) == count_of(lc, x)) {
        assert forall|v: Seq<char>| ln.to_multiset().count(v) == lc.to_multiset().count(v) by {
            assert(count_of(ln, v) == count_of(lc, v));
        }
        assert(ln.to_multiset() =~= lc.to_multiset());
    }
    if meets(needs, caps) {
        assert(ln.to_multiset().len() == lc.to_multiset().len());
    }
}

} // verus!
