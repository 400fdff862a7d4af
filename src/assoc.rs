//! Association lists keyed by names: the representation shared by the
//! variable bindings and the builtin table. A key is found by searching from
//! the end, so the most recent binding of a name is the one that counts.

use vstd::prelude::*;

verus! {

/// An association list as the contracts see it: names as character sequences.
pub open spec fn assoc_view<V>(v: Seq<(String, V)>) -> Seq<(Seq<char>, V)> {
    v.map_values(|p: (String, V)| (p.0@, p.1))
}

/// Index of the last entry whose key is `k`, or -1 where there is none.
pub open spec fn find_last<V>(s: Seq<(Seq<char>, V)>, k: Seq<char>) -> int
    decreases s.len(),
{
    if s.len() == 0 {
        -1
    } else if s.last().0 == k {
        s.len() - 1
    } else {
        find_last(s.drop_last(), k)
    }
}

/// The value bound to `k`, if any entry binds it.
pub open spec fn lookup<V>(s: Seq<(Seq<char>, V)>, k: Seq<char>) -> Option<V> {
    let i = find_last(s, k);
    if i < 0 {
        None
    } else {
        Some(s[i].1)
    }
}

/// Binds `k` to `x`: the entry that binds `k` is updated in place, and where
/// none does, a new entry is added at the end.
pub open spec fn bind<V>(s: Seq<(Seq<char>, V)>, k: Seq<char>, x: V) -> Seq<(Seq<char>, V)> {
    let i = find_last(s, k);
    if i < 0 {
        s.push((k, x))
    } else {
        s.update(i, (k, x))
    }
}

/// `find_last` is the last index holding the key, or -1 when no index does.
pub proof fn lemma_find_last<V>(s: Seq<(Seq<char>, V)>, k: Seq<char>)
    ensures
        -1 <= find_last(s, k) < s.len(),
        find_last(s, k) >= 0 ==> s[find_last(s, k)].0 == k,
        forall|j: int| find_last(s, k) < j < s.len() ==> s[j].0 != k,
    decreases s.len(),
{
    if s.len() > 0 && s.last().0 != k {
        lemma_find_last(s.drop_last(), k);
        assert forall|j: int| find_last(s, k) < j < s.len() implies s[j].0 != k by {
            if j < s.len() - 1 {
                assert(s[j] == s.drop_last()[j]);
            }
        }
    }
}

/// Searches `v` from the end for the key `k`.
pub fn find_last_index<V>(v: &Vec<(String, V)>, k: &String) -> (r: Option<usize>)
    ensures
        match r {
            Some(i) => i < v@.len() && i == find_last(assoc_view(v@), k@),
            None => find_last(assoc_view(v@), k@) == -1,
        },
{
    let ghost s = assoc_view(v@);
    let mut i: usize = v.len();
    while i > 0
        invariant
            i <= v.len(),
            s == assoc_view(v@),
            forall|j: int| i <= j < v.len() ==> s[j].0 != k@,
        decreases i,
    {
        if v[i - 1].0 == *k {
            proof {
                lemma_find_last(s, k@);
                lemma_find_last_unique(s, k@, i - 1);
            }
            return Some(i - 1);
        }
        i = i - 1;
    }
    proof {
        lemma_find_last(s, k@);
    }
    None
}

/// Binds `k` to `x` in `v`, as `bind` states.
pub fn bind_entry<V>(v: &mut Vec<(String, V)>, k: String, x: V)
    ensures
        assoc_view(final(v)@) == bind(assoc_view(old(v)@), k@, x),
{
    let ghost k_view = k@;
    proof {
        lemma_find_last(assoc_view(v@), k@);
    }
    match find_last_index(v, &k) {
        Some(i) => {
            v.set(i, (k, x));
        },
        None => {
            v.push((k, x));
        },
    }
    assert(assoc_view(final(v)@) =~= bind(assoc_view(old(v)@), k_view, x));
}

/// An index that holds the key, with no later one that does, is `find_last`.
proof fn lemma_find_last_unique<V>(s: Seq<(Seq<char>, V)>, k: Seq<char>, i: int)
    requires
        0 <= i < s.len(),
        s[i].0 == k,
        forall|j: int| i < j < s.len() ==> s[j].0 != k,
    ensures
        find_last(s, k) == i,
    decreases s.len(),
{
    if i < s.len() - 1 {
        lemma_find_last_unique(s.drop_last(), k, i);
    }
}

/// After binding `k` to `x`, looking up `k` gives `x`.
pub proof fn lemma_lookup_bind<V>(s: Seq<(Seq<char>, V)>, k: Seq<char>, x: V)
    ensures
        lookup(bind(s, k, x), k) == Some(x),
{
    lemma_find_last(s, k);
    let t = bind(s, k, x);
    if find_last(s, k) < 0 {
        lemma_find_last_unique(t, k, s.len() as int);
    } else {
        let i = find_last(s, k);
        assert forall|j: int| i < j < t.len() implies t[j].0 != k by {
            assert(t[j] == s[j]);
        }
        lemma_find_last_unique(t, k, i);
    }
}

/// A key that no entry holds is not found.
pub proof fn lemma_find_last_absent<V>(s: Seq<(Seq<char>, V)>, k: Seq<char>)
    requires
        forall|j: int| 0 <= j < s.len() ==> s[j].0 != k,
    ensures
        find_last(s, k) == -1,
{
    lemma_find_last(s, k);
}

} // verus!
