//! String-keyed association lists with a `Map` model. Later entries shadow
//! earlier ones, which models insertion as `Map::insert`.
use crate::tokens::str_eq;
use vstd::prelude::*;

verus! {

/// The map an association list denotes: each later pair overrides earlier ones.
pub open spec fn map_of<T: View>(s: Seq<(String, T)>) -> Map<Seq<char>, T::V>
    decreases s.len(),
{
    if s.len() == 0 {
        Map::empty()
    } else {
        map_of(s.drop_last()).insert(s.last().0@, s.last().1@)
    }
}

/// Every key of `map_of(s)` comes from some pair of `s`, and conversely.
pub proof fn lemma_map_of_domain<T: View>(s: Seq<(String, T)>, k: Seq<char>)
    ensures
        map_of(s).contains_key(k) <==> exists|i: int| 0 <= i < s.len() && s[i].0@ == k,
    decreases s.len(),
{
    if s.len() > 0 {
        lemma_map_of_domain(s.drop_last(), k);
        if map_of(s).contains_key(k) {
            if s.last().0@ == k {
                assert(s[s.len() - 1].0@ == k);
            } else {
                let i = choose|i: int| 0 <= i < s.drop_last().len() && s.drop_last()[i].0@ == k;
                assert(s[i].0@ == k);
            }
        }
        if exists|i: int| 0 <= i < s.len() && s[i].0@ == k {
            let i = choose|i: int| 0 <= i < s.len() && s[i].0@ == k;
            if s[i].0@ != s.last().0@ || i < s.len() - 1 {
                if i < s.len() - 1 {
                    assert(s.drop_last()[i].0@ == k);
                }
            }
        }
    }
}

/// The value under the last pair of `s` whose key is `k`.
pub proof fn lemma_map_of_last<T: View>(s: Seq<(String, T)>, i: int)
    requires
        0 <= i < s.len(),
        forall|j: int| i < j < s.len() ==> (#[trigger] s[j]).0@ != s[i].0@,
    ensures
        map_of(s).contains_key(s[i].0@),
        map_of(s)[s[i].0@] == s[i].1@,
    decreases s.len(),
{
    if i == s.len() - 1 {
    } else {
        assert(forall|j: int|
            i < j < s.drop_last().len() ==> (#[trigger] s.drop_last()[j]).0@ != s.drop_last()[i].0@);
        lemma_map_of_last(s.drop_last(), i);
    }
}

/// Finds the binding of `k`, the most recent one when several share the key.
pub fn table_get<'a, T: View>(v: &'a Vec<(String, T)>, k: &str) -> (r: Option<&'a T>)
    ensures
        match r {
            Some(t) => map_of(v@).contains_key(k@) && t@ == map_of(v@)[k@],
            None => !map_of(v@).contains_key(k@),
        },
{
    let n = v.len();
    let mut i = n;
    while i > 0
        invariant
            i <= n,
            n == v@.len(),
            forall|j: int| i <= j < n ==> (#[trigger] v@[j]).0@ != k@,
        decreases i,
    {
        i = i - 1;
        if str_eq(v[i].0.as_str(), k) {
            proof {
                lemma_map_of_last(v@, i as int);
            }
            return Some(&v[i].1);
        }
    }
    proof {
        lemma_map_of_domain(v@, k@);
    }
    None
}

/// Whether `k` is bound.
pub fn table_has<T: View>(v: &Vec<(String, T)>, k: &str) -> (r: bool)
    ensures
        r == map_of(v@).contains_key(k@),
{
    match table_get(v, k) {
        Some(_) => true,
        None => false,
    }
}

/// Binds `k` to `t`, shadowing any earlier binding.
pub fn table_put<T: View>(v: &mut Vec<(String, T)>, k: String, t: T)
    ensures
        map_of(final(v)@) == map_of(old(v)@).insert(k@, t@),
{
    let ghost s0 = v@;
    v.push((k, t));
    proof {
        assert(v@.drop_last() =~= s0);
    }
}

/// The map an id-keyed association list denotes.
pub open spec fn id_map_of(s: Seq<(u64, usize)>) -> Map<u64, int>
    decreases s.len(),
{
    if s.len() == 0 {
        Map::empty()
    } else {
        id_map_of(s.drop_last()).insert(s.last().0, s.last().1 as int)
    }
}

pub proof fn lemma_id_map_of_domain(s: Seq<(u64, usize)>, k: u64)
    ensures
        id_map_of(s).contains_key(k) <==> exists|i: int| 0 <= i < s.len() && s[i].0 == k,
    decreases s.len(),
{
    if s.len() > 0 {
        lemma_id_map_of_domain(s.drop_last(), k);
        if id_map_of(s).contains_key(k) {
            if s.last().0 == k {
                assert(s[s.len() - 1].0 == k);
            } else {
                let i = choose|i: int| 0 <= i < s.drop_last().len() && s.drop_last()[i].0 == k;
                assert(s[i].0 == k);
            }
        }
        if exists|i: int| 0 <= i < s.len() && s[i].0 == k {
            let i = choose|i: int| 0 <= i < s.len() && s[i].0 == k;
            if i < s.len() - 1 {
                assert(s.drop_last()[i].0 == k);
            }
        }
    }
}

pub proof fn lemma_id_map_of_last(s: Seq<(u64, usize)>, i: int)
    requires
        0 <= i < s.len(),
        forall|j: int| i < j < s.len() ==> (#[trigger] s[j]).0 != s[i].0,
    ensures
        id_map_of(s).contains_key(s[i].0),
        id_map_of(s)[s[i].0] == s[i].1 as int,
    decreases s.len(),
{
    if i == s.len() - 1 {
    } else {
        assert(forall|j: int|
            i < j < s.drop_last().len() ==> (#[trigger] s.drop_last()[j]).0 != s.drop_last()[i].0);
        lemma_id_map_of_last(s.drop_last(), i);
    }
}

/// Finds the binding of id `k`, the most recent one when several share it.
pub fn id_get(v: &Vec<(u64, usize)>, k: u64) -> (r: Option<usize>)
    ensures
        match r {
            Some(d) => id_map_of(v@).contains_key(k) && d as int == id_map_of(v@)[k],
            None => !id_map_of(v@).contains_key(k),
        },
{
    let n = v.len();
    let mut i = n;
    while i > 0
        invariant
            i <= n,
            n == v@.len(),
            forall|j: int| i <= j < n ==> (#[trigger] v@[j]).0 != k,
        decreases i,
    {
        i = i - 1;
        if v[i].0 == k {
            proof {
                lemma_id_map_of_last(v@, i as int);
            }
            return Some(v[i].1);
        }
    }
    proof {
        lemma_id_map_of_domain(v@, k);
    }
    None
}

/// Binds id `k` to `d`, shadowing any earlier binding.
pub fn id_put(v: &mut Vec<(u64, usize)>, k: u64, d: usize)
    ensures
        id_map_of(final(v)@) == id_map_of(old(v)@).insert(k, d as int),
{
    let ghost s0 = v@;
    v.push((k, d));
    proof {
        assert(v@.drop_last() =~= s0);
    }
}

} // verus!
