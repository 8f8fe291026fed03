//! Lists of key-value pairs read as maps: what a list of staged entries
//! amounts to once each is written under its key.

use vstd::prelude::*;

verus! {

/// The map that results from writing the pairs of `s` in order, each under
/// its key. A later pair replaces an earlier one with the same key.
pub open spec fn pairs_map<K, V>(s: Seq<(K, V)>) -> Map<K, V>
    decreases s.len(),
{
    if s.len() == 0 {
        Map::empty()
    } else {
        pairs_map(s.drop_last()).insert(s.last().0, s.last().1)
    }
}

/// No key occurs twice in `s`.
pub open spec fn distinct_keys<K, V>(s: Seq<(K, V)>) -> bool {
    forall|i: int, j: int| 0 <= i < j < s.len() ==> s[i].0 != s[j].0
}

/// Some pair of `s` has the key `k`.
pub open spec fn has_key<K, V>(s: Seq<(K, V)>, k: K) -> bool {
    exists|i: int| 0 <= i < s.len() && #[trigger] s[i].0 == k
}

/// The keys of the map are the keys of the list.
pub proof fn lemma_pairs_map_keys<K, V>(s: Seq<(K, V)>, k: K)
    ensures
        pairs_map(s).contains_key(k) <==> has_key(s, k),
    decreases s.len(),
{
    if s.len() > 0 {
        let front = s.drop_last();
        lemma_pairs_map_keys(front, k);
        if has_key(s, k) {
            let i = choose|i: int| 0 <= i < s.len() && #[trigger] s[i].0 == k;
            if i < s.len() - 1 {
                assert(front[i].0 == k);
            }
        }
        if has_key(front, k) {
            let i = choose|i: int| 0 <= i < front.len() && #[trigger] front[i].0 == k;
            assert(s[i].0 == k);
        }
        if s.last().0 == k {
            assert(s[s.len() - 1].0 == k);
        }
    }
}

/// Where no key occurs twice, each pair of the list is an entry of the map.
pub proof fn lemma_pairs_map_value<K, V>(s: Seq<(K, V)>, i: int)
    requires
        distinct_keys(s),
        0 <= i < s.len(),
    ensures
        pairs_map(s).contains_key(s[i].0),
        pairs_map(s)[s[i].0] == s[i].1,
    decreases s.len(),
{
    let front = s.drop_last();
    if i < s.len() - 1 {
        assert(distinct_keys(front)) by {
            assert forall|a: int, b: int| 0 <= a < b < front.len() implies front[a].0
                != front[b].0 by {
                assert(s[a].0 != s[b].0);
            }
        }
        lemma_pairs_map_value(front, i);
        assert(front[i] == s[i]);
        assert(s[i].0 != s[s.len() - 1].0);
    }
}

/// Writing one more pair is an insertion into the map.
pub proof fn lemma_pairs_map_push<K, V>(s: Seq<(K, V)>, k: K, v: V)
    ensures
        pairs_map(s.push((k, v))) == pairs_map(s).insert(k, v),
{
    assert(s.push((k, v)).drop_last() =~= s);
}

/// Where no key occurs twice, replacing the value of one pair is an insertion
/// into the map, and still no key occurs twice.
pub proof fn lemma_pairs_map_update<K, V>(s: Seq<(K, V)>, i: int, v: V)
    requires
        distinct_keys(s),
        0 <= i < s.len(),
    ensures
        distinct_keys(s.update(i, (s[i].0, v))),
        pairs_map(s.update(i, (s[i].0, v))) == pairs_map(s).insert(s[i].0, v),
{
    let k = s[i].0;
    let t = s.update(i, (k, v));
    assert(distinct_keys(t)) by {
        assert forall|a: int, b: int| 0 <= a < b < t.len() implies t[a].0 != t[b].0 by {
            assert(s[a].0 != s[b].0);
        }
    }
    let left = pairs_map(t);
    let right = pairs_map(s).insert(k, v);
    assert forall|key: K| left.contains_key(key) <==> right.contains_key(key) by {
        lemma_pairs_map_keys(t, key);
        lemma_pairs_map_keys(s, key);
        if has_key(t, key) {
            let j = choose|j: int| 0 <= j < t.len() && #[trigger] t[j].0 == key;
            assert(s[j].0 == key);
        }
        if has_key(s, key) {
            let j = choose|j: int| 0 <= j < s.len() && #[trigger] s[j].0 == key;
            assert(t[j].0 == key);
        }
        if key == k {
            assert(t[i].0 == key);
        }
    }
    assert forall|key: K| left.contains_key(key) implies left[key] == right[key] by {
        lemma_pairs_map_keys(t, key);
        let j = choose|j: int| 0 <= j < t.len() && #[trigger] t[j].0 == key;
        lemma_pairs_map_value(t, j);
        if j != i {
            lemma_pairs_map_value(s, j);
            assert(s[j].0 != s[i].0);
        }
    }
    assert(left =~= right);
}

/// Where no key occurs twice in either list and the two hold the same pairs,
/// in whatever order, they amount to the same map.
pub proof fn lemma_pairs_map_order<K, V>(s: Seq<(K, V)>, t: Seq<(K, V)>)
    requires
        distinct_keys(s),
        distinct_keys(t),
        s.to_multiset() == t.to_multiset(),
    ensures
        pairs_map(s) == pairs_map(t),
{
    s.to_multiset_ensures();
    t.to_multiset_ensures();
    let left = pairs_map(s);
    let right = pairs_map(t);
    assert forall|key: K| #[trigger] left.contains_key(key) implies right.contains_key(key) by {
        lemma_pairs_map_keys(s, key);
        let i = choose|i: int| 0 <= i < s.len() && #[trigger] s[i].0 == key;
        assert(s.contains(s[i]));
        assert(t.to_multiset().count(s[i]) > 0);
        assert(t.contains(s[i]));
        let j = choose|j: int| 0 <= j < t.len() && t[j] == s[i];
        lemma_pairs_map_value(t, j);
    }
    assert forall|key: K| #[trigger] left.contains_key(key) implies left[key] == right[key] by {
        lemma_pairs_map_keys(s, key);
        let i = choose|i: int| 0 <= i < s.len() && #[trigger] s[i].0 == key;
        lemma_pairs_map_value(s, i);
        assert(s.contains(s[i]));
        assert(t.to_multiset().count(s[i]) > 0);
        assert(t.contains(s[i]));
        let j = choose|j: int| 0 <= j < t.len() && t[j] == s[i];
        lemma_pairs_map_value(t, j);
    }
    assert forall|key: K| #[trigger] right.contains_key(key) implies left.contains_key(key) by {
        lemma_pairs_map_keys(t, key);
        let j = choose|j: int| 0 <= j < t.len() && #[trigger] t[j].0 == key;
        lemma_pairs_map_value(t, j);
        assert(t.contains(t[j]));
        assert(s.to_multiset().count(t[j]) > 0);
        assert(s.contains(t[j]));
        let i = choose|i: int| 0 <= i < s.len() && s[i] == t[j];
        lemma_pairs_map_value(s, i);
    }
    assert(left =~= right);
}

/// The value of the first pair of `s` with the key `k`, if any.
pub open spec fn first_value<K, V>(s: Seq<(K, V)>, k: K) -> Option<V>
    decreases s.len(),
{
    if s.len() == 0 {
        None
    } else if s[0].0 == k {
        Some(s[0].1)
    } else {
        first_value(s.skip(1), k)
    }
}

/// What a lookup finds is the value of a pair of the list with the key.
pub proof fn lemma_first_value_member<K, V>(s: Seq<(K, V)>, k: K)
    requires
        first_value(s, k) is Some,
    ensures
        exists|i: int| 0 <= i < s.len() && #[trigger] s[i] == (k, first_value(s, k)->Some_0),
    decreases s.len(),
{
    if s[0].0 == k {
        assert(s[0] == (k, first_value(s, k)->Some_0));
    } else {
        let rest = s.skip(1);
        lemma_first_value_member(rest, k);
        let i = choose|i: int|
            0 <= i < rest.len() && #[trigger] rest[i] == (k, first_value(rest, k)->Some_0);
        assert(s[i + 1] == (k, first_value(s, k)->Some_0));
    }
}

/// A lookup of a key that the list has finds a value; where no key occurs
/// twice, it finds the value that stands with the key.
pub proof fn lemma_first_value_found<K, V>(s: Seq<(K, V)>, i: int)
    requires
        0 <= i < s.len(),
    ensures
        first_value(s, s[i].0) is Some,
        distinct_keys(s) ==> first_value(s, s[i].0) == Some(s[i].1),
    decreases s.len(),
{
    if s[0].0 != s[i].0 {
        let rest = s.skip(1);
        assert(rest[i - 1] == s[i]);
        if distinct_keys(s) {
            assert forall|a: int, b: int| 0 <= a < b < rest.len() implies rest[a].0
                != rest[b].0 by {
                assert(s[a + 1].0 != s[b + 1].0);
            }
        }
        lemma_first_value_found(rest, i - 1);
    } else if distinct_keys(s) && i != 0 {
        assert(s[0].0 != s[i].0);
    }
}

/// A lookup that has passed over the first `n` pairs without a match goes on
/// in the rest.
pub proof fn lemma_first_value_skip<K, V>(s: Seq<(K, V)>, k: K, n: int)
    requires
        0 <= n <= s.len(),
        forall|j: int| 0 <= j < n ==> s[j].0 != k,
    ensures
        first_value(s, k) == first_value(s.skip(n), k),
    decreases n,
{
    if n > 0 {
        assert(s.skip(1).skip(n - 1) =~= s.skip(n));
        assert forall|j: int| 0 <= j < n - 1 implies s.skip(1)[j].0 != k by {
            assert(s[j + 1].0 != k);
        }
        lemma_first_value_skip(s.skip(1), k, n - 1);
    } else {
        assert(s.skip(0) =~= s);
    }
}

/// Applies `f` to each item of `s` in order and collects the results. The
/// first failure ends it, and is the result.
pub open spec fn try_each<A, B, E>(s: Seq<A>, f: spec_fn(A) -> Result<B, E>) -> Result<Seq<B>, E>
    decreases s.len(),
{
    if s.len() == 0 {
        Ok(Seq::empty())
    } else {
        match try_each(s.drop_last(), f) {
            Err(e) => Err(e),
            Ok(front) => match f(s.last()) {
                Err(e) => Err(e),
                Ok(b) => Ok(front.push(b)),
            },
        }
    }
}

/// One more step of `try_each`, for a loop that goes through `s`.
pub proof fn lemma_try_each_step<A, B, E>(s: Seq<A>, f: spec_fn(A) -> Result<B, E>, n: int)
    requires
        0 <= n < s.len(),
    ensures
        try_each(s.take(n + 1), f) == match try_each(s.take(n), f) {
            Err(e) => Err(e),
            Ok(front) => match f(s[n]) {
                Err(e) => Err(e),
                Ok(b) => Ok(front.push(b)),
            },
        },
{
    assert(s.take(n + 1).drop_last() =~= s.take(n));
    assert(s.take(n + 1).last() == s[n]);
}

/// A failure among the first items is the failure of the whole.
pub proof fn lemma_try_each_fails<A, B, E>(s: Seq<A>, f: spec_fn(A) -> Result<B, E>, n: int)
    requires
        0 <= n <= s.len(),
        try_each(s.take(n), f) is Err,
    ensures
        try_each(s, f) == try_each(s.take(n), f),
    decreases s.len() - n,
{
    if n < s.len() {
        lemma_try_each_step(s, f, n);
        lemma_try_each_fails(s, f, n + 1);
    } else {
        assert(s.take(n) =~= s);
    }
}

/// Where `try_each` succeeds, every item succeeded and the results stand in
/// the items' order.
pub proof fn lemma_try_each_ok<A, B, E>(s: Seq<A>, f: spec_fn(A) -> Result<B, E>)
    requires
        try_each(s, f) is Ok,
    ensures
        try_each(s, f)->Ok_0.len() == s.len(),
        forall|i: int|
            0 <= i < s.len() ==> #[trigger] f(s[i]) == Ok::<B, E>(try_each(s, f)->Ok_0[i]),
    decreases s.len(),
{
    if s.len() > 0 {
        let front = s.drop_last();
        lemma_try_each_ok(front, f);
        assert forall|i: int| 0 <= i < s.len() implies #[trigger] f(s[i]) == Ok::<B, E>(
            try_each(s, f)->Ok_0[i],
        ) by {
            if i < s.len() - 1 {
                assert(front[i] == s[i]);
            }
        }
    }
}

/// Where `try_each` fails, it fails with the failure of the first item that
/// fails.
pub proof fn lemma_try_each_err<A, B, E>(s: Seq<A>, f: spec_fn(A) -> Result<B, E>, i: int)
    requires
        0 <= i < s.len(),
        f(s[i]) is Err,
        forall|j: int| 0 <= j < i ==> f(#[trigger] s[j]) is Ok,
    ensures
        try_each(s, f) == Err::<Seq<B>, E>(f(s[i])->Err_0),
    decreases s.len(),
{
    let front = s.drop_last();
    if i < s.len() - 1 {
        assert(front[i] == s[i]);
        assert forall|j: int| 0 <= j < i implies f(#[trigger] front[j]) is Ok by {
            assert(front[j] == s[j]);
        }
        lemma_try_each_err(front, f, i);
    } else {
        lemma_try_each_all_ok(front, f);
    }
}

/// Where every item succeeds, `try_each` succeeds.
pub proof fn lemma_try_each_all_ok<A, B, E>(s: Seq<A>, f: spec_fn(A) -> Result<B, E>)
    requires
        forall|j: int| 0 <= j < s.len() ==> f(#[trigger] s[j]) is Ok,
    ensures
        try_each(s, f) is Ok,
    decreases s.len(),
{
    if s.len() > 0 {
        let front = s.drop_last();
        assert forall|j: int| 0 <= j < front.len() implies f(#[trigger] front[j]) is Ok by {
            assert(front[j] == s[j]);
        }
        lemma_try_each_all_ok(front, f);
        assert(f(s[s.len() - 1]) is Ok);
    }
}

} // verus!
