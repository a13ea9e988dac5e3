//! Top-N rankings: the most frequent keys with their counts, most frequent
//! first. Keys are strings or pairs of strings, compared by their text.

use vstd::prelude::*;

verus! {

/// A key that can be ranked: compared and copied by its text.
pub trait RankKey: Sized {
    /// The text of the key, one sequence per component.
    spec fn key_view(&self) -> Seq<Seq<char>>;

    fn same_key(&self, other: &Self) -> (r: bool)
        ensures
            r == (self.key_view() == other.key_view()),
    ;

    fn key_copy(&self) -> (r: Self)
        ensures
            r.key_view() == self.key_view(),
    ;
}

impl RankKey for String {
    open spec fn key_view(&self) -> Seq<Seq<char>> {
        seq![self@]
    }

    fn same_key(&self, other: &Self) -> (r: bool) {
        let r = *self == *other;
        proof {
            if !r {
                assert(self.key_view()[0] != other.key_view()[0]);
            } else {
                assert(self.key_view() =~= other.key_view());
            }
        }
        r
    }

    fn key_copy(&self) -> (r: Self) {
        self.clone()
    }
}

impl RankKey for (String, String) {
    open spec fn key_view(&self) -> Seq<Seq<char>> {
        seq![self.0@, self.1@]
    }

    fn same_key(&self, other: &Self) -> (r: bool) {
        let r = self.0 == other.0 && self.1 == other.1;
        proof {
            if !r {
                if self.0@ != other.0@ {
                    assert(self.key_view()[0] != other.key_view()[0]);
                } else {
                    assert(self.key_view()[1] != other.key_view()[1]);
                }
            } else {
                assert(self.key_view() =~= other.key_view());
            }
        }
        r
    }

    fn key_copy(&self) -> (r: Self) {
        (self.0.clone(), self.1.clone())
    }
}

/// The text of each key.
pub open spec fn key_views<K: RankKey>(s: Seq<K>) -> Seq<Seq<Seq<char>>> {
    Seq::new(s.len(), |i: int| s[i].key_view())
}

/// Each ranked key's text with its count.
pub open spec fn ranked_views<K: RankKey>(r: Seq<(K, i64)>) -> Seq<(Seq<Seq<char>>, i64)> {
    Seq::new(r.len(), |i: int| (r[i].0.key_view(), r[i].1))
}

/// Some entry of `r` has key `k`.
pub open spec fn key_listed<K: RankKey>(r: Seq<(K, i64)>, k: Seq<Seq<char>>) -> bool {
    exists|i: int| 0 <= i < r.len() && (#[trigger] r[i]).0.key_view() == k
}

/// How many of `keys` are `k`.
pub open spec fn key_count(keys: Seq<Seq<Seq<char>>>, k: Seq<Seq<char>>) -> nat
    decreases keys.len(),
{
    if keys.len() == 0 {
        0
    } else {
        key_count(keys.drop_last(), k) + if keys.last() == k { 1nat } else { 0nat }
    }
}

/// `r` is a ranking of `keys` of at most `limit` entries: distinct keys with
/// their exact counts, most frequent first; a key left out is no more
/// frequent than the last one ranked, and keys are left out only when the
/// ranking is full.
pub open spec fn is_ranking(r: Seq<(Seq<Seq<char>>, i64)>, keys: Seq<Seq<Seq<char>>>, limit: nat) -> bool {
    &&& r.len() <= limit
    &&& forall|i: int, j: int| 0 <= i < j < r.len() ==> (#[trigger] r[i]).0 != (#[trigger] r[j]).0
    &&& forall|i: int| 0 <= i < r.len() ==> (#[trigger] r[i]).1 == key_count(keys, r[i].0) && r[i].1 >= 1
    &&& forall|i: int, j: int| 0 <= i < j < r.len() ==> (#[trigger] r[i]).1 >= (#[trigger] r[j]).1
    &&& forall|m: int|
        0 <= m < keys.len() ==> ranks_key(r, #[trigger] keys[m]) || (r.len() == limit && key_count(keys, keys[m])
            <= r[r.len() - 1].1)
}

/// Some entry of the ranking `r` is for key `k`.
pub open spec fn ranks_key(r: Seq<(Seq<Seq<char>>, i64)>, k: Seq<Seq<char>>) -> bool {
    exists|i: int| 0 <= i < r.len() && (#[trigger] r[i]).0 == k
}

proof fn lemma_key_count_push(s: Seq<Seq<Seq<char>>>, x: Seq<Seq<char>>, k: Seq<Seq<char>>)
    ensures
        key_count(s.push(x), k) == key_count(s, k) + if x == k { 1nat } else { 0nat },
{
    assert(s.push(x).drop_last() =~= s);
}

proof fn lemma_key_count_bounds(s: Seq<Seq<Seq<char>>>, k: Seq<Seq<char>>)
    ensures
        key_count(s, k) <= s.len(),
        key_count(s, k) > 0 ==> exists|m: int| 0 <= m < s.len() && s[m] == k,
    decreases s.len(),
{
    if s.len() > 0 {
        lemma_key_count_bounds(s.drop_last(), k);
        if key_count(s.drop_last(), k) > 0 {
            let m = choose|m: int| 0 <= m < s.drop_last().len() && s.drop_last()[m] == k;
            assert(s[m] == k);
        }
    }
}

/// Each distinct key once, in order of first occurrence, with its count.
fn distinct_counts<K: RankKey>(keys: &Vec<K>) -> (r: Vec<(K, i64)>)
    requires
        keys@.len() <= i64::MAX,
    ensures
        forall|i: int, j: int| 0 <= i < j < r@.len() ==> (#[trigger] r@[i]).0.key_view() != (#[trigger] r@[j]).0.key_view(),
        forall|i: int| 0 <= i < r@.len() ==> (#[trigger] r@[i]).1 == key_count(key_views(keys@), r@[i].0.key_view()) && r@[i].1 >= 1,
        forall|m: int| 0 <= m < keys@.len() ==> key_listed(r@, (#[trigger] keys@[m]).key_view()),
{
    let ghost all = key_views(keys@);
    let ghost mut pos: Seq<int> = Seq::empty();
    let mut out: Vec<(K, i64)> = Vec::new();
    let mut i: usize = 0;
    assert(all.subrange(0, 0) =~= Seq::<Seq<Seq<char>>>::empty());
    while i < keys.len()
        invariant
            i <= keys@.len(),
            keys@.len() <= i64::MAX,
            all == key_views(keys@),
            forall|a: int, b: int| 0 <= a < b < out@.len() ==> (#[trigger] out@[a]).0.key_view() != (#[trigger] out@[b]).0.key_view(),
            forall|a: int| 0 <= a < out@.len() ==> (#[trigger] out@[a]).1 == key_count(all.subrange(0, i as int), out@[a].0.key_view()) && out@[a].1 >= 1,
            pos.len() == i,
            forall|m: int| 0 <= m < i ==> 0 <= #[trigger] pos[m] < out@.len() && out@[pos[m]].0.key_view() == keys@[m].key_view(),
        decreases keys@.len() - i,
    {
        let ghost prev = all.subrange(0, i as int);
        let ghost next = all.subrange(0, i + 1);
        let ghost kv = keys@[i as int].key_view();
        assert(next =~= prev.push(kv));
        proof {
            assert forall|x: Seq<Seq<char>>| key_count(next, x) == key_count(prev, x) + if kv == x { 1nat } else { 0nat } by {
                lemma_key_count_push(prev, kv, x);
            }
        }
        let mut j: usize = 0;
        while j < out.len() && !out[j].0.same_key(&keys[i])
            invariant
                j <= out@.len(),
                i < keys@.len(),
                kv == keys@[i as int].key_view(),
                forall|t: int| 0 <= t < j ==> (#[trigger] out@[t]).0.key_view() != kv,
            decreases out@.len() - j,
        {
            j = j + 1;
        }
        let ghost old_out = out@;
        if j < out.len() {
            let c = out[j].1;
            proof {
                lemma_key_count_bounds(prev, kv);
            }
            out.set(j, (keys[i].key_copy(), c + 1));
            proof {
                assert forall|a: int| 0 <= a < out@.len() implies (#[trigger] out@[a]).0.key_view() == old_out[a].0.key_view() by {}
                pos = pos.push(j as int);
                assert forall|a: int, b: int| 0 <= a < b < out@.len() implies (#[trigger] out@[a]).0.key_view() != (#[trigger] out@[b]).0.key_view() by {
                    assert(out@[a].0.key_view() == old_out[a].0.key_view());
                    assert(out@[b].0.key_view() == old_out[b].0.key_view());
                }
            }
        } else {
            proof {
                lemma_key_count_bounds(prev, kv);
                if key_count(prev, kv) > 0 {
                    let m = choose|m: int| 0 <= m < prev.len() && prev[m] == kv;
                    assert(keys@[m].key_view() == prev[m]);
                    assert(out@[pos[m]].0.key_view() == keys@[m].key_view());
                }
            }
            out.push((keys[i].key_copy(), 1));
            proof {
                pos = pos.push(old_out.len() as int);
                assert forall|a: int| 0 <= a < out@.len() implies (#[trigger] out@[a]).1 == key_count(next, out@[a].0.key_view()) && out@[a].1 >= 1 by {
                    if a < old_out.len() {
                        assert(out@[a] == old_out[a]);
                    }
                }
                assert forall|m: int| 0 <= m < i + 1 implies 0 <= #[trigger] pos[m] < out@.len() && out@[pos[m]].0.key_view() == keys@[m].key_view() by {
                    if m < i {
                        assert(out@[pos[m]] == old_out[pos[m]]);
                    }
                }
            }
        }
        i = i + 1;
    }
    assert(all.subrange(0, i as int) =~= all);
    assert forall|m: int| 0 <= m < keys@.len() implies key_listed(out@, (#[trigger] keys@[m]).key_view()) by {
        assert(0 <= pos[m] < out@.len() && out@[pos[m]].0.key_view() == keys@[m].key_view());
    }
    out
}

/// The at most `limit` most frequent keys with their counts, most frequent
/// first (see `is_ranking`).
pub fn rank<K: RankKey>(keys: &Vec<K>, limit: usize) -> (r: Vec<(K, i64)>)
    requires
        keys@.len() <= i64::MAX,
        limit >= 1,
    ensures
        is_ranking(ranked_views(r@), key_views(keys@), limit as nat),
{
    let ghost all = key_views(keys@);
    let mut rest = distinct_counts(keys);
    let mut out: Vec<(K, i64)> = Vec::new();
    while out.len() < limit && rest.len() > 0
        invariant
            all == key_views(keys@),
            out@.len() <= limit,
            forall|a: int| 0 <= a < out@.len() ==> (#[trigger] out@[a]).1 == key_count(all, out@[a].0.key_view()) && out@[a].1 >= 1,
            forall|a: int| 0 <= a < rest@.len() ==> (#[trigger] rest@[a]).1 == key_count(all, rest@[a].0.key_view()) && rest@[a].1 >= 1,
            forall|a: int, b: int| 0 <= a < b < out@.len() ==> (#[trigger] out@[a]).0.key_view() != (#[trigger] out@[b]).0.key_view(),
            forall|a: int, b: int| 0 <= a < b < rest@.len() ==> (#[trigger] rest@[a]).0.key_view() != (#[trigger] rest@[b]).0.key_view(),
            forall|a: int, b: int| 0 <= a < out@.len() && 0 <= b < rest@.len() ==> (#[trigger] out@[a]).0.key_view() != (#[trigger] rest@[b]).0.key_view(),
            forall|a: int, b: int| 0 <= a < b < out@.len() ==> (#[trigger] out@[a]).1 >= (#[trigger] out@[b]).1,
            out@.len() > 0 ==> forall|b: int| 0 <= b < rest@.len() ==> (#[trigger] rest@[b]).1 <= out@[out@.len() - 1].1,
            forall|m: int| 0 <= m < keys@.len() ==> key_listed(out@, (#[trigger] keys@[m]).key_view()) || key_listed(rest@, keys@[m].key_view()),
        decreases rest@.len(),
    {
        let mut best: usize = 0;
        let mut j: usize = 1;
        while j < rest.len()
            invariant
                best < rest@.len(),
                1 <= j <= rest@.len(),
                forall|t: int| 0 <= t < j ==> (#[trigger] rest@[t]).1 <= rest@[best as int].1,
            decreases rest@.len() - j,
        {
            if rest[j].1 > rest[best].1 {
                best = j;
            }
            j = j + 1;
        }
        let ghost old_rest = rest@;
        let ghost old_out = out@;
        let item = rest.remove(best);
        out.push(item);
        proof {
            assert forall|b: int| 0 <= b < rest@.len() implies #[trigger] rest@[b] == old_rest[if b < best { b } else { b + 1 }] by {}
            assert forall|a: int| 0 <= a < out@.len() implies (#[trigger] out@[a]).1 == key_count(all, out@[a].0.key_view()) && out@[a].1 >= 1 by {
                if a < old_out.len() {
                    assert(out@[a] == old_out[a]);
                }
            }
            assert forall|a: int, b: int| 0 <= a < b < out@.len() implies (#[trigger] out@[a]).0.key_view() != (#[trigger] out@[b]).0.key_view() by {
                assert(out@[a] == old_out[a]);
                if b < old_out.len() {
                    assert(out@[b] == old_out[b]);
                }
            }
            assert forall|a: int, b: int| 0 <= a < out@.len() && 0 <= b < rest@.len() implies (#[trigger] out@[a]).0.key_view() != (#[trigger] rest@[b]).0.key_view() by {
                let ob = if b < best { b } else { b + 1 };
                assert(rest@[b] == old_rest[ob]);
                if a < old_out.len() {
                    assert(out@[a] == old_out[a]);
                } else {
                    assert(out@[a] == old_rest[best as int]);
                }
            }
            assert forall|a: int, b: int| 0 <= a < b < out@.len() implies (#[trigger] out@[a]).1 >= (#[trigger] out@[b]).1 by {
                assert(out@[a] == old_out[a]);
                if b < old_out.len() {
                    assert(out@[b] == old_out[b]);
                } else {
                    assert(out@[b] == old_rest[best as int]);
                    if a < old_out.len() - 1 {
                        assert(old_out[a].1 >= old_out[old_out.len() - 1].1);
                    }
                }
            }
            assert forall|m: int| 0 <= m < keys@.len() implies key_listed(out@, (#[trigger] keys@[m]).key_view()) || key_listed(rest@, keys@[m].key_view()) by {
                if key_listed(old_out, keys@[m].key_view()) {
                    let a = choose|a: int| 0 <= a < old_out.len() && (#[trigger] old_out[a]).0.key_view() == keys@[m].key_view();
                    assert(out@[a] == old_out[a]);
                } else {
                    let b = choose|b: int| 0 <= b < old_rest.len() && (#[trigger] old_rest[b]).0.key_view() == keys@[m].key_view();
                    if b == best {
                        assert(out@[old_out.len() as int] == old_rest[b]);
                    } else if b < best {
                        assert(rest@[b] == old_rest[b]);
                    } else {
                        assert(rest@[b - 1] == old_rest[b]);
                    }
                }
            }
        }
    }
    proof {
        let rv = ranked_views(out@);
        assert forall|i: int| 0 <= i < rv.len() implies (#[trigger] rv[i]) == (out@[i].0.key_view(), out@[i].1) by {}
        assert forall|m: int| 0 <= m < all.len() implies ranks_key(rv, #[trigger] all[m])
            || (rv.len() == limit && key_count(all, all[m]) <= rv[rv.len() - 1].1) by {
            assert(all[m] == keys@[m].key_view());
            if key_listed(out@, keys@[m].key_view()) {
                let a = choose|a: int| 0 <= a < out@.len() && (#[trigger] out@[a]).0.key_view() == keys@[m].key_view();
                assert(rv[a].0 == all[m]);
            } else {
                let b = choose|b: int| 0 <= b < rest@.len() && (#[trigger] rest@[b]).0.key_view() == keys@[m].key_view();
                assert(rest@[b].1 <= out@[out@.len() - 1].1);
            }
        }
        assert forall|i: int, j: int| 0 <= i < j < rv.len() implies (#[trigger] rv[i]).0 != (#[trigger] rv[j]).0 by {
            assert(out@[i].0.key_view() != out@[j].0.key_view());
        }
        assert forall|i: int, j: int| 0 <= i < j < rv.len() implies (#[trigger] rv[i]).1 >= (#[trigger] rv[j]).1 by {
            assert(out@[i].1 >= out@[j].1);
        }
        assert forall|i: int| 0 <= i < rv.len() implies (#[trigger] rv[i]).1 == key_count(all, rv[i].0) && rv[i].1 >= 1 by {
            assert(out@[i].1 == key_count(all, out@[i].0.key_view()));
        }
    }
    out
}

} // verus!
