//! Counting how often each integer key occurs, keys in ascending order.

use vstd::prelude::*;

verus! {

/// How many times `k` occurs in `s`.
pub open spec fn count_in(s: Seq<i64>, k: i64) -> nat
    decreases s.len(),
{
    if s.len() == 0 {
        0
    } else {
        count_in(s.drop_last(), k) + if s.last() == k { 1nat } else { 0nat }
    }
}

/// `r` lists each key of `keys` once, in ascending order, with the number of
/// times it occurs.
pub open spec fn is_tally(r: Seq<(i64, i64)>, keys: Seq<i64>) -> bool {
    &&& forall|i: int, j: int| 0 <= i < j < r.len() ==> (#[trigger] r[i]).0 < (#[trigger] r[j]).0
    &&& forall|i: int| 0 <= i < r.len() ==> (#[trigger] r[i]).1 == count_in(keys, r[i].0) && r[i].1 >= 1
    &&& forall|m: int| 0 <= m < keys.len() ==> exists|i: int| 0 <= i < r.len() && (#[trigger] r[i]).0 == #[trigger] keys[m]
}

pub proof fn lemma_count_push(s: Seq<i64>, x: i64, k: i64)
    ensures
        count_in(s.push(x), k) == count_in(s, k) + if x == k { 1nat } else { 0nat },
{
    assert(s.push(x).drop_last() =~= s);
}

/// A key that is counted occurs; no key occurs more often than `s` is long.
pub proof fn lemma_count_bounds(s: Seq<i64>, k: i64)
    ensures
        count_in(s, k) <= s.len(),
        count_in(s, k) > 0 ==> exists|m: int| 0 <= m < s.len() && s[m] == k,
    decreases s.len(),
{
    if s.len() > 0 {
        lemma_count_bounds(s.drop_last(), k);
        if count_in(s.drop_last(), k) > 0 {
            let m = choose|m: int| 0 <= m < s.drop_last().len() && s.drop_last()[m] == k;
            assert(s[m] == k);
        }
    }
}

/// Each distinct key of `keys` with the number of times it occurs, in
/// ascending order of key.
pub fn tally(keys: &Vec<i64>) -> (r: Vec<(i64, i64)>)
    requires
        keys@.len() <= i64::MAX,
    ensures
        is_tally(r@, keys@),
{
    let mut out: Vec<(i64, i64)> = Vec::new();
    let mut i: usize = 0;
    assert(keys@.subrange(0, 0) =~= Seq::<i64>::empty());
    while i < keys.len()
        invariant
            i <= keys@.len(),
            keys@.len() <= i64::MAX,
            out@.len() <= i,
            is_tally(out@, keys@.subrange(0, i as int)),
        decreases keys@.len() - i,
    {
        let k = keys[i];
        let ghost prev = keys@.subrange(0, i as int);
        let ghost next = keys@.subrange(0, i + 1);
        assert(next =~= prev.push(k));
        proof {
            assert forall|x: i64| count_in(next, x) == count_in(prev, x) + if k == x { 1nat } else { 0nat } by {
                lemma_count_push(prev, k, x);
            }
        }
        let mut j: usize = 0;
        while j < out.len() && out[j].0 < k
            invariant
                j <= out@.len(),
                forall|t: int| 0 <= t < j ==> (#[trigger] out@[t]).0 < k,
            decreases out@.len() - j,
        {
            j = j + 1;
        }
        if j < out.len() && out[j].0 == k {
            let c = out[j].1;
            proof {
                lemma_count_bounds(prev, k);
            }
            let ghost old_out = out@;
            out.set(j, (k, c + 1));
            proof {
                assert forall|m: int| 0 <= m < next.len() implies exists|t: int| 0 <= t < out@.len() && (#[trigger] out@[t]).0 == #[trigger] next[m] by {
                    if m < prev.len() {
                        assert(next[m] == prev[m]);
                        let t = choose|t: int| 0 <= t < old_out.len() && (#[trigger] old_out[t]).0 == prev[m];
                        assert(out@[t].0 == old_out[t].0);
                    } else {
                        assert(out@[j as int].0 == next[m]);
                    }
                }
            }
        } else {
            proof {
                lemma_count_bounds(prev, k);
                if count_in(prev, k) > 0 {
                    let m = choose|m: int| 0 <= m < prev.len() && prev[m] == k;
                    let t = choose|t: int| 0 <= t < out@.len() && (#[trigger] out@[t]).0 == prev[m];
                    if t < j {
                    } else if t > j {
                        assert(out@[j as int].0 < out@[t].0);
                    }
                }
            }
            let ghost old_out = out@;
            out.insert(j, (k, 1));
            proof {
                assert forall|a: int, b: int| 0 <= a < b < out@.len() implies (#[trigger] out@[a]).0 < (#[trigger] out@[b]).0 by {
                    if b < j {
                        assert(out@[a] == old_out[a]);
                        assert(out@[b] == old_out[b]);
                    } else if a < j && b == j {
                    } else if a < j && b > j {
                        assert(out@[b] == old_out[b - 1]);
                        if b - 1 > j {
                            assert(old_out[j as int].0 < old_out[b - 1].0);
                        }
                    } else if a == j {
                        assert(out@[b] == old_out[b - 1]);
                        if b - 1 > j {
                            assert(old_out[j as int].0 < old_out[b - 1].0);
                        }
                    } else {
                        assert(out@[a] == old_out[a - 1]);
                        assert(out@[b] == old_out[b - 1]);
                    }
                }
                assert forall|t: int| 0 <= t < out@.len() implies (#[trigger] out@[t]).1 == count_in(next, out@[t].0) && out@[t].1 >= 1 by {
                    if t < j {
                        assert(out@[t] == old_out[t]);
                    } else if t > j {
                        assert(out@[t] == old_out[t - 1]);
                    }
                }
                assert forall|m: int| 0 <= m < next.len() implies exists|t: int| 0 <= t < out@.len() && (#[trigger] out@[t]).0 == #[trigger] next[m] by {
                    if m < prev.len() {
                        assert(next[m] == prev[m]);
                        let t = choose|t: int| 0 <= t < old_out.len() && (#[trigger] old_out[t]).0 == prev[m];
                        if t < j {
                            assert(out@[t] == old_out[t]);
                        } else {
                            assert(out@[t + 1] == old_out[t]);
                        }
                    } else {
                        assert(out@[j as int].0 == next[m]);
                    }
                }
            }
        }
        i = i + 1;
    }
    assert(keys@.subrange(0, keys@.len() as int) =~= keys@);
    out
}

} // verus!
