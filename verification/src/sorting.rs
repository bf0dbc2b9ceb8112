//! Stable sorting of keyed items.
use vstd::prelude::*;

verus! {

/// The index before which an item with key `k` goes in `s`: after every item
/// whose key is at most `k`, that is, before the first item with a larger key.
pub open spec fn insertion_point<T>(s: Seq<(i64, T)>, k: i64) -> int
    decreases s.len(),
{
    if s.len() == 0 {
        0
    } else if s[0].0 > k {
        0
    } else {
        1 + insertion_point(s.drop_first(), k)
    }
}

/// `s` sorted by key, items of equal key keeping their order (insertion sort).
pub open spec fn stable_sorted<T>(s: Seq<(i64, T)>) -> Seq<(i64, T)>
    decreases s.len(),
{
    if s.len() == 0 {
        s
    } else {
        let r = stable_sorted(s.drop_last());
        r.insert(insertion_point(r, s.last().0), s.last())
    }
}

/// Keys do not decrease along `s`.
pub open spec fn keys_ascending<T>(s: Seq<(i64, T)>) -> bool {
    forall|i: int, j: int| 0 <= i <= j < s.len() ==> #[trigger] s[i].0 <= #[trigger] s[j].0
}

proof fn lemma_insertion_point_is_first_greater<T>(s: Seq<(i64, T)>, k: i64, j: int)
    requires
        0 <= j <= s.len(),
        forall|i: int| 0 <= i < j ==> s[i].0 <= k,
        j < s.len() ==> s[j].0 > k,
    ensures
        insertion_point(s, k) == j,
    decreases j,
{
    if j > 0 {
        assert forall|i: int| 0 <= i < j - 1 implies s.drop_first()[i].0 <= k by {
            assert(s.drop_first()[i] == s[i + 1]);
        }
        lemma_insertion_point_is_first_greater(s.drop_first(), k, j - 1);
    }
}

proof fn lemma_insertion_point_bounds<T>(s: Seq<(i64, T)>, k: i64)
    ensures
        0 <= insertion_point(s, k) <= s.len(),
        forall|i: int| 0 <= i < insertion_point(s, k) ==> s[i].0 <= k,
    decreases s.len(),
{
    if s.len() > 0 && s[0].0 <= k {
        lemma_insertion_point_bounds(s.drop_first(), k);
        assert forall|i: int| 0 <= i < insertion_point(s, k) implies s[i].0 <= k by {
            if i > 0 {
                assert(s[i] == s.drop_first()[i - 1]);
            }
        }
    }
}

/// Sorting keeps the length.
pub proof fn lemma_stable_sorted_len<T>(s: Seq<(i64, T)>)
    ensures
        stable_sorted(s).len() == s.len(),
    decreases s.len(),
{
    if s.len() > 0 {
        lemma_stable_sorted_len(s.drop_last());
        lemma_insertion_point_bounds(stable_sorted(s.drop_last()), s.last().0);
    }
}

/// The result of sorting is in ascending key order.
pub proof fn lemma_stable_sorted_ascending<T>(s: Seq<(i64, T)>)
    ensures
        keys_ascending(stable_sorted(s)),
    decreases s.len(),
{
    if s.len() > 0 {
        let r = stable_sorted(s.drop_last());
        lemma_stable_sorted_ascending(s.drop_last());
        let k = s.last().0;
        let p = insertion_point(r, k);
        lemma_insertion_point_bounds(r, k);
        let t = r.insert(p, s.last());
        assert forall|i: int, j: int| 0 <= i <= j < t.len() implies #[trigger] t[i].0 <= #[trigger] t[j].0 by {
            if p < r.len() {
                assert(r[p].0 > k) by {
                    if r[p].0 <= k {
                        lemma_insertion_point_step(r, k, p);
                    }
                }
            }
            if j < p {
            } else if j == p {
                if i < p {
                    assert(r[i].0 <= k);
                }
            } else if i < p {
                assert(t[j] == r[j - 1]);
            } else if i == p {
                assert(t[j] == r[j - 1]);
                assert(r[p].0 <= r[j - 1].0);
            } else {
                assert(t[i] == r[i - 1] && t[j] == r[j - 1]);
            }
        }
    }
}

proof fn lemma_insertion_point_step<T>(s: Seq<(i64, T)>, k: i64, p: int)
    requires
        p == insertion_point(s, k),
        0 <= p < s.len(),
    ensures
        s[p].0 > k,
    decreases s.len(),
{
    if s[0].0 <= k {
        lemma_insertion_point_bounds(s.drop_first(), k);
        lemma_insertion_point_step(s.drop_first(), k, p - 1);
    }
}

/// Sorting rearranges the items: each occurs as often before as after.
pub proof fn lemma_stable_sorted_permutes<T>(s: Seq<(i64, T)>)
    ensures
        stable_sorted(s).to_multiset() == s.to_multiset(),
    decreases s.len(),
{
    broadcast use vstd::seq_lib::group_to_multiset_ensures;
    if s.len() > 0 {
        let r = stable_sorted(s.drop_last());
        lemma_stable_sorted_permutes(s.drop_last());
        lemma_insertion_point_bounds(r, s.last().0);
        let p = insertion_point(r, s.last().0);
        vstd::seq_lib::lemma_seq_union_to_multiset_commutative(r.take(p), seq![s.last()] + r.skip(p));
        assert(r.insert(p, s.last()) =~= r.take(p) + (seq![s.last()] + r.skip(p)));
        assert(r =~= r.take(p) + r.skip(p));
        vstd::seq_lib::lemma_multiset_commutative(r.take(p), r.skip(p));
        vstd::seq_lib::lemma_multiset_commutative(r.take(p), seq![s.last()] + r.skip(p));
        vstd::seq_lib::lemma_multiset_commutative(seq![s.last()], r.skip(p));
        assert(s =~= s.drop_last().push(s.last()));
    }
}

/// Sorts by key; items of equal key keep their order.
pub fn sort_stable<T>(v: Vec<(i64, T)>) -> (r: Vec<(i64, T)>)
    ensures
        r@ == stable_sorted(v@),
{
    let ghost s = v@;
    let mut input = v;
    let mut out: Vec<(i64, T)> = Vec::new();
    let ghost mut i: int = 0;
    while input.len() > 0
        invariant
            0 <= i <= s.len(),
            input@ == s.skip(i),
            out@ == stable_sorted(s.take(i)),
        decreases input@.len(),
    {
        let x = input.remove(0);
        assert(x == s[i]);
        let mut j: usize = 0;
        while j < out.len() && out[j].0 <= x.0
            invariant
                j <= out@.len(),
                forall|t: int| 0 <= t < j ==> out@[t].0 <= x.0,
            decreases out@.len() - j,
        {
            j = j + 1;
        }
        proof {
            lemma_insertion_point_is_first_greater(out@, x.0, j as int);
            assert(s.take(i + 1).drop_last() =~= s.take(i));
            assert(s.take(i + 1).last() == x);
        }
        out.insert(j, x);
        proof {
            assert(input@ =~= s.skip(i + 1));
            i = i + 1;
        }
    }
    assert(s.take(i) =~= s);
    out
}

} // verus!
