//! The descending sort behind the aggregation endpoint.
//!
//! The result is pinned down exactly: [`spec_sort`] repeatedly extracts the
//! first pair holding the maximum value, so ties keep their input order
//! (a stable descending sort), and the executable sort is proved equal to
//! it. Order and permutation facts are then proved of `spec_sort` itself.

use vstd::prelude::*;
use vstd::multiset::Multiset;
use vstd::seq_lib::group_seq_properties;
use vstd::seq_lib::lemma_multiset_commutative;

verus! {

/// A `[username, value]` pair of the aggregation view.
pub struct Pair {
    pub name: String,
    pub value: i64,
}

/// Spec-level image of a [`Pair`].
pub struct PairV {
    pub name: Seq<char>,
    pub value: int,
}

impl View for Pair {
    type V = PairV;

    open spec fn view(&self) -> PairV {
        PairV { name: self.name@, value: self.value as int }
    }
}

impl DeepView for Pair {
    type V = PairV;

    open spec fn deep_view(&self) -> PairV {
        self.view()
    }
}

/// Index of the first pair holding the maximum value among `s[0..n]`.
pub open spec fn first_max_index_upto(s: Seq<PairV>, n: int) -> int
    decreases n,
{
    if n <= 1 {
        0
    } else {
        let m = first_max_index_upto(s, n - 1);
        if s[n - 1].value > s[m].value {
            n - 1
        } else {
            m
        }
    }
}

pub proof fn lemma_first_max(s: Seq<PairV>, n: int)
    requires
        1 <= n <= s.len(),
    ensures
        0 <= first_max_index_upto(s, n) < n,
        forall|j: int| 0 <= j < n ==> (#[trigger] s[j]).value <= s[first_max_index_upto(s, n)].value,
    decreases n,
{
    if n > 1 {
        lemma_first_max(s, n - 1);
    }
}

/// Stable descending sort by value: extract the first maximum, repeat.
pub open spec fn spec_sort(s: Seq<PairV>) -> Seq<PairV>
    decreases s.len(),
    via spec_sort_decreases
{
    if s.len() == 0 {
        Seq::empty()
    } else {
        let m = first_max_index_upto(s, s.len() as int);
        seq![s[m]] + spec_sort(s.remove(m))
    }
}

#[via_fn]
proof fn spec_sort_decreases(s: Seq<PairV>) {
    if s.len() != 0 {
        lemma_first_max(s, s.len() as int);
    }
}

/// Sorting permutes: the result holds exactly the pairs of the input.
pub proof fn lemma_spec_sort_multiset(s: Seq<PairV>)
    ensures
        spec_sort(s).to_multiset() =~= s.to_multiset(),
        spec_sort(s).len() == s.len(),
    decreases s.len(),
{
    broadcast use group_seq_properties;

    s.to_multiset_ensures();
    spec_sort(s).to_multiset_ensures();
    if s.len() != 0 {
        let m = first_max_index_upto(s, s.len() as int);
        lemma_first_max(s, s.len() as int);
        let rest = s.remove(m);
        lemma_spec_sort_multiset(rest);
        lemma_multiset_commutative(seq![s[m]], spec_sort(rest));
        rest.to_multiset_ensures();
        spec_sort(rest).to_multiset_ensures();
        assert(seq![s[m]].to_multiset() =~= Multiset::empty().insert(s[m])) by {
            assert(seq![s[m]] =~= Seq::empty().push(s[m]));
            Seq::<PairV>::empty().to_multiset_ensures();
        }
        assert(rest.to_multiset() =~= s.to_multiset().remove(s[m]));
        assert(s.to_multiset().contains(s[m])) by {
            assert(s.contains(s[m]));
        }
        assert(Multiset::empty().insert(s[m]).add(s.to_multiset().remove(s[m])) =~= s.to_multiset());
    }
}

/// Everything in a sequence's multiset is one of its elements.
proof fn lemma_multiset_elem(s: Seq<PairV>, p: PairV)
    requires
        s.to_multiset().contains(p),
    ensures
        exists|i: int| 0 <= i < s.len() && s[i] == p,
{
    s.to_multiset_ensures();
    assert(s.contains(p));
}

/// Sorting sorts: consecutive values never increase.
pub proof fn lemma_spec_sort_sorted(s: Seq<PairV>)
    ensures
        forall|i: int, j: int|
            0 <= i <= j < spec_sort(s).len() ==> spec_sort(s)[i].value >= spec_sort(s)[j].value,
    decreases s.len(),
{
    if s.len() != 0 {
        let m = first_max_index_upto(s, s.len() as int);
        lemma_first_max(s, s.len() as int);
        let rest = s.remove(m);
        let tail = spec_sort(rest);
        lemma_spec_sort_sorted(rest);
        lemma_spec_sort_multiset(rest);
        assert forall|k: int| 0 <= k < tail.len() implies tail[k].value <= s[m].value by {
            assert(tail.to_multiset().contains(tail[k])) by {
                tail.to_multiset_ensures();
                assert(tail.contains(tail[k]));
            }
            lemma_multiset_elem(rest, tail[k]);
            let i = choose|i: int| 0 <= i < rest.len() && rest[i] == tail[k];
            assert(rest[i] == if i < m {
                s[i]
            } else {
                s[i + 1]
            });
        }
        assert(spec_sort(s) =~= seq![s[m]] + tail);
        assert forall|i: int, j: int|
            0 <= i <= j < spec_sort(s).len() implies spec_sort(s)[i].value >= spec_sort(
            s,
        )[j].value by {
            if i > 0 {
                assert(spec_sort(s)[i] == tail[i - 1]);
                assert(spec_sort(s)[j] == tail[j - 1]);
            }
        }
    }
}

/// A pair occurs in the sorted sequence exactly when it occurs in the input.
pub proof fn lemma_spec_sort_contains(s: Seq<PairV>, p: PairV)
    ensures
        spec_sort(s).contains(p) <==> s.contains(p),
{
    lemma_spec_sort_multiset(s);
    s.to_multiset_ensures();
    spec_sort(s).to_multiset_ensures();
    assert(s.to_multiset().count(p) == spec_sort(s).to_multiset().count(p));
}

/// Sort `pairs` by value, descending, stably.
pub fn sort_pairs(pairs: Vec<Pair>) -> (r: Vec<Pair>)
    ensures
        r.deep_view() == spec_sort(pairs.deep_view()),
{
    let ghost orig = pairs.deep_view();
    let mut v = pairs;
    let mut out: Vec<Pair> = Vec::new();
    proof {
        assert(out.deep_view() + spec_sort(v.deep_view()) =~~= spec_sort(orig));
    }
    while v.len() > 0
        invariant
            out.deep_view() + spec_sort(v.deep_view()) =~~= spec_sort(orig),
        decreases v.len(),
    {
        let ghost vd = v.deep_view();
        let ghost outd = out.deep_view();
        let n = v.len();
        let mut m: usize = 0;
        let mut k: usize = 1;
        while k < n
            invariant
                n == v.len(),
                n == vd.len(),
                vd == v.deep_view(),
                m < k <= n,
                m as int == first_max_index_upto(vd, k as int),
            decreases n - k,
        {
            proof {
                assert(vd[k as int] == v@[k as int]@);
                assert(vd[m as int] == v@[m as int]@);
            }
            if v[k].value > v[m].value {
                m = k;
            }
            k += 1;
        }
        proof {
            lemma_first_max(vd, n as int);
        }
        let p = v.remove(m);
        out.push(p);
        proof {
            assert(v.deep_view() =~~= vd.remove(m as int));
            assert(p@ == vd[m as int]);
            assert(out.deep_view() =~~= outd.push(p@));
            assert(spec_sort(vd) =~~= seq![vd[m as int]] + spec_sort(vd.remove(m as int)));
            assert(outd.push(p@) + spec_sort(vd.remove(m as int)) =~~= outd + spec_sort(vd));
        }
    }
    proof {
        assert(v.deep_view() =~~= Seq::<PairV>::empty());
        assert(out.deep_view() + spec_sort(v.deep_view()) =~~= out.deep_view());
    }
    out
}

} // verus!
