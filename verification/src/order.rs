//! Lexicographic order on pairs of 64-bit integers, and a sort by it.
use vstd::prelude::*;
use vstd::relations::*;

verus! {

/// `a` comes no later than `b`: first components, then second.
pub open spec fn pair_leq(a: (u64, u64), b: (u64, u64)) -> bool {
    a.0 < b.0 || (a.0 == b.0 && a.1 <= b.1)
}

pub open spec fn pair_order() -> spec_fn((u64, u64), (u64, u64)) -> bool {
    |a: (u64, u64), b: (u64, u64)| pair_leq(a, b)
}

/// The lexicographic order is a total order.
pub proof fn lemma_pair_order_total()
    ensures
        total_ordering(pair_order()),
{
    let r = pair_order();
    assert(reflexive(r));
    assert(antisymmetric(r));
    assert(transitive(r));
    assert(strongly_connected(r));
}

fn pair_le(a: (u64, u64), b: (u64, u64)) -> (r: bool)
    ensures
        r == pair_leq(a, b),
{
    a.0 < b.0 || (a.0 == b.0 && a.1 <= b.1)
}

proof fn lemma_insert_multiset(s: Seq<(u64, u64)>, j: int, x: (u64, u64))
    requires
        0 <= j <= s.len(),
    ensures
        s.insert(j, x).to_multiset() =~= s.to_multiset().insert(x),
{
    broadcast use vstd::seq_lib::group_to_multiset_ensures;
    broadcast use vstd::multiset::group_multiset_axioms;

    let t = s.insert(j, x);
    assert(t.remove(j) =~= s);
    assert(t[j] == x);
    assert(t.to_multiset().count(x) > 0);
}

/// The pairs in lexicographic order (the order in which `sort_unstable`
/// leaves them; equal pairs are indistinguishable).
pub fn sort_pairs(v: &[(u64, u64)]) -> (r: Vec<(u64, u64)>)
    ensures
        r@ == v@.sort_by(pair_order()),
{
    let mut out: Vec<(u64, u64)> = Vec::new();
    let n = v.len();
    let mut i: usize = 0;
    proof {
        lemma_pair_order_total();
        assert(v@.take(0) =~= Seq::<(u64, u64)>::empty());
        assert(out@ =~= Seq::<(u64, u64)>::empty());
    }
    while i < n
        invariant
            n == v@.len(),
            i <= n,
            sorted_by(out@, pair_order()),
            out@.to_multiset() == v@.take(i as int).to_multiset(),
            total_ordering(pair_order()),
        decreases n - i,
    {
        let x = v[i];
        let mut j: usize = 0;
        while j < out.len() && pair_le(out[j], x)
            invariant
                j <= out@.len(),
                forall|k: int| 0 <= k < j ==> pair_leq(#[trigger] out@[k], x),
            decreases out@.len() - j,
        {
            j = j + 1;
        }
        let ghost old_out = out@;
        proof {
            lemma_insert_multiset(old_out, j as int, x);
            assert(v@.take(i + 1) =~= v@.take(i as int).push(x));
            broadcast use vstd::seq_lib::group_to_multiset_ensures;
        }
        out.insert(j, x);
        proof {
            assert(out@ == old_out.insert(j as int, x));
            assert forall|a: int, b: int| 0 <= a < b < out@.len() implies #[trigger] (pair_order())(
                out@[a],
                out@[b],
            ) by {
                let r = pair_order();
                if b < j {
                    assert(r(old_out[a], old_out[b]));
                } else if b == j {
                    assert(pair_leq(old_out[a], x));
                } else if a < j {
                    assert(pair_leq(old_out[a], x));
                    assert(!pair_leq(old_out[j as int], x));
                    if j as int != b - 1 {
                        assert(r(old_out[j as int], old_out[b - 1]));
                    }
                } else if a == j {
                    assert(!pair_leq(old_out[j as int], x));
                    if j as int != b - 1 {
                        assert(r(old_out[j as int], old_out[b - 1]));
                    }
                } else {
                    assert(r(old_out[a - 1], old_out[b - 1]));
                }
            }
        }
        i = i + 1;
    }
    proof {
        assert(v@.take(n as int) =~= v@);
        v@.lemma_sort_by_ensures(pair_order());
        vstd::seq_lib::lemma_sorted_unique(out@, v@.sort_by(pair_order()), pair_order());
    }
    out
}

/// Sorting depends only on which pairs there are, not on the order they came
/// in.
pub proof fn lemma_sort_ignores_order(a: Seq<(u64, u64)>, b: Seq<(u64, u64)>)
    requires
        a.to_multiset() == b.to_multiset(),
    ensures
        a.sort_by(pair_order()) == b.sort_by(pair_order()),
{
    lemma_pair_order_total();
    a.lemma_sort_by_ensures(pair_order());
    b.lemma_sort_by_ensures(pair_order());
    vstd::seq_lib::lemma_sorted_unique(a.sort_by(pair_order()), b.sort_by(pair_order()), pair_order());
}

/// Inserting `x` behind elements none of which share its class adds `x` in
/// front of its class and leaves every other class as it was: the step that
/// makes an insertion sort stable.
pub(crate) proof fn lemma_filter_insert<A>(s: Seq<A>, j: int, x: A, p: spec_fn(A) -> bool)
    requires
        0 <= j <= s.len(),
        p(x) ==> forall|i: int| 0 <= i < j ==> !p(#[trigger] s[i]),
    ensures
        s.insert(j, x).filter(p) == if p(x) {
            seq![x] + s.filter(p)
        } else {
            s.filter(p)
        },
{
    let front = s.subrange(0, j);
    let back = s.subrange(j, s.len() as int);
    assert(s =~= front + back);
    assert(s.insert(j, x) =~= front + (seq![x] + back));
    Seq::filter_distributes_over_add(front, back, p);
    Seq::filter_distributes_over_add(front, seq![x] + back, p);
    back.lemma_filter_prepend(x, p);
    if p(x) {
        assert forall|i: int| 0 <= i < front.len() implies !p(#[trigger] front[i]) by {
            assert(front[i] == s[i]);
        }
        front.lemma_all_neg_filter_empty(p);
        assert(front.filter(p) =~= Seq::<A>::empty());
        assert(seq![x] + back.filter(p) =~= seq![x] + (Seq::<A>::empty() + back.filter(p)));
        assert(front.filter(p) + back.filter(p) =~= back.filter(p));
        assert(front.filter(p) + (seq![x] + back.filter(p)) =~= seq![x] + back.filter(p));
    } else {
        assert(Seq::<A>::empty() + back.filter(p) =~= back.filter(p));
    }
}

/// Taking `x` off the end of what is left to sort and putting it in front of
/// what was sorted keeps their concatenation, and adds `x` in front of its
/// class among the sorted ones.
pub(crate) proof fn lemma_filter_prepend_class<A>(done: Seq<A>, x: A, p: spec_fn(A) -> bool)
    ensures
        (seq![x] + done).filter(p) == if p(x) {
            seq![x] + done.filter(p)
        } else {
            done.filter(p)
        },
{
    done.lemma_filter_prepend(x, p);
    if !p(x) {
        assert(Seq::<A>::empty() + done.filter(p) =~= done.filter(p));
    }
}

/// Inserting `x` in front of elements none of which share its class adds `x`
/// behind its class and leaves every other class as it was.
pub(crate) proof fn lemma_filter_insert_back<A>(s: Seq<A>, j: int, x: A, p: spec_fn(A) -> bool)
    requires
        0 <= j <= s.len(),
        p(x) ==> forall|i: int| j <= i < s.len() ==> !p(#[trigger] s[i]),
    ensures
        s.insert(j, x).filter(p) == if p(x) {
            s.filter(p).push(x)
        } else {
            s.filter(p)
        },
{
    let front = s.subrange(0, j);
    let back = s.subrange(j, s.len() as int);
    assert(s =~= front + back);
    assert(s.insert(j, x) =~= front.push(x) + back);
    Seq::filter_distributes_over_add(front, back, p);
    Seq::filter_distributes_over_add(front.push(x), back, p);
    front.lemma_filter_push(x, p);
    if p(x) {
        assert forall|i: int| 0 <= i < back.len() implies !p(#[trigger] back[i]) by {
            assert(back[i] == s[j + i]);
        }
        back.lemma_all_neg_filter_empty(p);
        assert(back.filter(p) =~= Seq::<A>::empty());
        assert(front.filter(p) + back.filter(p) =~= front.filter(p));
        assert(front.filter(p).push(x) + back.filter(p) =~= front.filter(p).push(x));
    }
}

/// Inserting `x` anywhere adds one `x` to the multiset.
pub(crate) proof fn lemma_insert_to_multiset<A>(s: Seq<A>, j: int, x: A)
    requires
        0 <= j <= s.len(),
    ensures
        s.insert(j, x).to_multiset() =~= s.to_multiset().insert(x),
{
    broadcast use vstd::seq_lib::group_to_multiset_ensures;
    broadcast use vstd::multiset::group_multiset_axioms;

    let t = s.insert(j, x);
    assert(t.remove(j) =~= s);
    assert(t[j] == x);
    assert(t.to_multiset().count(x) > 0);
}

} // verus!
