use vstd::prelude::*;

verus! {

/// The indices of the elements of `s` that satisfy `p`, in increasing order.
pub open spec fn positions_where<A>(s: Seq<A>, p: spec_fn(A) -> bool) -> Seq<int>
    decreases s.len(),
{
    if s.len() == 0 {
        Seq::empty()
    } else {
        let rest = positions_where(s.drop_last(), p);
        if p(s.last()) {
            rest.push(s.len() - 1)
        } else {
            rest
        }
    }
}

/// The elements of `s` that satisfy `p`, in their order in `s`.
pub open spec fn elements_where<A>(s: Seq<A>, p: spec_fn(A) -> bool) -> Seq<A> {
    positions_where(s, p).map_values(|i: int| s[i])
}

/// Looking at one more element of a prefix adds its index exactly when it
/// satisfies the predicate.
pub proof fn lemma_positions_step<A>(s: Seq<A>, p: spec_fn(A) -> bool, i: int)
    requires
        0 <= i < s.len(),
    ensures
        positions_where(s.take(i + 1), p) == (if p(s[i]) {
            positions_where(s.take(i), p).push(i)
        } else {
            positions_where(s.take(i), p)
        }),
{
    assert(s.take(i + 1).drop_last() =~= s.take(i));
    assert(s.take(i + 1).last() == s[i]);
}

/// The whole sequence is its own longest prefix.
pub proof fn lemma_positions_whole<A>(s: Seq<A>, p: spec_fn(A) -> bool)
    ensures
        positions_where(s.take(s.len() as int), p) == positions_where(s, p),
{
    assert(s.take(s.len() as int) =~= s);
}

/// The positions are exactly the in-range indices whose element satisfies `p`,
/// listed in strictly increasing order.
pub proof fn lemma_positions_spec<A>(s: Seq<A>, p: spec_fn(A) -> bool)
    ensures
        forall|j: int|
            0 <= j < positions_where(s, p).len() ==> 0 <= #[trigger] positions_where(s, p)[j]
                < s.len() && p(s[positions_where(s, p)[j]]),
        forall|j: int, k: int|
            0 <= j < k < positions_where(s, p).len() ==> #[trigger] positions_where(s, p)[j]
                < #[trigger] positions_where(s, p)[k],
        forall|i: int| 0 <= i < s.len() && p(s[i]) ==> #[trigger] positions_where(s, p).contains(i),
        positions_where(s, p).len() <= s.len(),
    decreases s.len(),
{
    if s.len() > 0 {
        let t = s.drop_last();
        lemma_positions_spec(t, p);
        let r = positions_where(s, p);
        let q = positions_where(t, p);
        assert forall|i: int| 0 <= i < s.len() && p(s[i]) implies r.contains(i) by {
            if i < s.len() - 1 {
                assert(t[i] == s[i]);
                assert(q.contains(i));
                let w = choose|w: int| 0 <= w < q.len() && q[w] == i;
                if p(s.last()) {
                    assert(r[w] == i);
                } else {
                    assert(r[w] == i);
                }
            } else {
                assert(r[r.len() - 1] == i);
            }
        }
    }
}

/// The positions of a prefix are a prefix of the positions of the whole.
pub proof fn lemma_positions_prefix<A>(s: Seq<A>, p: spec_fn(A) -> bool, n: int)
    requires
        0 <= n <= s.len(),
    ensures
        positions_where(s.take(n), p).len() <= positions_where(s, p).len(),
        forall|j: int|
            0 <= j < positions_where(s.take(n), p).len() ==> #[trigger] positions_where(
                s.take(n),
                p,
            )[j] == positions_where(s, p)[j],
    decreases s.len(),
{
    if n == s.len() {
        assert(s.take(n) =~= s);
    } else {
        let t = s.drop_last();
        assert(s.take(n) =~= t.take(n));
        lemma_positions_prefix(t, p, n);
    }
}

/// Every element of `s` satisfies `p` exactly when no position fails to be listed:
/// an empty list of positions means no element satisfies `p`.
pub proof fn lemma_positions_empty<A>(s: Seq<A>, p: spec_fn(A) -> bool)
    ensures
        positions_where(s, p).len() == 0 <==> forall|i: int| 0 <= i < s.len() ==> !p(#[trigger] s[i]),
{
    lemma_positions_spec(s, p);
    if positions_where(s, p).len() > 0 {
        let i = positions_where(s, p)[0];
        assert(p(s[i]));
    } else {
        assert forall|i: int| 0 <= i < s.len() implies !p(#[trigger] s[i]) by {
            if p(s[i]) {
                assert(positions_where(s, p).contains(i));
            }
        }
    }
}

/// Looking at one more element of a prefix keeps it exactly when it satisfies
/// the predicate.
pub proof fn lemma_elements_step<A>(s: Seq<A>, p: spec_fn(A) -> bool, i: int)
    requires
        0 <= i < s.len(),
    ensures
        elements_where(s.take(i + 1), p) == (if p(s[i]) {
            elements_where(s.take(i), p).push(s[i])
        } else {
            elements_where(s.take(i), p)
        }),
{
    lemma_positions_step(s, p, i);
    lemma_positions_spec(s.take(i), p);
    let a = positions_where(s.take(i), p);
    let b = positions_where(s.take(i + 1), p);
    let lhs = elements_where(s.take(i + 1), p);
    let rhs = if p(s[i]) {
        elements_where(s.take(i), p).push(s[i])
    } else {
        elements_where(s.take(i), p)
    };
    assert forall|k: int| 0 <= k < a.len() implies lhs[k] == rhs[k] by {
        assert(b[k] == a[k]);
        assert(0 <= a[k] < i);
    }
    assert(lhs =~= rhs);
}

/// The whole sequence is its own longest prefix.
pub proof fn lemma_elements_whole<A>(s: Seq<A>, p: spec_fn(A) -> bool)
    ensures
        elements_where(s.take(s.len() as int), p) == elements_where(s, p),
{
    assert(s.take(s.len() as int) =~= s);
}

/// When every element satisfies the predicate, selecting by it changes nothing.
pub proof fn lemma_elements_all<A>(s: Seq<A>, p: spec_fn(A) -> bool)
    requires
        forall|i: int| 0 <= i < s.len() ==> p(#[trigger] s[i]),
    ensures
        elements_where(s, p) == s,
    decreases s.len(),
{
    if s.len() > 0 {
        let t = s.drop_last();
        assert forall|i: int| 0 <= i < t.len() implies p(#[trigger] t[i]) by {
            assert(t[i] == s[i]);
        }
        lemma_elements_all(t, p);
        lemma_elements_step(s, p, s.len() - 1);
        assert(s.take(s.len() - 1) =~= t);
        lemma_elements_whole(s, p);
        assert(t.push(s[s.len() - 1]) =~= s);
    }
}

/// Every selected element satisfies the predicate.
pub proof fn lemma_elements_satisfy<A>(s: Seq<A>, p: spec_fn(A) -> bool)
    ensures
        forall|k: int|
            0 <= k < elements_where(s, p).len() ==> p(#[trigger] elements_where(s, p)[k]),
{
    lemma_positions_spec(s, p);
    assert forall|k: int| 0 <= k < elements_where(s, p).len() implies p(
        #[trigger] elements_where(s, p)[k],
    ) by {
        assert(elements_where(s, p)[k] == s[positions_where(s, p)[k]]);
    }
}

/// When every element satisfies the predicate, every index is a position.
pub proof fn lemma_positions_all<A>(s: Seq<A>, p: spec_fn(A) -> bool)
    requires
        forall|i: int| 0 <= i < s.len() ==> p(#[trigger] s[i]),
    ensures
        positions_where(s, p) == Seq::new(s.len(), |i: int| i),
    decreases s.len(),
{
    if s.len() > 0 {
        let t = s.drop_last();
        assert forall|i: int| 0 <= i < t.len() implies p(#[trigger] t[i]) by {
            assert(t[i] == s[i]);
        }
        lemma_positions_all(t, p);
        assert(p(s.last()));
        assert(positions_where(s, p) =~= Seq::new(s.len(), |i: int| i));
    } else {
        assert(positions_where(s, p) =~= Seq::new(s.len(), |i: int| i));
    }
}

} // verus!
