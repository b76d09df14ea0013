//! Sums over sequences, and how they change when a sequence is edited.
use vstd::prelude::*;

verus! {

/// Sum of `f` over the elements of `s`.
pub open spec fn sum_of<A>(s: Seq<A>, f: spec_fn(A) -> int) -> int
    decreases s.len(),
{
    if s.len() == 0 {
        0
    } else {
        sum_of(s.drop_last(), f) + f(s.last())
    }
}

/// Appending an element adds its value.
pub proof fn lemma_sum_push<A>(s: Seq<A>, x: A, f: spec_fn(A) -> int)
    ensures
        sum_of(s.push(x), f) == sum_of(s, f) + f(x),
{
    assert(s.push(x).drop_last() =~= s);
}

/// Summing a prefix one element longer adds that element.
pub proof fn lemma_sum_prefix<A>(s: Seq<A>, k: int, f: spec_fn(A) -> int)
    requires
        0 < k <= s.len(),
    ensures
        sum_of(s.subrange(0, k), f) == sum_of(s.subrange(0, k - 1), f) + f(s[k - 1]),
{
    assert(s.subrange(0, k).drop_last() =~= s.subrange(0, k - 1));
}

/// The sum splits at any point.
pub proof fn lemma_sum_split<A>(s: Seq<A>, t: Seq<A>, f: spec_fn(A) -> int)
    ensures
        sum_of(s + t, f) == sum_of(s, f) + sum_of(t, f),
    decreases t.len(),
{
    if t.len() == 0 {
        assert(s + t =~= s);
    } else {
        assert((s + t).drop_last() =~= s + t.drop_last());
        lemma_sum_split(s, t.drop_last(), f);
    }
}

/// Replacing an element changes the sum by the difference of the values.
pub proof fn lemma_sum_update<A>(s: Seq<A>, i: int, x: A, f: spec_fn(A) -> int)
    requires
        0 <= i < s.len(),
    ensures
        sum_of(s.update(i, x), f) == sum_of(s, f) - f(s[i]) + f(x),
{
    let l = s.subrange(0, i);
    let r = s.subrange(i + 1, s.len() as int);
    assert(s =~= l + seq![s[i]] + r);
    assert(s.update(i, x) =~= l + seq![x] + r);
    lemma_sum_split(l + seq![s[i]], r, f);
    lemma_sum_split(l, seq![s[i]], f);
    lemma_sum_split(l + seq![x], r, f);
    lemma_sum_split(l, seq![x], f);
    assert(seq![x].drop_last() =~= Seq::<A>::empty());
    assert(seq![s[i]].drop_last() =~= Seq::<A>::empty());
}

/// Moving the last element into position `i` and dropping the last slot removes the value at `i`.
pub proof fn lemma_sum_swap_remove<A>(s: Seq<A>, i: int, f: spec_fn(A) -> int)
    requires
        0 <= i < s.len(),
    ensures
        sum_of(s.update(i, s.last()).drop_last(), f) == sum_of(s, f) - f(s[i]),
{
    let u = s.update(i, s.last());
    lemma_sum_update(s, i, s.last(), f);
    assert(u.last() == s.last());
}

/// A sum of non-negative values bounds each of them and each prefix.
pub proof fn lemma_sum_bounds<A>(s: Seq<A>, f: spec_fn(A) -> int)
    requires
        forall|i: int| 0 <= i < s.len() ==> f(#[trigger] s[i]) >= 0,
    ensures
        sum_of(s, f) >= 0,
        forall|i: int| 0 <= i < s.len() ==> f(#[trigger] s[i]) <= sum_of(s, f),
        forall|k: int| 0 <= k <= s.len() ==> #[trigger] sum_of(s.subrange(0, k), f) <= sum_of(s, f),
    decreases s.len(),
{
    if s.len() > 0 {
        let d = s.drop_last();
        assert forall|i: int| 0 <= i < d.len() implies f(#[trigger] d[i]) >= 0 by {
            assert(d[i] == s[i]);
        }
        lemma_sum_bounds(d, f);
        assert forall|i: int| 0 <= i < s.len() implies f(#[trigger] s[i]) <= sum_of(s, f) by {
            if i < s.len() - 1 {
                assert(d[i] == s[i]);
            }
        }
        assert forall|k: int| 0 <= k <= s.len() implies #[trigger] sum_of(s.subrange(0, k), f) <= sum_of(s, f) by {
            if k == s.len() {
                assert(s.subrange(0, k) =~= s);
            } else {
                assert(s.subrange(0, k) =~= d.subrange(0, k));
            }
        }
    }
}

/// Sums of two functions that agree on every element are equal.
pub proof fn lemma_sum_agree<A>(s: Seq<A>, f: spec_fn(A) -> int, g: spec_fn(A) -> int)
    requires
        forall|j: int| 0 <= j < s.len() ==> f(#[trigger] s[j]) == g(s[j]),
    ensures
        sum_of(s, f) == sum_of(s, g),
    decreases s.len(),
{
    if s.len() > 0 {
        let d = s.drop_last();
        assert forall|j: int| 0 <= j < d.len() implies f(#[trigger] d[j]) == g(d[j]) by {
            assert(d[j] == s[j]);
        }
        lemma_sum_agree(d, f, g);
    }
}

/// Changing the function at one element only changes the sum by the difference there.
pub proof fn lemma_sum_change_one<A>(s: Seq<A>, i: int, f: spec_fn(A) -> int, g: spec_fn(A) -> int)
    requires
        0 <= i < s.len(),
        forall|j: int| 0 <= j < s.len() && j != i ==> f(#[trigger] s[j]) == g(s[j]),
    ensures
        sum_of(s, g) == sum_of(s, f) - f(s[i]) + g(s[i]),
{
    let l = s.subrange(0, i);
    let r = s.subrange(i + 1, s.len() as int);
    assert(s =~= l + seq![s[i]] + r);
    assert forall|j: int| 0 <= j < l.len() implies f(#[trigger] l[j]) == g(l[j]) by {
        assert(l[j] == s[j]);
    }
    assert forall|j: int| 0 <= j < r.len() implies f(#[trigger] r[j]) == g(r[j]) by {
        assert(r[j] == s[i + 1 + j]);
    }
    lemma_sum_agree(l, f, g);
    lemma_sum_agree(r, f, g);
    lemma_sum_split(l + seq![s[i]], r, f);
    lemma_sum_split(l, seq![s[i]], f);
    lemma_sum_split(l + seq![s[i]], r, g);
    lemma_sum_split(l, seq![s[i]], g);
    assert(seq![s[i]].drop_last() =~= Seq::<A>::empty());
    assert(Seq::<A>::empty().push(s[i]) =~= seq![s[i]]);
    lemma_sum_push(Seq::<A>::empty(), s[i], f);
    lemma_sum_push(Seq::<A>::empty(), s[i], g);
    assert(sum_of(seq![s[i]], f) == f(s[i]));
    assert(sum_of(seq![s[i]], g) == g(s[i]));
    assert(sum_of(s, f) == sum_of(l, f) + f(s[i]) + sum_of(r, f));
    assert(sum_of(s, g) == sum_of(l, g) + g(s[i]) + sum_of(r, g));
}

/// A function no larger at every element gives a sum no larger.
pub proof fn lemma_sum_le<A>(s: Seq<A>, f: spec_fn(A) -> int, g: spec_fn(A) -> int)
    requires
        forall|j: int| 0 <= j < s.len() ==> f(#[trigger] s[j]) <= g(s[j]),
    ensures
        sum_of(s, f) <= sum_of(s, g),
    decreases s.len(),
{
    if s.len() > 0 {
        let d = s.drop_last();
        assert forall|j: int| 0 <= j < d.len() implies f(#[trigger] d[j]) <= g(d[j]) by {
            assert(d[j] == s[j]);
        }
        lemma_sum_le(d, f, g);
        assert(f(s[s.len() - 1]) <= g(s[s.len() - 1]));
    }
}

} // verus!
