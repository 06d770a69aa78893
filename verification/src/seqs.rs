//! Counting, summing and taking maxima over sequences.

use vstd::prelude::*;

verus! {

/// How many elements of `s` satisfy `p`.
pub open spec fn count<A>(s: Seq<A>, p: spec_fn(A) -> bool) -> nat
    decreases s.len(),
{
    if s.len() == 0 {
        0
    } else {
        count(s.drop_last(), p) + if p(s.last()) {
            1nat
        } else {
            0nat
        }
    }
}

/// The sum of `f` over `s`.
pub open spec fn sum<A>(s: Seq<A>, f: spec_fn(A) -> int) -> int
    decreases s.len(),
{
    if s.len() == 0 {
        0
    } else {
        sum(s.drop_last(), f) + f(s.last())
    }
}

/// The largest value of `f` over `s`, and `floor` where that is larger.
pub open spec fn largest<A>(s: Seq<A>, floor: int, f: spec_fn(A) -> int) -> int
    decreases s.len(),
{
    if s.len() == 0 {
        floor
    } else {
        let rest = largest(s.drop_last(), floor, f);
        if f(s.last()) > rest {
            f(s.last())
        } else {
            rest
        }
    }
}

/// The smallest value of `f` over the elements of `s` that satisfy `p`.
pub open spec fn minimum<A>(
    s: Seq<A>,
    p: spec_fn(A) -> bool,
    f: spec_fn(A) -> int,
) -> Option<int>
    decreases s.len(),
{
    if s.len() == 0 {
        None
    } else {
        let rest = minimum(s.drop_last(), p, f);
        if p(s.last()) {
            match rest {
                Some(m) => if f(s.last()) < m {
                    Some(f(s.last()))
                } else {
                    Some(m)
                },
                None => Some(f(s.last())),
            }
        } else {
            rest
        }
    }
}

/// Whether some element of `s` satisfies `p`.
pub open spec fn any<A>(s: Seq<A>, p: spec_fn(A) -> bool) -> bool {
    exists|i: int| 0 <= i < s.len() && p(#[trigger] s[i])
}

/// Whether one of `items` is accepted by `p`. The predicate `q` is what `p`
/// decides.
pub(crate) fn any_of<A>(
    items: &Vec<A>,
    p: impl Fn(&A) -> bool,
    Ghost(q): Ghost<spec_fn(A) -> bool>,
) -> (r: bool)
    requires
        forall|x: &A| call_requires(p, (x,)),
        forall|x: &A, b: bool| call_ensures(p, (x,), b) ==> b == q(*x),
    ensures
        r == any(items@, q),
{
    let mut i: usize = 0;
    while i < items.len()
        invariant
            forall|x: &A| call_requires(p, (x,)),
            forall|x: &A, b: bool| call_ensures(p, (x,), b) ==> b == q(*x),
            i <= items@.len(),
            forall|j: int| 0 <= j < i ==> !q(#[trigger] items@[j]),
        decreases items@.len() - i,
    {
        if p(&items[i]) {
            assert(q(items@[i as int]));
            return true;
        }
        i += 1;
    }
    false
}

pub proof fn lemma_count_step<A>(s: Seq<A>, i: int, p: spec_fn(A) -> bool)
    requires
        0 <= i < s.len(),
    ensures
        count(s.take(i + 1), p) == count(s.take(i), p) + if p(s[i]) {
            1nat
        } else {
            0nat
        },
{
    assert(s.take(i + 1).drop_last() =~= s.take(i));
    assert(s.take(i + 1).last() == s[i]);
}

pub proof fn lemma_sum_step<A>(s: Seq<A>, i: int, f: spec_fn(A) -> int)
    requires
        0 <= i < s.len(),
    ensures
        sum(s.take(i + 1), f) == sum(s.take(i), f) + f(s[i]),
{
    assert(s.take(i + 1).drop_last() =~= s.take(i));
    assert(s.take(i + 1).last() == s[i]);
}

pub proof fn lemma_largest_step<A>(s: Seq<A>, i: int, floor: int, f: spec_fn(A) -> int)
    requires
        0 <= i < s.len(),
    ensures
        largest(s.take(i + 1), floor, f) == (if f(s[i]) > largest(s.take(i), floor, f) {
            f(s[i])
        } else {
            largest(s.take(i), floor, f)
        }),
{
    assert(s.take(i + 1).drop_last() =~= s.take(i));
    assert(s.take(i + 1).last() == s[i]);
}

/// A count is at most the length.
pub proof fn lemma_count_bound<A>(s: Seq<A>, p: spec_fn(A) -> bool)
    ensures
        count(s, p) <= s.len(),
    decreases s.len(),
{
    if s.len() > 0 {
        lemma_count_bound(s.drop_last(), p);
    }
}

/// A count is zero exactly where nothing satisfies the predicate.
pub proof fn lemma_count_any<A>(s: Seq<A>, p: spec_fn(A) -> bool)
    ensures
        (count(s, p) > 0) == any(s, p),
    decreases s.len(),
{
    if s.len() > 0 {
        let d = s.drop_last();
        lemma_count_any(d, p);
        if p(s.last()) {
            assert(p(s[s.len() - 1]));
        }
        if any(d, p) {
            let i = choose|i: int| 0 <= i < d.len() && p(#[trigger] d[i]);
            assert(p(s[i]));
        }
        if any(s, p) && !p(s.last()) {
            let i = choose|i: int| 0 <= i < s.len() && p(#[trigger] s[i]);
            assert(p(d[i]));
        }
    }
}

/// A sum of terms of magnitude at most `b` has magnitude at most `b` times
/// the length.
pub proof fn lemma_sum_bound<A>(s: Seq<A>, f: spec_fn(A) -> int, b: int)
    requires
        b >= 0,
        forall|i: int| 0 <= i < s.len() ==> -b <= f(#[trigger] s[i]) <= b,
    ensures
        -(b * s.len()) <= sum(s, f) <= b * s.len(),
    decreases s.len(),
{
    if s.len() > 0 {
        let d = s.drop_last();
        assert forall|i: int| 0 <= i < d.len() implies -b <= f(#[trigger] d[i]) <= b by {
            assert(d[i] == s[i]);
        }
        lemma_sum_bound(d, f, b);
        assert(-b <= f(s[s.len() - 1]) <= b);
        assert(b * s.len() == b * d.len() + b) by (nonlinear_arith)
            requires
                s.len() == d.len() + 1,
        ;
    } else {
        assert(b * s.len() == 0) by (nonlinear_arith)
            requires
                s.len() == 0,
        ;
    }
}

/// A maximum is at least the floor and at least every term.
pub proof fn lemma_largest_bounds<A>(s: Seq<A>, floor: int, f: spec_fn(A) -> int, hi: int)
    requires
        floor <= hi,
        forall|i: int| 0 <= i < s.len() ==> f(#[trigger] s[i]) <= hi,
    ensures
        floor <= largest(s, floor, f) <= hi,
        forall|i: int| 0 <= i < s.len() ==> f(#[trigger] s[i]) <= largest(s, floor, f),
    decreases s.len(),
{
    if s.len() > 0 {
        let d = s.drop_last();
        assert forall|i: int| 0 <= i < d.len() implies f(#[trigger] d[i]) <= hi by {
            assert(d[i] == s[i]);
        }
        lemma_largest_bounds(d, floor, f, hi);
        assert(f(s[s.len() - 1]) <= hi);
        assert forall|i: int| 0 <= i < s.len() implies f(#[trigger] s[i]) <= largest(
            s,
            floor,
            f,
        ) by {
            if i < d.len() {
                assert(f(d[i]) <= largest(d, floor, f));
            }
        }
    }
}

pub proof fn lemma_minimum_step<A>(
    s: Seq<A>,
    i: int,
    p: spec_fn(A) -> bool,
    f: spec_fn(A) -> int,
)
    requires
        0 <= i < s.len(),
    ensures
        minimum(s.take(i + 1), p, f) == (if p(s[i]) {
            match minimum(s.take(i), p, f) {
                Some(m) => if f(s[i]) < m {
                    Some(f(s[i]))
                } else {
                    Some(m)
                },
                None => Some(f(s[i])),
            }
        } else {
            minimum(s.take(i), p, f)
        }),
{
    assert(s.take(i + 1).drop_last() =~= s.take(i));
    assert(s.take(i + 1).last() == s[i]);
}

/// A minimum is one of the values, and none of them is smaller. There is one
/// exactly where some element satisfies the predicate.
pub proof fn lemma_minimum<A>(s: Seq<A>, p: spec_fn(A) -> bool, f: spec_fn(A) -> int)
    ensures
        minimum(s, p, f) is Some == any(s, p),
        minimum(s, p, f) matches Some(m) ==> any(s, |x: A| p(x) && f(x) == m),
        minimum(s, p, f) matches Some(m) ==> forall|i: int|
            0 <= i < s.len() && p(#[trigger] s[i]) ==> m <= f(s[i]),
    decreases s.len(),
{
    if s.len() > 0 {
        let d = s.drop_last();
        lemma_minimum(d, p, f);
        if any(d, p) {
            let i = choose|i: int| 0 <= i < d.len() && p(#[trigger] d[i]);
            assert(p(s[i]));
        }
        if any(s, p) && !p(s.last()) {
            let i = choose|i: int| 0 <= i < s.len() && p(#[trigger] s[i]);
            assert(p(d[i]));
        }
        if p(s.last()) {
            assert(p(s[s.len() - 1]));
        }
        if let Some(m) = minimum(s, p, f) {
            let q = |x: A| p(x) && f(x) == m;
            if p(s.last()) && f(s.last()) == m {
                assert(q(s[s.len() - 1]));
            } else {
                let i = choose|i: int| 0 <= i < d.len() && q(#[trigger] d[i]);
                assert(q(s[i]));
            }
            assert forall|i: int| 0 <= i < s.len() && p(#[trigger] s[i]) implies m <= f(s[i]) by {
                if i < d.len() {
                    assert(p(d[i]));
                }
            }
        }
    }
}

/// One more element adds to a count exactly where it satisfies the predicate.
pub proof fn lemma_count_push<A>(s: Seq<A>, x: A, p: spec_fn(A) -> bool)
    ensures
        count(s.push(x), p) == count(s, p) + if p(x) {
            1nat
        } else {
            0nat
        },
{
    assert(s.push(x).drop_last() =~= s);
}

/// One more element adds its term to a sum.
pub proof fn lemma_sum_push<A>(s: Seq<A>, x: A, f: spec_fn(A) -> int)
    ensures
        sum(s.push(x), f) == sum(s, f) + f(x),
{
    assert(s.push(x).drop_last() =~= s);
}

/// A count of nothing is zero, and so are a sum of nothing and a maximum of
/// nothing above a floor of zero.
pub proof fn law_totals_of_nothing<A>(p: spec_fn(A) -> bool, f: spec_fn(A) -> int)
    ensures
        count(Seq::<A>::empty(), p) == 0,
        sum(Seq::<A>::empty(), f) == 0,
        largest(Seq::<A>::empty(), 0, f) == 0,
        minimum(Seq::<A>::empty(), p, f) is None,
{
}

/// A sum does not grow where none of its terms does.
pub proof fn lemma_sum_at_most<A>(s: Seq<A>, f: spec_fn(A) -> int, g: spec_fn(A) -> int)
    requires
        forall|i: int| 0 <= i < s.len() ==> f(#[trigger] s[i]) <= g(s[i]),
    ensures
        sum(s, f) <= sum(s, g),
    decreases s.len(),
{
    if s.len() > 0 {
        let d = s.drop_last();
        assert forall|i: int| 0 <= i < d.len() implies f(#[trigger] d[i]) <= g(d[i]) by {
            assert(d[i] == s[i]);
        }
        lemma_sum_at_most(d, f, g);
        assert(f(s[s.len() - 1]) <= g(s[s.len() - 1]));
    }
}

/// A sum of equal terms is the same sum.
pub proof fn lemma_sum_same<A>(s: Seq<A>, f: spec_fn(A) -> int, g: spec_fn(A) -> int)
    requires
        forall|i: int| 0 <= i < s.len() ==> f(#[trigger] s[i]) == g(s[i]),
    ensures
        sum(s, f) == sum(s, g),
{
    lemma_sum_at_most(s, f, g);
    lemma_sum_at_most(s, g, f);
}

/// A maximum is the floor or one of the terms, and no term and not the floor
/// exceeds it.
pub proof fn lemma_largest_attained<A>(s: Seq<A>, floor: int, f: spec_fn(A) -> int)
    ensures
        floor <= largest(s, floor, f),
        forall|i: int| 0 <= i < s.len() ==> f(#[trigger] s[i]) <= largest(s, floor, f),
        largest(s, floor, f) == floor || exists|i: int|
            0 <= i < s.len() && f(#[trigger] s[i]) == largest(s, floor, f),
    decreases s.len(),
{
    if s.len() > 0 {
        let d = s.drop_last();
        lemma_largest_attained(d, floor, f);
        let m = largest(s, floor, f);
        assert forall|i: int| 0 <= i < s.len() implies f(#[trigger] s[i]) <= m by {
            if i < d.len() {
                assert(f(d[i]) <= largest(d, floor, f));
            }
        }
        if f(s[s.len() - 1]) != m && m != floor {
            let i = choose|i: int| 0 <= i < d.len() && f(#[trigger] d[i]) == m;
            assert(f(s[i]) == m);
        }
    }
}

/// Nothing that satisfies the predicate: a count of zero.
pub proof fn lemma_count_none<A>(s: Seq<A>, p: spec_fn(A) -> bool)
    requires
        forall|i: int| 0 <= i < s.len() ==> !p(#[trigger] s[i]),
    ensures
        count(s, p) == 0,
{
    lemma_count_any(s, p);
}

/// Nothing but zeros: a sum of zero.
pub proof fn lemma_sum_none<A>(s: Seq<A>, f: spec_fn(A) -> int)
    requires
        forall|i: int| 0 <= i < s.len() ==> f(#[trigger] s[i]) == 0,
    ensures
        sum(s, f) == 0,
    decreases s.len(),
{
    if s.len() > 0 {
        let d = s.drop_last();
        assert forall|i: int| 0 <= i < d.len() implies f(#[trigger] d[i]) == 0 by {
            assert(d[i] == s[i]);
        }
        lemma_sum_none(d, f);
        assert(f(s[s.len() - 1]) == 0);
    }
}

} // verus!
