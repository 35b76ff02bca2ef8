//! Mathematical views of containers.
use vstd::prelude::*;

verus! {

/// The views of the elements.
pub open spec fn deep<T: View>(s: Seq<T>) -> Seq<T::V> {
    s.map_values(|t: T| t@)
}

/// The view of what an option holds.
pub open spec fn maybe<T: View>(o: Option<T>) -> Option<T::V> {
    match o {
        Some(t) => Some(t@),
        None => None,
    }
}

/// The views of a sequence with one more element.
pub broadcast proof fn lemma_deep_push<T: View>(s: Seq<T>, t: T)
    ensures
        #[trigger] deep(s.push(t)) == deep(s).push(t@),
{
    assert(deep(s.push(t)) =~= deep(s).push(t@));
}

/// Nothing views as nothing.
pub broadcast proof fn lemma_deep_empty<T: View>()
    ensures
        #[trigger] deep(Seq::<T>::empty()) == Seq::<T::V>::empty(),
{
    assert(deep(Seq::<T>::empty()) =~= Seq::<T::V>::empty());
}

pub broadcast group group_deep {
    lemma_deep_push,
    lemma_deep_empty,
}

/// The first of `n` checks that fails, in order.
pub open spec fn first_some<E>(n: int, f: spec_fn(int) -> Option<E>) -> Option<E>
    decreases n,
{
    if n <= 0 {
        None
    } else {
        match first_some(n - 1, f) {
            Some(e) => Some(e),
            None => f(n - 1),
        }
    }
}

/// No check fails where none of them does.
pub proof fn lemma_first_none<E>(n: int, f: spec_fn(int) -> Option<E>)
    requires
        forall|i: int| 0 <= i < n ==> #[trigger] f(i) is None,
    ensures
        first_some(n, f) is None,
    decreases n,
{
    if n > 0 {
        lemma_first_none(n - 1, f);
    }
}

/// A check fails first where none before it does.
pub proof fn lemma_first_at<E>(n: int, f: spec_fn(int) -> Option<E>, k: int)
    requires
        0 <= k < n,
        forall|i: int| 0 <= i < k ==> #[trigger] f(i) is None,
        f(k) is Some,
    ensures
        first_some(n, f) == f(k),
    decreases n,
{
    if k == n - 1 {
        lemma_first_none(n - 1, f);
    } else {
        lemma_first_at(n - 1, f, k);
    }
}

/// The check that fails first.
pub proof fn lemma_first_found<E>(n: int, f: spec_fn(int) -> Option<E>) -> (k: int)
    requires
        first_some(n, f) is Some,
    ensures
        0 <= k < n,
        first_some(n, f) == f(k),
        f(k) is Some,
        forall|i: int| 0 <= i < k ==> #[trigger] f(i) is None,
    decreases n,
{
    if first_some(n - 1, f) is Some {
        lemma_first_found(n - 1, f)
    } else {
        assert forall|i: int| 0 <= i < n - 1 implies #[trigger] f(i) is None by {
            lemma_none_before(n - 1, f, i);
        }
        n - 1
    }
}

/// No check fails where none is found to fail.
pub proof fn lemma_none_before<E>(n: int, f: spec_fn(int) -> Option<E>, i: int)
    requires
        first_some(n, f) is None,
        0 <= i < n,
    ensures
        f(i) is None,
    decreases n,
{
    if i < n - 1 {
        lemma_none_before(n - 1, f, i);
    }
}

} // verus!
