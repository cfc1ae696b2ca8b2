//! The first and the last position in a sequence at which a predicate holds,
//! with the facts that the scanning loops of the library need.
use vstd::prelude::*;

verus! {

/// `i` is the first position of `s` at which `p` holds.
pub open spec fn is_first<A>(s: Seq<A>, p: spec_fn(A) -> bool, i: int) -> bool {
    &&& 0 <= i < s.len()
    &&& p(s[i])
    &&& forall|j: int| 0 <= j < i ==> !p(#[trigger] s[j])
}

/// The first position of `s` at which `p` holds, if there is one.
pub open spec fn first_index<A>(s: Seq<A>, p: spec_fn(A) -> bool) -> Option<int> {
    if exists|i: int| is_first(s, p, i) {
        Some(choose|i: int| is_first(s, p, i))
    } else {
        None
    }
}

/// `i` is the last position of `s` at which `p` holds.
pub open spec fn is_last<A>(s: Seq<A>, p: spec_fn(A) -> bool, i: int) -> bool {
    &&& 0 <= i < s.len()
    &&& p(s[i])
    &&& forall|j: int| i < j < s.len() ==> !p(#[trigger] s[j])
}

/// The last position of `s` at which `p` holds, if there is one.
pub open spec fn last_index<A>(s: Seq<A>, p: spec_fn(A) -> bool) -> Option<int> {
    if exists|i: int| is_last(s, p, i) {
        Some(choose|i: int| is_last(s, p, i))
    } else {
        None
    }
}

/// How many elements of `s` satisfy `p`.
pub open spec fn count_where<A>(s: Seq<A>, p: spec_fn(A) -> bool) -> nat
    decreases s.len(),
{
    if s.len() == 0 {
        0
    } else {
        count_where(s.drop_last(), p) + if p(s.last()) { 1nat } else { 0nat }
    }
}

pub proof fn lemma_first_is<A>(s: Seq<A>, p: spec_fn(A) -> bool, i: int)
    requires
        is_first(s, p, i),
    ensures
        first_index(s, p) == Some(i),
{
    let k = choose|k: int| is_first(s, p, k);
    assert(is_first(s, p, k));
    if k < i {
        assert(!p(s[k]));
    } else if k > i {
        assert(!p(s[i]));
    }
}

pub proof fn lemma_first_none<A>(s: Seq<A>, p: spec_fn(A) -> bool)
    requires
        forall|j: int| 0 <= j < s.len() ==> !p(#[trigger] s[j]),
    ensures
        first_index(s, p) is None,
{
    if exists|i: int| is_first(s, p, i) {
        let k = choose|k: int| is_first(s, p, k);
        assert(p(s[k]));
    }
}

proof fn lemma_no_first_at<A>(s: Seq<A>, p: spec_fn(A) -> bool, j: int)
    requires
        0 <= j < s.len(),
        !(exists|i: int| is_first(s, p, i)),
    ensures
        !p(s[j]),
    decreases j,
{
    assert forall|m: int| 0 <= m < j implies !p(#[trigger] s[m]) by {
        lemma_no_first_at(s, p, m);
    }
    if p(s[j]) {
        assert(is_first(s, p, j));
    }
}

pub proof fn lemma_first_facts<A>(s: Seq<A>, p: spec_fn(A) -> bool)
    ensures
        first_index(s, p) matches Some(i) ==> is_first(s, p, i),
        first_index(s, p) is None ==> forall|j: int| 0 <= j < s.len() ==> !p(#[trigger] s[j]),
{
    if first_index(s, p) is None {
        assert forall|j: int| 0 <= j < s.len() implies !p(#[trigger] s[j]) by {
            lemma_no_first_at(s, p, j);
        }
    }
}

proof fn lemma_no_last_at<A>(s: Seq<A>, p: spec_fn(A) -> bool, j: int)
    requires
        0 <= j < s.len(),
        !(exists|i: int| is_last(s, p, i)),
    ensures
        !p(s[j]),
    decreases s.len() - j,
{
    assert forall|m: int| j < m < s.len() implies !p(#[trigger] s[m]) by {
        lemma_no_last_at(s, p, m);
    }
    if p(s[j]) {
        assert(is_last(s, p, j));
    }
}

pub proof fn lemma_last_facts<A>(s: Seq<A>, p: spec_fn(A) -> bool)
    ensures
        last_index(s, p) matches Some(i) ==> is_last(s, p, i),
        last_index(s, p) is None ==> forall|j: int| 0 <= j < s.len() ==> !p(#[trigger] s[j]),
{
    if last_index(s, p) is None {
        assert forall|j: int| 0 <= j < s.len() implies !p(#[trigger] s[j]) by {
            lemma_no_last_at(s, p, j);
        }
    }
}

pub proof fn lemma_last_is<A>(s: Seq<A>, p: spec_fn(A) -> bool, i: int)
    requires
        is_last(s, p, i),
    ensures
        last_index(s, p) == Some(i),
{
    let k = choose|k: int| is_last(s, p, k);
    assert(is_last(s, p, k));
    if k < i {
        assert(!p(s[i]));
    } else if k > i {
        assert(!p(s[k]));
    }
}

pub proof fn lemma_last_none<A>(s: Seq<A>, p: spec_fn(A) -> bool)
    requires
        forall|j: int| 0 <= j < s.len() ==> !p(#[trigger] s[j]),
    ensures
        last_index(s, p) is None,
{
    if exists|i: int| is_last(s, p, i) {
        let k = choose|k: int| is_last(s, p, k);
        assert(p(s[k]));
    }
}

/// Extending a prefix by one element: the last position either moves to the new
/// element or stays where it was.
pub proof fn lemma_last_extend<A>(s: Seq<A>, p: spec_fn(A) -> bool, n: int)
    requires
        0 <= n < s.len(),
    ensures
        last_index(s.take(n + 1), p) == if p(s[n]) {
            Some(n)
        } else {
            last_index(s.take(n), p)
        },
{
    let t = s.take(n + 1);
    let u = s.take(n);
    if p(s[n]) {
        lemma_last_is(t, p, n);
    } else {
        match last_index(u, p) {
            Some(i) => {
                let k = choose|k: int| is_last(u, p, k);
                assert(is_last(u, p, k));
                assert(is_last(t, p, k)) by {
                    assert forall|j: int| k < j < t.len() implies !p(#[trigger] t[j]) by {
                        if j < n {
                            assert(t[j] == u[j]);
                        }
                    }
                }
                lemma_last_is(t, p, k);
            },
            None => {
                lemma_last_facts(u, p);
                assert forall|j: int| 0 <= j < t.len() implies !p(#[trigger] t[j]) by {
                    if j < n {
                        assert(t[j] == u[j]);
                    }
                }
                lemma_last_none(t, p);
            },
        }
    }
}

pub proof fn lemma_count_step<A>(s: Seq<A>, p: spec_fn(A) -> bool, n: int)
    requires
        0 <= n < s.len(),
    ensures
        count_where(s.take(n + 1), p) == count_where(s.take(n), p) + if p(s[n]) { 1nat } else { 0nat },
{
    assert(s.take(n + 1).drop_last() =~= s.take(n));
}

pub proof fn lemma_count_bound<A>(s: Seq<A>, p: spec_fn(A) -> bool)
    ensures
        count_where(s, p) <= s.len(),
    decreases s.len(),
{
    if s.len() > 0 {
        lemma_count_bound(s.drop_last(), p);
    }
}

/// `k` is the first number in `0..n` at which `p` holds.
pub open spec fn is_first_int(n: int, p: spec_fn(int) -> bool, k: int) -> bool {
    &&& 0 <= k < n
    &&& p(k)
    &&& forall|j: int| 0 <= j < k ==> !#[trigger] p(j)
}

/// The first number in `0..n` at which `p` holds, or `n` when there is none.
pub open spec fn first_int(n: int, p: spec_fn(int) -> bool) -> int {
    if exists|k: int| is_first_int(n, p, k) {
        choose|k: int| is_first_int(n, p, k)
    } else {
        n
    }
}

pub proof fn lemma_first_int_is(n: int, p: spec_fn(int) -> bool, k: int)
    requires
        is_first_int(n, p, k),
    ensures
        first_int(n, p) == k,
{
    let m = choose|m: int| is_first_int(n, p, m);
    assert(is_first_int(n, p, m));
    if m < k {
        assert(!p(m));
    } else if m > k {
        assert(!p(k));
    }
}

pub proof fn lemma_first_int_none(n: int, p: spec_fn(int) -> bool)
    requires
        forall|j: int| 0 <= j < n ==> !#[trigger] p(j),
    ensures
        first_int(n, p) == n,
{
    if exists|k: int| is_first_int(n, p, k) {
        let m = choose|m: int| is_first_int(n, p, m);
        assert(p(m));
    }
}

/// When `p` fails on `0..=i`, the first number at which it holds is past `i`.
pub proof fn lemma_first_int_past(n: int, p: spec_fn(int) -> bool, i: int)
    requires
        0 <= i < n,
        forall|k: int| 0 <= k <= i ==> !#[trigger] p(k),
    ensures
        first_int(n, p) > i,
{
    if exists|k: int| is_first_int(n, p, k) {
        let m = choose|m: int| is_first_int(n, p, m);
        assert(p(m));
    }
}

/// Two sequences of one length on whose elements two predicates agree,
/// position by position, have their first match at one position.
pub proof fn lemma_first_agree<A, B>(s: Seq<A>, t: Seq<B>, p: spec_fn(A) -> bool, q: spec_fn(B) -> bool)
    requires
        s.len() == t.len(),
        forall|i: int| 0 <= i < s.len() ==> #[trigger] p(s[i]) == q(t[i]),
    ensures
        first_index(s, p) == first_index(t, q),
{
    lemma_first_facts(s, p);
    match first_index(s, p) {
        Some(i) => {
            assert forall|j: int| 0 <= j < i implies !q(#[trigger] t[j]) by {
                assert(!p(s[j]));
            }
            assert(p(s[i]));
            lemma_first_is(t, q, i);
        },
        None => {
            assert forall|j: int| 0 <= j < t.len() implies !q(#[trigger] t[j]) by {
                assert(!p(s[j]));
            }
            lemma_first_none(t, q);
        },
    }
}

/// An element inserted that `p` rejects leaves the first match where it was,
/// shifted past the insertion.
pub proof fn lemma_first_insert<A>(s: Seq<A>, pos: int, x: A, p: spec_fn(A) -> bool)
    requires
        0 <= pos <= s.len(),
        !p(x),
    ensures
        first_index(s.insert(pos, x), p) == match first_index(s, p) {
            Some(i) => Some(if i < pos { i } else { i + 1 }),
            None => None::<int>,
        },
{
    let t = s.insert(pos, x);
    lemma_first_facts(s, p);
    match first_index(s, p) {
        Some(i) => {
            let k = if i < pos { i } else { i + 1 };
            assert(t[k] == s[i]);
            assert forall|j: int| 0 <= j < k implies !p(#[trigger] t[j]) by {
                if j < pos {
                    assert(t[j] == s[j]);
                } else if j > pos {
                    assert(t[j] == s[j - 1]);
                }
            }
            lemma_first_is(t, p, k);
        },
        None => {
            assert forall|j: int| 0 <= j < t.len() implies !p(#[trigger] t[j]) by {
                if j < pos {
                    assert(t[j] == s[j]);
                } else if j > pos {
                    assert(t[j] == s[j - 1]);
                }
            }
            lemma_first_none(t, p);
        },
    }
}

/// Two sequences on whose elements two predicates agree, position by position,
/// have as many matches.
pub proof fn lemma_count_agree<A, B>(s: Seq<A>, t: Seq<B>, p: spec_fn(A) -> bool, q: spec_fn(B) -> bool)
    requires
        s.len() == t.len(),
        forall|i: int| 0 <= i < s.len() ==> #[trigger] p(s[i]) == q(t[i]),
    ensures
        count_where(s, p) == count_where(t, q),
    decreases s.len(),
{
    if s.len() > 0 {
        assert forall|i: int| 0 <= i < s.drop_last().len() implies #[trigger] p(s.drop_last()[i]) == q(
            t.drop_last()[i],
        ) by {
            assert(p(s[i]) == q(t[i]));
        }
        lemma_count_agree(s.drop_last(), t.drop_last(), p, q);
        assert(p(s[s.len() - 1]) == q(t[t.len() - 1]));
    }
}

/// How many elements satisfy `p` once one more is inserted.
pub proof fn lemma_count_insert<A>(s: Seq<A>, pos: int, x: A, p: spec_fn(A) -> bool)
    requires
        0 <= pos <= s.len(),
    ensures
        count_where(s.insert(pos, x), p) == count_where(s, p) + if p(x) { 1nat } else { 0nat },
    decreases s.len(),
{
    let t = s.insert(pos, x);
    if pos == s.len() {
        assert(t.drop_last() =~= s);
    } else {
        assert(t.drop_last() =~= s.drop_last().insert(pos, x));
        lemma_count_insert(s.drop_last(), pos, x, p);
    }
}

} // verus!
