//! Mathematical helpers on sequences: the view of a list, the first element
//! that satisfies a predicate, and the facts the executable loops need.
use vstd::prelude::*;

verus! {

/// The views of a list's items, in order.
pub open spec fn views<T: View>(s: Seq<T>) -> Seq<T::V> {
    s.map_values(|x: T| x@)
}

/// The view of an optional value.
pub open spec fn opt_view<T: View>(o: Option<T>) -> Option<T::V> {
    match o {
        Some(x) => Some(x@),
        None => None,
    }
}

/// The view of an optional list.
pub open spec fn opt_views<T: View>(o: Option<Vec<T>>) -> Option<Seq<T::V>> {
    match o {
        Some(v) => Some(views(v@)),
        None => None,
    }
}

/// `i` is the least index whose item satisfies `p`.
pub open spec fn is_first<A>(s: Seq<A>, p: spec_fn(A) -> bool, i: int) -> bool {
    &&& 0 <= i < s.len()
    &&& p(s[i])
    &&& forall|j: int| 0 <= j < i ==> !p(#[trigger] s[j])
}

/// The least index whose item satisfies `p`.
pub open spec fn first_where<A>(s: Seq<A>, p: spec_fn(A) -> bool) -> Option<int> {
    if exists|i: int| is_first(s, p, i) {
        Some(choose|i: int| is_first(s, p, i))
    } else {
        None
    }
}

/// The first item that satisfies `p`.
pub open spec fn find_where<A>(s: Seq<A>, p: spec_fn(A) -> bool) -> Option<A> {
    match first_where(s, p) {
        Some(i) => Some(s[i]),
        None => None,
    }
}

/// Some item satisfies `p`.
pub open spec fn any_where<A>(s: Seq<A>, p: spec_fn(A) -> bool) -> bool {
    exists|i: int| 0 <= i < s.len() && p(#[trigger] s[i])
}

pub proof fn first_where_is<A>(s: Seq<A>, p: spec_fn(A) -> bool, i: int)
    requires
        is_first(s, p, i),
    ensures
        first_where(s, p) == Some(i),
        any_where(s, p),
{
    let k = choose|i: int| is_first(s, p, i);
    assert(is_first(s, p, k));
    if k < i {
        assert(!p(s[k]));
    }
    if i < k {
        assert(!p(s[i]));
    }
    assert(p(s[i]));
}

pub proof fn first_where_none<A>(s: Seq<A>, p: spec_fn(A) -> bool)
    requires
        forall|j: int| 0 <= j < s.len() ==> !p(#[trigger] s[j]),
    ensures
        first_where(s, p) == None::<int>,
        !any_where(s, p),
{
    if exists|i: int| is_first(s, p, i) {
        let k = choose|i: int| is_first(s, p, i);
        assert(is_first(s, p, k));
        assert(!p(s[k]));
    }
}

/// What `first_where` answers, spelled out for a caller that knows the answer.
pub proof fn first_where_found<A>(s: Seq<A>, p: spec_fn(A) -> bool)
    ensures
        match first_where(s, p) {
            Some(i) => is_first(s, p, i),
            None => forall|j: int| 0 <= j < s.len() ==> !p(#[trigger] s[j]),
        },
{
    if exists|i: int| is_first(s, p, i) {
        let k = choose|i: int| is_first(s, p, i);
        assert(is_first(s, p, k));
    } else {
        if exists|j: int| 0 <= j < s.len() && p(#[trigger] s[j]) {
            let j = choose|j: int| 0 <= j < s.len() && p(#[trigger] s[j]);
            least_exists(s, p, j);
        }
    }
}

proof fn least_exists<A>(s: Seq<A>, p: spec_fn(A) -> bool, j: int)
    requires
        0 <= j < s.len(),
        p(s[j]),
    ensures
        exists|i: int| is_first(s, p, i),
    decreases j,
{
    if forall|k: int| 0 <= k < j ==> !p(#[trigger] s[k]) {
        assert(is_first(s, p, j));
    } else {
        let k = choose|k: int| 0 <= k < j && p(#[trigger] s[k]);
        least_exists(s, p, k);
    }
}

/// The items that satisfy `p`, in order.
pub open spec fn keep<A>(s: Seq<A>, p: spec_fn(A) -> bool) -> Seq<A>
    decreases s.len(),
{
    if s.len() == 0 {
        s
    } else {
        let r = keep(s.drop_last(), p);
        if p(s.last()) {
            r.push(s.last())
        } else {
            r
        }
    }
}

/// One more item: `keep` takes it or leaves it.
pub proof fn keep_step<A>(s: Seq<A>, p: spec_fn(A) -> bool, i: int)
    requires
        0 <= i < s.len(),
    ensures
        keep(s.take(i + 1), p) == (if p(s[i]) {
            keep(s.take(i), p).push(s[i])
        } else {
            keep(s.take(i), p)
        }),
{
    assert(s.take(i + 1).drop_last() =~= s.take(i));
    assert(s.take(i + 1).last() == s[i]);
}

/// Everything `keep` returns satisfies `p` and was there before.
pub proof fn keep_sound<A>(s: Seq<A>, p: spec_fn(A) -> bool)
    ensures
        forall|i: int| 0 <= i < keep(s, p).len() ==> p(#[trigger] keep(s, p)[i]),
        forall|i: int| 0 <= i < keep(s, p).len() ==> s.contains(#[trigger] keep(s, p)[i]),
        keep(s, p).len() <= s.len(),
    decreases s.len(),
{
    if s.len() > 0 {
        keep_sound(s.drop_last(), p);
        let r = keep(s.drop_last(), p);
        assert forall|i: int| 0 <= i < keep(s, p).len() implies s.contains(
            #[trigger] keep(s, p)[i],
        ) by {
            if i < r.len() {
                assert(s.drop_last().contains(r[i]));
                let k = choose|k: int| 0 <= k < s.drop_last().len() && s.drop_last()[k] == r[i];
                assert(s[k] == r[i]);
            } else {
                assert(s[s.len() - 1] == s.last());
            }
        }
    }
}

/// Everything that satisfies `p` is among what `keep` returns.
pub proof fn keep_complete<A>(s: Seq<A>, p: spec_fn(A) -> bool, i: int)
    requires
        0 <= i < s.len(),
        p(s[i]),
    ensures
        keep(s, p).contains(s[i]),
    decreases s.len(),
{
    let r = keep(s.drop_last(), p);
    if i < s.len() - 1 {
        keep_complete(s.drop_last(), p, i);
        let k = choose|k: int| 0 <= k < r.len() && r[k] == s[i];
        assert(keep(s, p)[k] == s[i]);
    } else {
        assert(keep(s, p)[r.len() as int] == s[i]);
    }
}

/// `keep` of one more item.
pub proof fn keep_push<A>(s: Seq<A>, x: A, p: spec_fn(A) -> bool)
    ensures
        keep(s.push(x), p) == (if p(x) {
            keep(s, p).push(x)
        } else {
            keep(s, p)
        }),
{
    assert(s.push(x).drop_last() =~= s);
}

/// What satisfies `p` throughout is kept whole.
pub proof fn keep_whole<A>(s: Seq<A>, p: spec_fn(A) -> bool)
    requires
        forall|i: int| 0 <= i < s.len() ==> p(#[trigger] s[i]),
    ensures
        keep(s, p) == s,
    decreases s.len(),
{
    if s.len() > 0 {
        assert(p(s[s.len() - 1]));
        assert forall|i: int| 0 <= i < s.drop_last().len() implies p(
            #[trigger] s.drop_last()[i],
        ) by {
            assert(p(s[i]));
        }
        keep_whole(s.drop_last(), p);
        assert(s.drop_last().push(s.last()) =~= s);
    } else {
        assert(keep(s, p) =~= s);
    }
}

/// A search over one more item.
pub proof fn find_where_push<A>(s: Seq<A>, x: A, p: spec_fn(A) -> bool)
    ensures
        find_where(s.push(x), p) == (match find_where(s, p) {
            Some(y) => Some(y),
            None => if p(x) {
                Some(x)
            } else {
                None
            },
        }),
{
    first_where_found(s, p);
    let t = s.push(x);
    match first_where(s, p) {
        Some(i) => {
            assert(is_first(t, p, i));
            first_where_is(t, p, i);
        },
        None => {
            if p(x) {
                assert(is_first(t, p, s.len() as int));
                first_where_is(t, p, s.len() as int);
            } else {
                first_where_none(t, p);
            }
        },
    }
}

/// A search for what is kept finds the same among what is kept.
pub proof fn find_among_kept<A>(s: Seq<A>, p: spec_fn(A) -> bool, q: spec_fn(A) -> bool)
    requires
        forall|x: A| #[trigger] q(x) ==> p(x),
    ensures
        find_where(keep(s, p), q) == find_where(s, q),
    decreases s.len(),
{
    if s.len() > 0 {
        let t = s.drop_last();
        find_among_kept(t, p, q);
        find_where_push(t, s.last(), q);
        assert(t.push(s.last()) =~= s);
        if p(s.last()) {
            find_where_push(keep(t, p), s.last(), q);
        } else {
            assert(!q(s.last()));
        }
    } else {
        assert(keep(s, p) =~= s);
    }
}

/// `keep` of a concatenation.
pub proof fn keep_append<A>(a: Seq<A>, b: Seq<A>, p: spec_fn(A) -> bool)
    ensures
        keep(a + b, p) == keep(a, p) + keep(b, p),
    decreases b.len(),
{
    if b.len() == 0 {
        assert(a + b =~= a);
        assert(keep(b, p) =~= b);
        assert(keep(a, p) + keep(b, p) =~= keep(a, p));
    } else {
        keep_append(a, b.drop_last(), p);
        assert(a + b =~= (a + b.drop_last()).push(b.last()));
        keep_push(a + b.drop_last(), b.last(), p);
        assert(keep(a + b, p) =~= keep(a, p) + keep(b, p));
    }
}

} // verus!
