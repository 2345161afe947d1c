//! Sequences in order, without repetition: what a set of a sorted kind lists.
use vstd::prelude::*;

use crate::seqs::views;
use crate::text::{less, text_less, text_less_irreflexive, text_less_total, text_less_transitive};

verus! {

/// An item put in its place among sorted ones; one that is there already is not
/// put again.
pub open spec fn put_sorted<A>(s: Seq<A>, x: A, before: spec_fn(A, A) -> bool) -> Seq<A>
    decreases s.len(),
{
    if s.len() == 0 {
        seq![x]
    } else if s.last() == x {
        s
    } else if before(s.last(), x) {
        s.push(x)
    } else {
        put_sorted(s.drop_last(), x, before).push(s.last())
    }
}

/// The items of a sequence, each once, in order.
pub open spec fn sorted_set<A>(s: Seq<A>, before: spec_fn(A, A) -> bool) -> Seq<A>
    decreases s.len(),
{
    if s.len() == 0 {
        s
    } else {
        put_sorted(sorted_set(s.drop_last(), before), s.last(), before)
    }
}

/// Where an item goes: behind the last one that is before it or is it.
pub proof fn put_sorted_at<A>(s: Seq<A>, x: A, before: spec_fn(A, A) -> bool, k: int)
    requires
        0 <= k <= s.len(),
        forall|j: int| k <= j < s.len() ==> #[trigger] s[j] != x && !before(s[j], x),
        k == 0 || s[k - 1] == x || before(s[k - 1], x),
    ensures
        put_sorted(s, x, before) == (if k > 0 && s[k - 1] == x {
            s
        } else {
            s.take(k).push(x) + s.skip(k)
        }),
    decreases s.len(),
{
    if k == s.len() {
        assert(s.take(k).push(x) + s.skip(k) =~= s.push(x));
        assert(s.len() == 0 ==> s.push(x) =~= seq![x]);
    } else {
        let t = s.drop_last();
        assert(s.last() == s[s.len() - 1]);
        assert forall|j: int| k <= j < t.len() implies #[trigger] t[j] != x && !before(t[j], x) by {
            assert(s[j] != x);
        }
        put_sorted_at(t, x, before, k);
        assert(t.take(k) =~= s.take(k));
        assert(t.skip(k).push(s.last()) =~= s.skip(k));
        assert(t.push(s.last()) =~= s);
        assert((t.take(k).push(x) + t.skip(k)).push(s.last()) =~= s.take(k).push(x) + s.skip(k));
    }
}

/// A strict order in which any two items stand.
pub open spec fn strict_order<A>(before: spec_fn(A, A) -> bool) -> bool {
    &&& forall|a: A| !(#[trigger] before(a, a))
    &&& forall|a: A, b: A, c: A| #[trigger] before(a, b) && #[trigger] before(b, c) ==> before(a, c)
    &&& forall|a: A, b: A| #[trigger] before(a, b) || before(b, a) || a == b
}

/// Each item is before those that follow it, so that none is there twice.
pub open spec fn ascending<A>(s: Seq<A>, before: spec_fn(A, A) -> bool) -> bool {
    forall|i: int, j: int| 0 <= i < j < s.len() ==> before(#[trigger] s[i], #[trigger] s[j])
}

proof fn put_sorted_ascends<A>(s: Seq<A>, x: A, before: spec_fn(A, A) -> bool)
    requires
        strict_order(before),
        ascending(s, before),
    ensures
        ascending(put_sorted(s, x, before), before),
        forall|y: A|
            #![trigger put_sorted(s, x, before).contains(y)]
            put_sorted(s, x, before).contains(y) <==> y == x || s.contains(y),
    decreases s.len(),
{
    let r = put_sorted(s, x, before);
    if s.len() == 0 {
        assert(r[0] == x);
    } else if s.last() == x {
        assert(s[s.len() - 1] == x);
    } else if before(s.last(), x) {
        let n = s.len() as int;
        assert forall|i: int, j: int| 0 <= i < j < r.len() implies before(
            #[trigger] r[i],
            #[trigger] r[j],
        ) by {
            if j == n {
                if i < n - 1 {
                    assert(before(s[i], s[n - 1]));
                }
                assert(s[n - 1] == s.last());
                assert(r[i] == s[i]);
            } else {
                assert(before(s[i], s[j]));
            }
        }
        assert forall|y: A| #![
            trigger r.contains(y),
        ] r.contains(y) <==> y == x || s.contains(y) by {
            if s.contains(y) {
                let k = choose|k: int| 0 <= k < s.len() && s[k] == y;
                assert(r[k] == y);
            }
            assert(r[n] == x);
            if r.contains(y) {
                let k = choose|k: int| 0 <= k < r.len() && r[k] == y;
                if k < n {
                    assert(s[k] == y);
                }
            }
        }
    } else {
        let t = s.drop_last();
        let n = s.len() as int;
        assert(s[n - 1] == s.last());
        assert(before(x, s.last()) || before(s.last(), x) || x == s.last());
        assert(ascending(t, before)) by {
            assert forall|i: int, j: int| 0 <= i < j < t.len() implies before(
                #[trigger] t[i],
                #[trigger] t[j],
            ) by {
                assert(before(s[i], s[j]));
            }
        }
        put_sorted_ascends(t, x, before);
        let u = put_sorted(t, x, before);
        assert forall|i: int| 0 <= i < u.len() implies before(#[trigger] u[i], s.last()) by {
            assert(u.contains(u[i]));
            if u[i] != x {
                let k = choose|k: int| 0 <= k < t.len() && t[k] == u[i];
                assert(before(s[k], s[n - 1]));
            }
        }
        assert forall|i: int, j: int| 0 <= i < j < r.len() implies before(
            #[trigger] r[i],
            #[trigger] r[j],
        ) by {
            if j < u.len() {
                assert(before(u[i], u[j]));
            } else {
                assert(r[i] == u[i]);
            }
        }
        assert forall|y: A| #![
            trigger r.contains(y),
        ] r.contains(y) <==> y == x || s.contains(y) by {
            if s.contains(y) {
                let k = choose|k: int| 0 <= k < s.len() && s[k] == y;
                if k < n - 1 {
                    assert(t[k] == y);
                    assert(u.contains(y));
                    let l = choose|l: int| 0 <= l < u.len() && u[l] == y;
                    assert(r[l] == y);
                } else {
                    assert(r[u.len() as int] == y);
                }
            }
            if y == x {
                assert(u.contains(x));
                let l = choose|l: int| 0 <= l < u.len() && u[l] == x;
                assert(r[l] == x);
            }
            if r.contains(y) {
                let l = choose|l: int| 0 <= l < r.len() && r[l] == y;
                if l < u.len() {
                    assert(u.contains(y));
                    if y != x {
                        let k = choose|k: int| 0 <= k < t.len() && t[k] == y;
                        assert(s[k] == y);
                    }
                } else {
                    assert(s[n - 1] == y);
                }
            }
        }
    }
}

/// A sorted set holds exactly the items of the sequence, each once, in order.
pub proof fn sorted_set_is_sorted<A>(s: Seq<A>, before: spec_fn(A, A) -> bool)
    requires
        strict_order(before),
    ensures
        ascending(sorted_set(s, before), before),
        forall|y: A|
            #![trigger sorted_set(s, before).contains(y)]
            sorted_set(s, before).contains(y) <==> s.contains(y),
    decreases s.len(),
{
    if s.len() > 0 {
        let t = s.drop_last();
        sorted_set_is_sorted(t, before);
        put_sorted_ascends(sorted_set(t, before), s.last(), before);
        assert forall|y: A| #![trigger sorted_set(s, before).contains(y)]
            sorted_set(s, before).contains(y) <==> s.contains(y) by {
            if s.contains(y) {
                let k = choose|k: int| 0 <= k < s.len() && s[k] == y;
                if k < s.len() - 1 {
                    assert(t[k] == y);
                }
            }
            if t.contains(y) {
                let k = choose|k: int| 0 <= k < t.len() && t[k] == y;
                assert(s[k] == y);
            }
            assert(s[s.len() - 1] == s.last());
        }
    }
}

// ── texts ───────────────────────────────────────────────────────────────
pub open spec fn text_before() -> spec_fn(Seq<char>, Seq<char>) -> bool {
    |a: Seq<char>, b: Seq<char>| text_less(a, b)
}

/// Texts stand in a strict order.
pub proof fn texts_are_ordered()
    ensures
        strict_order(text_before()),
{
    let f = text_before();
    assert forall|a: Seq<char>| !(#[trigger] f(a, a)) by {
        text_less_irreflexive(a);
    }
    assert forall|a: Seq<char>, b: Seq<char>, c: Seq<char>|
        #[trigger] f(a, b) && #[trigger] f(b, c) implies f(a, c) by {
        text_less_transitive(a, b, c);
    }
    assert forall|a: Seq<char>, b: Seq<char>| #[trigger] f(a, b) || f(b, a) || a == b by {
        text_less_total(a, b);
    }
}

fn put_text(out: &mut Vec<String>, x: &String)
    ensures
        views(final(out)@) == put_sorted(views(old(out)@), x@, text_before()),
{
    let ghost s = views(out@);
    let ghost f = text_before();
    let mut k: usize = out.len();
    while k > 0 && out[k - 1] != *x && !less(out[k - 1].as_str(), x.as_str())
        invariant
            0 <= k <= out@.len(),
            s == views(out@),
            f == text_before(),
            forall|j: int| k <= j < s.len() ==> #[trigger] s[j] != x@ && !f(s[j], x@),
        decreases k,
    {
        assert(s[k - 1] == out@[k - 1]@);
        k -= 1;
    }
    proof {
        if k > 0 {
            assert(s[k - 1] == out@[k - 1]@);
        }
        put_sorted_at(s, x@, f, k as int);
    }
    if k > 0 && out[k - 1] == *x {
        return;
    }
    out.insert(k, x.clone());
    assert(views(out@) =~= s.take(k as int).push(x@) + s.skip(k as int));
}

/// Texts, each once, in order.
pub fn sort_texts(list: &Vec<String>) -> (r: Vec<String>)
    ensures
        views(r@) == sorted_set(views(list@), text_before()),
{
    let ghost all = views(list@);
    let mut out: Vec<String> = Vec::new();
    assert(all.take(0).len() == 0);
    assert(views(out@) =~= sorted_set(all.take(0), text_before()));
    for i in 0..list.len()
        invariant
            all == views(list@),
            views(out@) == sorted_set(all.take(i as int), text_before()),
    {
        assert(all.take(i + 1).drop_last() =~= all.take(i as int));
        assert(all.take(i + 1).last() == list@[i as int]@);
        put_text(&mut out, &list[i]);
    }
    assert(all.take(list@.len() as int) =~= all);
    out
}

} // verus!
