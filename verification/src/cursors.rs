//! The cursors of a call's machines: one entry for each active machine, in the
//! order of their names.
use vstd::prelude::*;

use crate::call::{Cursor, CursorView};
use crate::lens::{cursor_named, cursor_not_named};
use crate::seqs::{
    find_among_kept, find_where, find_where_push, first_where_none, keep, keep_append, keep_push,
    keep_sound, keep_step, keep_whole, views,
};
use crate::text::{less, text_less, text_less_irreflexive, text_less_total, text_less_transitive};

verus! {

/// The machines whose names come before that one.
pub open spec fn cursor_below(machine: Seq<char>) -> spec_fn(CursorView) -> bool {
    |c: CursorView| text_less(c.machine, machine)
}

/// The machines whose names come behind that one.
pub open spec fn cursor_above(machine: Seq<char>) -> spec_fn(CursorView) -> bool {
    |c: CursorView| text_less(machine, c.machine)
}

/// The cursors with that one put in its place, and its machine's only one.
pub open spec fn put_cursor(s: Seq<CursorView>, x: CursorView) -> Seq<CursorView> {
    keep(s, cursor_below(x.machine)).push(x) + keep(s, cursor_above(x.machine))
}

/// Every machine has one cursor, and they are in the order of their names.
pub open spec fn in_order(s: Seq<CursorView>) -> bool {
    forall|i: int, j: int|
        0 <= i < j < s.len() ==> text_less((#[trigger] s[i]).machine, (#[trigger] s[j]).machine)
}

/// Put a cursor in its place.
pub fn insert_cursor(list: &Vec<Cursor>, x: Cursor) -> (r: Vec<Cursor>)
    ensures
        views(r@) == put_cursor(views(list@), x@),
{
    let ghost all = views(list@);
    let ghost lo = cursor_below(x@.machine);
    let ghost hi = cursor_above(x@.machine);
    let mut below: Vec<Cursor> = Vec::new();
    let mut above: Vec<Cursor> = Vec::new();
    assert(all.take(0).len() == 0);
    assert(views(below@) =~= Seq::<CursorView>::empty());
    assert(views(above@) =~= Seq::<CursorView>::empty());
    for i in 0..list.len()
        invariant
            all == views(list@),
            lo == cursor_below(x@.machine),
            hi == cursor_above(x@.machine),
            views(below@) == keep(all.take(i as int), lo),
            views(above@) == keep(all.take(i as int), hi),
    {
        proof {
            keep_step(all, lo, i as int);
            keep_step(all, hi, i as int);
            text_less_total(x@.machine, list@[i as int]@.machine);
            text_less_irreflexive(x@.machine);
        }
        assert(all[i as int] == list@[i as int]@);
        if less(list[i].machine.as_str(), x.machine.as_str()) {
            proof {
                if text_less(x@.machine, all[i as int].machine) {
                    text_less_transitive(x@.machine, all[i as int].machine, x@.machine);
                }
            }
            let ghost before = below@;
            below.push(list[i].clone());
            assert(views(below@) =~= views(before).push(all[i as int]));
        } else if less(x.machine.as_str(), list[i].machine.as_str()) {
            let ghost before = above@;
            above.push(list[i].clone());
            assert(views(above@) =~= views(before).push(all[i as int]));
        }
    }
    assert(all.take(list@.len() as int) =~= all);
    let ghost b = below@;
    let ghost xv = x@;
    below.push(x);
    assert(views(below@) =~= views(b).push(xv));
    let ghost c = below@;
    let ghost a = above@;
    below.append(&mut above);
    assert(below@ =~= c + a);
    assert(views(below@) =~= views(c) + views(a));
    below
}

// ── finding ─────────────────────────────────────────────────────────────
proof fn find_in_a_row(a: Seq<CursorView>, b: Seq<CursorView>, p: spec_fn(CursorView) -> bool)
    ensures
        find_where(a + b, p) == (match find_where(a, p) {
            Some(x) => Some(x),
            None => find_where(b, p),
        }),
    decreases b.len(),
{
    if b.len() == 0 {
        assert(a + b =~= a);
        first_where_none(b, p);
    } else {
        find_in_a_row(a, b.drop_last(), p);
        assert(a + b =~= (a + b.drop_last()).push(b.last()));
        assert(b =~= b.drop_last().push(b.last()));
        find_where_push(a + b.drop_last(), b.last(), p);
        find_where_push(b.drop_last(), b.last(), p);
    }
}

/// A cursor put is found, and every other machine's is found as before.
pub proof fn a_cursor_put_is_found(s: Seq<CursorView>, x: CursorView, other: Seq<char>)
    ensures
        find_where(put_cursor(s, x), cursor_named(x.machine)) == Some(x),
        other != x.machine ==> find_where(put_cursor(s, x), cursor_named(other)) == find_where(
            s,
            cursor_named(other),
        ),
{
    let lo = cursor_below(x.machine);
    let hi = cursor_above(x.machine);
    let a = keep(s, lo);
    let b = keep(s, hi);
    let own = cursor_named(x.machine);
    text_less_irreflexive(x.machine);
    keep_sound(s, lo);
    keep_sound(s, hi);
    first_where_none(a, own);
    find_where_push(a, x, own);
    find_in_a_row(a.push(x), b, own);
    if other != x.machine {
        let p = cursor_named(other);
        find_where_push(a, x, p);
        find_in_a_row(a.push(x), b, p);
        text_less_total(other, x.machine);
        if text_less(other, x.machine) {
            find_among_kept(s, lo, p);
            assert forall|i: int| 0 <= i < b.len() implies !p(#[trigger] b[i]) by {
                if b[i].machine == other {
                    text_less_transitive(other, x.machine, other);
                    text_less_irreflexive(other);
                }
            }
            first_where_none(b, p);
        } else {
            assert forall|i: int| 0 <= i < a.len() implies !p(#[trigger] a[i]) by {
                if a[i].machine == other {
                    text_less_transitive(other, x.machine, other);
                    text_less_irreflexive(other);
                }
            }
            first_where_none(a, p);
            find_among_kept(s, hi, p);
        }
    }
}

// ── order ───────────────────────────────────────────────────────────────
/// What is kept of cursors in order is in order.
pub proof fn kept_in_order(s: Seq<CursorView>, p: spec_fn(CursorView) -> bool)
    requires
        in_order(s),
    ensures
        in_order(keep(s, p)),
    decreases s.len(),
{
    if s.len() > 0 {
        let t = s.drop_last();
        assert(in_order(t)) by {
            assert forall|i: int, j: int| 0 <= i < j < t.len() implies text_less(
                (#[trigger] t[i]).machine,
                (#[trigger] t[j]).machine,
            ) by {
                assert(s[i] == t[i] && s[j] == t[j]);
            }
        }
        kept_in_order(t, p);
        keep_sound(t, p);
        let k = keep(t, p);
        if p(s.last()) {
            assert forall|i: int, j: int| 0 <= i < j < k.push(s.last()).len() implies text_less(
                (#[trigger] k.push(s.last())[i]).machine,
                (#[trigger] k.push(s.last())[j]).machine,
            ) by {
                if j == k.len() {
                    assert(t.contains(k[i]));
                    let m = choose|m: int| 0 <= m < t.len() && t[m] == k[i];
                    assert(s[m] == k[i]);
                    assert(s[s.len() - 1] == s.last());
                } else {
                    assert(text_less(k[i].machine, k[j].machine));
                }
            }
        }
    }
}

/// A cursor put among cursors in order leaves them in order.
pub proof fn put_in_order(s: Seq<CursorView>, x: CursorView)
    requires
        in_order(s),
    ensures
        in_order(put_cursor(s, x)),
{
    let lo = cursor_below(x.machine);
    let hi = cursor_above(x.machine);
    let a = keep(s, lo);
    let b = keep(s, hi);
    kept_in_order(s, lo);
    kept_in_order(s, hi);
    keep_sound(s, lo);
    keep_sound(s, hi);
    let r = put_cursor(s, x);
    assert forall|i: int, j: int| 0 <= i < j < r.len() implies text_less(
        (#[trigger] r[i]).machine,
        (#[trigger] r[j]).machine,
    ) by {
        if i < a.len() {
            assert(lo(a[i]));
            if j < a.len() {
                assert(r[i] == a[i] && r[j] == a[j]);
            } else if j > a.len() {
                assert(hi(b[j - a.len() - 1]));
                text_less_transitive(a[i].machine, x.machine, b[j - a.len() - 1].machine);
            }
        } else if i == a.len() {
            assert(hi(b[j - a.len() - 1]));
        } else {
            assert(r[i] == b[i - a.len() - 1] && r[j] == b[j - a.len() - 1]);
        }
    }
}

// ── putting again ───────────────────────────────────────────────────────
/// The cursor stands there, what comes before it is below it and what comes
/// behind it above.
pub open spec fn stands_at(s: Seq<CursorView>, x: CursorView, k: int) -> bool {
    &&& 0 <= k < s.len()
    &&& s[k] == x
    &&& forall|i: int| 0 <= i < k ==> cursor_below(x.machine)(#[trigger] s[i])
    &&& forall|i: int| k < i < s.len() ==> cursor_above(x.machine)(#[trigger] s[i])
}

/// The cursor stands in its place.
pub open spec fn stands(s: Seq<CursorView>, x: CursorView) -> bool {
    exists|k: int| stands_at(s, x, k)
}

pub proof fn a_cursor_put_stands(s: Seq<CursorView>, x: CursorView)
    ensures
        stands(put_cursor(s, x), x),
{
    keep_sound(s, cursor_below(x.machine));
    keep_sound(s, cursor_above(x.machine));
    assert(stands_at(put_cursor(s, x), x, keep(s, cursor_below(x.machine)).len() as int));
}

proof fn keep_none(s: Seq<CursorView>, p: spec_fn(CursorView) -> bool)
    requires
        forall|i: int| 0 <= i < s.len() ==> !p(#[trigger] s[i]),
    ensures
        keep(s, p) == Seq::<CursorView>::empty(),
    decreases s.len(),
{
    if s.len() > 0 {
        assert(!p(s[s.len() - 1]));
        assert forall|i: int| 0 <= i < s.drop_last().len() implies !p(
            #[trigger] s.drop_last()[i],
        ) by {
            assert(!p(s[i]));
        }
        keep_none(s.drop_last(), p);
    }
    assert(keep(s, p) =~= Seq::empty());
}

/// What is kept of cursors round one that is kept.
proof fn kept_round(
    s: Seq<CursorView>,
    x: CursorView,
    k: int,
    p: spec_fn(CursorView) -> bool,
)
    requires
        stands_at(s, x, k),
    ensures
        keep(s, p) == keep(s.take(k), p) + (if p(x) {
            seq![x]
        } else {
            Seq::empty()
        }) + keep(s.skip(k + 1), p),
{
    assert(s =~= s.take(k).push(x) + s.skip(k + 1));
    keep_append(s.take(k).push(x), s.skip(k + 1), p);
    keep_push(s.take(k), x, p);
    if p(x) {
        assert(keep(s.take(k), p).push(x) =~= keep(s.take(k), p) + seq![x]);
    } else {
        assert(keep(s.take(k), p) =~= keep(s.take(k), p) + Seq::empty());
    }
}

/// Putting a cursor where it stands changes nothing.
pub proof fn put_where_it_stands(s: Seq<CursorView>, x: CursorView)
    requires
        stands(s, x),
    ensures
        put_cursor(s, x) == s,
{
    let k = choose|k: int| stands_at(s, x, k);
    let lo = cursor_below(x.machine);
    let hi = cursor_above(x.machine);
    let a = s.take(k);
    let b = s.skip(k + 1);
    text_less_irreflexive(x.machine);
    assert forall|i: int| 0 <= i < a.len() implies lo(#[trigger] a[i]) && !hi(a[i]) by {
        assert(lo(s[i]));
        if hi(a[i]) {
            text_less_transitive(x.machine, a[i].machine, x.machine);
        }
    }
    assert forall|i: int| 0 <= i < b.len() implies hi(#[trigger] b[i]) && !lo(b[i]) by {
        assert(hi(s[k + 1 + i]));
        if lo(b[i]) {
            text_less_transitive(x.machine, b[i].machine, x.machine);
        }
    }
    kept_round(s, x, k, lo);
    kept_round(s, x, k, hi);
    keep_whole(a, lo);
    keep_whole(b, hi);
    keep_none(b, lo);
    keep_none(a, hi);
    assert(put_cursor(s, x) =~= s);
}

/// A cursor stays in its place when another machine's is put or taken off.
pub proof fn a_cursor_keeps_its_place(s: Seq<CursorView>, x: CursorView, y: CursorView)
    requires
        stands(s, x),
        y.machine != x.machine,
    ensures
        stands(put_cursor(s, y), x),
        stands(keep(s, cursor_not_named(y.machine)), x),
{
    let k = choose|k: int| stands_at(s, x, k);
    let a = s.take(k);
    let b = s.skip(k + 1);
    let below = cursor_below(x.machine);
    let above = cursor_above(x.machine);
    assert forall|i: int| 0 <= i < a.len() implies below(#[trigger] a[i]) by {
        assert(below(s[i]));
    }
    assert forall|i: int| 0 <= i < b.len() implies above(#[trigger] b[i]) by {
        assert(above(s[k + 1 + i]));
    }
    let q = cursor_not_named(y.machine);
    kept_round(s, x, k, q);
    all_kept(a, below, q);
    all_kept(b, above, q);
    assert(stands_at(keep(s, q), x, keep(a, q).len() as int));
    let lo = cursor_below(y.machine);
    let hi = cursor_above(y.machine);
    kept_round(s, x, k, lo);
    kept_round(s, x, k, hi);
    all_kept(a, below, lo);
    all_kept(a, below, hi);
    all_kept(b, above, lo);
    all_kept(b, above, hi);
    text_less_total(x.machine, y.machine);
    text_less_irreflexive(x.machine);
    if text_less(x.machine, y.machine) {
        assert(!hi(x)) by {
            if hi(x) {
                text_less_transitive(x.machine, y.machine, x.machine);
            }
        }
        assert forall|i: int| 0 <= i < a.len() implies !hi(#[trigger] a[i]) by {
            assert(below(a[i]));
            if hi(a[i]) {
                text_less_transitive(y.machine, a[i].machine, x.machine);
                text_less_transitive(x.machine, y.machine, x.machine);
            }
        }
        keep_none(a, hi);
        let r = put_cursor(s, y);
        let n = keep(a, lo).len() as int;
        assert(r =~= keep(a, lo) + seq![x] + (keep(b, lo).push(y) + keep(b, hi)));
        assert(stands_at(r, x, n));
    } else {
        assert(!lo(x)) by {
            if lo(x) {
                text_less_transitive(x.machine, y.machine, x.machine);
            }
        }
        assert forall|i: int| 0 <= i < b.len() implies !lo(#[trigger] b[i]) by {
            assert(above(b[i]));
            if lo(b[i]) {
                text_less_transitive(x.machine, b[i].machine, y.machine);
                text_less_transitive(x.machine, y.machine, x.machine);
            }
        }
        keep_none(b, lo);
        let r = put_cursor(s, y);
        let front = keep(a, lo).push(y) + keep(a, hi);
        assert(r =~= front + seq![x] + keep(b, hi));
        assert(stands_at(r, x, front.len() as int));
    }
}

proof fn all_kept(
    s: Seq<CursorView>,
    p: spec_fn(CursorView) -> bool,
    q: spec_fn(CursorView) -> bool,
)
    requires
        forall|i: int| 0 <= i < s.len() ==> p(#[trigger] s[i]),
    ensures
        forall|i: int| 0 <= i < keep(s, q).len() ==> p(#[trigger] keep(s, q)[i]),
{
    keep_sound(s, q);
    assert forall|i: int| 0 <= i < keep(s, q).len() implies p(#[trigger] keep(s, q)[i]) by {
        assert(s.contains(keep(s, q)[i]));
        let j = choose|j: int| 0 <= j < s.len() && s[j] == keep(s, q)[i];
        assert(p(s[j]));
    }
}

/// A machine without a cursor.
pub open spec fn absent(s: Seq<CursorView>, machine: Seq<char>) -> bool {
    forall|i: int| 0 <= i < s.len() ==> cursor_not_named(machine)(#[trigger] s[i])
}

/// A machine taken off stays off when another's cursor is put or taken off.
pub proof fn a_machine_stays_off(s: Seq<CursorView>, machine: Seq<char>, y: CursorView)
    requires
        absent(s, machine),
        y.machine != machine,
    ensures
        absent(put_cursor(s, y), machine),
        absent(keep(s, cursor_not_named(y.machine)), machine),
        keep(s, cursor_not_named(machine)) == s,
{
    let q = cursor_not_named(machine);
    all_kept(s, q, cursor_below(y.machine));
    all_kept(s, q, cursor_above(y.machine));
    all_kept(s, q, cursor_not_named(y.machine));
    keep_whole(s, q);
    let a = keep(s, cursor_below(y.machine));
    let b = keep(s, cursor_above(y.machine));
    assert forall|i: int| 0 <= i < put_cursor(s, y).len() implies q(
        #[trigger] put_cursor(s, y)[i],
    ) by {
        if i < a.len() {
            assert(q(a[i]));
        } else if i > a.len() {
            assert(q(b[i - a.len() - 1]));
        }
    }
}

} // verus!
