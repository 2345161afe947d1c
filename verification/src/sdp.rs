//! Session descriptions, as far as the rules compare them.
use vstd::prelude::*;

use crate::headers::{before, before_text, header, header_value};
use crate::seqs::{keep, keep_step, views};
use crate::text::{clone_bytes, eq_ignore_case, same_ignoring_case, trim, trim_text};
use crate::wire::{SipHeader, SipHeaderView};

verus! {

/// Whether a message carries a session description.
pub open spec fn is_sdp(hs: Seq<SipHeaderView>, body: Seq<u8>) -> bool {
    body.len() > 0 && (header_value(hs, "Content-Type"@) matches Some(t) && same_ignoring_case(
        trim_text(before_text(t, ';')),
        "application/sdp"@,
    ))
}

/// Whether a message carries a session description.
pub fn carries_sdp(hs: &Vec<SipHeader>, body: &Vec<u8>) -> (r: bool)
    ensures
        r == is_sdp(views(hs@), body@),
{
    if body.len() == 0 {
        return false;
    }
    match header(hs, "Content-Type") {
        Some(t) => {
            let kind = before(t.as_str(), ';');
            let bare = trim(kind.as_str());
            eq_ignore_case(bare.as_str(), "application/sdp")
        },
        None => false,
    }
}

/// A line without the carriage return that may end it.
pub open spec fn without_cr(l: Seq<u8>) -> Seq<u8> {
    if l.len() > 0 && l.last() == 13 {
        l.drop_last()
    } else {
        l
    }
}

/// The lines of a description, and what follows the last line feed.
pub open spec fn lines_and_rest(b: Seq<u8>) -> (Seq<Seq<u8>>, Seq<u8>)
    decreases b.len(),
{
    if b.len() == 0 {
        (Seq::empty(), Seq::empty())
    } else {
        let (ls, rest) = lines_and_rest(b.drop_last());
        if b.last() == 10 {
            (ls.push(without_cr(rest)), Seq::empty())
        } else {
            (ls, rest.push(b.last()))
        }
    }
}

/// A line that says something of the media: a connection, a stream or an
/// attribute.
pub open spec fn is_media_line() -> spec_fn(Seq<u8>) -> bool {
    |l: Seq<u8>| l.len() >= 2 && l[1] == 61 && (l[0] == 99 || l[0] == 109 || l[0] == 97)
}

/// What a description says of the media.
pub open spec fn media_lines(b: Seq<u8>) -> Seq<Seq<u8>> {
    let (ls, rest) = lines_and_rest(b);
    keep(
        if rest.len() > 0 {
            ls.push(without_cr(rest))
        } else {
            ls
        },
        is_media_line(),
    )
}

/// Two descriptions say the same of the media, whatever they say of the
/// session.
pub open spec fn media_equivalent(a: Seq<u8>, b: Seq<u8>) -> bool {
    media_lines(a) == media_lines(b)
}

fn strip_cr(l: &Vec<u8>) -> (r: Vec<u8>)
    ensures
        r@ == without_cr(l@),
{
    let n: usize = if l.len() > 0 && l[l.len() - 1] == 13 {
        l.len() - 1
    } else {
        l.len()
    };
    let mut out: Vec<u8> = Vec::new();
    for i in 0..n
        invariant
            n <= l@.len(),
            out@ == l@.take(i as int),
    {
        out.push(l[i]);
        assert(l@.take(i + 1) =~= l@.take(i as int).push(l@[i as int]));
    }
    assert(out@ =~= without_cr(l@));
    out
}

fn push_line(out: &mut Vec<Vec<u8>>, l: &Vec<u8>)
    ensures
        views(final(out)@) == views(old(out)@).push(without_cr(l@)),
{
    let ghost before = out@;
    let t = strip_cr(l);
    out.push(t);
    assert(views(out@) =~= views(before).push(t@));
}

fn lines_of(b: &Vec<u8>) -> (r: Vec<Vec<u8>>)
    ensures
        ({
            let (ls, rest) = lines_and_rest(b@);
            views(r@) == if rest.len() > 0 {
                ls.push(without_cr(rest))
            } else {
                ls
            }
        }),
{
    let mut out: Vec<Vec<u8>> = Vec::new();
    let mut rest: Vec<u8> = Vec::new();
    assert(b@.take(0).len() == 0);
    assert(views(out@) =~= Seq::<Seq<u8>>::empty());
    for i in 0..b.len()
        invariant
            (views(out@), rest@) == lines_and_rest(b@.take(i as int)),
    {
        assert(b@.take(i + 1).drop_last() =~= b@.take(i as int));
        assert(b@.take(i + 1).last() == b@[i as int]);
        if b[i] == 10 {
            push_line(&mut out, &rest);
            rest = Vec::new();
        } else {
            rest.push(b[i]);
        }
    }
    assert(b@.take(b@.len() as int) =~= b@);
    if rest.len() > 0 {
        push_line(&mut out, &rest);
    }
    out
}

fn media_lines_of(b: &Vec<u8>) -> (r: Vec<Vec<u8>>)
    ensures
        views(r@) == media_lines(b@),
{
    let all = lines_of(b);
    let ghost p = is_media_line();
    let mut out: Vec<Vec<u8>> = Vec::new();
    assert(views(all@).take(0).len() == 0);
    assert(views(out@) =~= Seq::<Seq<u8>>::empty());
    for i in 0..all.len()
        invariant
            p == is_media_line(),
            views(out@) == keep(views(all@).take(i as int), p),
    {
        proof {
            keep_step(views(all@), p, i as int);
        }
        assert(views(all@)[i as int] == all@[i as int]@);
        let l = &all[i];
        if l.len() >= 2 && l[1] == 61 && (l[0] == 99 || l[0] == 109 || l[0] == 97) {
            let ghost before = out@;
            let c = clone_bytes(l);
            out.push(c);
            assert(views(out@) =~= views(before).push(c@));
        }
    }
    assert(views(all@).take(all@.len() as int) =~= views(all@));
    out
}

fn same_bytes(a: &Vec<u8>, b: &Vec<u8>) -> (r: bool)
    ensures
        r == (a@ == b@),
{
    if a.len() != b.len() {
        return false;
    }
    for i in 0..a.len()
        invariant
            a@.len() == b@.len(),
            forall|j: int| 0 <= j < i ==> a@[j] == b@[j],
    {
        if a[i] != b[i] {
            return false;
        }
    }
    assert(a@ =~= b@);
    true
}

/// Whether two descriptions say the same of the media.
pub fn sdp_media_equivalent(a: &Vec<u8>, b: &Vec<u8>) -> (r: bool)
    ensures
        r == media_equivalent(a@, b@),
{
    let x = media_lines_of(a);
    let y = media_lines_of(b);
    assert(views(x@).len() == x@.len());
    assert(views(y@).len() == y@.len());
    if x.len() != y.len() {
        return false;
    }
    for i in 0..x.len()
        invariant
            x@.len() == y@.len(),
            views(x@) == media_lines(a@),
            views(y@) == media_lines(b@),
            forall|j: int| 0 <= j < i ==> (#[trigger] views(x@)[j]) == views(y@)[j],
    {
        assert(views(x@)[i as int] == x@[i as int]@);
        assert(views(y@)[i as int] == y@[i as int]@);
        if !same_bytes(&x[i], &y[i]) {
            return false;
        }
    }
    assert(views(x@) =~= views(y@));
    true
}

/// Equivalence of descriptions is one: a description is equivalent to itself,
/// and the relation is symmetric and transitive.
pub proof fn media_equivalence(a: Seq<u8>, b: Seq<u8>, c: Seq<u8>)
    ensures
        media_equivalent(a, a),
        media_equivalent(a, b) ==> media_equivalent(b, a),
        media_equivalent(a, b) && media_equivalent(b, c) ==> media_equivalent(a, c),
{
}

} // verus!
