//! Reliable provisionals: the numbers this stack shows them under, what their
//! acknowledgements name, and which ladders a scope covers.
use vstd::prelude::*;

use crate::books::{find_shown, shown_as, Scope, ScopeView};
use crate::call::{
    Call, CallView, Dialog, DialogView, Emission, EmissionView, Leg, LegView, Obligation,
    ObligationView, PendingRequestView, PrackedProvisional, PrackedProvisionalView,
    ReliableProvisional, ReliableProvisionalView, Unacked2xx, Unacked2xxView,
};
use crate::headers::{reliable_rseq, rseq_of};
use crate::lens::{clamp, clamped_add, find_leg};
use crate::routes::RAckTokens;
use crate::seqs::{
    any_where, find_where, find_where_push, first_where, first_where_found, first_where_is,
    first_where_none, keep, keep_step, opt_view, views,
};
use crate::wire::{Method, MethodView, SipResponse, SipResponseView};

verus! {

// ── which face a tag was shown on ───────────────────────────────────────
pub open spec fn dialog_as(tag: Seq<char>) -> spec_fn(DialogView) -> bool {
    |d: DialogView| d.sip.local_tag == tag
}

pub open spec fn leg_as(tag: Seq<char>) -> spec_fn(LegView) -> bool {
    |l: LegView| any_where(l.dialogs, dialog_as(tag))
}

/// The leg on which this stack goes by `tag`.
pub open spec fn shown_on(c: CallView, tag: Seq<char>) -> Option<Seq<char>> {
    if leg_as(tag)(c.a_leg) {
        Some(c.a_leg.leg_id)
    } else {
        match find_where(c.b_legs, leg_as(tag)) {
            Some(l) => Some(l.leg_id),
            None => None,
        }
    }
}

/// The leg that was shown `tag`: one whose dialog goes by it, else the caller's.
pub open spec fn face_of(c: CallView, tag: Seq<char>) -> Seq<char> {
    match shown_on(c, tag) {
        Some(id) => id,
        None => c.a_leg.leg_id,
    }
}

fn goes_by(l: &Leg, tag: &String) -> (r: bool)
    ensures
        r == leg_as(tag@)(l@),
{
    let ghost p = dialog_as(tag@);
    for i in 0..l.dialogs.len()
        invariant
            p == dialog_as(tag@),
            forall|j: int| 0 <= j < i ==> !p(#[trigger] l@.dialogs[j]),
    {
        assert(l@.dialogs[i as int] == l.dialogs@[i as int]@);
        if l.dialogs[i].sip.local_tag == *tag {
            assert(p(l@.dialogs[i as int]));
            return true;
        }
    }
    false
}

/// The leg on which this stack goes by `tag`.
pub fn leg_shown(call: &Call, tag: &String) -> (r: Option<String>)
    ensures
        opt_view(r) == shown_on(call@, tag@),
{
    if goes_by(&call.a_leg, tag) {
        return Some(call.a_leg.leg_id.clone());
    }
    let ghost p = leg_as(tag@);
    for i in 0..call.b_legs.len()
        invariant
            p == leg_as(tag@),
            !p(call@.a_leg),
            forall|j: int| 0 <= j < i ==> !p(#[trigger] call@.b_legs[j]),
    {
        assert(call@.b_legs[i as int] == call.b_legs@[i as int]@);
        if goes_by(&call.b_legs[i], tag) {
            proof {
                first_where_is(call@.b_legs, p, i as int);
            }
            return Some(call.b_legs[i].leg_id.clone());
        }
    }
    proof {
        first_where_none(call@.b_legs, p);
    }
    None
}

/// The leg that was shown `tag`.
pub fn face_shown(call: &Call, tag: &String) -> (r: String)
    ensures
        r@ == face_of(call@, tag@),
{
    match leg_shown(call, tag) {
        Some(id) => id,
        None => call.a_leg.leg_id.clone(),
    }
}

// ── which ladders a scope covers ────────────────────────────────────────
/// The ACKs a leg owes.
pub open spec fn leg_acks(l: LegView) -> Seq<ObligationView> {
    if l.dialogs.len() == 0 {
        Seq::empty()
    } else {
        ack_of(l.leg_id, l.dialogs[0].ext.answered_2xx) + ack_of(
            l.leg_id,
            l.dialogs[0].ext.pending_reinvite_2xx,
        )
    }
}

pub open spec fn ack_of(leg: Seq<char>, u: Option<Unacked2xxView>) -> Seq<ObligationView> {
    match u {
        Some(u) => seq![
            ObligationView::AckOf2xx { leg, dialog_tag: u.dialog_tag, cseq: u.cseq },
        ],
        None => Seq::empty(),
    }
}

/// Whether a scope takes in the ACKs a leg owes.
pub open spec fn scope_has_leg(s: ScopeView, leg_id: Seq<char>) -> bool {
    match s {
        ScopeView::Call => true,
        ScopeView::Leg { leg_id: id } => id == leg_id,
        _ => false,
    }
}

/// The ACKs in scope that the first `n` of `legs` owe.
pub open spec fn acks_in(s: ScopeView, legs: Seq<LegView>) -> Seq<ObligationView>
    decreases legs.len(),
{
    if legs.len() == 0 {
        Seq::empty()
    } else {
        acks_in(s, legs.drop_last()) + if scope_has_leg(s, legs.last().leg_id) {
            leg_acks(legs.last())
        } else {
            Seq::empty()
        }
    }
}

/// Whether a scope takes in a reliable provisional.
pub open spec fn scope_has_prack(c: CallView, s: ScopeView) -> spec_fn(
    ReliableProvisionalView,
) -> bool {
    |r: ReliableProvisionalView|
        match s {
            ScopeView::Call => true,
            ScopeView::Leg { leg_id } => r.b_leg_id == leg_id,
            ScopeView::Provisionals => face_of(c, r.a_tag) == c.a_leg.leg_id,
            ScopeView::Transaction { leg_id, cseq } => r.b_leg_id == leg_id && r.b_cseq == cseq,
            ScopeView::One { .. } => false,
        }
}

pub open spec fn prack_of() -> spec_fn(ReliableProvisionalView) -> ObligationView {
    |r: ReliableProvisionalView| ObligationView::PrackOf { a_tag: r.a_tag, a_rseq: r.a_rseq }
}

/// The obligations a scope covers, as the books know them.
pub open spec fn obligations(c: CallView, s: ScopeView) -> Seq<ObligationView> {
    match s {
        ScopeView::One { obligation } => seq![obligation],
        _ => acks_in(s, c.legs()) + keep(c.reliable_provisionals, scope_has_prack(c, s)).map_values(
            prack_of(),
        ),
    }
}

fn push_ack(out: &mut Vec<Obligation>, leg: &String, u: &Option<Unacked2xx>)
    ensures
        views(final(out)@) == views(old(out)@) + ack_of(leg@, opt_view(*u)),
{
    let ghost before = out@;
    if let Some(u) = u {
        let o = Obligation::AckOf2xx {
            leg: leg.clone(),
            dialog_tag: u.dialog_tag.clone(),
            cseq: u.cseq,
        };
        out.push(o);
        assert(views(out@) =~= views(before).push(o@));
        assert(views(out@) =~= views(before) + ack_of(leg@, Some(u@)));
    } else {
        assert(views(out@) =~= views(before) + ack_of(leg@, None));
    }
}

fn push_leg_acks(out: &mut Vec<Obligation>, l: &Leg)
    ensures
        views(final(out)@) == views(old(out)@) + leg_acks(l@),
{
    let ghost before = views(out@);
    if l.dialogs.len() > 0 {
        assert(l@.dialogs[0] == l.dialogs@[0]@);
        push_ack(out, &l.leg_id, &l.dialogs[0].ext.answered_2xx);
        push_ack(out, &l.leg_id, &l.dialogs[0].ext.pending_reinvite_2xx);
    }
    assert(views(out@) =~= before + leg_acks(l@));
}

fn covers_leg(s: &Scope, leg_id: &String) -> (r: bool)
    ensures
        r == scope_has_leg(s@, leg_id@),
{
    match s {
        Scope::Call => true,
        Scope::Leg { leg_id: id } => *id == *leg_id,
        _ => false,
    }
}

fn covers_prack(call: &Call, s: &Scope, r: &ReliableProvisional) -> (b: bool)
    ensures
        b == scope_has_prack(call@, s@)(r@),
{
    match s {
        Scope::Call => true,
        Scope::Leg { leg_id } => r.b_leg_id == *leg_id,
        Scope::Provisionals => face_shown(call, &r.a_tag) == call.a_leg.leg_id,
        Scope::Transaction { leg_id, cseq } => r.b_leg_id == *leg_id && r.b_cseq == *cseq,
        Scope::One { .. } => false,
    }
}

/// List the obligations a scope covers.
pub fn obligations_in(call: &Call, s: &Scope) -> (r: Vec<Obligation>)
    ensures
        views(r@) == obligations(call@, s@),
{
    let mut out: Vec<Obligation> = Vec::new();
    if let Scope::One { obligation } = s {
        out.push(obligation.clone());
        assert(views(out@) =~= obligations(call@, s@));
        return out;
    }
    let ghost legs = call@.legs();
    assert(legs.take(0).len() == 0);
    assert(views(out@) =~= acks_in(s@, legs.take(0)));
    assert(legs.take(1).drop_last() =~= legs.take(0));
    assert(legs.take(1).last() == call@.a_leg);
    if covers_leg(s, &call.a_leg.leg_id) {
        push_leg_acks(&mut out, &call.a_leg);
    }
    assert(views(out@) =~= acks_in(s@, legs.take(1)));
    for i in 0..call.b_legs.len()
        invariant
            legs == call@.legs(),
            views(out@) == acks_in(s@, legs.take(i + 1)),
    {
        assert(legs.take(i + 2).drop_last() =~= legs.take(i + 1));
        assert(legs.take(i + 2).last() == call.b_legs@[i as int]@);
        if covers_leg(s, &call.b_legs[i].leg_id) {
            push_leg_acks(&mut out, &call.b_legs[i]);
        }
        assert(views(out@) =~= acks_in(s@, legs.take(i + 2)));
    }
    assert(legs.take((call.b_legs@.len() + 1) as int) =~= legs);
    let ghost acks = views(out@);
    let ghost rs = call@.reliable_provisionals;
    let ghost p = scope_has_prack(call@, s@);
    assert(rs.take(0).len() == 0);
    assert(views(out@) =~= acks + keep(rs.take(0), p).map_values(prack_of()));
    for i in 0..call.reliable_provisionals.len()
        invariant
            rs == call@.reliable_provisionals,
            p == scope_has_prack(call@, s@),
            views(out@) == acks + keep(rs.take(i as int), p).map_values(prack_of()),
    {
        proof {
            keep_step(rs, p, i as int);
        }
        assert(rs[i as int] == call.reliable_provisionals@[i as int]@);
        if covers_prack(call, s, &call.reliable_provisionals[i]) {
            let ghost before = out@;
            let o = Obligation::PrackOf {
                a_tag: call.reliable_provisionals[i].a_tag.clone(),
                a_rseq: call.reliable_provisionals[i].a_rseq,
            };
            out.push(o);
            assert(views(out@) =~= views(before).push(o@));
            assert(acks + keep(rs.take(i + 1), p).map_values(prack_of()) =~= (acks + keep(
                rs.take(i as int),
                p,
            ).map_values(prack_of())).push(o@));
        }
    }
    assert(rs.take(call.reliable_provisionals@.len() as int) =~= rs);
    out
}

// ── the numbers ─────────────────────────────────────────────────────────
pub open spec fn under_tag(a_tag: Seq<char>) -> spec_fn(ReliableProvisionalView) -> bool {
    |r: ReliableProvisionalView| r.a_tag == a_tag
}

/// No reliable provisional was shown under `tag` yet.
pub open spec fn starts_ladder(c: CallView, tag: Seq<char>) -> bool {
    !any_where(c.reliable_provisionals, under_tag(tag))
}

/// Whether no reliable provisional was shown under `tag` yet.
pub fn starts_reliable_ladder(call: &Call, tag: &String) -> (r: bool)
    ensures
        r == starts_ladder(call@, tag@),
{
    let ghost p = under_tag(tag@);
    for i in 0..call.reliable_provisionals.len()
        invariant
            p == under_tag(tag@),
            forall|j: int| 0 <= j < i ==> !p(#[trigger] call@.reliable_provisionals[j]),
    {
        assert(call@.reliable_provisionals[i as int] == call.reliable_provisionals@[i as int]@);
        if call.reliable_provisionals[i].a_tag == *tag {
            assert(p(call@.reliable_provisionals[i as int]));
            return false;
        }
    }
    true
}

/// The reliable provisional a responder raised.
pub open spec fn raised_as(
    b_leg_id: Seq<char>,
    b_tag: Seq<char>,
    b_cseq: i64,
    b_rseq: i64,
) -> spec_fn(ReliableProvisionalView) -> bool {
    |r: ReliableProvisionalView|
        r.b_leg_id == b_leg_id && r.b_tag == b_tag && r.b_cseq == b_cseq && r.b_rseq == b_rseq
}

pub open spec fn raised_under(
    a_tag: Seq<char>,
    b_leg_id: Seq<char>,
    b_tag: Seq<char>,
    b_cseq: i64,
    b_rseq: i64,
) -> spec_fn(ReliableProvisionalView) -> bool {
    |r: ReliableProvisionalView|
        r.a_tag == a_tag && r.b_leg_id == b_leg_id && r.b_tag == b_tag && r.b_cseq == b_cseq
            && r.b_rseq == b_rseq
}

/// The highest number shown under `tag`, `floor` when none is higher.
pub open spec fn highest(rs: Seq<ReliableProvisionalView>, tag: Seq<char>, floor: i64) -> i64
    decreases rs.len(),
{
    if rs.len() == 0 {
        floor
    } else {
        let h = highest(rs.drop_last(), tag, floor);
        if rs.last().a_tag == tag && rs.last().a_rseq > h {
            rs.last().a_rseq
        } else {
            h
        }
    }
}

/// The number a reliable provisional is shown under: the one it already has;
/// else `initial` for the first under its tag, the next higher one after that.
pub open spec fn assigned(
    c: CallView,
    raised: ReliableProvisionalView,
    initial: i64,
) -> (CallView, i64) {
    match find_where(
        c.reliable_provisionals,
        raised_under(raised.a_tag, raised.b_leg_id, raised.b_tag, raised.b_cseq, raised.b_rseq),
    ) {
        Some(r) => (c, r.a_rseq),
        None => {
            let n = if starts_ladder(c, raised.a_tag) {
                initial
            } else {
                clamp(highest(c.reliable_provisionals, raised.a_tag, i64::MIN) + 1)
            };
            (
                CallView {
                    reliable_provisionals: c.reliable_provisionals.push(
                        ReliableProvisionalView { a_rseq: n, ..raised },
                    ),
                    ..c
                },
                n,
            )
        },
    }
}

/// Give a relayed reliable provisional its number. The number of `raised` is
/// replaced by the one assigned.
pub fn assign_a_rseq(call: &mut Call, raised: ReliableProvisional, initial: i64) -> (r: i64)
    ensures
        (final(call)@, r) == assigned(old(call)@, raised@, initial),
{
    let ghost rs = call@.reliable_provisionals;
    let ghost p = raised_under(
        raised@.a_tag,
        raised@.b_leg_id,
        raised@.b_tag,
        raised@.b_cseq,
        raised@.b_rseq,
    );
    let ghost c0 = call@;
    let mut high: i64 = i64::MIN;
    assert(rs.take(0).len() == 0);
    for i in 0..call.reliable_provisionals.len()
        invariant
            c0 == call@,
            rs == call@.reliable_provisionals,
            p == raised_under(
                raised@.a_tag,
                raised@.b_leg_id,
                raised@.b_tag,
                raised@.b_cseq,
                raised@.b_rseq,
            ),
            forall|j: int| 0 <= j < i ==> !p(#[trigger] rs[j]),
            high == highest(rs.take(i as int), raised@.a_tag, i64::MIN),
    {
        let r = &call.reliable_provisionals[i];
        assert(rs[i as int] == r@);
        if r.a_tag == raised.a_tag && r.b_leg_id == raised.b_leg_id && r.b_tag == raised.b_tag
            && r.b_cseq == raised.b_cseq && r.b_rseq == raised.b_rseq {
            proof {
                first_where_is(rs, p, i as int);
            }
            return r.a_rseq;
        }
        assert(rs.take(i + 1).drop_last() =~= rs.take(i as int));
        assert(rs.take(i + 1).last() == r@);
        if r.a_tag == raised.a_tag && r.a_rseq > high {
            high = r.a_rseq;
        }
    }
    proof {
        first_where_none(rs, p);
    }
    assert(rs.take(call.reliable_provisionals@.len() as int) =~= rs);
    let n: i64 = if starts_reliable_ladder(call, &raised.a_tag) {
        initial
    } else {
        clamped_add(high, 1)
    };
    let ghost before = call.reliable_provisionals@;
    let mut entry = raised;
    entry.a_rseq = n;
    call.reliable_provisionals.push(entry);
    assert(views(call.reliable_provisionals@) =~= views(before).push(entry@));
    n
}

/// The first retention of a shown provisional: whether the ladder is to be
/// armed.
pub open spec fn recorded(c: CallView, a_tag: Seq<char>, a_rseq: i64, e: EmissionView) -> (
    CallView,
    bool,
) {
    match first_where(c.reliable_provisionals, shown_as(a_tag, a_rseq)) {
        Some(i) => if c.reliable_provisionals[i].emission is Some {
            (c, false)
        } else {
            (
                CallView {
                    reliable_provisionals: c.reliable_provisionals.update(
                        i,
                        ReliableProvisionalView {
                            emission: Some(e),
                            ..c.reliable_provisionals[i]
                        },
                    ),
                    ..c
                },
                true,
            )
        },
        None => (c, false),
    }
}

/// Retain a shown reliable provisional, once.
pub fn record_reliable_provisional_emission(
    call: &mut Call,
    a_tag: &String,
    a_rseq: i64,
    e: Emission,
) -> (r: bool)
    ensures
        (final(call)@, r) == recorded(old(call)@, a_tag@, a_rseq, e@),
{
    match find_shown(&call.reliable_provisionals, a_tag, a_rseq) {
        Some(i) => {
            assert(call@.reliable_provisionals[i as int]
                == call.reliable_provisionals@[i as int]@);
            if call.reliable_provisionals[i].emission.is_some() {
                return false;
            }
            let ghost before = call.reliable_provisionals@;
            call.reliable_provisionals[i].emission = Some(e);
            assert(views(call.reliable_provisionals@) =~= views(before).update(
                i as int,
                ReliableProvisionalView { emission: Some(e@), ..before[i as int]@ },
            ));
            true
        },
        None => false,
    }
}

pub open spec fn pracked_as(p: PrackedProvisionalView) -> spec_fn(PrackedProvisionalView) -> bool {
    |q: PrackedProvisionalView| q == p
}

/// The first acknowledgement of a provisional by this stack: whether it is to
/// be sent.
pub open spec fn pracked(c: CallView, p: PrackedProvisionalView) -> (CallView, bool) {
    if any_where(c.pracked_provisionals, pracked_as(p)) {
        (c, false)
    } else {
        (CallView { pracked_provisionals: c.pracked_provisionals.push(p), ..c }, true)
    }
}

fn is_pracked(
    call: &Call,
    leg_id: &String,
    b_tag: &String,
    invite_cseq: i64,
    rseq: i64,
) -> (r: bool)
    ensures
        r == any_where(
            call@.pracked_provisionals,
            pracked_as(
                PrackedProvisionalView { leg_id: leg_id@, b_tag: b_tag@, invite_cseq, rseq },
            ),
        ),
{
    let ghost p = pracked_as(
        PrackedProvisionalView { leg_id: leg_id@, b_tag: b_tag@, invite_cseq, rseq },
    );
    for i in 0..call.pracked_provisionals.len()
        invariant
            p == pracked_as(
                PrackedProvisionalView { leg_id: leg_id@, b_tag: b_tag@, invite_cseq, rseq },
            ),
            forall|j: int| 0 <= j < i ==> !p(#[trigger] call@.pracked_provisionals[j]),
    {
        let q = &call.pracked_provisionals[i];
        assert(call@.pracked_provisionals[i as int] == q@);
        if q.leg_id == *leg_id && q.b_tag == *b_tag && q.invite_cseq == invite_cseq && q.rseq
            == rseq {
            assert(p(call@.pracked_provisionals[i as int]));
            return true;
        }
    }
    false
}

/// Record that this stack acknowledges a provisional itself.
pub fn record_pracked_provisional(
    call: &mut Call,
    leg_id: &String,
    b_tag: &String,
    invite_cseq: i64,
    rseq: i64,
) -> (r: bool)
    ensures
        (final(call)@, r) == pracked(
            old(call)@,
            PrackedProvisionalView { leg_id: leg_id@, b_tag: b_tag@, invite_cseq, rseq },
        ),
{
    if is_pracked(call, leg_id, b_tag, invite_cseq, rseq) {
        return false;
    }
    let ghost before = call.pracked_provisionals@;
    let p = PrackedProvisional { leg_id: leg_id.clone(), b_tag: b_tag.clone(), invite_cseq, rseq };
    call.pracked_provisionals.push(p);
    assert(views(call.pracked_provisionals@) =~= views(before).push(p@));
    true
}

/// The response repeats a reliable provisional that was already dealt with.
pub open spec fn repeats_reliable(c: CallView, leg: Seq<char>, resp: SipResponseView) -> bool {
    match rseq_of(resp) {
        Some(n) => {
            let tag = match resp.to_tag {
                Some(t) => t,
                None => Seq::empty(),
            };
            ||| any_where(c.reliable_provisionals, raised_as(leg, tag, resp.cseq, n as i64))
            ||| any_where(
                c.pracked_provisionals,
                pracked_as(
                    PrackedProvisionalView {
                        leg_id: leg,
                        b_tag: tag,
                        invite_cseq: resp.cseq,
                        rseq: n as i64,
                    },
                ),
            )
        },
        None => false,
    }
}

fn is_raised(call: &Call, leg: &String, tag: &String, cseq: i64, rseq: i64) -> (r: bool)
    ensures
        r == any_where(call@.reliable_provisionals, raised_as(leg@, tag@, cseq, rseq)),
{
    let ghost p = raised_as(leg@, tag@, cseq, rseq);
    for i in 0..call.reliable_provisionals.len()
        invariant
            p == raised_as(leg@, tag@, cseq, rseq),
            forall|j: int| 0 <= j < i ==> !p(#[trigger] call@.reliable_provisionals[j]),
    {
        let r = &call.reliable_provisionals[i];
        assert(call@.reliable_provisionals[i as int] == r@);
        if r.b_leg_id == *leg && r.b_tag == *tag && r.b_cseq == cseq && r.b_rseq == rseq {
            assert(p(call@.reliable_provisionals[i as int]));
            return true;
        }
    }
    false
}

/// The tag a response carries, empty where it carries none.
pub open spec fn tag_or_empty(t: Option<Seq<char>>) -> Seq<char> {
    match t {
        Some(t) => t,
        None => Seq::empty(),
    }
}

/// A copy of an optional tag, empty where there is none.
pub fn tag_text(t: &Option<String>) -> (r: String)
    ensures
        r@ == tag_or_empty(opt_view(*t)),
{
    match t {
        Some(t) => t.clone(),
        None => {
            let s = String::new();
            assert(s@ =~= Seq::<char>::empty());
            s
        },
    }
}

/// Whether the response repeats a reliable provisional already dealt with.
pub fn repeated_reliable_provisional(call: &Call, leg: &String, resp: &SipResponse) -> (r: bool)
    ensures
        r == repeats_reliable(call@, leg@, resp@),
{
    match reliable_rseq(resp) {
        Some(n) => {
            let tag = tag_text(&resp.to_tag);
            is_raised(call, leg, &tag, resp.cseq, n) || is_pracked(call, leg, &tag, resp.cseq, n)
        },
        None => false,
    }
}

// ── what an acknowledgement names ───────────────────────────────────────
pub open spec fn shown_to(c: CallView, leg: Seq<char>) -> spec_fn(ReliableProvisionalView) -> bool {
    |r: ReliableProvisionalView| face_of(c, r.a_tag) == leg
}

/// This stack numbers the reliable provisionals a leg is shown.
pub open spec fn numbers_on(c: CallView, leg: Seq<char>) -> bool {
    any_where(c.reliable_provisionals, shown_to(c, leg))
}

pub open spec fn acknowledged_by(tag: Seq<char>, tokens: RAckTokens) -> spec_fn(
    ReliableProvisionalView,
) -> bool {
    |r: ReliableProvisionalView|
        r.a_tag == tag && r.a_rseq == tokens.rseq && r.a_cseq == tokens.cseq && tokens.names_invite
}

/// The acknowledgement names nothing this stack showed on that leg.
pub open spec fn names_nothing(
    c: CallView,
    leg: Seq<char>,
    tag: Seq<char>,
    tokens: RAckTokens,
) -> bool {
    numbers_on(c, leg) && !any_where(c.reliable_provisionals, acknowledged_by(tag, tokens))
}

/// Whether this stack numbers the reliable provisionals a leg is shown.
pub fn owns_rseq_numbering(call: &Call, leg: &String) -> (r: bool)
    ensures
        r == numbers_on(call@, leg@),
{
    let ghost p = shown_to(call@, leg@);
    for i in 0..call.reliable_provisionals.len()
        invariant
            p == shown_to(call@, leg@),
            forall|j: int| 0 <= j < i ==> !p(#[trigger] call@.reliable_provisionals[j]),
    {
        assert(call@.reliable_provisionals[i as int] == call.reliable_provisionals@[i as int]@);
        let face = face_shown(call, &call.reliable_provisionals[i].a_tag);
        if face == *leg {
            assert(p(call@.reliable_provisionals[i as int]));
            return true;
        }
    }
    false
}

/// Whether an acknowledgement names nothing this stack showed on that leg.
pub fn unacknowledgeable_rack(
    call: &Call,
    leg: &String,
    tag: &String,
    tokens: RAckTokens,
) -> (r: bool)
    ensures
        r == names_nothing(call@, leg@, tag@, tokens),
{
    if !owns_rseq_numbering(call, leg) {
        return false;
    }
    let ghost p = acknowledged_by(tag@, tokens);
    for i in 0..call.reliable_provisionals.len()
        invariant
            p == acknowledged_by(tag@, tokens),
            forall|j: int| 0 <= j < i ==> !p(#[trigger] call@.reliable_provisionals[j]),
    {
        let r = &call.reliable_provisionals[i];
        assert(call@.reliable_provisionals[i as int] == r@);
        if r.a_tag == *tag && r.a_rseq == tokens.rseq && r.a_cseq == tokens.cseq
            && tokens.names_invite {
            assert(p(call@.reliable_provisionals[i as int]));
            return false;
        }
    }
    true
}

pub open spec fn numbered_toward(leg: Seq<char>, a_rseq: i64) -> spec_fn(
    ReliableProvisionalView,
) -> bool {
    |r: ReliableProvisionalView| r.b_leg_id == leg && r.a_rseq == a_rseq
}

/// The responder's own number for one of ours.
pub open spec fn b_rseq(c: CallView, leg: Seq<char>, a_rseq: i64) -> Option<i64> {
    match find_where(c.reliable_provisionals, numbered_toward(leg, a_rseq)) {
        Some(r) => Some(r.b_rseq),
        None => None,
    }
}

/// Translate one of our numbers back to the responder's.
pub fn b_rseq_for(call: &Call, leg: &String, a_rseq: i64) -> (r: Option<i64>)
    ensures
        r == b_rseq(call@, leg@, a_rseq),
{
    let ghost p = numbered_toward(leg@, a_rseq);
    for i in 0..call.reliable_provisionals.len()
        invariant
            p == numbered_toward(leg@, a_rseq),
            forall|j: int| 0 <= j < i ==> !p(#[trigger] call@.reliable_provisionals[j]),
    {
        let r = &call.reliable_provisionals[i];
        assert(call@.reliable_provisionals[i as int] == r@);
        if r.b_leg_id == *leg && r.a_rseq == a_rseq {
            proof {
                first_where_is(call@.reliable_provisionals, p, i as int);
            }
            return Some(r.b_rseq);
        }
    }
    proof {
        first_where_none(call@.reliable_provisionals, p);
    }
    None
}

/// The relayed request admits a reliable provisional: an INVITE whose
/// originator supports them.
pub open spec fn admits_reliable(p: PendingRequestView) -> bool {
    p.method == MethodView::Invite && p.offers_100rel
}

pub open spec fn live_invite_under(cseq: i64) -> spec_fn(PendingRequestView) -> bool {
    |p: PendingRequestView| p.method == MethodView::Invite && p.outbound_cseq == cseq && !p.cancelled
}

pub open spec fn holds_live_invite(cseq: i64) -> spec_fn(DialogView) -> bool {
    |d: DialogView| any_where(d.ext.inbound_pending_requests, live_invite_under(cseq))
}

/// The relayed INVITE, still pending, that a shown provisional answers.
pub open spec fn invite_answered_by(
    c: CallView,
    a_tag: Seq<char>,
    a_rseq: i64,
) -> Option<(Seq<char>, i64)> {
    match find_where(c.reliable_provisionals, shown_as(a_tag, a_rseq)) {
        Some(r) => match c.leg(r.b_leg_id) {
            Some(l) => if any_where(l.dialogs, holds_live_invite(r.b_cseq)) {
                Some((r.b_leg_id, r.b_cseq))
            } else {
                None
            },
            None => None,
        },
        None => None,
    }
}

fn has_live_invite(d: &Dialog, cseq: i64) -> (r: bool)
    ensures
        r == holds_live_invite(cseq)(d@),
{
    let ghost p = live_invite_under(cseq);
    for i in 0..d.ext.inbound_pending_requests.len()
        invariant
            p == live_invite_under(cseq),
            forall|j: int|
                0 <= j < i ==> !p(#[trigger] views(d.ext.inbound_pending_requests@)[j]),
    {
        let q = &d.ext.inbound_pending_requests[i];
        assert(views(d.ext.inbound_pending_requests@)[i as int] == q@);
        if q.method == Method::Invite && q.outbound_cseq == cseq && !q.cancelled {
            assert(p(views(d.ext.inbound_pending_requests@)[i as int]));
            return true;
        }
    }
    false
}

/// Find the relayed INVITE that a shown provisional answers.
pub fn pending_invite_answered_by(
    call: &Call,
    a_tag: &String,
    a_rseq: i64,
) -> (r: Option<(String, i64)>)
    ensures
        match r {
            Some((leg, cseq)) => invite_answered_by(call@, a_tag@, a_rseq) == Some((leg@, cseq)),
            None => invite_answered_by(call@, a_tag@, a_rseq) is None,
        },
{
    match find_shown(&call.reliable_provisionals, a_tag, a_rseq) {
        Some(i) => {
            let r = &call.reliable_provisionals[i];
            assert(call@.reliable_provisionals[i as int] == r@);
            match find_leg(call, &r.b_leg_id) {
                Some(l) => {
                    let ghost p = holds_live_invite(r.b_cseq);
                    for k in 0..l.dialogs.len()
                        invariant
                            p == holds_live_invite(r.b_cseq),
                            forall|j: int| 0 <= j < k ==> !p(#[trigger] l@.dialogs[j]),
                            call@.leg(r.b_leg_id@) == Some(l@),
                            find_where(call@.reliable_provisionals, shown_as(a_tag@, a_rseq))
                                == Some(r@),
                    {
                        assert(l@.dialogs[k as int] == l.dialogs@[k as int]@);
                        if has_live_invite(&l.dialogs[k], r.b_cseq) {
                            assert(p(l@.dialogs[k as int]));
                            return Some((r.b_leg_id.clone(), r.b_cseq));
                        }
                    }
                    None
                },
                None => None,
            }
        },
        None => None,
    }
}

// ── laws ────────────────────────────────────────────────────────────────
/// A provisional shown again keeps its number, and the books are as they were.
pub proof fn a_repeat_keeps_its_number(
    c: CallView,
    raised: ReliableProvisionalView,
    first: i64,
    second: i64,
)
    ensures
        ({
            let (c1, n) = assigned(c, raised, first);
            assigned(c1, raised, second) == (c1, n)
        }),
{
    let p = raised_under(raised.a_tag, raised.b_leg_id, raised.b_tag, raised.b_cseq, raised.b_rseq);
    let (c1, n) = assigned(c, raised, first);
    find_where_push(c.reliable_provisionals, ReliableProvisionalView { a_rseq: n, ..raised }, p);
}

/// The numbers shown under one tag rise: a new one is above every number shown
/// under it before, as long as numbers are left.
pub proof fn numbers_rise(c: CallView, raised: ReliableProvisionalView, initial: i64, i: int)
    requires
        0 <= i < c.reliable_provisionals.len(),
        c.reliable_provisionals[i].a_tag == raised.a_tag,
        highest(c.reliable_provisionals, raised.a_tag, i64::MIN) < i64::MAX,
        find_where(
            c.reliable_provisionals,
            raised_under(raised.a_tag, raised.b_leg_id, raised.b_tag, raised.b_cseq, raised.b_rseq),
        ) is None,
    ensures
        assigned(c, raised, initial).1 > c.reliable_provisionals[i].a_rseq,
{
    let rs = c.reliable_provisionals;
    assert(under_tag(raised.a_tag)(rs[i]));
    highest_is_high(rs, raised.a_tag, i);
}

proof fn highest_is_high(rs: Seq<ReliableProvisionalView>, tag: Seq<char>, i: int)
    requires
        0 <= i < rs.len(),
        rs[i].a_tag == tag,
    ensures
        rs[i].a_rseq <= highest(rs, tag, i64::MIN),
    decreases rs.len(),
{
    if i < rs.len() - 1 {
        highest_is_high(rs.drop_last(), tag, i);
    }
}

/// The number a provisional is shown under translates back to the responder's
/// own, where no other provisional of that leg was shown under the same number.
pub proof fn a_shown_number_translates_back(
    c: CallView,
    raised: ReliableProvisionalView,
    initial: i64,
)
    requires
        find_where(
            c.reliable_provisionals,
            raised_under(raised.a_tag, raised.b_leg_id, raised.b_tag, raised.b_cseq, raised.b_rseq),
        ) is None,
        b_rseq(c, raised.b_leg_id, assigned(c, raised, initial).1) is None,
    ensures
        ({
            let (c1, n) = assigned(c, raised, initial);
            b_rseq(c1, raised.b_leg_id, n) == Some(raised.b_rseq)
        }),
{
    let (c1, n) = assigned(c, raised, initial);
    find_where_push(
        c.reliable_provisionals,
        ReliableProvisionalView { a_rseq: n, ..raised },
        numbered_toward(raised.b_leg_id, n),
    );
}

/// A reliable provisional that was given a number is known again: the same
/// response once more is a repeat.
pub proof fn a_numbered_provisional_is_known_again(
    c: CallView,
    raised: ReliableProvisionalView,
    initial: i64,
    resp: SipResponseView,
)
    requires
        rseq_of(resp) is Some,
        raised.b_rseq == rseq_of(resp)->0 as i64,
        raised.b_tag == tag_or_empty(resp.to_tag),
        raised.b_cseq == resp.cseq,
    ensures
        repeats_reliable(assigned(c, raised, initial).0, raised.b_leg_id, resp),
{
    let p = raised_under(raised.a_tag, raised.b_leg_id, raised.b_tag, raised.b_cseq, raised.b_rseq);
    let q = raised_as(raised.b_leg_id, raised.b_tag, raised.b_cseq, raised.b_rseq);
    let rs = c.reliable_provisionals;
    let (c1, n) = assigned(c, raised, initial);
    first_where_found(rs, p);
    match first_where(rs, p) {
        Some(i) => {
            assert(q(c1.reliable_provisionals[i]));
        },
        None => {
            assert(q(c1.reliable_provisionals[rs.len() as int]));
        },
    }
}

} // verus!
