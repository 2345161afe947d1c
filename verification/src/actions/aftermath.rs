//! What a teardown leaves behind: every leg told or at its end, no timer that
//! still waits for something, no response that is still repeated.
use vstd::prelude::*;

use super::ladder::{
    discharge, discharged_by, end_ladder, end_ladders, ladder_of, ladder_runs, ladders_in, retire,
    scrub_timer, scrub_timers, with_timers,
};
use super::select::{
    origin_address, originator, pending_dialog, snapshot_response, toward_originator,
};
use super::teardown::{
    cancel_toward, commit_cancel, end_each, end_leg, end_legs, is_idle, is_not_idle, leg_ids,
    leg_invites, non_invites, reinvite_cancel, reject_each, reject_invites, reject_one,
    reject_pending_non_invites, reject_pending_reinvite, scrub_idle, send_opt, stated_cause,
    teardown_headers, teardown_hops, terminate_all, termination_begun, wound_down,
    TERMINATING_TIMEOUT_MS,
};
use super::{ExecView, WorkView};
use crate::books::{
    advanced, cleared, first_ext, owed, paced_on, retained, shown_as, with_first_ext, ScopeView, T2_MS,
};
use crate::call::{
    ByeDisposition, CallModelState, CallView, DialogExtView, DialogView, LadderClass, LegDisposition,
    LegState, LegView, ObligationView, PendingRequestView, TimerEntryView, TimerTypeView,
};
use crate::context::timer_key;
use crate::effects::{OutboundSipView, Provenance};
use crate::lens::{dialog_named, identity_tag, leg_named, leg_of_with_leg, timer_not_named};
use crate::model::{CallEventView, RuleContextView};
use crate::reliable::obligations;
use crate::seqs::{first_where, first_where_found, first_where_is, is_first, keep, keep_sound};
use crate::wire::{Method, MethodView, SipHeaderView};

verus! {

// ── what a leg's standing is made of ────────────────────────────────────
/// How a leg stands: its place in the call, not what its dialogs hold.
pub struct Standing {
    pub leg_id: Seq<char>,
    pub state: LegState,
    pub disposition: LegDisposition,
    pub bye_disposition: Option<ByeDisposition>,
}

pub open spec fn standing_of(l: LegView) -> Standing {
    Standing {
        leg_id: l.leg_id,
        state: l.state,
        disposition: l.disposition,
        bye_disposition: l.bye_disposition,
    }
}

/// The legs of one call stand as the legs of the other do.
pub open spec fn stand_alike(c: CallView, d: CallView) -> bool {
    &&& c.legs().len() == d.legs().len()
    &&& forall|i: int|
        0 <= i < c.legs().len() ==> standing_of(#[trigger] c.legs()[i]) == standing_of(d.legs()[i])
}

/// No two legs of a call have one id.
pub open spec fn distinct_legs(c: CallView) -> bool {
    forall|i: int, j: int|
        0 <= i < j < c.legs().len() ==> (#[trigger] c.legs()[i]).leg_id != (
        #[trigger] c.legs()[j]).leg_id
}

/// A leg that a teardown owes nothing more: it is at its end, its BYE is
/// settled or under way, or its CANCEL is.
pub open spec fn accounted(l: LegView) -> bool {
    ||| l.state == LegState::Terminated
    ||| l.bye_disposition is Some
    ||| l.disposition == LegDisposition::Cancelling
}

proof fn alike_through(a: CallView, b: CallView, c: CallView)
    requires
        stand_alike(a, b),
        stand_alike(b, c),
    ensures
        stand_alike(a, c),
{
    assert forall|i: int| 0 <= i < a.legs().len() implies standing_of(#[trigger] a.legs()[i])
        == standing_of(c.legs()[i]) by {
        assert(standing_of(a.legs()[i]) == standing_of(b.legs()[i]));
        assert(standing_of(b.legs()[i]) == standing_of(c.legs()[i]));
    }
}

proof fn alike_where_legs_are(a: CallView, b: CallView)
    requires
        a.a_leg == b.a_leg,
        a.b_legs == b.b_legs,
    ensures
        stand_alike(a, b),
{
}

/// Where the leg of an id stands among the legs.
spec fn place(c: CallView, id: Seq<char>) -> int {
    if c.a_leg.leg_id == id {
        0
    } else {
        c.b_at(id)->0 + 1
    }
}

/// Replacing a leg changes the one place it stands at.
proof fn replaced(c: CallView, id: Seq<char>, l: LegView)
    requires
        c.leg(id) is Some,
    ensures
        0 <= place(c, id) < c.legs().len(),
        c.legs()[place(c, id)] == c.leg(id)->0,
        c.legs()[place(c, id)].leg_id == id,
        c.with_leg(id, l).legs() == c.legs().update(place(c, id), l),
{
    if c.a_leg.leg_id == id {
        assert(c.with_leg(id, l).legs() =~= c.legs().update(0, l));
    } else {
        first_where_found(c.b_legs, leg_named(id));
        let i = c.b_at(id)->0;
        assert(c.with_leg(id, l).legs() =~= c.legs().update(i + 1, l));
    }
}

/// Replacing a leg by one of the same standing keeps every leg's.
proof fn alike_with_leg(c: CallView, id: Seq<char>, l: LegView)
    requires
        c.leg(id) is Some,
        standing_of(l) == standing_of(c.leg(id)->0),
    ensures
        stand_alike(c.with_leg(id, l), c),
{
    replaced(c, id, l);
}

proof fn alike_first_ext(c: CallView, leg: Seq<char>, e: DialogExtView)
    ensures
        stand_alike(with_first_ext(c, leg, e), c),
{
    alike_where_legs_are(c, c);
    match c.leg(leg) {
        Some(l) => if l.dialogs.len() > 0 {
            let d = DialogView { ext: e, ..l.dialogs[0] };
            alike_with_leg(c, leg, LegView { dialogs: l.dialogs.update(0, d), ..l });
        },
        None => {},
    }
}

proof fn alike_with_dialog(c: CallView, leg: Seq<char>, tag: Seq<char>, d: DialogView)
    ensures
        stand_alike(c.with_dialog(leg, tag, d), c),
{
    alike_where_legs_are(c, c);
    match c.leg(leg) {
        Some(l) => match first_where(l.dialogs, dialog_named(leg, tag)) {
            Some(i) => {
                alike_with_leg(c, leg, LegView { dialogs: l.dialogs.update(i, d), ..l });
            },
            None => {},
        },
        None => {},
    }
}

proof fn alike_cleared(c: CallView, o: ObligationView)
    ensures
        stand_alike(cleared(c, o), c),
{
    alike_where_legs_are(c, c);
    match o {
        ObligationView::AckOf2xx { leg, dialog_tag, cseq } => match first_ext(c, leg) {
            Some(e) => {
                let n = DialogExtView {
                    answered_2xx: if owed(e.answered_2xx, dialog_tag, cseq) {
                        None
                    } else {
                        e.answered_2xx
                    },
                    pending_reinvite_2xx: if owed(
                        e.pending_reinvite_2xx,
                        dialog_tag,
                        cseq,
                    ) {
                        None
                    } else {
                        e.pending_reinvite_2xx
                    },
                    ..e
                };
                alike_first_ext(c, leg, n);
            },
            None => {},
        },
        ObligationView::PrackOf { a_tag, a_rseq } => {
            alike_where_legs_are(cleared(c, o), c);
        },
    }
}

proof fn alike_end_ladders(w: WorkView, os: Seq<ObligationView>)
    ensures
        stand_alike(end_ladders(w, os).call, w.call),
    decreases os.len(),
{
    alike_where_legs_are(w.call, w.call);
    if os.len() > 0 {
        let w1 = end_ladders(w, os.drop_last());
        alike_end_ladders(w, os.drop_last());
        let s = scrub_timers(w1, os.last());
        alike_where_legs_are(s.call, w1.call);
        alike_cleared(s.call, os.last());
        alike_through(cleared(s.call, os.last()), s.call, w1.call);
        alike_through(cleared(s.call, os.last()), w1.call, w.call);
    }
}

pub(crate) proof fn alike_retire(w: WorkView, s: ScopeView)
    ensures
        stand_alike(retire(w, s).call, w.call),
{
    reveal(retire);
    alike_end_ladders(w, ladders_in(w.call, s));
}

proof fn alike_reject_each(
    w: WorkView,
    leg_id: Seq<char>,
    to_leg: Seq<char>,
    xs: Seq<(Seq<char>, PendingRequestView)>,
)
    ensures
        stand_alike(reject_each(w, leg_id, to_leg, xs).call, w.call),
    decreases xs.len(),
{
    alike_where_legs_are(w.call, w.call);
    if xs.len() > 0 {
        let w1 = reject_each(w, leg_id, to_leg, xs.drop_last());
        alike_reject_each(w, leg_id, to_leg, xs.drop_last());
        let x = xs.last();
        alike_where_legs_are(w1.call, w1.call);
        match w1.call.dialog(leg_id, x.0) {
            Some(d) => {
                alike_with_dialog(w1.call, leg_id, x.0, d.without_pending(x.1.outbound_cseq));
            },
            None => {},
        }
        alike_through(reject_one(w1, leg_id, to_leg, x).call, w1.call, w.call);
    }
}

pub(crate) proof fn alike_reject_non_invites(w: WorkView, leg_id: Seq<char>)
    ensures
        stand_alike(reject_pending_non_invites(w, leg_id).call, w.call),
{
    reveal(reject_pending_non_invites);
    alike_where_legs_are(w.call, w.call);
    match w.call.leg(leg_id) {
        Some(l) => {
            alike_reject_each(
                w,
                leg_id,
                originator(w.call, leg_id),
                non_invites(leg_id, l.dialogs),
            );
        },
        None => {},
    }
}

proof fn alike_commit(w: WorkView, leg_id: Seq<char>, cseq: i64, e: OutboundSipView)
    ensures
        stand_alike(commit_cancel(w, leg_id, cseq, e).call, w.call),
{
    reveal(commit_cancel);
    let tag = identity_tag(
        leg_id,
        pending_dialog(w.call, leg_id, cseq)->0,
    );
    let c1 = w.call.cancel_pending_request(leg_id, tag, cseq);
    alike_where_legs_are(w.call, w.call);
    match w.call.dialog(leg_id, tag) {
        Some(d) => {
            alike_with_dialog(w.call, leg_id, tag, d.cancel_pending(cseq));
        },
        None => {},
    }
    let w1 = w.send(e).on(c1);
    alike_retire(w1, ScopeView::Transaction { leg_id, cseq });
    alike_through(commit_cancel(w, leg_id, cseq, e).call, c1, w.call);
}

proof fn alike_reject_reinvite(
    w: WorkView,
    leg_id: Seq<char>,
    cseq: i64,
    status: u16,
    reason: Seq<char>,
)
    ensures
        stand_alike(reject_pending_reinvite(w, leg_id, cseq, status, reason).call, w.call),
{
    reveal(reject_pending_reinvite);
    alike_where_legs_are(w.call, w.call);
    match pending_dialog(w.call, leg_id, cseq) {
        Some(d) => {
            let p = d.pending(cseq)->0;
            match (
                origin_address(p),
                reinvite_cancel(w.call, leg_id, cseq),
            ) {
                (Some(at), Some(e)) => {
                    alike_commit(
                        w.send(
                            toward_originator(
                                snapshot_response(p, status, reason),
                                at,
                                originator(w.call, leg_id),
                                Provenance::Authored,
                            ),
                        ),
                        leg_id,
                        cseq,
                        e,
                    );
                },
                _ => {},
            }
        },
        None => {},
    }
}

pub(crate) proof fn alike_reject_invites(w: WorkView, xs: Seq<(Seq<char>, PendingRequestView)>)
    ensures
        stand_alike(reject_invites(w, xs).call, w.call),
    decreases xs.len(),
{
    alike_where_legs_are(w.call, w.call);
    if xs.len() > 0 {
        let w1 = reject_invites(w, xs.drop_last());
        alike_reject_invites(w, xs.drop_last());
        alike_reject_reinvite(
            w1,
            xs.last().0,
            xs.last().1.outbound_cseq,
            487,
            "Request Terminated"@,
        );
        alike_through(reject_invites(w, xs).call, w1.call, w.call);
    }
}

// ── one leg told ────────────────────────────────────────────────────────
/// `d` differs from `c` in the standing of the leg at `k` alone, which it has
/// accounted for.
spec fn told(c: CallView, d: CallView, k: int) -> bool {
    &&& c.legs().len() == d.legs().len()
    &&& 0 <= k < c.legs().len()
    &&& forall|i: int|
        0 <= i < c.legs().len() && i != k ==> standing_of(#[trigger] c.legs()[i]) == standing_of(
            d.legs()[i],
        )
    &&& d.legs()[k].leg_id == c.legs()[k].leg_id
    &&& accounted(d.legs()[k])
}

proof fn found_where_it_stands(c: CallView, k: int)
    requires
        distinct_legs(c),
        0 <= k < c.legs().len(),
    ensures
        c.leg(c.legs()[k].leg_id) == Some(c.legs()[k]),
        place(c, c.legs()[k].leg_id) == k,
{
    let id = c.legs()[k].leg_id;
    if k > 0 {
        assert(c.legs()[0].leg_id != id);
        assert(c.legs()[0] == c.a_leg);
        let p = leg_named(id);
        assert(is_first(c.b_legs, p, k - 1)) by {
            assert(c.b_legs[k - 1] == c.legs()[k]);
            assert forall|j: int| 0 <= j < k - 1 implies !p(#[trigger] c.b_legs[j]) by {
                assert(c.legs()[j + 1] == c.b_legs[j]);
            }
        }
        first_where_is(c.b_legs, p, k - 1);
    }
}

proof fn distinct_kept(c: CallView, d: CallView)
    requires
        distinct_legs(c),
        c.legs().len() == d.legs().len(),
        forall|i: int| 0 <= i < c.legs().len() ==> (#[trigger] c.legs()[i]).leg_id == d.legs()[i].leg_id,
    ensures
        distinct_legs(d),
{
    assert forall|i: int, j: int| 0 <= i < j < d.legs().len() implies (#[trigger] d.legs()[i]).leg_id
        != (#[trigger] d.legs()[j]).leg_id by {
        assert(c.legs()[i].leg_id != c.legs()[j].leg_id);
    }
}

/// What was told of one leg after that leg alone changed.
proof fn told_from(c: CallView, b: CallView, d: CallView, k: int)
    requires
        0 <= k < c.legs().len(),
        b.legs().len() == c.legs().len(),
        b.legs()[k].leg_id == c.legs()[k].leg_id,
        forall|i: int| 0 <= i < c.legs().len() && i != k ==> #[trigger] c.legs()[i] == b.legs()[i],
        told(b, d, k),
    ensures
        told(c, d, k),
{
    assert forall|i: int| 0 <= i < c.legs().len() && i != k implies standing_of(
        #[trigger] c.legs()[i],
    ) == standing_of(d.legs()[i]) by {
        assert(standing_of(b.legs()[i]) == standing_of(d.legs()[i]));
    }
}

/// Telling a leg accounts for it and leaves every other as it stood.
proof fn leg_told(
    w: WorkView,
    k: int,
    l: LegView,
    reason: Option<Seq<char>>,
    relayed: Seq<SipHeaderView>,
    hops: Option<u32>,
)
    requires
        distinct_legs(w.call),
        0 <= k < w.call.legs().len(),
        standing_of(l) == standing_of(w.call.legs()[k]),
        w.call.a_leg.leg_id != l.leg_id ==> k > 0,
    ensures
        told(w.call, end_leg(w, l, reason, relayed, hops).call, k),
{
    reveal(end_leg);
    let id = l.leg_id;
    let c = w.call;
    found_where_it_stands(c, k);
    if accounted(l) {
    } else if l.state == LegState::Confirmed {
        replaced(c, id, LegView { bye_disposition: Some(ByeDisposition::ByeSent), ..c.legs()[k] });
    } else if id == c.a_leg.leg_id {
        let n = LegView { bye_disposition: Some(ByeDisposition::NotOwed), ..c.legs()[k] };
        replaced(c, id, n);
        let c1 = c.with_leg(id, n);
        assert(c1 == c.set_bye_disposition(id, ByeDisposition::NotOwed));
        let w1 = w.on(c1);
        if c1.a_leg.invite_final_sent is Some {
            distinct_kept(c, c1);
            alike_reject_non_invites(w1, id);
            let c2 = reject_pending_non_invites(w1, id).call;
            ended_stays_told(c1, c2, k, id);
            told_from(c, c1, c2.set_leg_state(id, LegState::Terminated), k);
        }
    } else {
        let w1 = send_opt(w, cancel_toward(c, id, relayed));
        assert(w1.call == c);
        let n1 = LegView { bye_disposition: Some(ByeDisposition::Cancelled), ..c.legs()[k] };
        replaced(c, id, n1);
        let c1 = c.with_leg(id, n1);
        distinct_kept(c, c1);
        found_where_it_stands(c1, k);
        let n2 = LegView { disposition: LegDisposition::Cancelling, ..n1 };
        replaced(c1, id, n2);
        let c2 = c1.with_leg(id, n2);
        distinct_kept(c1, c2);
        alike_reject_non_invites(w1.on(c2), id);
        let c3 = reject_pending_non_invites(w1.on(c2), id).call;
        ended_stays_told(c2, c3, k, id);
        told_from(c, c2, c3.set_leg_state(id, LegState::Terminated), k);
        assert(c2 == c.set_bye_disposition(id, ByeDisposition::Cancelled).set_leg_disposition(
            id,
            LegDisposition::Cancelling,
        ));
    }
}

/// Ending a leg where the legs stand as they did changes that leg alone.
proof fn ended_stays_told(c: CallView, d: CallView, k: int, id: Seq<char>)
    requires
        distinct_legs(c),
        stand_alike(d, c),
        0 <= k < c.legs().len(),
        c.legs()[k].leg_id == id,
    ensures
        told(c, d.set_leg_state(id, LegState::Terminated), k),
        d.set_leg_state(id, LegState::Terminated).legs()[k].state == LegState::Terminated,
{
    assert forall|i: int| 0 <= i < c.legs().len() implies (#[trigger] c.legs()[i]).leg_id
        == d.legs()[i].leg_id by {
        assert(standing_of(d.legs()[i]) == standing_of(c.legs()[i]));
    }
    distinct_kept(c, d);
    found_where_it_stands(d, k);
    let n = LegView { state: LegState::Terminated, ..d.legs()[k] };
    replaced(d, id, n);
    let e = d.set_leg_state(id, LegState::Terminated);
    assert forall|i: int| 0 <= i < c.legs().len() && i != k implies standing_of(
        #[trigger] c.legs()[i],
    ) == standing_of(e.legs()[i]) by {
        assert(standing_of(d.legs()[i]) == standing_of(c.legs()[i]));
    }
}

// ── every leg told ──────────────────────────────────────────────────────
/// The first `k` legs are accounted for; the others stand as they did.
spec fn told_up_to(c: CallView, d: CallView, k: int) -> bool {
    &&& c.legs().len() == d.legs().len()
    &&& forall|i: int| 0 <= i < c.legs().len() ==> (#[trigger] c.legs()[i]).leg_id == d.legs()[i].leg_id
    &&& forall|i: int| 0 <= i < k ==> accounted(#[trigger] d.legs()[i])
    &&& forall|i: int|
        k <= i < c.legs().len() ==> standing_of(#[trigger] c.legs()[i]) == standing_of(d.legs()[i])
}

proof fn each_told(
    w: WorkView,
    k: int,
    reason: Option<Seq<char>>,
    relayed: Seq<SipHeaderView>,
    hops: Option<u32>,
)
    requires
        distinct_legs(w.call),
        0 <= k <= w.call.legs().len(),
    ensures
        told_up_to(
            w.call,
            end_each(w, w.call.legs().take(k), reason, relayed, hops).call,
            k,
        ),
    decreases k,
{
    let ls = w.call.legs();
    if k > 0 {
        each_told(w, k - 1, reason, relayed, hops);
        assert(ls.take(k).drop_last() =~= ls.take(k - 1));
        assert(ls.take(k).last() == ls[k - 1]);
        let w1 = end_each(w, ls.take(k - 1), reason, relayed, hops);
        distinct_kept(w.call, w1.call);
        assert(standing_of(ls[k - 1]) == standing_of(w1.call.legs()[k - 1]));
        assert(w1.call.legs()[0] == w1.call.a_leg);
        leg_told(w1, k - 1, ls[k - 1], reason, relayed, hops);
        let d = end_leg(w1, ls[k - 1], reason, relayed, hops).call;
        assert forall|i: int| 0 <= i < ls.len() implies (#[trigger] ls[i]).leg_id == d.legs()[i].leg_id by {
            assert(ls[i].leg_id == w1.call.legs()[i].leg_id);
            if i != k - 1 {
                assert(standing_of(w1.call.legs()[i]) == standing_of(d.legs()[i]));
            }
        }
        assert forall|i: int| 0 <= i < k implies accounted(#[trigger] d.legs()[i]) by {
            if i < k - 1 {
                assert(accounted(w1.call.legs()[i]));
                assert(standing_of(w1.call.legs()[i]) == standing_of(d.legs()[i]));
            }
        }
        assert forall|i: int| k <= i < ls.len() implies standing_of(#[trigger] ls[i]) == standing_of(
            d.legs()[i],
        ) by {
            assert(standing_of(ls[i]) == standing_of(w1.call.legs()[i]));
            assert(standing_of(w1.call.legs()[i]) == standing_of(d.legs()[i]));
        }
    }
}

// ── laws ────────────────────────────────────────────────────────────────
/// A teardown leaves no leg behind: each is at its end, or its BYE or CANCEL is
/// settled or under way. No leg is added and none is lost.
pub proof fn every_leg_is_accounted_for(
    x: ExecView,
    w: WorkView,
    ctx: RuleContextView,
    reason: Option<Seq<char>>,
)
    requires
        distinct_legs(w.call),
    ensures
        ({
            let c = x.begin_termination(w, ctx, reason).call;
            &&& leg_ids(c) == leg_ids(w.call)
            &&& forall|i: int| 0 <= i < c.legs().len() ==> accounted(#[trigger] c.legs()[i])
        }),
{
    reveal(ExecView::begin_termination);
    reveal(ExecView::schedule);
    reveal(wound_down);
    reveal(termination_begun);
    let c1 = w.call.record_termination(x.now_ms, reason, Some(ctx.source_leg_id));
    alike_where_legs_are(c1, w.call);
    let xs = leg_invites(c1.legs());
    alike_reject_invites(w.on(c1), xs);
    let w2 = reject_invites(w.on(c1), xs);
    alike_through(w2.call, c1, w.call);
    assert forall|i: int| 0 <= i < w.call.legs().len() implies (#[trigger] w.call.legs()[i]).leg_id
        == w2.call.legs()[i].leg_id by {
        assert(standing_of(w2.call.legs()[i]) == standing_of(w.call.legs()[i]));
    }
    distinct_kept(w.call, w2.call);
    let n = w2.call.legs().len() as int;
    let cause = stated_cause(reason);
    let relayed = teardown_headers(ctx);
    let hops = teardown_hops(ctx);
    each_told(w2, n, cause, relayed, hops);
    assert(w2.call.legs().take(n) =~= w2.call.legs());
    let w3 = end_each(w2, w2.call.legs(), cause, relayed, hops);
    reveal(scrub_idle);
    let w4 = scrub_idle(w3);
    alike_where_legs_are(w4.call, w3.call);
    alike_retire(w4, ScopeView::Call);
    let w5 = retire(w4, ScopeView::Call);
    let c = x.begin_termination(w, ctx, reason).call;
    alike_where_legs_are(c, w5.call);
    alike_through(c, w5.call, w4.call);
    alike_through(c, w4.call, w3.call);
    assert forall|i: int| 0 <= i < c.legs().len() implies accounted(#[trigger] c.legs()[i]) by {
        assert(standing_of(c.legs()[i]) == standing_of(w3.call.legs()[i]));
        assert(accounted(w3.call.legs()[i]));
    }
    assert forall|i: int| 0 <= i < c.legs().len() implies #[trigger] leg_ids(c)[i] == leg_ids(
        w.call,
    )[i] by {
        assert(standing_of(c.legs()[i]) == standing_of(w3.call.legs()[i]));
        assert(w2.call.legs()[i].leg_id == w3.call.legs()[i].leg_id);
        assert(w.call.legs()[i].leg_id == w2.call.legs()[i].leg_id);
    }
    assert(leg_ids(c) =~= leg_ids(w.call));
}

/// Ending a call at once ends every leg of it, and the call.
pub proof fn every_leg_ends_with_the_call(
    c: CallView,
    now_ms: i64,
    cause: Option<Seq<char>>,
    by_leg: Option<Seq<char>>,
)
    requires
        distinct_legs(c),
    ensures
        ({
            let d = terminate_all(c, now_ms, cause, by_leg);
            &&& d.state == CallModelState::Terminated
            &&& leg_ids(d) == leg_ids(c)
            &&& forall|i: int| 0 <= i < d.legs().len() ==> (#[trigger] d.legs()[i]).state
                == LegState::Terminated
        }),
{
    reveal(terminate_all);
    let c1 = c.record_termination(now_ms, cause, by_leg);
    assert(c1.legs() == c.legs());
    let n = c1.legs().len() as int;
    ended_up_to(c1, n);
    assert(leg_ids(c1).take(n) =~= leg_ids(c1));
    let e = end_legs(c1, leg_ids(c1));
    let d = terminate_all(c, now_ms, cause, by_leg);
    assert(d.legs() == e.legs());
    assert(leg_ids(d) =~= leg_ids(c));
}

proof fn ended_up_to(c: CallView, k: int)
    requires
        distinct_legs(c),
        0 <= k <= c.legs().len(),
    ensures
        ({
            let d = end_legs(c, leg_ids(c).take(k));
            &&& leg_ids(d) == leg_ids(c)
            &&& d.legs().len() == c.legs().len()
            &&& forall|i: int| 0 <= i < k ==> (#[trigger] d.legs()[i]).state == LegState::Terminated
        }),
    decreases k,
{
    let ids = leg_ids(c);
    if k > 0 {
        ended_up_to(c, k - 1);
        assert(ids.take(k).drop_last() =~= ids.take(k - 1));
        assert(ids.take(k).last() == ids[k - 1]);
        let d = end_legs(c, ids.take(k - 1));
        assert forall|i: int| 0 <= i < c.legs().len() implies (#[trigger] c.legs()[i]).leg_id
            == d.legs()[i].leg_id by {
            assert(leg_ids(c)[i] == leg_ids(d)[i]);
        }
        distinct_kept(c, d);
        found_where_it_stands(d, k - 1);
        let id = ids[k - 1];
        assert(d.legs()[k - 1].leg_id == id);
        let l = LegView { state: LegState::Terminated, ..d.legs()[k - 1] };
        replaced(d, id, l);
        let e = d.set_leg_state(id, LegState::Terminated);
        assert(e == d.with_leg(id, l));
        assert(leg_ids(e) =~= leg_ids(c)) by {
            assert forall|i: int| 0 <= i < leg_ids(c).len() implies #[trigger] leg_ids(e)[i]
                == leg_ids(c)[i] by {
                assert(leg_ids(d)[i] == leg_ids(c)[i]);
            }
        }
    } else {
        assert(ids.take(0).len() == 0);
    }
}

/// The rungs of a ledger go by the id their obligation gives them.
pub open spec fn rungs_are_keyed(ts: Seq<TimerEntryView>) -> bool {
    forall|i: int|
        0 <= i < ts.len() && ladder_of((#[trigger] ts[i]).timer_type) is Some ==> ts[i].id
            == timer_key(ts[i].timer_type, None)
}

proof fn keyed_after(ts: Seq<TimerEntryView>, p: spec_fn(TimerEntryView) -> bool)
    requires
        rungs_are_keyed(ts),
    ensures
        rungs_are_keyed(keep(ts, p)),
{
    keep_sound(ts, p);
    let k = keep(ts, p);
    assert forall|i: int| 0 <= i < k.len() && ladder_of(
        (#[trigger] k[i]).timer_type,
    ) is Some implies k[i].id
        == timer_key(k[i].timer_type, None) by {
        assert(ts.contains(k[i]));
        let j = choose|j: int| 0 <= j < ts.len() && ts[j] == k[i];
        assert(ts[j] == k[i]);
    }
}

/// Taking a timer off leaves the others, and none of its id.
proof fn scrubbed(w: WorkView, t: TimerTypeView)
    ensures
        ({
            let r = scrub_timer(w, t).call.timers;
            &&& forall|i: int| 0 <= i < r.len() ==> (#[trigger] r[i]).id != timer_key(t, None)
            &&& forall|i: int| 0 <= i < r.len() ==> w.call.timers.contains(#[trigger] r[i])
            &&& rungs_are_keyed(w.call.timers) ==> rungs_are_keyed(r)
        }),
{
    let id = timer_key(t, None);
    if w.call.has_timer(id) {
        keep_sound(w.call.timers, timer_not_named(id));
        if rungs_are_keyed(w.call.timers) {
            keyed_after(w.call.timers, timer_not_named(id));
        }
    }
}

proof fn clearing_keeps_the_timers(c: CallView, o: ObligationView)
    ensures
        cleared(c, o).timers == c.timers,
{
}

/// After ladders end, every timer was there before, and none is a rung of one
/// of them.
proof fn ladders_ended(w: WorkView, os: Seq<ObligationView>)
    requires
        rungs_are_keyed(w.call.timers),
    ensures
        ({
            let r = end_ladders(w, os).call.timers;
            &&& rungs_are_keyed(r)
            &&& forall|i: int| 0 <= i < r.len() ==> w.call.timers.contains(#[trigger] r[i])
            &&& forall|i: int|
                0 <= i < r.len() ==> match ladder_of((#[trigger] r[i]).timer_type) {
                    Some(o) => !os.contains(o),
                    None => true,
                }
        }),
    decreases os.len(),
{
    if os.len() > 0 {
        let o = os.last();
        let w1 = end_ladders(w, os.drop_last());
        ladders_ended(w, os.drop_last());
        let rung = TimerTypeView::Rung { obligation: o };
        let give_up = TimerTypeView::RepeatGiveUp { obligation: o };
        let w2 = scrub_timer(w1, rung);
        let w3 = scrub_timer(w2, give_up);
        scrubbed(w1, rung);
        scrubbed(w2, give_up);
        clearing_keeps_the_timers(w3.call, o);
        let r = w3.call.timers;
        assert(end_ladders(w, os).call.timers == r);
        assert forall|i: int| 0 <= i < r.len() implies w.call.timers.contains(#[trigger] r[i])
            && match ladder_of(r[i].timer_type) {
            Some(p) => !os.contains(p),
            None => true,
        } by {
            assert(w2.call.timers.contains(r[i]));
            let j = choose|j: int| 0 <= j < w2.call.timers.len() && w2.call.timers[j] == r[i];
            assert(w2.call.timers[j] == r[i]);
            assert(w1.call.timers.contains(w2.call.timers[j]));
            let m = choose|m: int| 0 <= m < w1.call.timers.len() && w1.call.timers[m] == r[i];
            assert(w1.call.timers[m] == r[i]);
            match ladder_of(r[i].timer_type) {
                Some(p) => {
                    assert(r[i].id == timer_key(r[i].timer_type, None));
                    if os.contains(p) {
                        let q = choose|q: int| 0 <= q < os.len() && os[q] == p;
                        if q < os.len() - 1 {
                            assert(os.drop_last()[q] == p);
                            assert(os.drop_last().contains(p));
                        } else {
                            assert(p == o);
                            assert(r[i].timer_type == rung || r[i].timer_type == give_up);
                        }
                    }
                },
                None => {},
            }
        }
    } else {
        let ts = w.call.timers;
        assert forall|i: int| 0 <= i < ts.len() implies ts.contains(#[trigger] ts[i]) by {}
    }
}

/// Every obligation a timer carries is among those that ending a call ends.
proof fn timers_are_covered(os: Seq<ObligationView>, ts: Seq<TimerEntryView>, i: int)
    requires
        0 <= i < ts.len(),
    ensures
        match ladder_of(ts[i].timer_type) {
            Some(o) => with_timers(os, ts).contains(o),
            None => true,
        },
    decreases ts.len(),
{
    let r = with_timers(os, ts.drop_last());
    match ladder_of(ts[i].timer_type) {
        Some(o) => {
            if i < ts.len() - 1 {
                timers_are_covered(os, ts.drop_last(), i);
                let j = choose|j: int| 0 <= j < r.len() && r[j] == o;
                assert(with_timers(os, ts)[j] == o);
            } else if !r.contains(o) {
                assert(with_timers(os, ts)[r.len() as int] == o);
            }
        },
        None => {},
    }
}

/// Every timer of one ledger stands on the other.
spec fn within(ts: Seq<TimerEntryView>, all: Seq<TimerEntryView>) -> bool {
    forall|i: int| 0 <= i < ts.len() ==> all.contains(#[trigger] ts[i])
}

proof fn within_itself(ts: Seq<TimerEntryView>)
    ensures
        within(ts, ts),
{
    assert forall|i: int| 0 <= i < ts.len() implies ts.contains(#[trigger] ts[i]) by {}
}

proof fn within_through(a: Seq<TimerEntryView>, b: Seq<TimerEntryView>, c: Seq<TimerEntryView>)
    requires
        within(a, b),
        within(b, c),
    ensures
        within(a, c),
{
    assert forall|i: int| 0 <= i < a.len() implies c.contains(#[trigger] a[i]) by {
        assert(b.contains(a[i]));
        let j = choose|j: int| 0 <= j < b.len() && b[j] == a[i];
        assert(c.contains(b[j]));
    }
}

proof fn keyed_within(a: Seq<TimerEntryView>, b: Seq<TimerEntryView>)
    requires
        within(a, b),
        rungs_are_keyed(b),
    ensures
        rungs_are_keyed(a),
{
    assert forall|i: int| 0 <= i < a.len() && ladder_of(
        (#[trigger] a[i]).timer_type,
    ) is Some implies a[i].id
        == timer_key(a[i].timer_type, None) by {
        assert(b.contains(a[i]));
        let j = choose|j: int| 0 <= j < b.len() && b[j] == a[i];
        assert(b[j] == a[i]);
    }
}

proof fn reject_each_keeps_the_timers(
    w: WorkView,
    leg_id: Seq<char>,
    to_leg: Seq<char>,
    xs: Seq<(Seq<char>, PendingRequestView)>,
)
    ensures
        reject_each(w, leg_id, to_leg, xs).call.timers == w.call.timers,
    decreases xs.len(),
{
    if xs.len() > 0 {
        reject_each_keeps_the_timers(w, leg_id, to_leg, xs.drop_last());
    }
}

proof fn telling_keeps_the_timers(
    w: WorkView,
    l: LegView,
    reason: Option<Seq<char>>,
    relayed: Seq<SipHeaderView>,
    hops: Option<u32>,
)
    ensures
        end_leg(w, l, reason, relayed, hops).call.timers == w.call.timers,
{
    reveal(end_leg);
    reveal(reject_pending_non_invites);
    let id = l.leg_id;
    let c1 = if id == w.call.a_leg.leg_id {
        w.call.set_bye_disposition(id, ByeDisposition::NotOwed)
    } else {
        w.call.set_bye_disposition(id, ByeDisposition::Cancelled).set_leg_disposition(
            id,
            LegDisposition::Cancelling,
        )
    };
    let w1 = if id == w.call.a_leg.leg_id {
        w.on(c1)
    } else {
        send_opt(w, cancel_toward(w.call, id, relayed)).on(c1)
    };
    match w1.call.leg(id) {
        Some(k) => {
            reject_each_keeps_the_timers(
                w1,
                id,
                originator(w1.call, id),
                non_invites(id, k.dialogs),
            );
        },
        None => {},
    }
}

proof fn telling_each_keeps_the_timers(
    w: WorkView,
    ls: Seq<LegView>,
    reason: Option<Seq<char>>,
    relayed: Seq<SipHeaderView>,
    hops: Option<u32>,
)
    ensures
        end_each(w, ls, reason, relayed, hops).call.timers == w.call.timers,
    decreases ls.len(),
{
    if ls.len() > 0 {
        telling_each_keeps_the_timers(w, ls.drop_last(), reason, relayed, hops);
        telling_keeps_the_timers(
            end_each(w, ls.drop_last(), reason, relayed, hops),
            ls.last(),
            reason,
            relayed,
            hops,
        );
    }
}

proof fn rejecting_adds_no_timer(w: WorkView, xs: Seq<(Seq<char>, PendingRequestView)>)
    requires
        rungs_are_keyed(w.call.timers),
    ensures
        within(reject_invites(w, xs).call.timers, w.call.timers),
    decreases xs.len(),
{
    within_itself(w.call.timers);
    if xs.len() > 0 {
        let w1 = reject_invites(w, xs.drop_last());
        rejecting_adds_no_timer(w, xs.drop_last());
        keyed_within(w1.call.timers, w.call.timers);
        within_itself(w1.call.timers);
        reveal(reject_pending_reinvite);
        reveal(commit_cancel);
        reveal(retire);
        let (leg_id, cseq) = (xs.last().0, xs.last().1.outbound_cseq);
        match pending_dialog(w1.call, leg_id, cseq) {
            Some(d) => {
                let p = d.pending(cseq)->0;
                match (
                    origin_address(p),
                    reinvite_cancel(w1.call, leg_id, cseq),
                ) {
                    (Some(at), Some(e)) => {
                        let w2 = w1.send(
                            toward_originator(
                                snapshot_response(p, 487, "Request Terminated"@),
                                at,
                                originator(w1.call, leg_id),
                                Provenance::Authored,
                            ),
                        ).send(e).on(
                            w1.call.cancel_pending_request(
                                leg_id,
                                identity_tag(leg_id, d),
                                cseq,
                            ),
                        );
                        assert(w2.call.timers == w1.call.timers);
                        ladders_ended(
                            w2,
                            ladders_in(w2.call, ScopeView::Transaction { leg_id, cseq }),
                        );
                    },
                    _ => {},
                }
            },
            None => {},
        }
        within_through(reject_invites(w, xs).call.timers, w1.call.timers, w.call.timers);
    }
}

/// A terminating call waits for nothing but its legs: no ring deadline and no
/// watchdog of a service is left on its ledger, and nothing is repeated.
pub proof fn nothing_waits_in_a_terminating_call(
    x: ExecView,
    w: WorkView,
    ctx: RuleContextView,
    reason: Option<Seq<char>>,
)
    requires
        rungs_are_keyed(w.call.timers),
    ensures
        ({
            let ts = x.begin_termination(w, ctx, reason).call.timers;
            forall|i: int|
                0 <= i < ts.len() ==> !is_idle()(#[trigger] ts[i]) && ladder_of(ts[i].timer_type) is None
        }),
{
    reveal(ExecView::begin_termination);
    reveal(ExecView::schedule);
    reveal(wound_down);
    reveal(scrub_idle);
    reveal(retire);
    reveal(termination_begun);
    let c1 = w.call.record_termination(x.now_ms, reason, Some(ctx.source_leg_id));
    let w2 = reject_invites(w.on(c1), leg_invites(c1.legs()));
    rejecting_adds_no_timer(w.on(c1), leg_invites(c1.legs()));
    keyed_within(w2.call.timers, w.call.timers);
    let cause = stated_cause(reason);
    let relayed = teardown_headers(ctx);
    let hops = teardown_hops(ctx);
    telling_each_keeps_the_timers(w2, w2.call.legs(), cause, relayed, hops);
    let w3 = end_each(w2, w2.call.legs(), cause, relayed, hops);
    let w4 = scrub_idle(w3);
    keep_sound(w3.call.timers, is_not_idle());
    keyed_after(w3.call.timers, is_not_idle());
    let os = ladders_in(w4.call, ScopeView::Call);
    ladders_ended(w4, os);
    let r = end_ladders(w4, os).call.timers;
    assert forall|i: int| 0 <= i < r.len() implies !is_idle()(#[trigger] r[i]) && ladder_of(
        r[i].timer_type,
    ) is None by {
        assert(w4.call.timers.contains(r[i]));
        let j = choose|j: int| 0 <= j < w4.call.timers.len() && w4.call.timers[j] == r[i];
        assert(is_not_idle()(w4.call.timers[j]));
        timers_are_covered(
            obligations(w4.call, ScopeView::Call),
            w4.call.timers,
            j,
        );
    }
    let e = x.entry(TimerTypeView::TerminatingTimeout, TERMINATING_TIMEOUT_MS, None);
    keep_sound(r, timer_not_named(e.id));
    let ts = x.begin_termination(w, ctx, reason).call.timers;
    let kept = keep(r, timer_not_named(e.id));
    assert(ts == kept.push(e));
    assert forall|i: int| 0 <= i < ts.len() implies !is_idle()(#[trigger] ts[i]) && ladder_of(
        ts[i].timer_type,
    ) is None by {
        if i < kept.len() {
            assert(r.contains(kept[i]));
            let j = choose|j: int| 0 <= j < r.len() && r[j] == kept[i];
            assert(!is_idle()(r[j]));
        }
    }
}

// ── one ladder ──────────────────────────────────────────────────────────
proof fn clearing_forgets(c: CallView, o: ObligationView)
    ensures
        retained(cleared(c, o), o) is None,
{
    match o {
        ObligationView::AckOf2xx { leg, dialog_tag, cseq } => match c.leg(leg) {
            Some(l) => if l.dialogs.len() > 0 {
                replaced(c, leg, l);
                let e = l.dialogs[0].ext;
                let n = DialogExtView {
                    answered_2xx: if owed(e.answered_2xx, dialog_tag, cseq) {
                        None
                    } else {
                        e.answered_2xx
                    },
                    pending_reinvite_2xx: if owed(
                        e.pending_reinvite_2xx,
                        dialog_tag,
                        cseq,
                    ) {
                        None
                    } else {
                        e.pending_reinvite_2xx
                    },
                    ..e
                };
                let d = DialogView { ext: n, ..l.dialogs[0] };
                let l2 = LegView { dialogs: l.dialogs.update(0, d), ..l };
                leg_of_with_leg(c, leg, l2);
            },
            None => {},
        },
        ObligationView::PrackOf { a_tag, a_rseq } => {
            let p = shown_as(a_tag, a_rseq);
            let rs = c.reliable_provisionals;
            first_where_found(rs, p);
            match first_where(rs, p) {
                Some(i) => {
                    let ts = cleared(c, o).reliable_provisionals;
                    assert(is_first(ts, p, i)) by {
                        assert forall|j: int| 0 <= j < i implies !p(#[trigger] ts[j]) by {
                            assert(!p(rs[j]));
                        }
                    }
                    first_where_is(ts, p, i);
                },
                None => {},
            }
        },
    }
}

/// A ladder that ended has no rung and no give-up left on the ledger, and
/// nothing left to repeat.
pub proof fn an_ended_ladder_leaves_nothing(w: WorkView, o: ObligationView)
    ensures
        ({
            let c = retire(w, ScopeView::One { obligation: o }).call;
            &&& retained(c, o) is None
            &&& !c.has_timer(timer_key(TimerTypeView::Rung { obligation: o }, None))
            &&& !c.has_timer(timer_key(TimerTypeView::RepeatGiveUp { obligation: o }, None))
        }),
{
    reveal(retire);
    let os = ladders_in(w.call, ScopeView::One { obligation: o });
    assert(os == seq![o]);
    assert(os.drop_last().len() == 0);
    let rung = TimerTypeView::Rung { obligation: o };
    let give_up = TimerTypeView::RepeatGiveUp { obligation: o };
    let w1 = scrub_timer(w, rung);
    let w2 = scrub_timer(w1, give_up);
    scrubbed(w, rung);
    scrubbed(w1, give_up);
    clearing_forgets(w2.call, o);
    clearing_keeps_the_timers(w2.call, o);
    assert(end_ladders(w, os.drop_last()) == w);
    assert(end_ladders(w, os) == end_ladder(w, o));
    let ts = w2.call.timers;
    assert forall|i: int| 0 <= i < ts.len() implies (#[trigger] ts[i]).id != timer_key(rung, None) by {
        assert(w1.call.timers.contains(ts[i]));
        let j = choose|j: int| 0 <= j < w1.call.timers.len() && w1.call.timers[j] == ts[i];
        assert(w1.call.timers[j].id != timer_key(rung, None));
    }
}

/// An acknowledgement silences the ladder it names: a rung that still fires
/// sends nothing.
pub proof fn an_acknowledgement_silences_its_ladder(
    x: ExecView,
    w: WorkView,
    e: CallEventView,
    leg: Seq<char>,
)
    requires
        discharged_by(w.call, e, leg) is Some,
    ensures
        ({
            let o = discharged_by(w.call, e, leg)->0;
            let w1 = discharge(w, e, leg);
            &&& retained(w1.call, o) is None
            &&& x.repeat(w1, o).fx.outbound == w1.fx.outbound
        }),
{
    reveal(discharge);
    reveal(ExecView::repeat);
    let o = discharged_by(w.call, e, leg)->0;
    an_ended_ladder_leaves_nothing(w, o);
    ladders_send_nothing(discharge(w, e, leg), ScopeView::One { obligation: o });
}

proof fn ladders_send_nothing(w: WorkView, s: ScopeView)
    ensures
        retire(w, s).fx.outbound == w.fx.outbound,
{
    reveal(retire);
    each_sends_nothing(w, ladders_in(w.call, s));
}

proof fn each_sends_nothing(w: WorkView, os: Seq<ObligationView>)
    ensures
        end_ladders(w, os).fx.outbound == w.fx.outbound,
    decreases os.len(),
{
    if os.len() > 0 {
        each_sends_nothing(w, os.drop_last());
    }
}

/// An ACK is told apart from its repeat: once it has discharged its ladder, the
/// same ACK discharges nothing.
pub proof fn an_ack_discharges_once(w: WorkView, e: CallEventView, leg: Seq<char>)
    requires
        discharged_by(w.call, e, leg) is Some,
        discharged_by(w.call, e, leg)->0 is AckOf2xx,
    ensures
        discharged_by(discharge(w, e, leg).call, e, leg) is None,
{
    reveal(discharge);
    an_ended_ladder_leaves_nothing(w, discharged_by(w.call, e, leg)->0);
}

/// An ACK or PRACK discharges what it names once: the ladder has no timer left
/// and nothing to repeat, and the same message names nothing live any more. Any
/// other message changes nothing.
pub proof fn an_acknowledgement_discharges_once(w: WorkView, e: CallEventView, leg: Seq<char>)
    requires
        rungs_are_keyed(w.call.timers),
    ensures
        ({
            let w1 = discharge(w, e, leg);
            match discharged_by(w.call, e, leg) {
                Some(o) => {
                    &&& e matches CallEventView::Request { request } && (request.method
                        == MethodView::Ack || request.method == MethodView::Prack)
                    &&& !ladder_runs(w1.call, o)
                    &&& retained(w1.call, o) is None
                    &&& discharged_by(w1.call, e, leg) is None
                },
                None => w1 == w,
            }
        }),
{
    reveal(discharge);
    match discharged_by(w.call, e, leg) {
        Some(o) => {
            an_ended_ladder_leaves_nothing(w, o);
            reveal(retire);
            let os = ladders_in(w.call, ScopeView::One { obligation: o });
            assert(os == seq![o]);
            ladders_ended(w, os);
            assert(os.contains(os[0]));
        },
        None => {},
    }
}

/// A rung is armed only while the bound is not reached, and no wait between two
/// copies of a 2xx is longer than T2.
pub proof fn rungs_stay_within_the_bound(c: CallView, o: ObligationView, bound_ms: i64)
    requires
        advanced(c, o, bound_ms).1 is Some,
    ensures
        retained(c, o) is Some,
        paced_on(retained(c, o)->0).elapsed_ms < bound_ms,
        advanced(c, o, bound_ms).1 == Some(paced_on(retained(c, o)->0).interval_ms),
        retained(c, o)->0.class == LadderClass::Final2xx ==> advanced(c, o, bound_ms).1->0 <= T2_MS,
{
}

} // verus!
