//! What is kept to be sent again, how often it is, and under what number a reliable
//! provisional is shown.
use vstd::prelude::*;

use crate::action::{MessageTransformView, NewDialogAnswerView, RuleActionView};
use crate::actions::dialog_track::{retagged, with_answer_sdp, with_early_dialog};
use crate::actions::ended::{found_alike, retiring_keeps_faces, same_wire};
use crate::actions::ladder::{
    ack_owed, end_ladders, first_emission, ladders_in, retire, scrub_timers, unacked,
};
use crate::actions::noted::repeats;
use crate::actions::relay_response::{
    body_taken, caller_lines, caller_plan, carried, CarriedView, numbered, raised_here, reason_of,
    restating, status_of,
};
use crate::actions::respond::{new_dialog_plan, with_final_sent};
use crate::actions::select::toward_originator;
use crate::actions::stated::{
    a_callees_response_reaches_the_caller, answers_no_relay, numbering_is_quiet, relays,
    retaining_a_provisional_is_quiet, retaining_an_answer_is_quiet, retiring_is_quiet,
    scheduling_is_quiet, the_callers_dialog_is_quiet,
};
use crate::actions::{ExecView, WorkView};
use crate::books::{
    advanced, cleared, first_ext, paced_on, retained, ScopeView, shown_as, with_first_ext,
};
use crate::call::{
    CallModelState, CallView, DestinationView, DialogExtView, DialogView, EmissionView, LadderClass,
    LegState, LegView, ObligationView, ReliableProvisional, ReliableProvisionalView,
    ResponsePlanView, TimerTypeView, Unacked2xxView,
};
use crate::context::timer_key;
use crate::effects::{CriticalEffectView, OutboundBodyView, OutboundSipView, Provenance};
use crate::headers::{has_header, header_named, rseq_of};
use crate::lens::{leg_named, leg_of_with_leg, timer_not_named};
use crate::model::RuleContextView;
use crate::reliable::{raised_under, recorded, repeats_reliable, tag_or_empty};
use crate::seqs::{find_where, first_where, first_where_found, first_where_is, is_first, keep_sound};
use crate::text::{same_ignoring_case, signed_text};
use crate::wire::{HostPortView, MethodView, SipHeaderView, SipResponseView};

verus! {

// ── what is kept to be repeated ─────────────────────────────────────────
/// The driver is told to wake the call for that at that moment.
pub open spec fn is_armed(
    critical: Seq<CriticalEffectView>,
    t: TimerTypeView,
    at: int,
) -> bool {
    exists|i: int|
        0 <= i < critical.len() && {
            &&& (#[trigger] critical[i]) is ScheduleTimer
            &&& critical[i]->entry.timer_type == t
            &&& critical[i]->entry.fire_at == at
            &&& critical[i]->entry.leg_id is None
        }
}

/// A 2xx is kept, just as it was sent, until the ACK of its tag and number comes:
/// it goes out again half a second from now, and is given up at the deployment's
/// deadline.
pub open spec fn is_kept(
    x: ExecView,
    r: WorkView,
    kept: Option<Unacked2xxView>,
    e: OutboundSipView,
    leg: Seq<char>,
) -> bool {
    let sent = e.body->Response_response;
    let tag = if sent.to_tag is Some {
        sent.to_tag->0
    } else {
        Seq::empty()
    };
    let o = ObligationView::AckOf2xx { leg, dialog_tag: tag, cseq: sent.cseq };
    &&& kept is Some
    &&& kept->0.dialog_tag == tag
    &&& kept->0.cseq == sent.cseq
    &&& kept->0.emission.response == sent
    &&& kept->0.emission.destination == e.destination
    &&& kept->0.emission.class == LadderClass::Final2xx
    &&& kept->0.emission.interval_ms == 500
    &&& kept->0.emission.elapsed_ms == 500
    &&& x.now_ms + 500 <= i64::MAX ==> is_armed(
        r.fx.critical,
        TimerTypeView::Rung { obligation: o },
        x.now_ms + 500,
    )
    &&& i64::MIN <= x.now_ms + x.config.ack_timeout_ms <= i64::MAX ==> is_armed(
        r.fx.critical,
        TimerTypeView::RepeatGiveUp { obligation: o },
        x.now_ms + x.config.ack_timeout_ms,
    )
}

proof fn both_are_armed(x: ExecView, w: WorkView, o: ObligationView, ms: i64)
    ensures
        ({
            let r = x.schedule(
                x.schedule(w, TimerTypeView::Rung { obligation: o }, 500, None),
                TimerTypeView::RepeatGiveUp { obligation: o },
                ms,
                None,
            );
            &&& CallView { timers: w.call.timers, ..r.call } == w.call
            &&& x.now_ms + 500 <= i64::MAX ==> is_armed(
                r.fx.critical,
                TimerTypeView::Rung { obligation: o },
                x.now_ms + 500,
            )
            &&& i64::MIN <= x.now_ms + ms <= i64::MAX ==> is_armed(
                r.fx.critical,
                TimerTypeView::RepeatGiveUp { obligation: o },
                x.now_ms + ms,
            )
        }),
{
    reveal(ExecView::schedule);
    let r = x.schedule(
        x.schedule(w, TimerTypeView::Rung { obligation: o }, 500, None),
        TimerTypeView::RepeatGiveUp { obligation: o },
        ms,
        None,
    );
    let n = w.fx.critical.len() as int;
    assert(r.fx.critical[n] is ScheduleTimer);
    assert(r.fx.critical[n + 1] is ScheduleTimer);
}

/// The answer the caller is sent is kept on its dialog.
pub proof fn an_answer_is_kept_for_its_ack(
    x: ExecView,
    w: WorkView,
    plan: ResponsePlanView,
    provenance: Provenance,
)
    requires
        w.call.a_leg.dialogs.len() > 0,
    ensures
        ({
            let r = x.send_a_leg_answer(w, plan, provenance);
            let e = r.fx.outbound.last();
            &&& r.fx.outbound == w.fx.outbound.push(e)
            &&& e.body == OutboundBodyView::Response { response: plan }
            &&& r.call.a_leg.dialogs.len() == w.call.a_leg.dialogs.len()
            &&& r.call.a_leg.dialogs[0].sip == w.call.a_leg.dialogs[0].sip
            &&& is_kept(
                x,
                r,
                r.call.a_leg.dialogs[0].ext.answered_2xx,
                e,
                w.call.a_leg.leg_id,
            )
        }),
{
    reveal(ExecView::send_a_leg_answer);
    reveal(ExecView::retain_a_leg_answer);
    reveal(ExecView::arm_ack_ladder);
    retiring_is_quiet();
    retiring_keeps_faces();
    let w1 = retire(w, ScopeView::Provisionals);
    found_alike(w1.call, w.call, w.call.a_leg.leg_id, true);
    assert(same_wire(w1.call.a_leg.dialogs[0], w.call.a_leg.dialogs[0], true));
    let leg = w1.call.a_leg.leg_id;
    let ext = w1.call.a_leg.dialogs[0].ext;
    let c = with_first_ext(
        w1.call,
        leg,
        DialogExtView { answered_2xx: Some(unacked(plan, DestinationView::TopVia)), ..ext },
    );
    both_are_armed(x, w1.on(c), ack_owed(plan, leg), x.config.ack_timeout_ms);
    scheduling_is_quiet();
}

/// The answer to a re-INVITE is kept on the first dialog of the leg it went to.
pub proof fn a_reinvites_answer_is_kept_for_its_ack(
    x: ExecView,
    w: WorkView,
    plan: ResponsePlanView,
    at: HostPortView,
    leg: Seq<char>,
    provenance: Provenance,
)
    requires
        w.call.leg(leg) is Some,
        w.call.leg(leg)->0.dialogs.len() > 0,
    ensures
        ({
            let r = x.retain_reinvite_2xx(w, plan, DestinationView::Address { at }, leg);
            let e = toward_originator(plan, at, leg, provenance);
            &&& r.fx.outbound == w.fx.outbound
            &&& r.call.leg(leg) is Some
            &&& r.call.leg(leg)->0.dialogs.len() > 0
            &&& is_kept(x, r, r.call.leg(leg)->0.dialogs[0].ext.pending_reinvite_2xx, e, leg)
        }),
{
    reveal(ExecView::retain_reinvite_2xx);
    reveal(ExecView::arm_ack_ladder);
    let l = w.call.leg(leg)->0;
    let ext = l.dialogs[0].ext;
    let d = DialogView {
        ext: DialogExtView {
            pending_reinvite_2xx: Some(unacked(plan, DestinationView::Address { at })),
            ..ext
        },
        ..l.dialogs[0]
    };
    let l1 = LegView { dialogs: l.dialogs.update(0, d), ..l };
    leg_id_of_found(w.call, leg);
    leg_of_with_leg(w.call, leg, l1);
    both_are_armed(
        x,
        w.on(w.call.with_leg(leg, l1)),
        ack_owed(plan, leg),
        x.config.ack_timeout_ms,
    );
    scheduling_is_quiet();
}

proof fn leg_id_of_found(c: CallView, id: Seq<char>)
    requires
        c.leg(id) is Some,
    ensures
        c.leg(id)->0.leg_id == id,
{
    first_where_found(c.b_legs, leg_named(id));
}

/// A callee's answer that reaches the caller is kept until the caller's ACK.
pub proof fn a_relayed_answer_is_kept_for_its_ack(
    x: ExecView,
    w: WorkView,
    ctx: RuleContextView,
    a: RuleActionView,
    t: MessageTransformView,
    resp: SipResponseView,
)
    requires
        relays(w, ctx, a, t),
        ctx.response() == Some(resp),
        resp.method == MethodView::Invite,
        answers_no_relay(ctx, resp),
        !repeats_reliable(w.call, ctx.source_leg_id, resp),
        w.call.a_leg.invite_final_sent is None,
    ensures
        ({
            let r = x.apply(w, a, ctx);
            let e = r.fx.outbound.last();
            200 <= e.body->Response_response.status < 300 && r.call.a_leg.dialogs.len() > 0
                ==> is_kept(
                x,
                r,
                r.call.a_leg.dialogs[0].ext.answered_2xx,
                e,
                w.call.a_leg.leg_id,
            )
        }),
{
    a_callees_response_reaches_the_caller(x, w, ctx, a, t, resp);
    reveal(ExecView::apply);
    reveal(ExecView::relay_to_peer);
    reveal(ExecView::relay_to);
    reveal(ExecView::relay_response);
    let c1 = body_taken(w.call, t);
    let w1 = w.on(c1);
    let tag = tag_or_empty(resp.to_tag);
    let b = carried(w.call, t, resp);
    the_callers_dialog_is_quiet();
    if 100 <= resp.status < 300 && tag.len() > 0 && ctx.source_leg_id != "a"@ {
        reveal(ExecView::relay_fork);
        reveal(with_early_dialog);
        reveal(ExecView::face_for);
        let c2 = with_early_dialog(x.config, c1, ctx.source_leg_id, resp, tag);
        let (w2, face) = x.face_for(w1.on(c2), ctx.source_leg_id, tag);
        the_caller_is_kept(x, w2, ctx, t, resp, b, face, false);
    } else {
        let (w2, face) = x.ensure_a_dialog(w1, None);
        the_caller_is_kept(x, w2, ctx, t, resp, b, face, true);
    }
}

proof fn the_caller_is_kept(
    x: ExecView,
    w: WorkView,
    ctx: RuleContextView,
    t: MessageTransformView,
    resp: SipResponseView,
    b: CarriedView,
    tag: Seq<char>,
    ends_setup: bool,
)
    requires
        w.call.a_leg.invite_final_sent is None,
    ensures
        ({
            let r = x.relay_to_caller(w, ctx, t, resp, b, tag, ends_setup);
            let e = r.fx.outbound.last();
            200 <= e.body->Response_response.status < 300 && r.call.a_leg.dialogs.len() > 0
                ==> is_kept(
                x,
                r,
                r.call.a_leg.dialogs[0].ext.answered_2xx,
                e,
                w.call.a_leg.leg_id,
            )
        }),
{
    reveal(ExecView::relay_to_caller);
    numbering_is_quiet();
    retiring_is_quiet();
    retaining_a_provisional_is_quiet();
    let status = status_of(t, resp);
    let hs = caller_lines(w.call, t, resp, status, b.source);
    let (w1, hs1, own) = numbered(w, tag, w.call.a_leg_invite.cseq, ctx.source_leg_id, resp, hs);
    let plan = caller_plan(w1.call, status, reason_of(t, resp), tag, b, hs1);
    let w2 = w1.on(with_final_sent(w1.call, status));
    let r = x.relay_to_caller(w, ctx, t, resp, b, tag, ends_setup);
    assert(r.fx.outbound.last().body->Response_response == plan) by {
        reveal(ExecView::send_a_leg_answer);
        retaining_an_answer_is_quiet();
    }
    if 200 <= status < 300 {
        if w2.call.a_leg.dialogs.len() > 0 {
            an_answer_is_kept_for_its_ack(x, w2, plan, Provenance::Relayed);
        } else {
            no_dialog_is_made(x, w2, plan, Provenance::Relayed);
        }
    }
}

proof fn no_dialog_is_made(
    x: ExecView,
    w: WorkView,
    plan: ResponsePlanView,
    provenance: Provenance,
)
    requires
        w.call.a_leg.dialogs.len() == 0,
    ensures
        x.send_a_leg_answer(w, plan, provenance).call.a_leg.dialogs.len() == 0,
{
    reveal(ExecView::send_a_leg_answer);
    reveal(ExecView::retain_a_leg_answer);
    reveal(ExecView::arm_ack_ladder);
    retiring_keeps_faces();
    let w1 = retire(w, ScopeView::Provisionals);
    found_alike(w1.call, w.call, w.call.a_leg.leg_id, true);
    assert(first_ext(w1.call, w1.call.a_leg.leg_id) is None);
    both_are_armed(x, w1, ack_owed(plan, w1.call.a_leg.leg_id), x.config.ack_timeout_ms);
}

/// The answer that opens a dialog of its own toward the caller is kept until its
/// ACK, too.
pub proof fn a_new_dialogs_answer_is_kept_for_its_ack(
    x: ExecView,
    w: WorkView,
    ctx: RuleContextView,
    answer: NewDialogAnswerView,
)
    requires
        200 <= answer.status < 300,
        w.call.a_leg.invite_final_sent is None,
    ensures
        ({
            let r = x.apply(w, RuleActionView::AnswerALegNewDialog { answer }, ctx);
            let e = r.fx.outbound.last();
            &&& r.call.a_leg.dialogs.len() > 0
            &&& is_kept(
                x,
                r,
                r.call.a_leg.dialogs[0].ext.answered_2xx,
                e,
                w.call.a_leg.leg_id,
            )
        }),
{
    reveal(ExecView::apply);
    reveal(ExecView::answer_a_leg_new_dialog);
    reveal(ExecView::ensure_a_dialog);
    reveal(ExecView::anchor_at_answer);
    let (w1, tag) = match answer.to_tag {
        Some(t) => (w, t),
        None => (w.minted(), w.ids.tag()),
    };
    let plan = new_dialog_plan(w1.call, tag, answer);
    let w2 = w1.on(with_final_sent(w1.call, answer.status));
    let w3 = x.ensure_a_dialog(w2, Some(tag)).0;
    let c4 = retagged(w3.call, tag);
    let c5 = if answer.body.len() > 0 {
        with_answer_sdp(c4, answer.body)
    } else {
        c4
    };
    an_answer_is_kept_for_its_ack(x, w3.on(c5), plan, Provenance::Authored);
    let w6 = x.send_a_leg_answer(w3.on(c5), plan, Provenance::Authored);
    let r = x.apply(w, RuleActionView::AnswerALegNewDialog { answer }, ctx);
    reveal(ExecView::send_a_leg_answer);
    reveal(ExecView::retain_a_leg_answer);
    reveal(ExecView::arm_ack_ladder);
    scheduling_is_quiet();
    retiring_is_quiet();
    retaining_an_answer_is_quiet();
    assert(w6.call.a_leg.leg_id == w.call.a_leg.leg_id);
    let w7 = w6.on(w6.call.set_leg_state(w6.call.a_leg.leg_id, LegState::Confirmed));
    assert(w7.call.a_leg.dialogs == w6.call.a_leg.dialogs);
    still_armed(x, w7);
    let e = w6.fx.outbound.last();
    let o = ack_owed(plan, w.call.a_leg.leg_id);
    if x.now_ms + 500 <= i64::MAX {
        assert(is_armed(
            w6.fx.critical,
            TimerTypeView::Rung { obligation: o },
            x.now_ms + 500,
        ));
    }
}

proof fn still_armed(x: ExecView, w: WorkView)
    ensures
        ({
            let r = x.anchor_at_answer(w);
            &&& r.call.a_leg == w.call.a_leg
            &&& r.fx.outbound == w.fx.outbound
            &&& forall|t: TimerTypeView, at: int|
                is_armed(w.fx.critical, t, at) ==> #[trigger] is_armed(r.fx.critical, t, at)
        }),
{
    reveal(ExecView::anchor_at_answer);
    reveal(ExecView::schedule);
    let r = x.anchor_at_answer(w);
    assert forall|t: TimerTypeView, at: int|
        is_armed(w.fx.critical, t, at) implies #[trigger] is_armed(r.fx.critical, t, at) by {
        let i = choose|i: int|
            0 <= i < w.fx.critical.len() && {
                &&& (#[trigger] w.fx.critical[i]) is ScheduleTimer
                &&& w.fx.critical[i]->entry.timer_type == t
                &&& w.fx.critical[i]->entry.fire_at == at
                &&& w.fx.critical[i]->entry.leg_id is None
            };
        assert(r.fx.critical[i] == w.fx.critical[i]);
    }
}

// ── what a rung sends ───────────────────────────────────────────────────
/// A rung of a 2xx sends what is kept, unchanged; the wait before the next is twice
/// the last, four seconds at most, and there is no next at or past the deadline.
pub proof fn a_rung_repeats_the_answer(
    x: ExecView,
    w: WorkView,
    leg: Seq<char>,
    dialog_tag: Seq<char>,
    cseq: i64,
    u: Unacked2xxView,
)
    requires
        w.call.state == CallModelState::Active,
        w.call.leg(leg) is Some,
        w.call.leg(leg)->0.dialogs.len() > 0,
        w.call.leg(leg)->0.dialogs[0].ext.answered_2xx == Some(u),
        u.dialog_tag == dialog_tag,
        u.cseq == cseq,
        u.emission.class == LadderClass::Final2xx,
        0 <= u.emission.interval_ms <= 4000,
        0 <= u.emission.elapsed_ms <= 1000000,
    ensures
        ({
            let o = ObligationView::AckOf2xx { leg, dialog_tag, cseq };
            let r = x.repeat(w, o);
            let e = r.fx.outbound.last();
            let twice = 2 * u.emission.interval_ms;
            let wait = if twice > 4000 {
                4000
            } else {
                twice
            };
            let bound = if x.config.ack_timeout_ms < 32000 {
                x.config.ack_timeout_ms as int
            } else {
                32000
            };
            let goes_on = u.emission.elapsed_ms + wait < bound;
            let kept = r.call.leg(leg)->0.dialogs[0].ext.answered_2xx;
            &&& r.fx.outbound == w.fx.outbound.push(e)
            &&& repeats(e, u.emission, leg)
            &&& r.call.leg(leg) is Some
            &&& r.call.leg(leg)->0.dialogs.len() > 0
            &&& kept is Some
            &&& kept->0.dialog_tag == dialog_tag
            &&& kept->0.cseq == cseq
            &&& kept->0.emission.response == u.emission.response
            &&& kept->0.emission.destination == u.emission.destination
            &&& goes_on ==> {
                &&& kept->0.emission.interval_ms == wait
                &&& kept->0.emission.elapsed_ms == u.emission.elapsed_ms + wait
                &&& x.now_ms + wait <= i64::MAX ==> is_armed(
                    r.fx.critical,
                    TimerTypeView::Rung { obligation: o },
                    x.now_ms + wait,
                )
            }
            &&& !goes_on ==> {
                &&& kept == Some(u)
                &&& !r.call.has_timer(timer_key(TimerTypeView::Rung { obligation: o }, None))
            }
        }),
{
    reveal(ExecView::repeat);
    reveal(ExecView::schedule);
    let o = ObligationView::AckOf2xx { leg, dialog_tag, cseq };
    let r = x.repeat(w, o);
    let l = w.call.leg(leg)->0;
    let ext = l.dialogs[0].ext;
    leg_id_of_found(w.call, leg);
    assert(retained(w.call, o) == Some(u.emission));
    let n = paced_on(u.emission);
    let d = DialogView {
        ext: DialogExtView {
            answered_2xx: Some(Unacked2xxView { emission: n, ..u }),
            ..ext
        },
        ..l.dialogs[0]
    };
    leg_of_with_leg(w.call, leg, LegView { dialogs: l.dialogs.update(0, d), ..l });
    let key = timer_key(TimerTypeView::Rung { obligation: o }, None);
    if advanced(w.call, o, x.ladder_bound(o)).1 is Some {
        let k = r.fx.critical.len() - 1;
        assert(r.fx.critical[k] is ScheduleTimer);
    } else {
        keep_sound(w.call.timers, timer_not_named(key));
        assert(!r.call.has_timer(key));
    }
}

/// A rung of a reliable provisional sends what is kept, unchanged, as long as the
/// leg that raised it stands; the wait before the next is twice the last.
pub proof fn a_rung_repeats_the_provisional(
    x: ExecView,
    w: WorkView,
    a_tag: Seq<char>,
    a_rseq: i64,
    shown: ReliableProvisionalView,
    kept: EmissionView,
)
    requires
        w.call.state == CallModelState::Active,
        find_where(w.call.reliable_provisionals, shown_as(a_tag, a_rseq)) == Some(shown),
        shown.emission == Some(kept),
        kept.class == LadderClass::ReliableProvisional,
        0 <= kept.interval_ms <= 1000000,
        0 <= kept.elapsed_ms <= 1000000,
        w.call.leg(shown.b_leg_id) is Some,
        w.call.leg(shown.b_leg_id)->0.state != LegState::Terminated,
    ensures
        ({
            let o = ObligationView::PrackOf { a_tag, a_rseq };
            let r = x.repeat(w, o);
            let e = r.fx.outbound.last();
            let wait = 2 * kept.interval_ms;
            let goes_on = kept.elapsed_ms + wait < 32000;
            let after = find_where(r.call.reliable_provisionals, shown_as(a_tag, a_rseq));
            &&& r.fx.outbound == w.fx.outbound.push(e)
            &&& e.leg_id is Some
            &&& repeats(e, kept, e.leg_id->0)
            &&& after is Some
            &&& goes_on ==> after->0.emission == Some(
                EmissionView {
                    interval_ms: wait as i64,
                    elapsed_ms: (kept.elapsed_ms + wait) as i64,
                    ..kept
                },
            )
            &&& goes_on && x.now_ms + wait <= i64::MAX ==> is_armed(
                r.fx.critical,
                TimerTypeView::Rung { obligation: o },
                x.now_ms + wait,
            )
            &&& !goes_on ==> after->0.emission is None
        }),
{
    reveal(ExecView::repeat);
    reveal(ExecView::schedule);
    let o = ObligationView::PrackOf { a_tag, a_rseq };
    let r = x.repeat(w, o);
    let p = shown_as(a_tag, a_rseq);
    let rs = w.call.reliable_provisionals;
    first_where_found(rs, p);
    let i = first_where(rs, p)->0;
    let n = paced_on(kept);
    let on = rs.update(i, ReliableProvisionalView { emission: Some(n), ..rs[i] });
    let off = rs.update(i, ReliableProvisionalView { emission: None, ..rs[i] });
    assert(is_first(on, p, i));
    first_where_is(on, p, i);
    assert(is_first(off, p, i));
    first_where_is(off, p, i);
    if advanced(w.call, o, x.ladder_bound(o)).1 is Some {
        let k = r.fx.critical.len() - 1;
        assert(r.fx.critical[k] is ScheduleTimer);
    }
}

/// A reliable provisional is kept, just as it is sent, the first time it is shown:
/// it goes out again half a second from now, and is given up after thirty-two.
pub proof fn a_provisional_is_kept_for_its_prack(
    x: ExecView,
    w: WorkView,
    plan: ResponsePlanView,
    to: DestinationView,
    a_tag: Seq<char>,
    a_rseq: i64,
    shown: ReliableProvisionalView,
)
    requires
        find_where(w.call.reliable_provisionals, shown_as(a_tag, a_rseq)) == Some(shown),
    ensures
        ({
            let o = ObligationView::PrackOf { a_tag, a_rseq };
            let r = x.arm_provisional(w, plan, to, a_tag, a_rseq);
            let after = find_where(r.call.reliable_provisionals, shown_as(a_tag, a_rseq));
            &&& r.fx.outbound == w.fx.outbound
            &&& shown.emission is Some ==> r == w
            &&& shown.emission is None ==> {
                &&& after == Some(
                    ReliableProvisionalView {
                        emission: Some(
                            EmissionView {
                                response: plan,
                                destination: to,
                                class: LadderClass::ReliableProvisional,
                                interval_ms: 500,
                                elapsed_ms: 500,
                            },
                        ),
                        ..shown
                    },
                )
                &&& x.now_ms + 500 <= i64::MAX ==> is_armed(
                    r.fx.critical,
                    TimerTypeView::Rung { obligation: o },
                    x.now_ms + 500,
                )
                &&& x.now_ms + 32000 <= i64::MAX ==> is_armed(
                    r.fx.critical,
                    TimerTypeView::RepeatGiveUp { obligation: o },
                    x.now_ms + 32000,
                )
            }
        }),
{
    reveal(ExecView::arm_provisional);
    scheduling_is_quiet();
    let o = ObligationView::PrackOf { a_tag, a_rseq };
    let p = shown_as(a_tag, a_rseq);
    let rs = w.call.reliable_provisionals;
    first_where_found(rs, p);
    let i = first_where(rs, p)->0;
    let e = first_emission(plan, to, LadderClass::ReliableProvisional);
    let on = rs.update(i, ReliableProvisionalView { emission: Some(e), ..rs[i] });
    assert(is_first(on, p, i));
    first_where_is(on, p, i);
    both_are_armed(
        x,
        w.on(recorded(w.call, a_tag, a_rseq, e).0),
        o,
        32000,
    );
}

// ── what number a provisional is shown under ────────────────────────────
/// The provisional of a responder's that a number stands for.
pub open spec fn stands_for(
    p: ReliableProvisionalView,
    tag: Seq<char>,
    source: Seq<char>,
    resp: SipResponseView,
    n: int,
) -> bool {
    &&& p.a_tag == tag
    &&& p.b_leg_id == source
    &&& p.b_tag == if resp.to_tag is Some {
        resp.to_tag->0
    } else {
        Seq::empty()
    }
    &&& p.b_cseq == resp.cseq
    &&& p.b_rseq == n
}

/// Every `RSeq` line is of a number the books have for that very provisional.
pub open spec fn is_numbered(
    c: CallView,
    headers: Seq<SipHeaderView>,
    tag: Seq<char>,
    source: Seq<char>,
    resp: SipResponseView,
) -> bool {
    rseq_of(resp) matches Some(n) ==> forall|h: SipHeaderView| #[trigger]
        headers.contains(h) && same_ignoring_case(h.name, "RSeq"@) ==> exists|i: int|
            0 <= i < c.reliable_provisionals.len() && stands_for(
                #[trigger] c.reliable_provisionals[i],
                tag,
                source,
                resp,
                n,
            ) && h.value == signed_text(c.reliable_provisionals[i].a_rseq as int)
}

/// A reliable provisional that is relayed goes under a number of this stack's own,
/// which the books keep for it.
pub proof fn a_number_stands_for_its_provisional(
    w: WorkView,
    tag: Seq<char>,
    cseq: i64,
    source: Seq<char>,
    resp: SipResponseView,
    hs: Seq<SipHeaderView>,
)
    ensures
        ({
            let (r, lines, own) = numbered(w, tag, cseq, source, resp, hs);
            &&& is_numbered(r.call, lines, tag, source, resp)
            &&& own matches Some(n) ==> exists|i: int|
                0 <= i < r.call.reliable_provisionals.len() && stands_for(
                    #[trigger] r.call.reliable_provisionals[i],
                    tag,
                    source,
                    resp,
                    rseq_of(resp)->0,
                ) && r.call.reliable_provisionals[i].a_rseq == n
            &&& lines.len() == hs.len()
            &&& rseq_of(resp) is None ==> own is None && lines == hs && r == w
        }),
{
    reveal(numbered);
    let (r, lines, own) = numbered(w, tag, cseq, source, resp, hs);
    if let Some(n) = rseq_of(resp) {
        if has_header(hs, "RSeq"@) {
            let raised = raised_here(tag, cseq, source, resp, n);
            let p = raised_under(
                raised.a_tag,
                raised.b_leg_id,
                raised.b_tag,
                raised.b_cseq,
                raised.b_rseq,
            );
            let rs = w.call.reliable_provisionals;
            first_where_found(rs, p);
            let i = match first_where(rs, p) {
                Some(i) => i,
                None => rs.len() as int,
            };
            assert(stands_for(r.call.reliable_provisionals[i], tag, source, resp, n));
            assert(r.call.reliable_provisionals[i].a_rseq == own->0);
            assert forall|h: SipHeaderView| #[trigger]
                lines.contains(h) && same_ignoring_case(h.name, "RSeq"@) implies h.value
                == signed_text(own->0 as int) by {
                let k = choose|k: int| 0 <= k < lines.len() && lines[k] == h;
                assert(lines[k] == restating(own->0)(hs[k]));
            }
        } else {
            assert forall|h: SipHeaderView| #[trigger] lines.contains(h) implies !same_ignoring_case(
                h.name,
                "RSeq"@,
            ) by {
                let k = choose|k: int| 0 <= k < hs.len() && hs[k] == h;
                first_where_found(hs, header_named("RSeq"@));
            }
        }
    }
}

/// The books list the same provisionals under the same numbers.
pub open spec fn same_numbers(c: CallView, d: CallView) -> bool {
    &&& c.reliable_provisionals.len() == d.reliable_provisionals.len()
    &&& forall|i: int|
        0 <= i < c.reliable_provisionals.len() ==> (#[trigger] c.reliable_provisionals[i])
            == (ReliableProvisionalView {
            emission: c.reliable_provisionals[i].emission,
            ..d.reliable_provisionals[i]
        })
}

proof fn ladders_keep_the_numbers(w: WorkView, os: Seq<ObligationView>)
    ensures
        same_numbers(w.call, end_ladders(w, os).call),
    decreases os.len(),
{
    if os.len() > 0 {
        ladders_keep_the_numbers(w, os.drop_last());
        let s = scrub_timers(end_ladders(w, os.drop_last()), os.last());
        if let ObligationView::PrackOf { a_tag, a_rseq } = os.last() {
            first_where_found(s.call.reliable_provisionals, shown_as(a_tag, a_rseq));
        }
        assert(same_numbers(s.call, cleared(s.call, os.last())));
    }
}

proof fn sending_keeps_the_numbers(
    x: ExecView,
    w: WorkView,
    plan: ResponsePlanView,
    to: DestinationView,
    tag: Seq<char>,
    n: i64,
    provenance: Provenance,
)
    ensures
        same_numbers(w.call, retire(w, ScopeView::Provisionals).call),
        same_numbers(w.call, x.send_a_leg_answer(w, plan, provenance).call),
        same_numbers(w.call, x.arm_provisional(w, plan, to, tag, n).call),
        same_numbers(
            w.call,
            x.arm_provisional(retire(w, ScopeView::Provisionals), plan, to, tag, n).call,
        ),
{
    reveal(ExecView::send_a_leg_answer);
    reveal(ExecView::retain_a_leg_answer);
    reveal(ExecView::arm_ack_ladder);
    reveal(ExecView::arm_provisional);
    reveal(ExecView::schedule);
    reveal(retire);
    ladders_keep_the_numbers(w, ladders_in(w.call, ScopeView::Provisionals));
    first_where_found(w.call.reliable_provisionals, shown_as(tag, n));
    let w1 = retire(w, ScopeView::Provisionals);
    first_where_found(w1.call.reliable_provisionals, shown_as(tag, n));
    assert(same_numbers(w1.call, x.arm_provisional(w1, plan, to, tag, n).call));
}

proof fn the_caller_sees_the_number(
    x: ExecView,
    w: WorkView,
    ctx: RuleContextView,
    t: MessageTransformView,
    resp: SipResponseView,
    b: CarriedView,
    tag: Seq<char>,
    ends_setup: bool,
)
    requires
        w.call.a_leg.invite_final_sent is None,
    ensures
        ({
            let r = x.relay_to_caller(w, ctx, t, resp, b, tag, ends_setup);
            let sent = r.fx.outbound.last().body->Response_response;
            &&& sent.to_tag == Some(tag)
            &&& is_numbered(r.call, sent.headers, tag, ctx.source_leg_id, resp)
        }),
{
    reveal(ExecView::relay_to_caller);
    numbering_is_quiet();
    retiring_is_quiet();
    retaining_a_provisional_is_quiet();
    let status = status_of(t, resp);
    let hs = caller_lines(w.call, t, resp, status, b.source);
    let (w1, hs1, own) = numbered(w, tag, w.call.a_leg_invite.cseq, ctx.source_leg_id, resp, hs);
    let plan = caller_plan(w1.call, status, reason_of(t, resp), tag, b, hs1);
    let w2 = w1.on(with_final_sent(w1.call, status));
    let r = x.relay_to_caller(w, ctx, t, resp, b, tag, ends_setup);
    assert(r.fx.outbound.last().body->Response_response == plan) by {
        reveal(ExecView::send_a_leg_answer);
        retaining_an_answer_is_quiet();
    }
    a_number_stands_for_its_provisional(
        w,
        tag,
        w.call.a_leg_invite.cseq,
        ctx.source_leg_id,
        resp,
        hs,
    );
    let n = if own is Some {
        own->0
    } else {
        0
    };
    sending_keeps_the_numbers(x, w2, plan, DestinationView::TopVia, tag, n, Provenance::Relayed);
    assert(same_numbers(w2.call, r.call));
    if let Some(k) = rseq_of(resp) {
        assert forall|h: SipHeaderView| #[trigger]
            hs1.contains(h) && same_ignoring_case(h.name, "RSeq"@) implies exists|i: int|
            0 <= i < r.call.reliable_provisionals.len() && stands_for(
                #[trigger] r.call.reliable_provisionals[i],
                tag,
                ctx.source_leg_id,
                resp,
                k,
            ) && h.value == signed_text(r.call.reliable_provisionals[i].a_rseq as int) by {
            let i = choose|i: int|
                0 <= i < w1.call.reliable_provisionals.len() && stands_for(
                    #[trigger] w1.call.reliable_provisionals[i],
                    tag,
                    ctx.source_leg_id,
                    resp,
                    k,
                ) && h.value == signed_text(w1.call.reliable_provisionals[i].a_rseq as int);
            assert(w2.call.reliable_provisionals[i] == w1.call.reliable_provisionals[i]);
            assert(stands_for(
                r.call.reliable_provisionals[i],
                tag,
                ctx.source_leg_id,
                resp,
                k,
            ));
        }
    }
}

/// A callee's reliable provisional that reaches the caller goes under a number of
/// this stack's own, which the books keep for it beside the tag it is shown under.
pub proof fn a_relayed_provisional_is_numbered(
    x: ExecView,
    w: WorkView,
    ctx: RuleContextView,
    a: RuleActionView,
    t: MessageTransformView,
    resp: SipResponseView,
)
    requires
        relays(w, ctx, a, t),
        ctx.response() == Some(resp),
        resp.method == MethodView::Invite,
        answers_no_relay(ctx, resp),
        !repeats_reliable(w.call, ctx.source_leg_id, resp),
        w.call.a_leg.invite_final_sent is None,
    ensures
        ({
            let r = x.apply(w, a, ctx);
            let sent = r.fx.outbound.last().body->Response_response;
            &&& sent.to_tag is Some
            &&& is_numbered(r.call, sent.headers, sent.to_tag->0, ctx.source_leg_id, resp)
        }),
{
    reveal(ExecView::apply);
    reveal(ExecView::relay_to_peer);
    reveal(ExecView::relay_to);
    reveal(ExecView::relay_response);
    let c1 = body_taken(w.call, t);
    let w1 = w.on(c1);
    let tag = tag_or_empty(resp.to_tag);
    let b = carried(w.call, t, resp);
    assert(!repeats_reliable(c1, ctx.source_leg_id, resp));
    the_callers_dialog_is_quiet();
    if 100 <= resp.status < 300 && tag.len() > 0 && ctx.source_leg_id != "a"@ {
        reveal(ExecView::relay_fork);
        reveal(with_early_dialog);
        reveal(ExecView::face_for);
        let c2 = with_early_dialog(x.config, c1, ctx.source_leg_id, resp, tag);
        let (w2, face) = x.face_for(w1.on(c2), ctx.source_leg_id, tag);
        the_caller_sees_the_number(x, w2, ctx, t, resp, b, face, false);
    } else {
        let (w2, face) = x.ensure_a_dialog(w1, None);
        the_caller_sees_the_number(x, w2, ctx, t, resp, b, face, true);
    }
}

} // verus!
