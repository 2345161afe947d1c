//! What the actions of a turn leave as it was: the name of a call, its emergency
//! mark, the INVITE that opened it, and every machine that no action names.
use vstd::prelude::*;

use crate::action::{
    AuthoredFinalView, MessageTransformView, NewDialogAnswerView, NewLegView, ProvisionalView,
    RuleActionView,
};
use crate::actions::dialog_track::{b_confirmed, early_ensured, with_early_dialog};
use crate::actions::dispatch::{
    answer_repeated, call_terminated, fresh_work, leg_updated, reinvite_2xx_cleared,
    reinvite_answer_repeated, reinvite_resolved, sdp_cached, timer_cancelled, timers_cancelled,
    with_exts, with_holds,
};
use crate::actions::ladder::{discharge, end_ladders, ladders_in, retire};
use crate::actions::originate::{send_notify, send_prack_to_leg, send_reinvite};
use crate::actions::relay_request::{ack_leg, relay_request, relayed_on};
use crate::actions::relay_response::{
    CarriedView, numbered, provisional_settled, transaction_closed,
};
use crate::actions::respond::respond;
use crate::actions::select::originator;
use crate::actions::settle::without_answer;
use crate::actions::teardown::{
    cancel_leg, cancel_pending_reinvite, commit_cancel, destroy_leg, end_each, end_leg, end_legs,
    global_call, leg_ids, leg_invites, non_invites, reject_all_pending_non_invites, reject_each,
    reject_invites, reject_pending_non_invites, reject_pending_reinvite, scrub_idle, stated_cause,
    teardown_headers, teardown_hops, terminate_all, terminate_leg, termination_begun, wound_down,
};
use crate::actions::{ExecView, WorkView};
use crate::books::{cleared, ScopeView};
use crate::call::{
    ByeDisposition, CallView, ConfigView, CursorView, DestinationView, DialogView, ExtEntryView,
    LegView, ObligationView, PendingRequestView, ResponsePlanView, TimerTypeView,
};
use crate::cursors::in_order;
use crate::defaults::handlers::ack_given_up;
use crate::effects::{HandlerResultView, OutboundSipView, Provenance};
use crate::ids::IdGenView;
use crate::model::{CallEventView, RuleContextView};
use crate::state::cursors_stay_in_order;
use crate::wire::{MethodView, SipHeaderView, SipRequestView, SipResponseView};

verus! {

/// The same call, in the things that outlast every turn.
pub open spec fn same_call(before: CallView, after: CallView) -> bool {
    &&& after.call_ref == before.call_ref
    &&& after.emergency == before.emergency
    &&& after.a_leg_invite == before.a_leg_invite
}

/// The same call, with no machine moved.
pub open spec fn still(before: CallView, after: CallView) -> bool {
    same_call(before, after) && after.sm_cursors == before.sm_cursors
}

proof fn ladders_end_still(w: WorkView, os: Seq<ObligationView>)
    ensures
        still(w.call, end_ladders(w, os).call),
    decreases os.len(),
{
    if os.len() > 0 {
        ladders_end_still(w, os.drop_last());
    }
}

proof fn retiring_is_still()
    ensures
        forall|w: WorkView, s: ScopeView| still(w.call, (#[trigger] retire(w, s)).call),
{
    assert forall|w: WorkView, s: ScopeView| still(w.call, (#[trigger] retire(w, s)).call) by {
        reveal(retire);
        ladders_end_still(w, ladders_in(w.call, s));
    }
}

proof fn scheduling_is_still()
    ensures
        forall|x: ExecView, w: WorkView, t: TimerTypeView, ms: i64, leg: Option<Seq<char>>|
            still(w.call, (#[trigger] x.schedule(w, t, ms, leg)).call),
{
    assert forall|x: ExecView, w: WorkView, t: TimerTypeView, ms: i64, leg: Option<Seq<char>>|
        still(w.call, (#[trigger] x.schedule(w, t, ms, leg)).call) by {
        reveal(ExecView::schedule);
    }
}

proof fn arming_is_still()
    ensures
        forall|x: ExecView, w: WorkView, o: ObligationView|
            still(w.call, (#[trigger] x.arm_ack_ladder(w, o)).call),
{
    assert forall|x: ExecView, w: WorkView, o: ObligationView|
        still(w.call, (#[trigger] x.arm_ack_ladder(w, o)).call) by {
        reveal(ExecView::arm_ack_ladder);
        scheduling_is_still();
    }
}

proof fn a_retained_answer_is_still()
    ensures
        forall|x: ExecView, w: WorkView, p: ResponsePlanView, d: DestinationView|
            still(w.call, (#[trigger] x.retain_a_leg_answer(w, p, d)).call),
{
    assert forall|x: ExecView, w: WorkView, p: ResponsePlanView, d: DestinationView|
        still(w.call, (#[trigger] x.retain_a_leg_answer(w, p, d)).call) by {
        reveal(ExecView::retain_a_leg_answer);
        arming_is_still();
    }
}

proof fn a_retained_reinvite_answer_is_still()
    ensures
        forall|x: ExecView, w: WorkView, p: ResponsePlanView, d: DestinationView, leg: Seq<char>|
            still(w.call, (#[trigger] x.retain_reinvite_2xx(w, p, d, leg)).call),
{
    assert forall|x: ExecView, w: WorkView, p: ResponsePlanView, d: DestinationView, leg: Seq<char>|
        still(w.call, (#[trigger] x.retain_reinvite_2xx(w, p, d, leg)).call) by {
        reveal(ExecView::retain_reinvite_2xx);
        arming_is_still();
    }
}

proof fn a_retained_provisional_is_still()
    ensures
        forall|
            x: ExecView,
            w: WorkView,
            p: ResponsePlanView,
            d: DestinationView,
            tag: Seq<char>,
            n: i64,
        |
            still(w.call, (#[trigger] x.arm_provisional(w, p, d, tag, n)).call),
{
    assert forall|
        x: ExecView,
        w: WorkView,
        p: ResponsePlanView,
        d: DestinationView,
        tag: Seq<char>,
        n: i64,
    |
        still(w.call, (#[trigger] x.arm_provisional(w, p, d, tag, n)).call) by {
        reveal(ExecView::arm_provisional);
        scheduling_is_still();
    }
}

proof fn the_callers_dialog_is_still()
    ensures
        forall|x: ExecView, w: WorkView, t: Option<Seq<char>>|
            still(w.call, (#[trigger] x.ensure_a_dialog(w, t)).0.call),
{
    assert forall|x: ExecView, w: WorkView, t: Option<Seq<char>>|
        still(w.call, (#[trigger] x.ensure_a_dialog(w, t)).0.call) by {
        reveal(ExecView::ensure_a_dialog);
    }
}

proof fn early_dialogs_are_still()
    ensures
        forall|g: ConfigView, c: CallView, leg_id: Seq<char>, r: SipResponseView, tag: Seq<char>|
            still(c, (#[trigger] with_early_dialog(g, c, leg_id, r, tag))),
{
    assert forall|g: ConfigView, c: CallView, leg_id: Seq<char>, r: SipResponseView, tag: Seq<char>|
        still(c, (#[trigger] with_early_dialog(g, c, leg_id, r, tag))) by {
        reveal(with_early_dialog);
    }
}

proof fn ensured_dialogs_are_still()
    ensures
        forall|g: ConfigView, c: CallView, ctx: RuleContextView, leg_id: Seq<char>, tag: Seq<char>|
            still(c, (#[trigger] early_ensured(g, c, ctx, leg_id, tag))),
{
    assert forall|
        g: ConfigView,
        c: CallView,
        ctx: RuleContextView,
        leg_id: Seq<char>,
        tag: Seq<char>,
    |
        still(c, (#[trigger] early_ensured(g, c, ctx, leg_id, tag))) by {
        reveal(early_ensured);
        early_dialogs_are_still();
    }
}

proof fn confirming_is_still()
    ensures
        forall|x: ExecView, w: WorkView, ctx: RuleContextView, leg_id: Seq<char>|
            still(w.call, (#[trigger] x.confirm_dialog(w, ctx, leg_id)).call),
{
    assert forall|x: ExecView, w: WorkView, ctx: RuleContextView, leg_id: Seq<char>|
        still(w.call, (#[trigger] x.confirm_dialog(w, ctx, leg_id)).call) by {
        reveal(ExecView::confirm_dialog);
        reveal(b_confirmed);
        the_callers_dialog_is_still();
    }
}

proof fn legs_end_still(c: CallView, ids: Seq<Seq<char>>)
    ensures
        still(c, end_legs(c, ids)),
    decreases ids.len(),
{
    if ids.len() > 0 {
        legs_end_still(c, ids.drop_last());
    }
}

proof fn ending_is_still()
    ensures
        forall|c: CallView, now_ms: i64, cause: Option<Seq<char>>, by_leg: Option<Seq<char>>|
            still(c, #[trigger] terminate_all(c, now_ms, cause, by_leg)),
{
    assert forall|c: CallView, now_ms: i64, cause: Option<Seq<char>>, by_leg: Option<Seq<char>>|
        still(c, #[trigger] terminate_all(c, now_ms, cause, by_leg)) by {
        reveal(terminate_all);
        let c1 = c.record_termination(now_ms, cause, by_leg);
        legs_end_still(c1, leg_ids(c1));
    }
}

proof fn creating_is_still()
    ensures
        forall|x: ExecView, w: WorkView, ctx: RuleContextView, n: NewLegView|
            still(w.call, (#[trigger] x.create_leg(w, ctx, n)).call),
{
    assert forall|x: ExecView, w: WorkView, ctx: RuleContextView, n: NewLegView|
        still(w.call, (#[trigger] x.create_leg(w, ctx, n)).call) by {
        reveal(ExecView::create_leg);
        reveal(ExecView::leg_created);
        scheduling_is_still();
        ending_is_still();
    }
}

proof fn notifying_is_still()
    ensures
        forall|
            w: WorkView,
            leg_id: Seq<char>,
            e: Seq<char>,
            s: Seq<char>,
            t: Option<Seq<char>>,
            b: Seq<u8>,
        |
            still(w.call, (#[trigger] send_notify(w, leg_id, e, s, t, b)).call),
{
    assert forall|
        w: WorkView,
        leg_id: Seq<char>,
        e: Seq<char>,
        s: Seq<char>,
        t: Option<Seq<char>>,
        b: Seq<u8>,
    |
        still(w.call, (#[trigger] send_notify(w, leg_id, e, s, t, b)).call) by {
        reveal(send_notify);
    }
}

proof fn reinviting_is_still()
    ensures
        forall|w: WorkView, leg_id: Seq<char>, b: Seq<u8>, hs: Seq<SipHeaderView>|
            still(w.call, (#[trigger] send_reinvite(w, leg_id, b, hs)).call),
{
    assert forall|w: WorkView, leg_id: Seq<char>, b: Seq<u8>, hs: Seq<SipHeaderView>|
        still(w.call, (#[trigger] send_reinvite(w, leg_id, b, hs)).call) by {
        reveal(send_reinvite);
    }
}

proof fn requesting_is_still()
    ensures
        forall|
            x: ExecView,
            w: WorkView,
            leg_id: Seq<char>,
            m: MethodView,
            b: Seq<u8>,
            t: Option<Seq<char>>,
            hs: Seq<SipHeaderView>,
        |
            still(w.call, (#[trigger] x.send_request_to_leg(w, leg_id, m, b, t, hs)).call),
{
    assert forall|
        x: ExecView,
        w: WorkView,
        leg_id: Seq<char>,
        m: MethodView,
        b: Seq<u8>,
        t: Option<Seq<char>>,
        hs: Seq<SipHeaderView>,
    |
        still(w.call, (#[trigger] x.send_request_to_leg(w, leg_id, m, b, t, hs)).call) by {
        reveal(ExecView::send_request_to_leg);
    }
}

proof fn pracking_is_still()
    ensures
        forall|w: WorkView, leg_id: Seq<char>, n: i64, k: i64, tag: Seq<char>|
            still(w.call, (#[trigger] send_prack_to_leg(w, leg_id, n, k, tag)).call),
{
    assert forall|w: WorkView, leg_id: Seq<char>, n: i64, k: i64, tag: Seq<char>|
        still(w.call, (#[trigger] send_prack_to_leg(w, leg_id, n, k, tag)).call) by {
        reveal(send_prack_to_leg);
    }
}

proof fn acking_is_still()
    ensures
        forall|w: WorkView, leg_id: Seq<char>, b: Seq<u8>, t: Option<Seq<char>>|
            still(w.call, (#[trigger] ack_leg(w, leg_id, b, t)).call),
{
    assert forall|w: WorkView, leg_id: Seq<char>, b: Seq<u8>, t: Option<Seq<char>>|
        still(w.call, (#[trigger] ack_leg(w, leg_id, b, t)).call) by {
        reveal(ack_leg);
    }
}

proof fn relayed_requests_are_still()
    ensures
        forall|
            w: WorkView,
            ctx: RuleContextView,
            to: Seq<char>,
            r: SipRequestView,
            tag: Option<Seq<char>>,
        |
            still(w.call, (#[trigger] relay_request(w, ctx, to, r, tag)).call),
{
    assert forall|
        w: WorkView,
        ctx: RuleContextView,
        to: Seq<char>,
        r: SipRequestView,
        tag: Option<Seq<char>>,
    |
        still(w.call, (#[trigger] relay_request(w, ctx, to, r, tag)).call) by {
        reveal(relay_request);
        reveal(relayed_on);
        acking_is_still();
    }
}

proof fn numbering_is_still()
    ensures
        forall|
            w: WorkView,
            tag: Seq<char>,
            n: i64,
            s: Seq<char>,
            r: SipResponseView,
            hs: Seq<SipHeaderView>,
        |
            still(w.call, (#[trigger] numbered(w, tag, n, s, r, hs)).0.call),
{
    assert forall|
        w: WorkView,
        tag: Seq<char>,
        n: i64,
        s: Seq<char>,
        r: SipResponseView,
        hs: Seq<SipHeaderView>,
    |
        still(w.call, (#[trigger] numbered(w, tag, n, s, r, hs)).0.call) by {
        reveal(numbered);
    }
}

proof fn settling_a_provisional_is_still()
    ensures
        forall|
            w: WorkView,
            ctx: RuleContextView,
            to: Seq<char>,
            r: SipResponseView,
            p: PendingRequestView,
            n: u16,
            hs: Seq<SipHeaderView>,
        |
            still(w.call, (#[trigger] provisional_settled(w, ctx, to, r, p, n, hs)).0.call),
{
    assert forall|
        w: WorkView,
        ctx: RuleContextView,
        to: Seq<char>,
        r: SipResponseView,
        p: PendingRequestView,
        n: u16,
        hs: Seq<SipHeaderView>,
    |
        still(w.call, (#[trigger] provisional_settled(w, ctx, to, r, p, n, hs)).0.call) by {
        reveal(provisional_settled);
        numbering_is_still();
        pracking_is_still();
    }
}

proof fn closing_is_still()
    ensures
        forall|w: WorkView, s: Seq<char>, tag: Seq<char>, r: SipResponseView, n: u16|
            still(w.call, (#[trigger] transaction_closed(w, s, tag, r, n)).call),
{
    assert forall|w: WorkView, s: Seq<char>, tag: Seq<char>, r: SipResponseView, n: u16|
        still(w.call, (#[trigger] transaction_closed(w, s, tag, r, n)).call) by {
        reveal(transaction_closed);
        retiring_is_still();
    }
}

proof fn relaying_to_an_originator_is_still()
    ensures
        forall|
            x: ExecView,
            w: WorkView,
            ctx: RuleContextView,
            to: Seq<char>,
            t: MessageTransformView,
            r: SipResponseView,
            d: DialogView,
            p: PendingRequestView,
            b: CarriedView,
        |
            still(w.call, (#[trigger] x.relay_to_originator(w, ctx, to, t, r, d, p, b)).call),
{
    assert forall|
        x: ExecView,
        w: WorkView,
        ctx: RuleContextView,
        to: Seq<char>,
        t: MessageTransformView,
        r: SipResponseView,
        d: DialogView,
        p: PendingRequestView,
        b: CarriedView,
    |
        still(w.call, (#[trigger] x.relay_to_originator(w, ctx, to, t, r, d, p, b)).call) by {
        reveal(ExecView::relay_to_originator);
        settling_a_provisional_is_still();
        closing_is_still();
        a_retained_reinvite_answer_is_still();
        a_retained_provisional_is_still();
    }
}

proof fn facing_is_still()
    ensures
        forall|x: ExecView, w: WorkView, s: Seq<char>, tag: Seq<char>|
            still(w.call, (#[trigger] x.face_for(w, s, tag)).0.call),
{
    assert forall|x: ExecView, w: WorkView, s: Seq<char>, tag: Seq<char>|
        still(w.call, (#[trigger] x.face_for(w, s, tag)).0.call) by {
        reveal(ExecView::face_for);
        the_callers_dialog_is_still();
    }
}

proof fn answering_is_still()
    ensures
        forall|x: ExecView, w: WorkView, p: ResponsePlanView, v: Provenance|
            still(w.call, (#[trigger] x.send_a_leg_answer(w, p, v)).call),
{
    assert forall|x: ExecView, w: WorkView, p: ResponsePlanView, v: Provenance|
        still(w.call, (#[trigger] x.send_a_leg_answer(w, p, v)).call) by {
        reveal(ExecView::send_a_leg_answer);
        retiring_is_still();
        a_retained_answer_is_still();
    }
}

proof fn relaying_to_the_caller_is_still()
    ensures
        forall|
            x: ExecView,
            w: WorkView,
            ctx: RuleContextView,
            t: MessageTransformView,
            r: SipResponseView,
            b: CarriedView,
            tag: Seq<char>,
            e: bool,
        |
            still(w.call, (#[trigger] x.relay_to_caller(w, ctx, t, r, b, tag, e)).call),
{
    assert forall|
        x: ExecView,
        w: WorkView,
        ctx: RuleContextView,
        t: MessageTransformView,
        r: SipResponseView,
        b: CarriedView,
        tag: Seq<char>,
        e: bool,
    |
        still(w.call, (#[trigger] x.relay_to_caller(w, ctx, t, r, b, tag, e)).call) by {
        reveal(ExecView::relay_to_caller);
        numbering_is_still();
        answering_is_still();
        retiring_is_still();
        a_retained_provisional_is_still();
    }
}

proof fn relaying_a_fork_is_still()
    ensures
        forall|
            x: ExecView,
            w: WorkView,
            ctx: RuleContextView,
            t: MessageTransformView,
            r: SipResponseView,
            b: CarriedView,
        |
            still(w.call, (#[trigger] x.relay_fork(w, ctx, t, r, b)).call),
{
    assert forall|
        x: ExecView,
        w: WorkView,
        ctx: RuleContextView,
        t: MessageTransformView,
        r: SipResponseView,
        b: CarriedView,
    |
        still(w.call, (#[trigger] x.relay_fork(w, ctx, t, r, b)).call) by {
        reveal(ExecView::relay_fork);
        early_dialogs_are_still();
        facing_is_still();
        relaying_to_the_caller_is_still();
    }
}

proof fn relayed_responses_are_still()
    ensures
        forall|
            x: ExecView,
            w: WorkView,
            ctx: RuleContextView,
            to: Seq<char>,
            t: MessageTransformView,
            r: SipResponseView,
        |
            still(w.call, (#[trigger] x.relay_response(w, ctx, to, t, r)).call),
{
    assert forall|
        x: ExecView,
        w: WorkView,
        ctx: RuleContextView,
        to: Seq<char>,
        t: MessageTransformView,
        r: SipResponseView,
    |
        still(w.call, (#[trigger] x.relay_response(w, ctx, to, t, r)).call) by {
        reveal(ExecView::relay_response);
        relaying_to_an_originator_is_still();
        relaying_a_fork_is_still();
        the_callers_dialog_is_still();
        relaying_to_the_caller_is_still();
    }
}

proof fn relaying_is_still()
    ensures
        forall|
            x: ExecView,
            w: WorkView,
            ctx: RuleContextView,
            to: Seq<char>,
            t: MessageTransformView,
            tag: Option<Seq<char>>,
        |
            still(w.call, (#[trigger] x.relay_to(w, ctx, to, t, tag)).call),
{
    assert forall|
        x: ExecView,
        w: WorkView,
        ctx: RuleContextView,
        to: Seq<char>,
        t: MessageTransformView,
        tag: Option<Seq<char>>,
    |
        still(w.call, (#[trigger] x.relay_to(w, ctx, to, t, tag)).call) by {
        reveal(ExecView::relay_to);
        relayed_responses_are_still();
        relayed_requests_are_still();
    }
}

proof fn relaying_to_the_peer_is_still()
    ensures
        forall|x: ExecView, w: WorkView, ctx: RuleContextView, t: MessageTransformView|
            still(w.call, (#[trigger] x.relay_to_peer(w, ctx, t)).call),
{
    assert forall|x: ExecView, w: WorkView, ctx: RuleContextView, t: MessageTransformView|
        still(w.call, (#[trigger] x.relay_to_peer(w, ctx, t)).call) by {
        reveal(ExecView::relay_to_peer);
        relaying_is_still();
    }
}

proof fn a_bare_180_is_still()
    ensures
        forall|x: ExecView, w: WorkView, ctx: RuleContextView, leg_id: Seq<char>, tag: Seq<char>|
            still(w.call, (#[trigger] x.relay_first_bare_180(w, ctx, leg_id, tag)).call),
{
    assert forall|x: ExecView, w: WorkView, ctx: RuleContextView, leg_id: Seq<char>, tag: Seq<char>|
        still(w.call, (#[trigger] x.relay_first_bare_180(w, ctx, leg_id, tag)).call) by {
        reveal(ExecView::relay_first_bare_180);
        the_callers_dialog_is_still();
        relaying_to_the_peer_is_still();
    }
}

proof fn responding_is_still()
    ensures
        forall|
            w: WorkView,
            ctx: RuleContextView,
            n: u16,
            s: Seq<char>,
            b: Seq<u8>,
            t: Option<Seq<char>>,
        |
            still(w.call, (#[trigger] respond(w, ctx, n, s, b, t)).call),
{
    assert forall|
        w: WorkView,
        ctx: RuleContextView,
        n: u16,
        s: Seq<char>,
        b: Seq<u8>,
        t: Option<Seq<char>>,
    |
        still(w.call, (#[trigger] respond(w, ctx, n, s, b, t)).call) by {
        reveal(respond);
    }
}

proof fn failing_is_still()
    ensures
        forall|x: ExecView, w: WorkView, ctx: RuleContextView, n: u16, s: Seq<char>|
            still(w.call, (#[trigger] x.relay_failure_to_a_leg(w, ctx, n, s)).call),
{
    assert forall|x: ExecView, w: WorkView, ctx: RuleContextView, n: u16, s: Seq<char>|
        still(w.call, (#[trigger] x.relay_failure_to_a_leg(w, ctx, n, s)).call) by {
        reveal(ExecView::relay_failure_to_a_leg);
        retiring_is_still();
        the_callers_dialog_is_still();
    }
}

proof fn an_authored_final_is_still()
    ensures
        forall|x: ExecView, w: WorkView, ctx: RuleContextView, a: AuthoredFinalView|
            still(w.call, (#[trigger] x.respond_to_a_leg(w, ctx, a)).call),
{
    assert forall|x: ExecView, w: WorkView, ctx: RuleContextView, a: AuthoredFinalView|
        still(w.call, (#[trigger] x.respond_to_a_leg(w, ctx, a)).call) by {
        reveal(ExecView::respond_to_a_leg);
        retiring_is_still();
        the_callers_dialog_is_still();
    }
}

proof fn a_provisional_is_still()
    ensures
        forall|x: ExecView, w: WorkView, p: ProvisionalView|
            still(w.call, (#[trigger] x.send_provisional_to_leg(w, p)).call),
{
    assert forall|x: ExecView, w: WorkView, p: ProvisionalView|
        still(w.call, (#[trigger] x.send_provisional_to_leg(w, p)).call) by {
        reveal(ExecView::send_provisional_to_leg);
        the_callers_dialog_is_still();
    }
}

proof fn a_new_dialog_is_still()
    ensures
        forall|x: ExecView, w: WorkView, a: NewDialogAnswerView|
            still(w.call, (#[trigger] x.answer_a_leg_new_dialog(w, a)).call),
{
    assert forall|x: ExecView, w: WorkView, a: NewDialogAnswerView|
        still(w.call, (#[trigger] x.answer_a_leg_new_dialog(w, a)).call) by {
        reveal(ExecView::answer_a_leg_new_dialog);
        reveal(ExecView::anchor_at_answer);
        the_callers_dialog_is_still();
        answering_is_still();
        scheduling_is_still();
    }
}

proof fn cancelling_is_still()
    ensures
        forall|w: WorkView, leg_id: Seq<char>, n: i64, e: OutboundSipView|
            still(w.call, (#[trigger] commit_cancel(w, leg_id, n, e)).call),
{
    assert forall|w: WorkView, leg_id: Seq<char>, n: i64, e: OutboundSipView|
        still(w.call, (#[trigger] commit_cancel(w, leg_id, n, e)).call) by {
        reveal(commit_cancel);
        retiring_is_still();
    }
}

proof fn cancelled_reinvites_are_still()
    ensures
        forall|w: WorkView, leg_id: Seq<char>, n: i64|
            still(w.call, (#[trigger] cancel_pending_reinvite(w, leg_id, n)).call),
{
    assert forall|w: WorkView, leg_id: Seq<char>, n: i64|
        still(w.call, (#[trigger] cancel_pending_reinvite(w, leg_id, n)).call) by {
        reveal(cancel_pending_reinvite);
        cancelling_is_still();
    }
}

proof fn rejected_reinvites_are_still()
    ensures
        forall|w: WorkView, leg_id: Seq<char>, n: i64, k: u16, s: Seq<char>|
            still(w.call, (#[trigger] reject_pending_reinvite(w, leg_id, n, k, s)).call),
{
    assert forall|w: WorkView, leg_id: Seq<char>, n: i64, k: u16, s: Seq<char>|
        still(w.call, (#[trigger] reject_pending_reinvite(w, leg_id, n, k, s)).call) by {
        reveal(reject_pending_reinvite);
        cancelling_is_still();
    }
}

proof fn orphans_are_still(
    w: WorkView,
    leg_id: Seq<char>,
    to: Seq<char>,
    xs: Seq<(Seq<char>, PendingRequestView)>,
)
    ensures
        still(w.call, reject_each(w, leg_id, to, xs).call),
    decreases xs.len(),
{
    if xs.len() > 0 {
        orphans_are_still(w, leg_id, to, xs.drop_last());
    }
}

proof fn rejecting_is_still()
    ensures
        forall|w: WorkView, leg_id: Seq<char>|
            still(w.call, (#[trigger] reject_pending_non_invites(w, leg_id)).call),
{
    assert forall|w: WorkView, leg_id: Seq<char>|
        still(w.call, (#[trigger] reject_pending_non_invites(w, leg_id)).call) by {
        reveal(reject_pending_non_invites);
        if let Some(l) = w.call.leg(leg_id) {
            orphans_are_still(
                w,
                leg_id,
                originator(w.call, leg_id),
                non_invites(leg_id, l.dialogs),
            );
        }
    }
}

proof fn rejecting_all_is_still(w: WorkView, ids: Seq<Seq<char>>)
    ensures
        still(w.call, reject_all_pending_non_invites(w, ids).call),
    decreases ids.len(),
{
    if ids.len() > 0 {
        rejecting_all_is_still(w, ids.drop_last());
        rejecting_is_still();
    }
}

proof fn terminating_is_still()
    ensures
        forall|w: WorkView, now_ms: i64, by: Seq<char>|
            still(w.call, (#[trigger] call_terminated(w, now_ms, by)).call),
{
    assert forall|w: WorkView, now_ms: i64, by: Seq<char>|
        still(w.call, (#[trigger] call_terminated(w, now_ms, by)).call) by {
        reveal(call_terminated);
        rejecting_all_is_still(w, leg_ids(w.call));
        ending_is_still();
    }
}

proof fn rejected_invites_are_still(w: WorkView, xs: Seq<(Seq<char>, PendingRequestView)>)
    ensures
        still(w.call, reject_invites(w, xs).call),
    decreases xs.len(),
{
    if xs.len() > 0 {
        rejected_invites_are_still(w, xs.drop_last());
        rejected_reinvites_are_still();
    }
}

proof fn telling_legs_is_still(
    w: WorkView,
    ls: Seq<LegView>,
    reason: Option<Seq<char>>,
    relayed: Seq<SipHeaderView>,
    hops: Option<u32>,
)
    ensures
        still(w.call, end_each(w, ls, reason, relayed, hops).call),
    decreases ls.len(),
{
    if ls.len() > 0 {
        telling_legs_is_still(w, ls.drop_last(), reason, relayed, hops);
        reveal(end_leg);
        rejecting_is_still();
    }
}

proof fn destroying_is_still()
    ensures
        forall|w: WorkView, leg_id: Seq<char>|
            still(w.call, (#[trigger] destroy_leg(w, leg_id)).call),
{
    assert forall|w: WorkView, leg_id: Seq<char>|
        still(w.call, (#[trigger] destroy_leg(w, leg_id)).call) by {
        reveal(destroy_leg);
        retiring_is_still();
        rejecting_is_still();
    }
}

proof fn cancelled_legs_are_still()
    ensures
        forall|w: WorkView, ctx: RuleContextView, leg_id: Seq<char>|
            still(w.call, (#[trigger] cancel_leg(w, ctx, leg_id)).call),
{
    assert forall|w: WorkView, ctx: RuleContextView, leg_id: Seq<char>|
        still(w.call, (#[trigger] cancel_leg(w, ctx, leg_id)).call) by {
        reveal(cancel_leg);
        retiring_is_still();
    }
}

proof fn terminated_legs_are_still()
    ensures
        forall|w: WorkView, leg_id: Seq<char>, b: Option<ByeDisposition>|
            still(w.call, (#[trigger] terminate_leg(w, leg_id, b)).call),
{
    assert forall|w: WorkView, leg_id: Seq<char>, b: Option<ByeDisposition>|
        still(w.call, (#[trigger] terminate_leg(w, leg_id, b)).call) by {
        reveal(terminate_leg);
        retiring_is_still();
        rejecting_is_still();
    }
}

proof fn extending_is_still(c: CallView, es: Seq<ExtEntryView>)
    ensures
        still(c, with_exts(c, es)),
    decreases es.len(),
{
    if es.len() > 0 {
        extending_is_still(c, es.drop_last());
    }
}

proof fn winding_down_keeps_one_machine(
    x: ExecView,
    w: WorkView,
    ctx: RuleContextView,
    reason: Option<Seq<char>>,
)
    ensures
        same_call(w.call, x.begin_termination(w, ctx, reason).call),
        x.begin_termination(w, ctx, reason).call.sm_cursors == w.call.only_cursor(
            global_call(),
        ).sm_cursors,
{
    reveal(ExecView::begin_termination);
    reveal(termination_begun);
    reveal(wound_down);
    reveal(scrub_idle);
    retiring_is_still();
    scheduling_is_still();
    let c1 = w.call.record_termination(x.now_ms, reason, Some(ctx.source_leg_id));
    rejected_invites_are_still(w.on(c1), leg_invites(c1.legs()));
    let w1 = termination_begun(w, x.now_ms, ctx, reason);
    telling_legs_is_still(
        w1,
        w1.call.legs(),
        stated_cause(reason),
        teardown_headers(ctx),
        teardown_hops(ctx),
    );
}

// ── laws ────────────────────────────────────────────────────────────────
/// What an action leaves of the machines of a call: setting and clearing a state
/// move the machine they name, a termination leaves the call's own, and nothing
/// else moves any.
pub open spec fn cursors_after(c: CallView, a: RuleActionView) -> Seq<CursorView> {
    match a {
        RuleActionView::SetState { machine, to } => c.with_cursor(machine, to).sm_cursors,
        RuleActionView::ClearState { machine } => c.without_cursor(machine).sm_cursors,
        RuleActionView::BeginTermination { .. } => c.only_cursor(global_call()).sm_cursors,
        _ => c.sm_cursors,
    }
}

/// No action renames a call, marks or unmarks it as an emergency, or touches the
/// INVITE that opened it; and only the actions that say so move a machine.
#[verifier::rlimit(60)]
pub proof fn an_action_moves_only_what_it_names(
    x: ExecView,
    w: WorkView,
    a: RuleActionView,
    ctx: RuleContextView,
)
    ensures
        same_call(w.call, x.apply(w, a, ctx).call),
        x.apply(w, a, ctx).call.sm_cursors == cursors_after(w.call, a),
{
    reveal(ExecView::apply);
    match a {
        RuleActionView::RelayToPeer { .. } => {
            relaying_to_the_peer_is_still();
        },
        RuleActionView::RelayToLeg { .. } => {
            relaying_is_still();
        },
        RuleActionView::Respond { .. } => {
            responding_is_still();
        },
        RuleActionView::AckLeg { .. } => {
            acking_is_still();
        },
        RuleActionView::ConfirmDialog { .. } => {
            confirming_is_still();
        },
        RuleActionView::UpdateLegState { .. } => {
            reveal(leg_updated);
        },
        RuleActionView::CreateLeg { .. } => {
            creating_is_still();
        },
        RuleActionView::DestroyLeg { .. } => {
            destroying_is_still();
        },
        RuleActionView::CancelLeg { .. } => {
            cancelled_legs_are_still();
        },
        RuleActionView::CancelPendingReinvite { .. } => {
            cancelled_reinvites_are_still();
        },
        RuleActionView::ResolveCancelledReinvite { .. } => {
            reveal(reinvite_resolved);
        },
        RuleActionView::RejectPendingReinvite { .. } => {
            rejected_reinvites_are_still();
        },
        RuleActionView::ScheduleTimer { .. } => {
            scheduling_is_still();
        },
        RuleActionView::CancelTimer { .. } => {
            reveal(timer_cancelled);
        },
        RuleActionView::CancelAllTimers => {
            reveal(timers_cancelled);
        },
        RuleActionView::TerminateCall => {
            terminating_is_still();
        },
        RuleActionView::BeginTermination { reason } => {
            winding_down_keeps_one_machine(x, w, ctx, reason);
        },
        RuleActionView::TerminateLeg { .. } => {
            terminated_legs_are_still();
        },
        RuleActionView::SendRequestToLeg { .. } => {
            requesting_is_still();
        },
        RuleActionView::SendProvisionalToLeg { .. } => {
            a_provisional_is_still();
        },
        RuleActionView::SendPrackToLeg { .. } => {
            ensured_dialogs_are_still();
            pracking_is_still();
        },
        RuleActionView::CacheSdpOnLegDialog { .. } => {
            reveal(sdp_cached);
            ensured_dialogs_are_still();
        },
        RuleActionView::RelayFirstBare180 { .. } => {
            a_bare_180_is_still();
        },
        RuleActionView::SendReinvite { .. } => {
            reinviting_is_still();
        },
        RuleActionView::SendNotify { .. } => {
            notifying_is_still();
        },
        RuleActionView::MergeCallExt { ext } => {
            extending_is_still(w.call, ext);
        },
        RuleActionView::RecordLimiterHolds { .. } => {
            reveal(with_holds);
        },
        RuleActionView::RelayFailureToALeg { .. } => {
            failing_is_still();
        },
        RuleActionView::RespondToALeg { .. } => {
            an_authored_final_is_still();
        },
        RuleActionView::AnswerALegNewDialog { .. } => {
            a_new_dialog_is_still();
        },
        RuleActionView::RetransmitALeg2xx => {
            reveal(answer_repeated);
        },
        RuleActionView::RetransmitALegReinvite2xx => {
            reveal(reinvite_answer_repeated);
        },
        RuleActionView::ClearPendingReinvite2xx => {
            reveal(reinvite_2xx_cleared);
        },
        _ => {},
    }
}

/// The actions of a turn keep the name of a call, its emergency mark and the
/// INVITE that opened it, and leave its machines in the order of their names, each
/// once.
pub proof fn actions_keep_the_order(
    x: ExecView,
    w: WorkView,
    actions: Seq<RuleActionView>,
    ctx: RuleContextView,
)
    ensures
        same_call(w.call, x.apply_all(w, actions, ctx).call),
        in_order(w.call.sm_cursors) ==> in_order(x.apply_all(w, actions, ctx).call.sm_cursors),
    decreases actions.len(),
{
    if actions.len() > 0 {
        actions_keep_the_order(x, w, actions.drop_last(), ctx);
        let w1 = x.apply_all(w, actions.drop_last(), ctx);
        an_action_moves_only_what_it_names(x, w1, actions.last(), ctx);
        if in_order(w1.call.sm_cursors) {
            match actions.last() {
                RuleActionView::SetState { machine, to } => {
                    cursors_stay_in_order(w1.call, machine, to);
                },
                RuleActionView::ClearState { machine } => {
                    cursors_stay_in_order(w1.call, machine, Seq::empty());
                },
                _ => {
                    cursors_stay_in_order(w1.call, global_call(), Seq::empty());
                },
            }
        }
    }
}

/// An acknowledgement moves no machine, and settling a give-up leaves the machines
/// in the order of their names, each once.
pub proof fn ladders_keep_the_order(
    x: ExecView,
    w: WorkView,
    e: CallEventView,
    leg: Seq<char>,
    r: HandlerResultView,
    o: ObligationView,
    ctx: RuleContextView,
    ids: IdGenView,
)
    ensures
        same_call(w.call, discharge(w, e, leg).call),
        discharge(w, e, leg).call.sm_cursors == w.call.sm_cursors,
        same_call(r.call, x.settle_give_up(r, o, ctx, ids).0.call),
        in_order(r.call.sm_cursors) ==> in_order(
            x.settle_give_up(r, o, ctx, ids).0.call.sm_cursors,
        ),
{
    reveal(discharge);
    reveal(ExecView::settle_give_up);
    retiring_is_still();
    let c = cleared(r.call, o);
    assert(still(r.call, c));
    actions_keep_the_order(
        x,
        fresh_work(c, ids),
        ack_given_up(r.call, o),
        without_answer(ctx, c),
    );
}

} // verus!
