//! The table from action to function, and the run of a rule's actions over a
//! working copy of the call.
use vstd::prelude::*;

use super::dialog_track::{early_ensured, with_a_dialogs};
use super::ladder::{raw_repeat, repeat_of};
use super::originate::{send_notify, send_prack_to_leg, send_reinvite};
use super::relay_request::ack_leg;
use super::respond::{content_type, content_type_of, respond};
use super::select::{find_pending_dialog, pending_dialog};
use super::teardown::{
    cancel_leg, cancel_pending_reinvite, destroy_leg, end_call, leg_ids, reject_all_pending_non_invites,
    reject_pending_reinvite, terminate_all, terminate_leg,
};
use super::{ActionExecutor, ExecView, Work, WorkView};
use crate::action::{RuleAction, RuleActionView};
use crate::call::{
    Call, CallView, CdrEvent, CdrEventView, DialogExtView, DialogView, ExtEntry, ExtEntryView,
    LegDisposition, LegState, LimiterHold, LimiterHoldView, LimiterState, LimiterStateView,
    ReleaseEventKind,
};
use crate::effects::{
    CriticalEffect, CriticalEffectView, FireAndForget, FireAndForgetView, HandlerEffects,
    HandlerEffectsView, HandlerResult, HandlerResultView,
};
use crate::headers::clone_lines;
use crate::ids::{IdGen, IdGenView};
use crate::json::{json_is_null, root, Node};
use crate::lens::{
    clamp, clamped_millis, dialog_identity_tag, dialog_mut, identity_tag, remove_pending_request,
    set_leg_disposition, set_leg_state,
};
use crate::model::{RuleContext, RuleContextView};
use crate::seqs::{keep, keep_step, views};
use crate::state::{
    add_cdr_event, add_tag_mapping, clear_cursor, deactivate_rule, merge_leg, remove_timer,
    set_cursor, split_leg,
};
use crate::text::clone_bytes;

verus! {

// ── changes of state ────────────────────────────────────────────────────
/// A leg in another state, and another relation to the call where one is given.
#[verifier::opaque]
pub open spec fn leg_updated(
    c: CallView,
    leg_id: Seq<char>,
    state: LegState,
    disposition: Option<LegDisposition>,
) -> CallView {
    let c1 = c.set_leg_state(leg_id, state);
    match disposition {
        Some(d) => c1.set_leg_disposition(leg_id, d),
        None => c1,
    }
}

/// The snapshot of a cancelled re-INVITE dropped: its final ends here.
#[verifier::opaque]
pub open spec fn reinvite_resolved(c: CallView, leg_id: Seq<char>, cseq: i64) -> CallView {
    match pending_dialog(c, leg_id, cseq) {
        Some(d) => c.remove_pending_request(leg_id, identity_tag(leg_id, d), cseq),
        None => c,
    }
}

/// A description kept on the dialog toward a callee.
#[verifier::opaque]
pub open spec fn sdp_cached(
    c: CallView,
    leg_id: Seq<char>,
    tag: Seq<char>,
    body: Seq<u8>,
) -> CallView {
    match c.dialog(leg_id, tag) {
        Some(d) => c.with_dialog(leg_id, tag, d.with_cached_sdp(body)),
        None => c,
    }
}

pub open spec fn ext_not_named(id: Seq<char>) -> spec_fn(ExtEntryView) -> bool {
    |e: ExtEntryView| e.service_id != id
}

/// A service's value set; a null removes it.
pub open spec fn with_ext(c: CallView, e: ExtEntryView) -> CallView {
    let rest = keep(c.ext, ext_not_named(e.service_id));
    CallView {
        ext: if root(e.value) == Node::Null {
            rest
        } else {
            rest.push(e)
        },
        ..c
    }
}

pub open spec fn with_exts(c: CallView, es: Seq<ExtEntryView>) -> CallView
    decreases es.len(),
{
    if es.len() == 0 {
        c
    } else {
        with_ext(with_exts(c, es.drop_last()), es.last())
    }
}

pub open spec fn held(window: i64) -> spec_fn(LimiterHoldView) -> LimiterStateView {
    |h: LimiterHoldView|
        LimiterStateView {
            limiter_id: h.limiter_id,
            limit: h.limit,
            origin_window: window,
            increment_succeeded: true,
        }
}

/// Capacity slots held from that window on.
#[verifier::opaque]
pub open spec fn with_holds(c: CallView, hs: Seq<LimiterHoldView>, window: i64) -> CallView {
    CallView { limiter_entries: c.limiter_entries + hs.map_values(held(window)), ..c }
}

/// The caller's dialog with no answer of its own re-INVITE retained.
#[verifier::opaque]
pub open spec fn reinvite_2xx_cleared(c: CallView) -> CallView {
    if c.a_leg.dialogs.len() > 0 {
        let d = c.a_leg.dialogs[0];
        with_a_dialogs(
            c,
            c.a_leg.dialogs.update(
                0,
                DialogView { ext: DialogExtView { pending_reinvite_2xx: None, ..d.ext }, ..d },
            ),
        )
    } else {
        c
    }
}

/// The retained answer to the caller sent once more.
#[verifier::opaque]
pub open spec fn answer_repeated(w: WorkView) -> WorkView {
    if w.call.a_leg.dialogs.len() > 0 {
        match w.call.a_leg.dialogs[0].ext.answered_2xx {
            Some(u) => w.send(repeat_of(u.emission, w.call.a_leg.leg_id)),
            None => w,
        }
    } else {
        w
    }
}

/// The retained answer to the caller's own re-INVITE sent once more.
#[verifier::opaque]
pub open spec fn reinvite_answer_repeated(w: WorkView) -> WorkView {
    if w.call.a_leg.dialogs.len() > 0 {
        match w.call.a_leg.dialogs[0].ext.pending_reinvite_2xx {
            Some(u) => w.send(repeat_of(u.emission, w.call.a_leg.leg_id)),
            None => w,
        }
    } else {
        w
    }
}

/// A timer off the ledger and off the driver.
#[verifier::opaque]
pub open spec fn timer_cancelled(w: WorkView, id: Seq<char>) -> WorkView {
    w.on(w.call.without_timer(id)).critical(CriticalEffectView::CancelTimer { id })
}

/// Every timer off the ledger and off the driver.
#[verifier::opaque]
pub open spec fn timers_cancelled(w: WorkView) -> WorkView {
    w.on(CallView { timers: Seq::empty(), ..w.call }).critical(CriticalEffectView::CancelAllTimers)
}

/// Every leg ended, without a word on the wire but the finals still owed for
/// what was relayed.
#[verifier::opaque]
pub open spec fn call_terminated(w: WorkView, now_ms: i64, by_leg: Seq<char>) -> WorkView {
    let w1 = reject_all_pending_non_invites(w, leg_ids(w.call));
    w1.on(terminate_all(w1.call, now_ms, None, Some(by_leg)))
}

impl ExecView {
    /// What one action does.
    #[verifier::opaque]
    pub open spec fn apply(self, w: WorkView, a: RuleActionView, ctx: RuleContextView) -> WorkView {
        match a {
            RuleActionView::RelayToPeer { transform } => self.relay_to_peer(w, ctx, transform),
            RuleActionView::RelayToLeg { leg_id, transform } => self.relay_to(
                w,
                ctx,
                leg_id,
                transform,
                None,
            ),
            RuleActionView::Respond { status, reason, body, content_type } => respond(
                w,
                ctx,
                status,
                reason,
                body,
                content_type,
            ),
            RuleActionView::AckLeg { leg_id, body, content_type } => ack_leg(
                w,
                leg_id,
                body,
                if body.len() > 0 {
                    content_type_of(content_type, body)
                } else {
                    None
                },
            ),
            RuleActionView::ConfirmDialog { leg_id } => self.confirm_dialog(w, ctx, leg_id),
            RuleActionView::UpdateLegState { leg_id, state, disposition } => w.on(
                leg_updated(w.call, leg_id, state, disposition),
            ),
            RuleActionView::AddTagMapping { mapping } => w.on(w.call.add_tag_mapping(mapping)),
            RuleActionView::Merge { leg_a, leg_b } => w.on(w.call.merge_leg(leg_a, leg_b)),
            RuleActionView::Split { leg_id } => w.on(w.call.split_leg(leg_id)),
            RuleActionView::CreateLeg { leg } => self.create_leg(w, ctx, leg),
            RuleActionView::DestroyLeg { leg_id } => destroy_leg(w, leg_id),
            RuleActionView::CancelLeg { leg_id } => cancel_leg(w, ctx, leg_id),
            RuleActionView::CancelPendingReinvite { leg_id, outbound_cseq } =>
                cancel_pending_reinvite(w, leg_id, outbound_cseq),
            RuleActionView::ResolveCancelledReinvite { leg_id, outbound_cseq } => w.on(
                reinvite_resolved(w.call, leg_id, outbound_cseq),
            ),
            RuleActionView::RejectPendingReinvite { leg_id, outbound_cseq, status, reason } =>
                reject_pending_reinvite(w, leg_id, outbound_cseq, status, reason),
            RuleActionView::ScheduleTimer { timer_type, delay_sec, leg_id } => self.schedule(
                w,
                timer_type,
                clamp(delay_sec * 1000),
                leg_id,
            ),
            RuleActionView::CancelTimer { id } => timer_cancelled(w, id),
            RuleActionView::CancelAllTimers => timers_cancelled(w),
            RuleActionView::TerminateCall => call_terminated(w, self.now_ms, ctx.source_leg_id),
            RuleActionView::BeginTermination { reason } => self.begin_termination(w, ctx, reason),
            RuleActionView::TerminateLeg { leg_id, bye_disposition } => terminate_leg(
                w,
                leg_id,
                bye_disposition,
            ),
            RuleActionView::AddCdrEvent { event_type, leg_id, status_code, reason } => w.on(
                w.call.add_cdr_event(
                    CdrEventView {
                        event_type,
                        timestamp: self.now_ms,
                        leg_id,
                        status_code,
                        reason,
                        decision_ordinal: 0,
                    },
                ),
            ),
            RuleActionView::DeactivateRule { rule_id } => w.on(w.call.deactivate_rule(rule_id)),
            RuleActionView::SetState { machine, to } => w.on(w.call.with_cursor(machine, to)),
            RuleActionView::ClearState { machine } => w.on(w.call.without_cursor(machine)),
            RuleActionView::SendRequestToLeg { leg_id, method, body, content_type, headers } =>
                self.send_request_to_leg(w, leg_id, method, body, content_type, headers),
            RuleActionView::SendProvisionalToLeg { provisional } => self.send_provisional_to_leg(
                w,
                provisional,
            ),
            RuleActionView::SendPrackToLeg { leg_id, rseq, invite_cseq, b_tag } =>
                send_prack_to_leg(
                w.on(early_ensured(self.config, w.call, ctx, leg_id, b_tag)),
                leg_id,
                rseq,
                invite_cseq,
                b_tag,
            ),
            RuleActionView::CacheSdpOnLegDialog { leg_id, b_tag, body } => w.on(
                sdp_cached(
                    early_ensured(self.config, w.call, ctx, leg_id, b_tag),
                    leg_id,
                    b_tag,
                    body,
                ),
            ),
            RuleActionView::SetPolicyUpdateBody { body } => w.on(
                CallView { policy_update_body: Some(body), ..w.call },
            ),
            RuleActionView::RelayFirstBare180 { leg_id, b_tag } => self.relay_first_bare_180(
                w,
                ctx,
                leg_id,
                b_tag,
            ),
            RuleActionView::SendReinvite { leg_id, body, add_headers } => send_reinvite(
                w,
                leg_id,
                body,
                add_headers,
            ),
            RuleActionView::SetPromotePem { state } => w.on(
                CallView { promote_pem: state, ..w.call },
            ),
            RuleActionView::SendNotify { leg_id, event, subscription_state, content_type, body } =>
                send_notify(w, leg_id, event, subscription_state, content_type, body),
            RuleActionView::ReferAsyncHttp { request } => w.consult(
                FireAndForgetView::Refer { call_ref: w.call.call_ref, request },
            ),
            RuleActionView::ServiceHttpRequest { request } => w.consult(
                FireAndForgetView::Service { call_ref: w.call.call_ref, request },
            ),
            RuleActionView::SetTransfer { state } => w.on(CallView { transfer: state, ..w.call }),
            RuleActionView::FailureAsyncHttp { request } => w.consult(
                FireAndForgetView::Failure { call_ref: w.call.call_ref, request },
            ),
            RuleActionView::ReleaseAsyncHttp { request } => w.consult(
                FireAndForgetView::Release { call_ref: w.call.call_ref, request },
            ),
            RuleActionView::SetSubscriptions { events } => w.on(
                CallView { subscriptions: events, ..w.call },
            ),
            RuleActionView::SetReroute { state } => w.on(CallView { reroute: state, ..w.call }),
            RuleActionView::SetFeatures { features } => w.on(
                CallView { features: Some(features), ..w.call },
            ),
            RuleActionView::MergeCallExt { ext } => w.on(with_exts(w.call, ext)),
            RuleActionView::SetFailureHeaders { headers } => w.on(
                CallView { failure_headers: headers, ..w.call },
            ),
            RuleActionView::RecordLimiterHolds { entries, window } => w.on(
                with_holds(w.call, entries, window),
            ),
            RuleActionView::RelayFailureToALeg { status, reason } => self.relay_failure_to_a_leg(
                w,
                ctx,
                status,
                reason,
            ),
            RuleActionView::RespondToALeg { authored } => self.respond_to_a_leg(w, ctx, authored),
            RuleActionView::AnswerALegNewDialog { answer } => self.answer_a_leg_new_dialog(
                w,
                answer,
            ),
            RuleActionView::RetransmitALeg2xx => answer_repeated(w),
            RuleActionView::RetransmitALegReinvite2xx => reinvite_answer_repeated(w),
            RuleActionView::ClearPendingReinvite2xx => w.on(reinvite_2xx_cleared(w.call)),
        }
    }

    /// What actions do, one after the other.
    pub open spec fn apply_all(
        self,
        w: WorkView,
        actions: Seq<RuleActionView>,
        ctx: RuleContextView,
    ) -> WorkView
        decreases actions.len(),
    {
        if actions.len() == 0 {
            w
        } else {
            self.apply(self.apply_all(w, actions.drop_last(), ctx), actions.last(), ctx)
        }
    }
}

impl HandlerEffectsView {
    /// Nothing done.
    pub open spec fn none() -> HandlerEffectsView {
        HandlerEffectsView {
            outbound: Seq::empty(),
            critical: Seq::empty(),
            fire_and_forget: Seq::empty(),
        }
    }
}

impl HandlerEffects {
    /// Nothing done.
    pub fn new() -> (r: HandlerEffects)
        ensures
            r@ == HandlerEffectsView::none(),
    {
        let r = HandlerEffects {
            outbound: Vec::new(),
            critical: Vec::new(),
            fire_and_forget: Vec::new(),
        };
        assert(views(r.outbound@) =~= Seq::empty());
        assert(views(r.critical@) =~= Seq::empty());
        assert(views(r.fire_and_forget@) =~= Seq::empty());
        r
    }
}

/// A turn about to begin.
pub open spec fn fresh_work(c: CallView, ids: IdGenView) -> WorkView {
    WorkView { call: c, fx: HandlerEffectsView::none(), ids }
}

// ── the functions behind ────────────────────────────────────────────────
fn update_leg(
    call: &mut Call,
    leg_id: &String,
    state: LegState,
    disposition: Option<LegDisposition>,
)
    ensures
        final(call)@ == leg_updated(old(call)@, leg_id@, state, disposition),
{
    proof {
        reveal(leg_updated);
    }
    set_leg_state(call, leg_id, state);
    if let Some(d) = disposition {
        set_leg_disposition(call, leg_id, d);
    }
}

fn resolve_cancelled(call: &mut Call, leg_id: &String, cseq: i64)
    ensures
        final(call)@ == reinvite_resolved(old(call)@, leg_id@, cseq),
{
    proof {
        reveal(reinvite_resolved);
    }
    let tag = match find_pending_dialog(call, leg_id, cseq) {
        Some(d) => dialog_identity_tag(leg_id, d),
        None => {
            return;
        },
    };
    remove_pending_request(call, leg_id, &tag, cseq);
}

fn cache_sdp(call: &mut Call, leg_id: &String, tag: &String, body: &Vec<u8>)
    ensures
        final(call)@ == sdp_cached(old(call)@, leg_id@, tag@, body@),
{
    proof {
        reveal(sdp_cached);
    }
    if let Some(d) = dialog_mut(call, leg_id, tag) {
        d.ext.cached_sdp = Some(clone_bytes(body));
    }
}

fn set_call_ext(call: &mut Call, e: &ExtEntry)
    ensures
        final(call)@ == with_ext(old(call)@, e@),
{
    let ghost p = ext_not_named(e.service_id@);
    let ghost all = call@.ext;
    let mut out: Vec<ExtEntry> = Vec::new();
    assert(all.take(0).len() == 0);
    assert(views(out@) =~= Seq::<ExtEntryView>::empty());
    for i in 0..call.ext.len()
        invariant
            p == ext_not_named(e.service_id@),
            all == call@.ext,
            views(out@) == keep(all.take(i as int), p),
    {
        proof {
            keep_step(all, p, i as int);
        }
        assert(all[i as int] == call.ext@[i as int]@);
        if call.ext[i].service_id != e.service_id {
            let ghost before = out@;
            out.push(call.ext[i].clone());
            assert(views(out@) =~= views(before).push(call.ext@[i as int]@));
        }
    }
    assert(all.take(all.len() as int) =~= all);
    if !json_is_null(&e.value) {
        let ghost before = out@;
        out.push(e.clone());
        assert(views(out@) =~= views(before).push(e@));
    }
    call.ext = out;
}

fn merge_ext(call: &mut Call, es: &Vec<ExtEntry>)
    ensures
        final(call)@ == with_exts(old(call)@, views(es@)),
{
    let ghost c0 = call@;
    let ghost all = views(es@);
    assert(all.take(0).len() == 0);
    for i in 0..es.len()
        invariant
            all == views(es@),
            call@ == with_exts(c0, all.take(i as int)),
    {
        assert(all.take(i + 1).drop_last() =~= all.take(i as int));
        assert(all.take(i + 1).last() == es@[i as int]@);
        set_call_ext(call, &es[i]);
    }
    assert(all.take(es@.len() as int) =~= all);
}

fn record_holds(call: &mut Call, hs: &Vec<LimiterHold>, window: i64)
    ensures
        final(call)@ == with_holds(old(call)@, views(hs@), window),
{
    proof {
        reveal(with_holds);
    }
    let ghost c0 = call@;
    let ghost f = held(window);
    let ghost all = views(hs@).map_values(f);
    assert(c0.limiter_entries + all.take(0) =~= c0.limiter_entries);
    for i in 0..hs.len()
        invariant
            f == held(window),
            all == views(hs@).map_values(f),
            call@ == (CallView { limiter_entries: c0.limiter_entries + all.take(i as int), ..c0 }),
    {
        let s = LimiterState {
            limiter_id: hs[i].limiter_id.clone(),
            limit: hs[i].limit,
            origin_window: window,
            increment_succeeded: true,
        };
        let ghost before = call.limiter_entries@;
        call.limiter_entries.push(s);
        assert(views(call.limiter_entries@) =~= views(before).push(s@));
        assert(all[i as int] == s@);
        assert(c0.limiter_entries + all.take(i + 1) =~= (c0.limiter_entries + all.take(
            i as int,
        )).push(s@));
    }
    assert(all.take(hs@.len() as int) =~= all);
}

fn clear_reinvite_2xx(call: &mut Call)
    ensures
        final(call)@ == reinvite_2xx_cleared(old(call)@),
{
    proof {
        reveal(reinvite_2xx_cleared);
    }
    if call.a_leg.dialogs.len() > 0 {
        let ghost before = call.a_leg.dialogs@;
        call.a_leg.dialogs[0].ext.pending_reinvite_2xx = None;
        assert(views(call.a_leg.dialogs@) =~= views(before).update(0, call.a_leg.dialogs@[0]@));
    }
}

fn repeat_answer(w: &mut Work)
    ensures
        final(w)@ == answer_repeated(old(w)@),
{
    proof {
        reveal(answer_repeated);
    }
    if w.call.a_leg.dialogs.len() > 0 {
        assert(w@.call.a_leg.dialogs[0] == w.call.a_leg.dialogs@[0]@);
        let e = match &w.call.a_leg.dialogs[0].ext.answered_2xx {
            Some(u) => raw_repeat(&u.emission, &w.call.a_leg.leg_id),
            None => {
                return;
            },
        };
        w.send(e);
    }
}

fn repeat_reinvite_answer(w: &mut Work)
    ensures
        final(w)@ == reinvite_answer_repeated(old(w)@),
{
    proof {
        reveal(reinvite_answer_repeated);
    }
    if w.call.a_leg.dialogs.len() > 0 {
        assert(w@.call.a_leg.dialogs[0] == w.call.a_leg.dialogs@[0]@);
        let e = match &w.call.a_leg.dialogs[0].ext.pending_reinvite_2xx {
            Some(u) => raw_repeat(&u.emission, &w.call.a_leg.leg_id),
            None => {
                return;
            },
        };
        w.send(e);
    }
}

fn cancel_timer(w: &mut Work, id: &String)
    ensures
        final(w)@ == timer_cancelled(old(w)@, id@),
{
    proof {
        reveal(timer_cancelled);
    }
    remove_timer(&mut w.call, id);
    w.critical(CriticalEffect::CancelTimer { id: id.clone() });
}

fn cancel_timers(w: &mut Work)
    ensures
        final(w)@ == timers_cancelled(old(w)@),
{
    proof {
        reveal(timers_cancelled);
    }
    w.call.timers = Vec::new();
    assert(views(w.call.timers@) =~= Seq::empty());
    w.critical(CriticalEffect::CancelAllTimers);
}

fn clone_kinds(ks: &Vec<ReleaseEventKind>) -> (r: Vec<ReleaseEventKind>)
    ensures
        r@ == ks@,
{
    let mut out: Vec<ReleaseEventKind> = Vec::new();
    for i in 0..ks.len()
        invariant
            out@ == ks@.take(i as int),
    {
        out.push(ks[i]);
        assert(ks@.take(i + 1) =~= ks@.take(i as int).push(ks@[i as int]));
    }
    assert(ks@.take(ks@.len() as int) =~= ks@);
    out
}

impl<'a> ActionExecutor<'a> {
    fn terminate_call(&self, w: &mut Work, by_leg: &String)
        ensures
            final(w)@ == call_terminated(old(w)@, self.now_ms, by_leg@),
    {
        proof {
            reveal(call_terminated);
        }
        self.reject_all_pending_non_invites(w);
        end_call(&mut w.call, self.now_ms, None, Some(by_leg.clone()));
    }

    fn apply_relays(&self, w: &mut Work, a: &RuleAction, ctx: &RuleContext)
        requires
            is_relays(a@),
        ensures
            final(w)@ == self@.apply(old(w)@, a@, ctx@),
    {
        proof {
            reveal(ExecView::apply);
        }
        match a {
            RuleAction::RelayToPeer { transform } => {
                self.relay_to_peer(w, ctx, transform);
            },
            RuleAction::RelayToLeg { leg_id, transform } => {
                self.relay_to(w, ctx, leg_id, transform, &None);
            },
            RuleAction::RelayFirstBare180 { leg_id, b_tag } => {
                self.relay_first_bare_180(w, ctx, leg_id, b_tag);
            },
            RuleAction::ConfirmDialog { leg_id } => {
                self.confirm_dialog(w, ctx, leg_id);
            },
            RuleAction::AckLeg { leg_id, body, content_type: stated } => {
                let ct = if body.len() > 0 {
                    content_type(stated, body)
                } else {
                    None
                };
                self.ack_leg(w, leg_id, body, ct);
            },
            _ => {},
        }
    }

    fn apply_answers(&self, w: &mut Work, a: &RuleAction, ctx: &RuleContext)
        requires
            is_answers(a@),
        ensures
            final(w)@ == self@.apply(old(w)@, a@, ctx@),
    {
        proof {
            reveal(ExecView::apply);
        }
        match a {
            RuleAction::Respond { status, reason, body, content_type } => {
                self.respond(w, ctx, *status, reason, body, content_type);
            },
            RuleAction::RelayFailureToALeg { status, reason } => {
                self.relay_failure_to_a_leg(w, ctx, *status, reason);
            },
            RuleAction::RespondToALeg { authored } => {
                self.respond_to_a_leg(w, ctx, authored);
            },
            RuleAction::AnswerALegNewDialog { answer } => {
                self.answer_a_leg_new_dialog(w, answer);
            },
            RuleAction::SendProvisionalToLeg { provisional } => {
                self.send_provisional_to_leg(w, provisional);
            },
            RuleAction::RetransmitALeg2xx => {
                repeat_answer(w);
            },
            RuleAction::RetransmitALegReinvite2xx => {
                repeat_reinvite_answer(w);
            },
            _ => {},
        }
    }

    fn apply_requests(&self, w: &mut Work, a: &RuleAction, ctx: &RuleContext)
        requires
            is_requests(a@),
        ensures
            final(w)@ == self@.apply(old(w)@, a@, ctx@),
    {
        proof {
            reveal(ExecView::apply);
        }
        match a {
            RuleAction::CreateLeg { leg } => {
                self.create_leg(w, ctx, leg);
            },
            RuleAction::SendRequestToLeg { leg_id, method, body, content_type, headers } => {
                self.send_request_to_leg(w, leg_id, method, body, content_type, headers);
            },
            RuleAction::SendPrackToLeg { leg_id, rseq, invite_cseq, b_tag } => {
                self.ensure_b_early_dialog(&mut w.call, ctx, leg_id, b_tag);
                self.send_prack_to_leg(w, leg_id, *rseq, *invite_cseq, b_tag);
            },
            RuleAction::SendReinvite { leg_id, body, add_headers } => {
                self.send_reinvite(w, leg_id, body, add_headers);
            },
            RuleAction::SendNotify { leg_id, event, subscription_state, content_type, body } => {
                self.send_notify(w, leg_id, event, subscription_state, content_type, body);
            },
            _ => {},
        }
    }

    fn apply_endings(&self, w: &mut Work, a: &RuleAction, ctx: &RuleContext)
        requires
            is_endings(a@),
        ensures
            final(w)@ == self@.apply(old(w)@, a@, ctx@),
    {
        proof {
            reveal(ExecView::apply);
        }
        match a {
            RuleAction::DestroyLeg { leg_id } => {
                self.destroy_leg(w, leg_id);
            },
            RuleAction::CancelLeg { leg_id } => {
                self.cancel_leg(w, ctx, leg_id);
            },
            RuleAction::CancelPendingReinvite { leg_id, outbound_cseq } => {
                self.cancel_pending_reinvite(w, leg_id, *outbound_cseq);
            },
            RuleAction::ResolveCancelledReinvite { leg_id, outbound_cseq } => {
                resolve_cancelled(&mut w.call, leg_id, *outbound_cseq);
            },
            RuleAction::RejectPendingReinvite { leg_id, outbound_cseq, status, reason } => {
                self.reject_pending_reinvite(w, leg_id, *outbound_cseq, *status, reason.as_str());
            },
            RuleAction::TerminateCall => {
                self.terminate_call(w, ctx.source_leg_id);
            },
            RuleAction::BeginTermination { reason } => {
                self.begin_termination(w, ctx, reason);
            },
            RuleAction::TerminateLeg { leg_id, bye_disposition } => {
                self.terminate_leg(w, leg_id, *bye_disposition);
            },
            _ => {},
        }
    }

    fn apply_timers(&self, w: &mut Work, a: &RuleAction, ctx: &RuleContext)
        requires
            is_timers(a@),
        ensures
            final(w)@ == self@.apply(old(w)@, a@, ctx@),
    {
        proof {
            reveal(ExecView::apply);
        }
        match a {
            RuleAction::ScheduleTimer { timer_type, delay_sec, leg_id } => {
                self.schedule(w, timer_type.clone(), clamped_millis(*delay_sec), leg_id.clone());
            },
            RuleAction::CancelTimer { id } => {
                cancel_timer(w, id);
            },
            RuleAction::CancelAllTimers => {
                cancel_timers(w);
            },
            RuleAction::SetState { machine, to } => {
                set_cursor(&mut w.call, machine, to);
            },
            RuleAction::ClearState { machine } => {
                clear_cursor(&mut w.call, machine);
            },
            RuleAction::DeactivateRule { rule_id } => {
                deactivate_rule(&mut w.call, rule_id);
            },
            _ => {},
        }
    }

    fn apply_legs(&self, w: &mut Work, a: &RuleAction, ctx: &RuleContext)
        requires
            is_legs(a@),
        ensures
            final(w)@ == self@.apply(old(w)@, a@, ctx@),
    {
        proof {
            reveal(ExecView::apply);
        }
        match a {
            RuleAction::UpdateLegState { leg_id, state, disposition } => {
                update_leg(&mut w.call, leg_id, *state, *disposition);
            },
            RuleAction::AddTagMapping { mapping } => {
                add_tag_mapping(&mut w.call, mapping.clone());
            },
            RuleAction::Merge { leg_a, leg_b } => {
                merge_leg(&mut w.call, leg_a, leg_b);
            },
            RuleAction::Split { leg_id } => {
                split_leg(&mut w.call, leg_id);
            },
            RuleAction::AddCdrEvent { event_type, leg_id, status_code, reason } => {
                add_cdr_event(
                    &mut w.call,
                    CdrEvent {
                        event_type: *event_type,
                        timestamp: self.now_ms,
                        leg_id: leg_id.clone(),
                        status_code: *status_code,
                        reason: reason.clone(),
                        decision_ordinal: 0,
                    },
                );
            },
            RuleAction::CacheSdpOnLegDialog { leg_id, b_tag, body } => {
                self.ensure_b_early_dialog(&mut w.call, ctx, leg_id, b_tag);
                cache_sdp(&mut w.call, leg_id, b_tag, body);
            },
            RuleAction::ClearPendingReinvite2xx => {
                clear_reinvite_2xx(&mut w.call);
            },
            _ => {},
        }
    }

    fn apply_consults(&self, w: &mut Work, a: &RuleAction, ctx: &RuleContext)
        requires
            is_consults(a@),
        ensures
            final(w)@ == self@.apply(old(w)@, a@, ctx@),
    {
        proof {
            reveal(ExecView::apply);
        }
        match a {
            RuleAction::ReferAsyncHttp { request } => {
                let call_ref = w.call.call_ref.clone();
                w.consult(FireAndForget::Refer { call_ref, request: request.clone() });
            },
            RuleAction::ServiceHttpRequest { request } => {
                let call_ref = w.call.call_ref.clone();
                w.consult(FireAndForget::Service { call_ref, request: request.clone() });
            },
            RuleAction::FailureAsyncHttp { request } => {
                let call_ref = w.call.call_ref.clone();
                w.consult(FireAndForget::Failure { call_ref, request: request.clone() });
            },
            RuleAction::ReleaseAsyncHttp { request } => {
                let call_ref = w.call.call_ref.clone();
                w.consult(FireAndForget::Release { call_ref, request: request.clone() });
            },
            _ => {},
        }
    }

    fn apply_slice(&self, w: &mut Work, a: &RuleAction, ctx: &RuleContext)
        requires
            !is_relays(a@),
            !is_answers(a@),
            !is_requests(a@),
            !is_endings(a@),
            !is_timers(a@),
            !is_legs(a@),
            !is_consults(a@),
        ensures
            final(w)@ == self@.apply(old(w)@, a@, ctx@),
    {
        proof {
            reveal(ExecView::apply);
        }
        match a {
            RuleAction::SetPolicyUpdateBody { body } => {
                w.call.policy_update_body = Some(clone_bytes(body));
            },
            RuleAction::SetPromotePem { state } => {
                w.call.promote_pem = match state {
                    Some(s) => Some(s.clone()),
                    None => None,
                };
            },
            RuleAction::SetTransfer { state } => {
                w.call.transfer = match state {
                    Some(s) => Some(s.clone()),
                    None => None,
                };
            },
            RuleAction::SetSubscriptions { events } => {
                w.call.subscriptions = clone_kinds(events);
            },
            RuleAction::SetReroute { state } => {
                w.call.reroute = state.clone();
            },
            RuleAction::SetFeatures { features } => {
                w.call.features = Some(features.clone());
            },
            RuleAction::MergeCallExt { ext } => {
                merge_ext(&mut w.call, ext);
            },
            RuleAction::SetFailureHeaders { headers } => {
                w.call.failure_headers = clone_lines(headers);
            },
            RuleAction::RecordLimiterHolds { entries, window } => {
                record_holds(&mut w.call, entries, *window);
            },
            _ => {},
        }
    }

    /// Apply one action to the turn.
    pub(crate) fn apply(&self, w: &mut Work, a: &RuleAction, ctx: &RuleContext)
        ensures
            final(w)@ == self@.apply(old(w)@, a@, ctx@),
    {
        match a {
            RuleAction::RelayToPeer { .. }
            | RuleAction::RelayToLeg { .. }
            | RuleAction::RelayFirstBare180 { .. }
            | RuleAction::ConfirmDialog { .. }
            | RuleAction::AckLeg { .. } => {
                self.apply_relays(w, a, ctx);
            },
            RuleAction::Respond { .. }
            | RuleAction::RelayFailureToALeg { .. }
            | RuleAction::RespondToALeg { .. }
            | RuleAction::AnswerALegNewDialog { .. }
            | RuleAction::SendProvisionalToLeg { .. }
            | RuleAction::RetransmitALeg2xx
            | RuleAction::RetransmitALegReinvite2xx => {
                self.apply_answers(w, a, ctx);
            },
            RuleAction::CreateLeg { .. }
            | RuleAction::SendRequestToLeg { .. }
            | RuleAction::SendPrackToLeg { .. }
            | RuleAction::SendReinvite { .. }
            | RuleAction::SendNotify { .. } => {
                self.apply_requests(w, a, ctx);
            },
            RuleAction::DestroyLeg { .. }
            | RuleAction::CancelLeg { .. }
            | RuleAction::CancelPendingReinvite { .. }
            | RuleAction::ResolveCancelledReinvite { .. }
            | RuleAction::RejectPendingReinvite { .. }
            | RuleAction::TerminateCall
            | RuleAction::BeginTermination { .. }
            | RuleAction::TerminateLeg { .. } => {
                self.apply_endings(w, a, ctx);
            },
            RuleAction::ScheduleTimer { .. }
            | RuleAction::CancelTimer { .. }
            | RuleAction::CancelAllTimers
            | RuleAction::SetState { .. }
            | RuleAction::ClearState { .. }
            | RuleAction::DeactivateRule { .. } => {
                self.apply_timers(w, a, ctx);
            },
            RuleAction::UpdateLegState { .. }
            | RuleAction::AddTagMapping { .. }
            | RuleAction::Merge { .. }
            | RuleAction::Split { .. }
            | RuleAction::AddCdrEvent { .. }
            | RuleAction::CacheSdpOnLegDialog { .. }
            | RuleAction::ClearPendingReinvite2xx => {
                self.apply_legs(w, a, ctx);
            },
            RuleAction::ReferAsyncHttp { .. }
            | RuleAction::ServiceHttpRequest { .. }
            | RuleAction::FailureAsyncHttp { .. }
            | RuleAction::ReleaseAsyncHttp { .. } => {
                self.apply_consults(w, a, ctx);
            },
            _ => {
                self.apply_slice(w, a, ctx);
            },
        }
    }

    /// Apply actions to a turn in progress, one after the other.
    pub(crate) fn apply_all(&self, w: &mut Work, actions: &[RuleAction], ctx: &RuleContext)
        ensures
            final(w)@ == self@.apply_all(old(w)@, views(actions@), ctx@),
    {
        let ghost w0 = w@;
        let ghost all = views(actions@);
        assert(all.take(0).len() == 0);
        for i in 0..actions.len()
            invariant
                all == views(actions@),
                w@ == self@.apply_all(w0, all.take(i as int), ctx@),
        {
            assert(all.take(i + 1).drop_last() =~= all.take(i as int));
            assert(all.take(i + 1).last() == actions@[i as int]@);
            self.apply(w, &actions[i], ctx);
        }
        assert(all.take(actions@.len() as int) =~= all);
    }

    /// Apply `actions` to a working copy of the call. Fresh identifiers come
    /// from `ids`.
    pub fn execute(
        &self,
        actions: &[RuleAction],
        call: &Call,
        ctx: &RuleContext,
        ids: &mut IdGen,
    ) -> (r: HandlerResult)
        ensures
            ({
                let w = self@.apply_all(fresh_work(call@, old(ids)@), views(actions@), ctx@);
                &&& r@ == (HandlerResultView { call: w.call, effects: w.fx })
                &&& final(ids)@ == w.ids
            }),
    {
        let mut w = Work { call: call.clone(), fx: HandlerEffects::new(), ids: ids.clone() };
        self.apply_all(&mut w, actions, ctx);
        *ids = w.ids;
        HandlerResult { call: w.call, effects: w.fx }
    }
}

/// The actions that hand on what a peer said.
pub open spec fn is_relays(a: RuleActionView) -> bool {
    a is RelayToPeer
        || a is RelayToLeg
        || a is RelayFirstBare180
        || a is ConfirmDialog
        || a is AckLeg
}

/// The actions that answer a request.
pub open spec fn is_answers(a: RuleActionView) -> bool {
    a is Respond
        || a is RelayFailureToALeg
        || a is RespondToALeg
        || a is AnswerALegNewDialog
        || a is SendProvisionalToLeg
        || a is RetransmitALeg2xx
        || a is RetransmitALegReinvite2xx
}

/// The actions that send a request of this stack's own.
pub open spec fn is_requests(a: RuleActionView) -> bool {
    a is CreateLeg
        || a is SendRequestToLeg
        || a is SendPrackToLeg
        || a is SendReinvite
        || a is SendNotify
}

/// The actions that end a request, a leg or the call.
pub open spec fn is_endings(a: RuleActionView) -> bool {
    a is DestroyLeg
        || a is CancelLeg
        || a is CancelPendingReinvite
        || a is ResolveCancelledReinvite
        || a is RejectPendingReinvite
        || a is TerminateCall
        || a is BeginTermination
        || a is TerminateLeg
}

/// The actions on timers, machines and rules.
pub open spec fn is_timers(a: RuleActionView) -> bool {
    a is ScheduleTimer
        || a is CancelTimer
        || a is CancelAllTimers
        || a is SetState
        || a is ClearState
        || a is DeactivateRule
}

/// The actions that change what is known of the legs.
pub open spec fn is_legs(a: RuleActionView) -> bool {
    a is UpdateLegState
        || a is AddTagMapping
        || a is Merge
        || a is Split
        || a is AddCdrEvent
        || a is CacheSdpOnLegDialog
        || a is ClearPendingReinvite2xx
}

/// The actions that make a consult.
pub open spec fn is_consults(a: RuleActionView) -> bool {
    a is ReferAsyncHttp || a is ServiceHttpRequest || a is FailureAsyncHttp || a is ReleaseAsyncHttp
}

} // verus!
