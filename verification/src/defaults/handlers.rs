//! What the core rules do.
use vstd::prelude::*;

use super::route_fold::{
    fold_lands_on_going_away_call, going_away, header_updates, parity_actions, parse_contacts,
    parse_header_updates, parse_route_fold, redirect_contacts, route_fold,
    route_fold_parity_actions, Nodes, RouteFoldView,
};
use crate::action::{
    AuthoredFinal, AuthoredFinalView, NewLeg, NewLegView, RuleAction, RuleActionView,
};
use crate::actions::respond::{structural, structural_names};
use crate::actions::teardown::{clone_legs, collect_invites, leg_invites};
use crate::books::{answers_initial_invite, is_initial_answer};
use crate::call::{
    ByeDisposition, Call, CallView, CdrEventType, LegState, LegView, Obligation, ObligationView,
    PendingRequestView, ReleaseEventKind, TimerType, TimerTypeView,
};
use crate::effects::{
    FailureOrigin, FailureRequest, FailureRequestView, ReleaseRequest, ReleaseRequestView,
    TimeoutKind,
};
use crate::headers::{clone_lines, header_text, header_value, lines_outside, named_outside};
use crate::json::{json_nodes, member_text, member_u64, read_text, read_u64};
use crate::lens::{find_leg, is_empty};
use crate::model::{CallEvent, CallEventView, RuleContext, RuleContextView};
use crate::reliable::{
    invite_answered_by, leg_shown, names_nothing, numbers_on, owns_rseq_numbering,
    pending_invite_answered_by, shown_on, tag_or_empty, tag_text, unacknowledgeable_rack,
};
use crate::routes::{rack_tokens, read_rack};
use crate::seqs::{any_where, find_where, first_where_is, first_where_none, keep, opt_view, views};
use crate::state::{
    any_b_leg_confirmed, leg_confirmed, leg_is_going_away, leg_is_resolved, leg_resolved,
};
use crate::verbs::{add_action, nothing, some, text, then_do};
use crate::wire::{Method, MethodView, SipHeader, SipHeaderView};

verus! {

// ── settings ────────────────────────────────────────────────────────────
/// How often a call is probed.
pub fn keepalive_interval(ctx: &RuleContext) -> (r: i64)
    ensures
        r == ctx@.config.keepalive_interval_sec,
{
    ctx.config.keepalive_interval_sec
}

/// How long a probe may go unanswered.
pub fn keepalive_timeout(ctx: &RuleContext) -> (r: i64)
    ensures
        r == ctx@.config.keepalive_timeout_sec,
{
    ctx.config.keepalive_timeout_sec
}

/// The ceiling of a call: the one its route set, else an hour.
pub open spec fn ceiling(ctx: RuleContextView) -> i64 {
    match ctx.call.features {
        Some(f) => f.platform.max_duration_sec,
        None => 3600,
    }
}

/// The ceiling of a call.
pub fn max_duration(ctx: &RuleContext) -> (r: i64)
    ensures
        r == ceiling(ctx@),
{
    match &ctx.call.features {
        Some(f) => f.platform.max_duration_sec,
        None => 3600,
    }
}

// ── corner cases ────────────────────────────────────────────────────────
/// An answer crossed our CANCEL: take it, and hang up on it.
#[verifier::opaque]
pub open spec fn cancel_crossed(ctx: RuleContextView) -> Seq<RuleActionView> {
    let b = ctx.source_leg_id;
    seq![
        RuleActionView::ConfirmDialog { leg_id: b },
        RuleActionView::ack(b),
        RuleActionView::cdr(CdrEventType::Answer, b, Some(200), text("cancel_crossing")),
        RuleActionView::cdr(CdrEventType::Bye, b, None, text("cancel_crossing")),
        RuleActionView::DestroyLeg { leg_id: b },
    ]
}

pub(crate) fn on_cancel_crossed(ctx: &RuleContext) -> (r: Vec<RuleAction>)
    ensures
        views(r@) == cancel_crossed(ctx@),
{
    proof {
        reveal(cancel_crossed);
    }
    let b = ctx.source_leg_id;
    let r = vec![
        RuleAction::ConfirmDialog { leg_id: b.clone() },
        RuleAction::ack(b),
        RuleAction::cdr(CdrEventType::Answer, b, Some(200), some("cancel_crossing")),
        RuleAction::cdr(CdrEventType::Bye, b, None, some("cancel_crossing")),
        RuleAction::DestroyLeg { leg_id: b.clone() },
    ];
    assert(views(r@) =~= cancel_crossed(ctx@));
    r
}

/// The final of a re-INVITE its originator cancelled: a crossing answer is
/// acknowledged; nothing is relayed.
#[verifier::opaque]
pub open spec fn cancelled_reinvite_answered(ctx: RuleContextView) -> Option<Seq<RuleActionView>> {
    match ctx.response() {
        Some(resp) => Some(
            if resp.status < 200 {
                Seq::empty()
            } else {
                (if resp.status < 300 {
                    seq![RuleActionView::ack(ctx.source_leg_id)]
                } else {
                    Seq::empty()
                }).push(
                    RuleActionView::ResolveCancelledReinvite {
                        leg_id: ctx.source_leg_id,
                        outbound_cseq: resp.cseq,
                    },
                )
            },
        ),
        None => None,
    }
}

pub(crate) fn on_cancelled_reinvite_answered(ctx: &RuleContext) -> (r: Option<Vec<RuleAction>>)
    ensures
        (match r {
            Some(v) => Some(views(v@)),
            None => None,
        }) == cancelled_reinvite_answered(ctx@),
{
    proof {
        reveal(cancelled_reinvite_answered);
    }
    let resp = match ctx.response() {
        Some(r) => r,
        None => {
            return None;
        },
    };
    let mut out = nothing();
    if resp.status < 200 {
        return Some(out);
    }
    if resp.status < 300 {
        add_action(&mut out, RuleAction::ack(ctx.source_leg_id));
        assert(views(out@) =~= seq![RuleActionView::ack(ctx@.source_leg_id)]);
    }
    add_action(
        &mut out,
        RuleAction::ResolveCancelledReinvite {
            leg_id: ctx.source_leg_id.clone(),
            outbound_cseq: resp.cseq,
        },
    );
    Some(out)
}

// ── the dialog ──────────────────────────────────────────────────────────
/// A provisional of the callee's: the leg rings, and the caller hears of it.
#[verifier::opaque]
pub open spec fn provisional_relayed(ctx: RuleContextView) -> Seq<RuleActionView> {
    let b = ctx.source_leg_id;
    seq![
        RuleActionView::UpdateLegState { leg_id: b, state: LegState::Early, disposition: None },
        RuleActionView::relay(),
        RuleActionView::cdr(
            CdrEventType::Provisional,
            b,
            match ctx.response() {
                Some(r) => Some(r.status as i64),
                None => None,
            },
            None,
        ),
    ]
}

pub(crate) fn on_provisional(ctx: &RuleContext) -> (r: Vec<RuleAction>)
    ensures
        views(r@) == provisional_relayed(ctx@),
{
    proof {
        reveal(provisional_relayed);
    }
    let b = ctx.source_leg_id;
    let status = match ctx.response() {
        Some(r) => Some(r.status as i64),
        None => None,
    };
    let r = vec![
        RuleAction::UpdateLegState { leg_id: b.clone(), state: LegState::Early, disposition: None },
        RuleAction::relay(),
        RuleAction::cdr(CdrEventType::Provisional, b, status, None),
    ];
    assert(views(r@) =~= provisional_relayed(ctx@));
    r
}

/// The ACK an answer draws at once: none for one whose offer is still to be
/// answered by the caller's own ACK.
pub open spec fn ack_on_answer(ctx: RuleContextView, leg_id: Seq<char>) -> Seq<RuleActionView> {
    match ctx.call.leg(leg_id) {
        Some(l) => if l.offers_sdp {
            seq![RuleActionView::ack(leg_id)]
        } else {
            Seq::empty()
        },
        None => Seq::empty(),
    }
}

/// The ACK an answer draws at once.
pub(crate) fn acks_on_answer(ctx: &RuleContext, leg_id: &String) -> (r: Vec<RuleAction>)
    ensures
        views(r@) == ack_on_answer(ctx@, leg_id@),
{
    let mut out = nothing();
    if let Some(l) = find_leg(ctx.call, leg_id) {
        if l.offers_sdp {
            add_action(&mut out, RuleAction::ack(leg_id));
            assert(views(out@) =~= seq![RuleActionView::ack(leg_id@)]);
        }
    }
    out
}

/// The bookkeeping of an answered call: the setup deadlines end, the ceiling
/// and the probes begin.
pub open spec fn answered(ctx: RuleContextView, b: Seq<char>) -> Seq<RuleActionView> {
    seq![
        RuleActionView::cancel_timer(TimerTypeView::NoAnswer, Some(b)),
        RuleActionView::cancel_timer(TimerTypeView::SetupTimeout, None),
        RuleActionView::arm(TimerTypeView::GlobalDuration, ceiling(ctx), None),
        RuleActionView::arm(TimerTypeView::Keepalive, ctx.config.keepalive_interval_sec, None),
        RuleActionView::cdr(CdrEventType::Answer, b, Some(200), None),
        RuleActionView::SetFailureHeaders { headers: Seq::empty() },
    ]
}

fn when_answered(ctx: &RuleContext, b: &String) -> (r: Vec<RuleAction>)
    ensures
        views(r@) == answered(ctx@, b@),
{
    let none: Vec<SipHeader> = Vec::new();
    assert(views(none@) =~= Seq::<SipHeaderView>::empty());
    let r = vec![
        RuleAction::cancel_timer(&TimerType::NoAnswer, Some(b.clone())),
        RuleAction::cancel_timer(&TimerType::SetupTimeout, None),
        RuleAction::arm(TimerType::GlobalDuration, max_duration(ctx), None),
        RuleAction::arm(TimerType::Keepalive, keepalive_interval(ctx), None),
        RuleAction::cdr(CdrEventType::Answer, b, Some(200), None),
        RuleAction::SetFailureHeaders { headers: none },
    ];
    assert(views(r@) =~= answered(ctx@, b@));
    r
}

/// The callee answered: its dialog is confirmed and bridged, and the caller is
/// answered.
#[verifier::opaque]
pub open spec fn dialog_confirmed(ctx: RuleContextView) -> Seq<RuleActionView> {
    let b = ctx.source_leg_id;
    seq![
        RuleActionView::ConfirmDialog { leg_id: b },
        RuleActionView::Merge { leg_a: ctx.call.a_leg.leg_id, leg_b: b },
        RuleActionView::relay(),
    ] + ack_on_answer(ctx, b) + answered(ctx, b)
}

pub(crate) fn on_answer(ctx: &RuleContext) -> (r: Vec<RuleAction>)
    ensures
        views(r@) == dialog_confirmed(ctx@),
{
    proof {
        reveal(dialog_confirmed);
    }
    let b = ctx.source_leg_id;
    let first = vec![
        RuleAction::ConfirmDialog { leg_id: b.clone() },
        RuleAction::Merge { leg_a: ctx.call.a_leg.leg_id.clone(), leg_b: b.clone() },
        RuleAction::relay(),
    ];
    assert(views(first@) =~= seq![
        RuleActionView::ConfirmDialog { leg_id: b@ },
        RuleActionView::Merge { leg_a: ctx@.call.a_leg.leg_id, leg_b: b@ },
        RuleActionView::relay(),
    ]);
    let more = then_do(first, acks_on_answer(ctx, b));
    then_do(more, when_answered(ctx, b))
}

// ── failure ─────────────────────────────────────────────────────────────
/// The lines of a failure final that a consult is told: all but the stack's
/// own.
pub open spec fn told_lines(hs: Seq<SipHeaderView>) -> Seq<SipHeaderView> {
    keep(hs, named_outside(structural_names()))
}

/// A leg failed: it ends with the reject on record; then the backend is asked,
/// or, where there is none, the failure is relayed and the call ends.
#[verifier::opaque]
pub open spec fn route_failed(ctx: RuleContextView) -> Seq<RuleActionView> {
    let b = ctx.source_leg_id;
    let (status, reason, hs, relayable) = match ctx.response() {
        Some(r) => (r.status as i64, r.reason, r.headers, r.relayable),
        None => (500, "Server Error"@, Seq::empty(), Seq::empty()),
    };
    let ended = seq![
        RuleActionView::cdr(CdrEventType::Reject, b, Some(status), Some(reason)),
        RuleActionView::end(b, ByeDisposition::Rejected),
    ];
    match ctx.call.callback_context {
        Some(cb) => ended.push(RuleActionView::SetFailureHeaders { headers: relayable }).push(
            RuleActionView::FailureAsyncHttp {
                request: FailureRequestView {
                    callback_context: cb,
                    origin: FailureOrigin::External,
                    timeout_kind: None,
                    sip_code: Some(status),
                    sip_reason: Some(reason),
                    failed_leg_id: b,
                    sip_headers: told_lines(hs),
                },
            },
        ),
        None => ended.push(RuleActionView::relay()).push(RuleActionView::TerminateCall),
    }
}

pub(crate) fn on_route_failure(ctx: &RuleContext) -> (r: Vec<RuleAction>)
    ensures
        views(r@) == route_failed(ctx@),
{
    proof {
        reveal(route_failed);
    }
    let b = ctx.source_leg_id;
    let own = structural();
    let (status, reason, told, relayable) = match ctx.response() {
        Some(r) => (
            r.status as i64,
            r.reason.clone(),
            lines_outside(&r.headers, &own),
            clone_lines(&r.relayable),
        ),
        None => {
            let none: Vec<SipHeader> = Vec::new();
            assert(views(none@) =~= Seq::<SipHeaderView>::empty());
            let told = lines_outside(&none, &own);
            (500, "Server Error".to_string(), told, none)
        },
    };
    let mut out = nothing();
    add_action(
        &mut out,
        RuleAction::cdr(CdrEventType::Reject, b, Some(status), Some(reason.clone())),
    );
    add_action(&mut out, RuleAction::end(b, ByeDisposition::Rejected));
    assert(views(out@) =~= seq![
        RuleActionView::cdr(CdrEventType::Reject, b@, Some(status), Some(reason@)),
        RuleActionView::end(b@, ByeDisposition::Rejected),
    ]);
    match &ctx.call.callback_context {
        Some(cb) => {
            add_action(&mut out, RuleAction::SetFailureHeaders { headers: relayable });
            add_action(
                &mut out,
                RuleAction::FailureAsyncHttp {
                    request: FailureRequest {
                        callback_context: cb.clone(),
                        origin: FailureOrigin::External,
                        timeout_kind: None,
                        sip_code: Some(status),
                        sip_reason: Some(reason),
                        failed_leg_id: b.clone(),
                        sip_headers: told,
                    },
                },
            );
        },
        None => {
            add_action(&mut out, RuleAction::relay());
            add_action(&mut out, RuleAction::TerminateCall);
        },
    }
    out
}

/// The consult on a leg that drew no final: it states nothing of a peer's.
pub open spec fn silent_consult(
    cb: Seq<char>,
    leg: Seq<char>,
    origin: FailureOrigin,
    kind: Option<TimeoutKind>,
) -> Seq<RuleActionView> {
    seq![
        RuleActionView::SetFailureHeaders { headers: Seq::empty() },
        RuleActionView::FailureAsyncHttp {
            request: FailureRequestView {
                callback_context: cb,
                origin,
                timeout_kind: kind,
                sip_code: None,
                sip_reason: None,
                failed_leg_id: leg,
                sip_headers: Seq::empty(),
            },
        },
    ]
}

fn consult_on_silence(
    cb: &String,
    leg: &String,
    origin: FailureOrigin,
    kind: Option<TimeoutKind>,
) -> (r: Vec<RuleAction>)
    ensures
        views(r@) == silent_consult(cb@, leg@, origin, kind),
{
    let none: Vec<SipHeader> = Vec::new();
    assert(views(none@) =~= Seq::<SipHeaderView>::empty());
    let also: Vec<SipHeader> = Vec::new();
    assert(views(also@) =~= Seq::<SipHeaderView>::empty());
    let r = vec![
        RuleAction::SetFailureHeaders { headers: none },
        RuleAction::FailureAsyncHttp {
            request: FailureRequest {
                callback_context: cb.clone(),
                origin,
                timeout_kind: kind,
                sip_code: None,
                sip_reason: None,
                failed_leg_id: leg.clone(),
                sip_headers: also,
            },
        },
    ];
    assert(views(r@) =~= silent_consult(cb@, leg@, origin, kind));
    r
}

// ── failover ────────────────────────────────────────────────────────────
/// The ring deadline of a reroute: its own, else its features'.
pub open spec fn fold_deadline(f: RouteFoldView) -> Option<i64> {
    match f.no_answer {
        Some(n) => Some(n),
        None => match f.features {
            Some(x) => x.no_answer_timeout_sec,
            None => None,
        },
    }
}

/// The leg a reroute creates.
pub open spec fn fold_leg(f: RouteFoldView) -> NewLegView {
    NewLegView {
        destination: f.destination,
        new_ruri: f.new_ruri,
        new_from: f.new_from,
        new_to: f.new_to,
        no_answer_timeout_sec: fold_deadline(f),
        callback_context: f.callback_context,
        body_override: f.body_override,
        header_updates: f.header_updates,
        kind: None,
    }
}

/// A failed call rerouted: what the route entails, then its leg. Nothing on a
/// call going away.
#[verifier::opaque]
pub open spec fn failover_created(ctx: RuleContextView) -> Option<Seq<RuleActionView>> {
    if going_away(ctx) {
        Some(Seq::empty())
    } else {
        match ctx.event {
            CallEventView::Internal { payload, features, subscriptions, .. } => match route_fold(
                payload,
                features,
                subscriptions,
                ctx.config.reserved_ext,
            ) {
                Some(f) => {
                    let failed = tag_or_empty(member_text(payload, "failed_leg_id"@));
                    Some(
                        (if failed.len() > 0 {
                            seq![
                                RuleActionView::cancel_timer(
                                    TimerTypeView::NoAnswer,
                                    Some(failed),
                                ),
                            ]
                        } else {
                            Seq::empty()
                        }) + parity_actions(f, ctx) + seq![
                            RuleActionView::CreateLeg { leg: fold_leg(f) },
                        ],
                    )
                },
                None => None,
            },
            _ => None,
        }
    }
}

pub(crate) fn on_failover(ctx: &RuleContext) -> (r: Option<Vec<RuleAction>>)
    ensures
        (match r {
            Some(v) => Some(views(v@)),
            None => None,
        }) == failover_created(ctx@),
{
    proof {
        reveal(failover_created);
    }
    if fold_lands_on_going_away_call(ctx) {
        return Some(nothing());
    }
    match ctx.event {
        CallEvent::Internal { payload, features, subscriptions, .. } => {
            let f = match parse_route_fold(
                payload,
                features,
                subscriptions,
                &ctx.config.reserved_ext,
            ) {
                Some(f) => f,
                None => {
                    return None;
                },
            };
            let failed = tag_text(&read_text(payload, "failed_leg_id"));
            let mut first = nothing();
            if !is_empty(&failed) {
                add_action(
                    &mut first,
                    RuleAction::cancel_timer(&TimerType::NoAnswer, Some(failed.clone())),
                );
                assert(views(first@) =~= seq![
                    RuleActionView::cancel_timer(TimerTypeView::NoAnswer, Some(failed@)),
                ]);
            }
            let more = then_do(first, route_fold_parity_actions(&f, ctx));
            let deadline = match f.no_answer {
                Some(n) => Some(n),
                None => match &f.features {
                    Some(x) => x.no_answer_timeout_sec,
                    None => None,
                },
            };
            let ghost fv = f@;
            let leg = NewLeg {
                destination: f.destination,
                new_ruri: f.new_ruri,
                new_from: f.new_from,
                new_to: f.new_to,
                no_answer_timeout_sec: deadline,
                callback_context: f.callback_context,
                body_override: f.body_override,
                header_updates: f.header_updates,
                kind: None,
            };
            assert(leg@ == fold_leg(fv));
            let mut last = nothing();
            add_action(&mut last, RuleAction::CreateLeg { leg });
            assert(views(last@) =~= seq![RuleActionView::CreateLeg { leg: fold_leg(fv) }]);
            Some(then_do(more, last))
        },
        _ => None,
    }
}

pub open spec fn low_16(n: int) -> u16 {
    (n % 0x10000) as u16
}

/// The number a decision states, as far as a status line holds it.
pub open spec fn stated_code(
    payload: Nodes,
    key: Seq<char>,
    default: u16,
) -> u16 {
    match member_u64(payload, key) {
        Some(n) => low_16(n),
        None => default,
    }
}

pub open spec fn stated_reason(payload: Nodes, default: Seq<char>) -> Seq<char> {
    match member_text(payload, "reason"@) {
        Some(t) => t,
        None => default,
    }
}

pub(crate) fn read_code(payload: &serde_json::Value, key: &str, default: u16) -> (r: u16)
    ensures
        r == stated_code(json_nodes(*payload), key@, default),
{
    match read_u64(payload, key) {
        Some(n) => (n % 0x10000) as u16,
        None => default,
    }
}

fn read_reason(payload: &serde_json::Value, default: &str) -> (r: String)
    ensures
        r@ == stated_reason(json_nodes(*payload), default@),
{
    match read_text(payload, "reason") {
        Some(t) => t,
        None => default.to_string(),
    }
}

/// The backend declined to reroute: the failure is relayed to the caller where
/// there is one, and the call ends. Nothing on a call going away.
#[verifier::opaque]
pub open spec fn failover_declined(ctx: RuleContextView) -> Option<Seq<RuleActionView>> {
    if going_away(ctx) {
        Some(Seq::empty())
    } else {
        match ctx.event {
            CallEventView::Internal { payload, .. } => Some(
                (match member_u64(payload, "status"@) {
                    Some(n) => seq![
                        RuleActionView::RelayFailureToALeg {
                            status: low_16(n),
                            reason: stated_reason(payload, "Server Internal Error"@),
                        },
                    ],
                    None => Seq::empty(),
                }).push(RuleActionView::hang_up("failover-declined"@)),
            ),
            _ => None,
        }
    }
}

pub(crate) fn on_failover_declined(ctx: &RuleContext) -> (r: Option<Vec<RuleAction>>)
    ensures
        (match r {
            Some(v) => Some(views(v@)),
            None => None,
        }) == failover_declined(ctx@),
{
    proof {
        reveal(failover_declined);
    }
    if fold_lands_on_going_away_call(ctx) {
        return Some(nothing());
    }
    match ctx.event {
        CallEvent::Internal { payload, .. } => {
            let mut out = nothing();
            if let Some(n) = read_u64(payload, "status") {
                let reason = read_reason(payload, "Server Internal Error");
                let a = RuleAction::RelayFailureToALeg { status: (n % 0x10000) as u16, reason };
                add_action(&mut out, a);
                assert(views(out@) =~= seq![a@]);
            }
            add_action(&mut out, RuleAction::hang_up("failover-declined"));
            Some(out)
        },
        _ => None,
    }
}

/// A final the backend authored, and the end of the call.
pub open spec fn authored_end(a: AuthoredFinalView, cause: Seq<char>) -> Seq<RuleActionView> {
    seq![RuleActionView::RespondToALeg { authored: a }, RuleActionView::hang_up(cause)]
}

fn end_with(a: AuthoredFinal, cause: &str) -> (r: Vec<RuleAction>)
    ensures
        views(r@) == authored_end(a@, cause@),
{
    let ghost av = a@;
    let r = vec![RuleAction::RespondToALeg { authored: a }, RuleAction::hang_up(cause)];
    assert(views(r@) =~= authored_end(av, cause@));
    r
}

/// The backend authored a reject. Nothing on a call going away.
#[verifier::opaque]
pub open spec fn failover_rejected(ctx: RuleContextView) -> Option<Seq<RuleActionView>> {
    if going_away(ctx) {
        Some(Seq::empty())
    } else {
        match ctx.event {
            CallEventView::Internal { payload, .. } => Some(
                authored_end(
                    AuthoredFinalView {
                        status: stated_code(payload, "code"@, 500),
                        reason: stated_reason(payload, "Declined"@),
                        header_updates: header_updates(payload),
                        contacts: Seq::empty(),
                    },
                    "failover-reject"@,
                ),
            ),
            _ => None,
        }
    }
}

pub(crate) fn on_failover_rejected(ctx: &RuleContext) -> (r: Option<Vec<RuleAction>>)
    ensures
        (match r {
            Some(v) => Some(views(v@)),
            None => None,
        }) == failover_rejected(ctx@),
{
    proof {
        reveal(failover_rejected);
    }
    if fold_lands_on_going_away_call(ctx) {
        return Some(nothing());
    }
    match ctx.event {
        CallEvent::Internal { payload, .. } => {
            let a = AuthoredFinal {
                status: read_code(payload, "code", 500),
                reason: read_reason(payload, "Declined"),
                header_updates: parse_header_updates(payload),
                contacts: Vec::new(),
            };
            assert(views(a.contacts@) =~= Seq::empty());
            Some(end_with(a, "failover-reject"))
        },
        _ => None,
    }
}

/// The backend authored a redirect. Nothing on a call going away.
#[verifier::opaque]
pub open spec fn failover_redirected(ctx: RuleContextView) -> Option<Seq<RuleActionView>> {
    if going_away(ctx) {
        Some(Seq::empty())
    } else {
        match ctx.event {
            CallEventView::Internal { payload, .. } => Some(
                authored_end(
                    AuthoredFinalView {
                        status: stated_code(payload, "code"@, 302),
                        reason: stated_reason(payload, "Moved Temporarily"@),
                        header_updates: header_updates(payload),
                        contacts: redirect_contacts(payload),
                    },
                    "failover-redirect"@,
                ),
            ),
            _ => None,
        }
    }
}

pub(crate) fn on_failover_redirected(ctx: &RuleContext) -> (r: Option<Vec<RuleAction>>)
    ensures
        (match r {
            Some(v) => Some(views(v@)),
            None => None,
        }) == failover_redirected(ctx@),
{
    proof {
        reveal(failover_redirected);
    }
    if fold_lands_on_going_away_call(ctx) {
        return Some(nothing());
    }
    match ctx.event {
        CallEvent::Internal { payload, .. } => {
            let a = AuthoredFinal {
                status: read_code(payload, "code", 302),
                reason: read_reason(payload, "Moved Temporarily"),
                header_updates: parse_header_updates(payload),
                contacts: parse_contacts(payload),
            };
            Some(end_with(a, "failover-redirect"))
        },
        _ => None,
    }
}

// ── ends ────────────────────────────────────────────────────────────────
/// The peer denies the dialog: the call ends.
#[verifier::opaque]
pub open spec fn dialog_denied(ctx: RuleContextView) -> Seq<RuleActionView> {
    let src = ctx.source_leg_id;
    seq![
        RuleActionView::end(src, ByeDisposition::ByeTimeout),
        RuleActionView::cdr(
            CdrEventType::Bye,
            src,
            Some(481),
            text("Call/Transaction Does Not Exist"),
        ),
        RuleActionView::hang_up("481"@),
    ]
}

pub(crate) fn on_dialog_denied(ctx: &RuleContext) -> (r: Vec<RuleAction>)
    ensures
        views(r@) == dialog_denied(ctx@),
{
    proof {
        reveal(dialog_denied);
    }
    let src = ctx.source_leg_id;
    let r = vec![
        RuleAction::end(src, ByeDisposition::ByeTimeout),
        RuleAction::cdr(
            CdrEventType::Bye,
            src,
            Some(481),
            some("Call/Transaction Does Not Exist"),
        ),
        RuleAction::hang_up("481"),
    ];
    assert(views(r@) =~= dialog_denied(ctx@));
    r
}

/// A BYE on a call already terminating: answered, and its leg is done.
#[verifier::opaque]
pub open spec fn bye_crossed(ctx: RuleContextView) -> Seq<RuleActionView> {
    seq![
        RuleActionView::refuse(200, "OK"@),
        RuleActionView::end(ctx.source_leg_id, ByeDisposition::ByeReceived),
    ]
}

pub(crate) fn on_cross_bye(ctx: &RuleContext) -> (r: Vec<RuleAction>)
    ensures
        views(r@) == bye_crossed(ctx@),
{
    proof {
        reveal(bye_crossed);
    }
    let r = vec![
        RuleAction::refuse(200, "OK"),
        RuleAction::end(ctx.source_leg_id, ByeDisposition::ByeReceived),
    ];
    assert(views(r@) =~= bye_crossed(ctx@));
    r
}

/// A BYE: answered, its leg done, and the call ends.
#[verifier::opaque]
pub open spec fn bye_relayed(ctx: RuleContextView) -> Seq<RuleActionView> {
    let src = ctx.source_leg_id;
    seq![
        RuleActionView::refuse(200, "OK"@),
        RuleActionView::end(src, ByeDisposition::ByeReceived),
        RuleActionView::cdr(CdrEventType::Bye, src, None, None),
        RuleActionView::hang_up("BYE"@),
    ]
}

pub(crate) fn on_bye(ctx: &RuleContext) -> (r: Vec<RuleAction>)
    ensures
        views(r@) == bye_relayed(ctx@),
{
    proof {
        reveal(bye_relayed);
    }
    let src = ctx.source_leg_id;
    let r = vec![
        RuleAction::refuse(200, "OK"),
        RuleAction::end(src, ByeDisposition::ByeReceived),
        RuleAction::cdr(CdrEventType::Bye, src, None, None),
        RuleAction::hang_up("BYE"),
    ];
    assert(views(r@) =~= bye_relayed(ctx@));
    r
}

// ── PRACK ───────────────────────────────────────────────────────────────
/// A PRACK: refused where it names nothing this stack showed, or does not
/// read; else relayed.
#[verifier::opaque]
pub open spec fn prack_relayed(ctx: RuleContextView) -> RuleActionView {
    match ctx.request() {
        Some(req) => {
            let tokens = match header_value(req.headers, "RAck"@) {
                Some(t) => rack_tokens(t),
                None => None,
            };
            match tokens {
                Some(t) => if names_nothing(
                    ctx.call,
                    ctx.source_leg_id,
                    tag_or_empty(req.to_tag),
                    t,
                ) {
                    RuleActionView::refuse(481, "Call/Transaction Does Not Exist"@)
                } else {
                    RuleActionView::relay()
                },
                None => if numbers_on(ctx.call, ctx.source_leg_id) {
                    RuleActionView::refuse(400, "Bad Request"@)
                } else {
                    RuleActionView::relay()
                },
            }
        },
        None => RuleActionView::relay(),
    }
}

pub(crate) fn on_prack(ctx: &RuleContext) -> (r: RuleAction)
    ensures
        r@ == prack_relayed(ctx@),
{
    proof {
        reveal(prack_relayed);
    }
    let req = match ctx.request() {
        Some(r) => r,
        None => {
            return RuleAction::relay();
        },
    };
    let tokens = match header_text(&req.headers, "RAck") {
        Some(t) => read_rack(t.as_str()),
        None => None,
    };
    match tokens {
        Some(t) => {
            let tag = tag_text(&req.to_tag);
            if unacknowledgeable_rack(ctx.call, ctx.source_leg_id, &tag, t) {
                RuleAction::refuse(481, "Call/Transaction Does Not Exist")
            } else {
                RuleAction::relay()
            }
        },
        None => if owns_rseq_numbering(ctx.call, ctx.source_leg_id) {
            RuleAction::refuse(400, "Bad Request")
        } else {
            RuleAction::relay()
        },
    }
}

// ── CANCEL ──────────────────────────────────────────────────────────────
pub open spec fn came_under(cseq: i64) -> spec_fn((Seq<char>, PendingRequestView)) -> bool {
    |x: (Seq<char>, PendingRequestView)| x.1.inbound_cseq == cseq
}

/// The relayed INVITE, still pending, that came under a CSeq: the leg it was
/// relayed to, and its CSeq there.
pub open spec fn pending_relayed_invite(
    ctx: RuleContextView,
    cseq: i64,
) -> Option<(Seq<char>, i64)> {
    match find_where(leg_invites(ctx.call.legs()), came_under(cseq)) {
        Some(x) => Some((x.0, x.1.outbound_cseq)),
        None => None,
    }
}

/// Find the relayed INVITE, still pending, that came under a CSeq.
pub fn find_pending_relayed_invite(ctx: &RuleContext, cseq: i64) -> (r: Option<(String, i64)>)
    ensures
        opt_view(r) == pending_relayed_invite(ctx@, cseq),
{
    let legs = clone_legs(ctx.call);
    let xs = collect_invites(&legs);
    let ghost p = came_under(cseq);
    for i in 0..xs.len()
        invariant
            p == came_under(cseq),
            views(xs@) == leg_invites(ctx@.call.legs()),
            forall|j: int| 0 <= j < i ==> !p(#[trigger] views(xs@)[j]),
    {
        assert(views(xs@)[i as int] == xs@[i as int]@);
        if xs[i].1.inbound_cseq == cseq {
            proof {
                first_where_is(views(xs@), p, i as int);
            }
            return Some((xs[i].0.clone(), xs[i].1.outbound_cseq));
        }
    }
    proof {
        first_where_none(views(xs@), p);
    }
    None
}

/// The relayed INVITE, still pending, that a CANCEL names.
pub open spec fn invite_cancelled(ctx: RuleContextView) -> Option<(Seq<char>, i64)> {
    match ctx.event {
        CallEventView::Cancelled { invite_cseq, .. } => match invite_cseq {
            Some(c) => pending_relayed_invite(ctx, c),
            None => None,
        },
        _ => None,
    }
}

fn find_cancelled_invite(ctx: &RuleContext) -> (r: Option<(String, i64)>)
    ensures
        opt_view(r) == invite_cancelled(ctx@),
{
    match ctx.event {
        CallEvent::Cancelled { invite_cseq, .. } => match invite_cseq {
            Some(c) => find_pending_relayed_invite(ctx, *c),
            None => None,
        },
        _ => None,
    }
}

/// A CANCEL of a re-INVITE: the relayed one is cancelled, where it still is
/// pending; the call stands.
#[verifier::opaque]
pub open spec fn reinvite_cancelled(ctx: RuleContextView) -> Seq<RuleActionView> {
    match invite_cancelled(ctx) {
        Some((leg_id, outbound_cseq)) => seq![
            RuleActionView::CancelPendingReinvite { leg_id, outbound_cseq },
            RuleActionView::cdr(CdrEventType::Cancel, leg_id, None, text("reinvite_cancelled")),
        ],
        None => Seq::empty(),
    }
}

pub(crate) fn on_reinvite_cancel(ctx: &RuleContext) -> (r: Vec<RuleAction>)
    ensures
        views(r@) == reinvite_cancelled(ctx@),
{
    proof {
        reveal(reinvite_cancelled);
    }
    let mut out = nothing();
    if let Some((leg_id, outbound_cseq)) = find_cancelled_invite(ctx) {
        let second = RuleAction::cdr(
            CdrEventType::Cancel,
            &leg_id,
            None,
            some("reinvite_cancelled"),
        );
        let first = RuleAction::CancelPendingReinvite { leg_id, outbound_cseq };
        let ghost all = seq![first@, second@];
        add_action(&mut out, first);
        add_action(&mut out, second);
        assert(views(out@) =~= all);
    }
    out
}

/// What a cancelled call does to a leg of the callee's.
pub open spec fn leg_cancelled(l: LegView) -> Seq<RuleActionView> {
    match l.state {
        LegState::Confirmed => seq![RuleActionView::DestroyLeg { leg_id: l.leg_id }],
        LegState::Trying | LegState::Early => seq![RuleActionView::CancelLeg { leg_id: l.leg_id }],
        LegState::Terminated => Seq::empty(),
    }
}

pub open spec fn legs_cancelled(ls: Seq<LegView>) -> Seq<RuleActionView>
    decreases ls.len(),
{
    if ls.len() == 0 {
        Seq::empty()
    } else {
        legs_cancelled(ls.drop_last()) + leg_cancelled(ls.last())
    }
}

/// The caller cancelled the call: every leg of the callee's is told, and the
/// call ends.
#[verifier::opaque]
pub open spec fn call_cancelled(ctx: RuleContextView) -> Seq<RuleActionView> {
    legs_cancelled(ctx.call.b_legs) + seq![
        RuleActionView::cdr(CdrEventType::Cancel, ctx.call.a_leg.leg_id, None, None),
        RuleActionView::hang_up("CANCEL"@),
    ]
}

pub(crate) fn on_call_cancel(ctx: &RuleContext) -> (r: Vec<RuleAction>)
    ensures
        views(r@) == call_cancelled(ctx@),
{
    proof {
        reveal(call_cancelled);
    }
    let legs = &ctx.call.b_legs;
    let ghost all = ctx@.call.b_legs;
    let mut out = nothing();
    assert(all.take(0).len() == 0);
    for i in 0..legs.len()
        invariant
            all == views(legs@),
            views(out@) == legs_cancelled(all.take(i as int)),
    {
        assert(all.take(i + 1).drop_last() =~= all.take(i as int));
        assert(all.take(i + 1).last() == legs@[i as int]@);
        let ghost before = views(out@);
        match legs[i].state {
            LegState::Confirmed => {
                let a = RuleAction::DestroyLeg { leg_id: legs[i].leg_id.clone() };
                add_action(&mut out, a);
                assert(views(out@) =~= before + seq![a@]);
            },
            LegState::Trying | LegState::Early => {
                let a = RuleAction::CancelLeg { leg_id: legs[i].leg_id.clone() };
                add_action(&mut out, a);
                assert(views(out@) =~= before + seq![a@]);
            },
            LegState::Terminated => {
                assert(views(out@) =~= before + Seq::<RuleActionView>::empty());
            },
        }
    }
    assert(all.take(legs@.len() as int) =~= all);
    let last = vec![
        RuleAction::cdr(CdrEventType::Cancel, &ctx.call.a_leg.leg_id, None, None),
        RuleAction::hang_up("CANCEL"),
    ];
    assert(views(last@) =~= seq![
        RuleActionView::cdr(CdrEventType::Cancel, ctx@.call.a_leg.leg_id, None, None),
        RuleActionView::hang_up("CANCEL"@),
    ]);
    then_do(out, last)
}

// ── timeouts ────────────────────────────────────────────────────────────
/// The leg is a callee's that still rings.
pub open spec fn rings(ctx: RuleContextView, l: LegView) -> bool {
    l.leg_id != ctx.call.a_leg.leg_id && (l.state == LegState::Trying || l.state
        == LegState::Early)
}

/// A transaction timed out: a leg going away is done; a ringing one is given
/// up and the backend asked; any other timeout ends the call.
#[verifier::opaque]
pub open spec fn transaction_timed_out(ctx: RuleContextView) -> Seq<RuleActionView> {
    let src = ctx.source_leg_id;
    let leg = ctx.source_leg();
    let (method, kind) = match ctx.event {
        CallEventView::Timeout { method, kind } => (method, kind),
        _ => (None, None),
    };
    if leg is Some && crate::state::going_away(ctx.call.state, leg->0) {
        seq![
            RuleActionView::end(
                src,
                if leg->0.bye_disposition == Some(ByeDisposition::ByeSent) {
                    ByeDisposition::ByeTimeout
                } else {
                    ByeDisposition::Cancelled
                },
            ),
        ]
    } else if method == Some(MethodView::Invite) && leg is Some && rings(ctx, leg->0)
        && ctx.call.callback_context is Some {
        seq![
            RuleActionView::cdr(CdrEventType::Timeout, src, None, text("transaction_timeout")),
            RuleActionView::DestroyLeg { leg_id: src },
        ] + silent_consult(
            ctx.call.callback_context->0,
            src,
            FailureOrigin::TransactionTimeout,
            Some(
                if kind == Some(TimeoutKind::Response) {
                    TimeoutKind::Response
                } else {
                    TimeoutKind::Transaction
                },
            ),
        )
    } else {
        seq![RuleActionView::hang_up("timeout"@)]
    }
}

fn hang_up_only(cause: &str) -> (r: Vec<RuleAction>)
    ensures
        views(r@) == seq![RuleActionView::hang_up(cause@)],
{
    let r = vec![RuleAction::hang_up(cause)];
    assert(views(r@) =~= seq![RuleActionView::hang_up(cause@)]);
    r
}

pub(crate) fn on_transaction_timeout(ctx: &RuleContext) -> (r: Vec<RuleAction>)
    ensures
        views(r@) == transaction_timed_out(ctx@),
{
    proof {
        reveal(transaction_timed_out);
    }
    let src = ctx.source_leg_id;
    let l = match ctx.source_leg() {
        Some(l) => l,
        None => {
            return hang_up_only("timeout");
        },
    };
    if leg_is_going_away(ctx.call.state, l) {
        let bye = match l.bye_disposition {
            Some(ByeDisposition::ByeSent) => ByeDisposition::ByeTimeout,
            _ => ByeDisposition::Cancelled,
        };
        let r = vec![RuleAction::end(src, bye)];
        assert(views(r@) =~= seq![RuleActionView::end(src@, bye)]);
        return r;
    }
    let (invite, kind) = match ctx.event {
        CallEvent::Timeout { method, kind } => {
            let invite = match method {
                Some(m) => *m == Method::Invite,
                None => false,
            };
            (invite, *kind)
        },
        _ => (false, None),
    };
    let ringing = l.leg_id != ctx.call.a_leg.leg_id && (l.state == LegState::Trying || l.state
        == LegState::Early);
    if invite && ringing {
        if let Some(cb) = &ctx.call.callback_context {
            let told = match kind {
                Some(TimeoutKind::Response) => TimeoutKind::Response,
                _ => TimeoutKind::Transaction,
            };
            let first = vec![
                RuleAction::cdr(CdrEventType::Timeout, src, None, some("transaction_timeout")),
                RuleAction::DestroyLeg { leg_id: src.clone() },
            ];
            assert(views(first@) =~= seq![
                RuleActionView::cdr(CdrEventType::Timeout, src@, None, text("transaction_timeout")),
                RuleActionView::DestroyLeg { leg_id: src@ },
            ]);
            let more = consult_on_silence(cb, src, FailureOrigin::TransactionTimeout, Some(told));
            return then_do(first, more);
        }
    }
    hang_up_only("timeout")
}

/// Nobody awaits the answer that a ring deadline is for.
pub open spec fn ring_spent(ctx: RuleContextView) -> bool {
    ctx.call.a_leg.state == LegState::Confirmed || match ctx.source_leg() {
        Some(l) => l.state == LegState::Confirmed || crate::state::going_away(ctx.call.state, l),
        None => true,
    }
}

/// A ring deadline passed: the leg is given up, and the backend asked, or the
/// call ends; a spent deadline only leaves the ledger.
#[verifier::opaque]
pub open spec fn no_answer(ctx: RuleContextView) -> Seq<RuleActionView> {
    let src = ctx.source_leg_id;
    if ring_spent(ctx) {
        seq![RuleActionView::cancel_timer(TimerTypeView::NoAnswer, Some(src))]
    } else {
        seq![
            RuleActionView::cdr(CdrEventType::Timeout, src, None, text("no_answer_timeout")),
            RuleActionView::DestroyLeg { leg_id: src },
        ] + match ctx.call.callback_context {
            Some(cb) => silent_consult(cb, src, FailureOrigin::NoAnswerTimeout, None),
            None => seq![RuleActionView::hang_up("no-answer"@)],
        }
    }
}

pub(crate) fn on_no_answer(ctx: &RuleContext) -> (r: Vec<RuleAction>)
    ensures
        views(r@) == no_answer(ctx@),
{
    proof {
        reveal(no_answer);
    }
    let src = ctx.source_leg_id;
    let spent = ctx.call.a_leg.state == LegState::Confirmed || match ctx.source_leg() {
        Some(l) => l.state == LegState::Confirmed || leg_is_going_away(ctx.call.state, l),
        None => true,
    };
    if spent {
        let r = vec![RuleAction::cancel_timer(&TimerType::NoAnswer, Some(src.clone()))];
        assert(views(r@) =~= seq![
            RuleActionView::cancel_timer(TimerTypeView::NoAnswer, Some(src@)),
        ]);
        return r;
    }
    let first = vec![
        RuleAction::cdr(CdrEventType::Timeout, src, None, some("no_answer_timeout")),
        RuleAction::DestroyLeg { leg_id: src.clone() },
    ];
    assert(views(first@) =~= seq![
        RuleActionView::cdr(CdrEventType::Timeout, src@, None, text("no_answer_timeout")),
        RuleActionView::DestroyLeg { leg_id: src@ },
    ]);
    let more = match &ctx.call.callback_context {
        Some(cb) => consult_on_silence(cb, src, FailureOrigin::NoAnswerTimeout, None),
        None => hang_up_only("no-answer"),
    };
    then_do(first, more)
}

/// The call was answered on some side.
pub open spec fn any_answered(ctx: RuleContextView) -> bool {
    ctx.call.a_leg.state == LegState::Confirmed || any_where(ctx.call.b_legs, leg_confirmed())
}

fn is_answered(ctx: &RuleContext) -> (r: bool)
    ensures
        r == any_answered(ctx@),
{
    ctx.call.a_leg.state == LegState::Confirmed || any_b_leg_confirmed(ctx.call)
}

/// A final of this stack's own, that states no more than its status line.
pub open spec fn plain_final(status: u16, reason: Seq<char>) -> AuthoredFinalView {
    AuthoredFinalView {
        status,
        reason,
        header_updates: Seq::empty(),
        contacts: Seq::empty(),
    }
}

fn bare_final(status: u16, reason: &str) -> (r: AuthoredFinal)
    ensures
        r@ == plain_final(status, reason@),
{
    let r = AuthoredFinal {
        status,
        reason: reason.to_string(),
        header_updates: Vec::new(),
        contacts: Vec::new(),
    };
    assert(views(r.header_updates@) =~= Seq::empty());
    assert(views(r.contacts@) =~= Seq::empty());
    r
}

/// The caller waited too long: it gets its final, and the call ends; a spent
/// deadline only leaves the ledger.
#[verifier::opaque]
pub open spec fn setup_timed_out(ctx: RuleContextView) -> Seq<RuleActionView> {
    if any_answered(ctx) || going_away(ctx) {
        seq![RuleActionView::cancel_timer(TimerTypeView::SetupTimeout, None)]
    } else {
        seq![
            RuleActionView::cdr(
                CdrEventType::Timeout,
                ctx.call.a_leg.leg_id,
                Some(408),
                text("setup_timeout"),
            ),
            RuleActionView::RespondToALeg { authored: plain_final(408, "Request Timeout"@) },
            RuleActionView::hang_up("setup-timeout"@),
        ]
    }
}

pub(crate) fn on_setup_timeout(ctx: &RuleContext) -> (r: Vec<RuleAction>)
    ensures
        views(r@) == setup_timed_out(ctx@),
{
    proof {
        reveal(setup_timed_out);
    }
    if is_answered(ctx) || fold_lands_on_going_away_call(ctx) {
        let r = vec![RuleAction::cancel_timer(&TimerType::SetupTimeout, None)];
        assert(views(r@) =~= setup_timed_out(ctx@));
        return r;
    }
    let r = vec![
        RuleAction::cdr(
            CdrEventType::Timeout,
            &ctx.call.a_leg.leg_id,
            Some(408),
            some("setup_timeout"),
        ),
        RuleAction::RespondToALeg { authored: bare_final(408, "Request Timeout") },
        RuleAction::hang_up("setup-timeout"),
    ];
    assert(views(r@) =~= setup_timed_out(ctx@));
    r
}

/// The ceiling passed: an answered call whose backend subscribed to it asks
/// what to do; any other ends; a spent ceiling only leaves the ledger.
#[verifier::opaque]
pub open spec fn ceiling_passed(ctx: RuleContextView) -> Seq<RuleActionView> {
    if going_away(ctx) {
        seq![RuleActionView::cancel_timer(TimerTypeView::GlobalDuration, None)]
    } else if ctx.call.a_leg.state == LegState::Confirmed && ctx.call.reroute is None
        && ctx.call.subscriptions.contains(ReleaseEventKind::MaxCallDuration)
        && ctx.call.callback_context is Some {
        seq![
            RuleActionView::ReleaseAsyncHttp {
                request: ReleaseRequestView {
                    callback_context: ctx.call.callback_context->0,
                    event: ReleaseEventKind::MaxCallDuration,
                },
            },
        ]
    } else {
        seq![
            RuleActionView::cdr(
                CdrEventType::Bye,
                ctx.call.a_leg.leg_id,
                None,
                text("max_duration"),
            ),
            RuleActionView::hang_up("max-duration"@),
        ]
    }
}

fn subscribed(call: &Call, kind: ReleaseEventKind) -> (r: bool)
    ensures
        r == call@.subscriptions.contains(kind),
{
    for i in 0..call.subscriptions.len()
        invariant
            forall|j: int| 0 <= j < i ==> call.subscriptions@[j] != kind,
    {
        if call.subscriptions[i] == kind {
            assert(call@.subscriptions[i as int] == kind);
            return true;
        }
    }
    false
}

pub(crate) fn on_max_duration(ctx: &RuleContext) -> (r: Vec<RuleAction>)
    ensures
        views(r@) == ceiling_passed(ctx@),
{
    proof {
        reveal(ceiling_passed);
    }
    if fold_lands_on_going_away_call(ctx) {
        let r = vec![RuleAction::cancel_timer(&TimerType::GlobalDuration, None)];
        assert(views(r@) =~= ceiling_passed(ctx@));
        return r;
    }
    if ctx.call.a_leg.state == LegState::Confirmed && ctx.call.reroute.is_none() && subscribed(
        ctx.call,
        ReleaseEventKind::MaxCallDuration,
    ) {
        if let Some(cb) = &ctx.call.callback_context {
            let r = vec![
                RuleAction::ReleaseAsyncHttp {
                    request: ReleaseRequest {
                        callback_context: cb.clone(),
                        event: ReleaseEventKind::MaxCallDuration,
                    },
                },
            ];
            assert(views(r@) =~= ceiling_passed(ctx@));
            return r;
        }
    }
    let r = vec![
        RuleAction::cdr(
            CdrEventType::Bye,
            &ctx.call.a_leg.leg_id,
            None,
            some("max_duration"),
        ),
        RuleAction::hang_up("max-duration"),
    ];
    assert(views(r@) =~= ceiling_passed(ctx@));
    r
}

// ── keepalive ───────────────────────────────────────────────────────────
/// One leg probed, with the wait for its answer.
pub open spec fn probe(leg_id: Seq<char>, timeout_sec: i64) -> Seq<RuleActionView> {
    seq![
        RuleActionView::SendRequestToLeg {
            leg_id,
            method: MethodView::Options,
            body: Seq::empty(),
            content_type: None,
            headers: Seq::empty(),
        },
        RuleActionView::arm(TimerTypeView::KeepaliveTimeout, timeout_sec, Some(leg_id)),
    ]
}

/// Both bridged legs are probed, and the next probe armed.
#[verifier::opaque]
pub open spec fn probed(ctx: RuleContextView) -> Seq<RuleActionView> {
    let t = ctx.config.keepalive_timeout_sec;
    (match ctx.call.active_peer {
        Some(p) => probe(p.leg_a, t) + probe(p.leg_b, t),
        None => Seq::empty(),
    }).push(
        RuleActionView::arm(TimerTypeView::Keepalive, ctx.config.keepalive_interval_sec, None),
    )
}

fn probe_leg(leg_id: &String, timeout_sec: i64) -> (r: Vec<RuleAction>)
    ensures
        views(r@) == probe(leg_id@, timeout_sec),
{
    let none: Vec<SipHeader> = Vec::new();
    assert(views(none@) =~= Seq::<SipHeaderView>::empty());
    let r = vec![
        RuleAction::SendRequestToLeg {
            leg_id: leg_id.clone(),
            method: Method::Options,
            body: Vec::new(),
            content_type: None,
            headers: none,
        },
        RuleAction::arm(TimerType::KeepaliveTimeout, timeout_sec, Some(leg_id.clone())),
    ];
    assert(views(r@) =~= probe(leg_id@, timeout_sec));
    r
}

pub(crate) fn on_keepalive(ctx: &RuleContext) -> (r: Vec<RuleAction>)
    ensures
        views(r@) == probed(ctx@),
{
    proof {
        reveal(probed);
    }
    let t = keepalive_timeout(ctx);
    let mut out = match &ctx.call.active_peer {
        Some(p) => then_do(probe_leg(&p.leg_a, t), probe_leg(&p.leg_b, t)),
        None => nothing(),
    };
    add_action(&mut out, RuleAction::arm(TimerType::Keepalive, keepalive_interval(ctx), None));
    out
}

/// A probe went unanswered: its leg is dead, and the call ends.
#[verifier::opaque]
pub open spec fn probe_unanswered(ctx: RuleContextView) -> Seq<RuleActionView> {
    let src = ctx.source_leg_id;
    seq![
        RuleActionView::end(src, ByeDisposition::ByeTimeout),
        RuleActionView::cdr(CdrEventType::Bye, src, None, text("keepalive timeout")),
        RuleActionView::hang_up("keepalive-timeout"@),
    ]
}

pub(crate) fn on_keepalive_timeout(ctx: &RuleContext) -> (r: Vec<RuleAction>)
    ensures
        views(r@) == probe_unanswered(ctx@),
{
    proof {
        reveal(probe_unanswered);
    }
    let src = ctx.source_leg_id;
    let r = vec![
        RuleAction::end(src, ByeDisposition::ByeTimeout),
        RuleAction::cdr(CdrEventType::Bye, src, None, some("keepalive timeout")),
        RuleAction::hang_up("keepalive-timeout"),
    ];
    assert(views(r@) =~= probe_unanswered(ctx@));
    r
}

// ── ladders given up ────────────────────────────────────────────────────
/// What the silence after a 2xx means: the session ends, and the record names
/// the leg that owed the ACK.
#[verifier::opaque]
pub open spec fn ack_given_up(c: CallView, o: ObligationView) -> Seq<RuleActionView> {
    match o {
        ObligationView::AckOf2xx { leg, .. } => if is_initial_answer(c, o) {
            seq![
                RuleActionView::cdr(CdrEventType::Bye, leg, None, text("ack_timeout")),
                RuleActionView::hang_up("ack-timeout"@),
            ]
        } else {
            seq![
                RuleActionView::cdr(CdrEventType::Bye, leg, None, text("reinvite_ack_timeout")),
                RuleActionView::hang_up("reinvite-ack-timeout"@),
            ]
        },
        ObligationView::PrackOf { .. } => Seq::empty(),
    }
}

/// What the silence after a 2xx means.
pub(crate) fn unacked_2xx_give_up_actions(call: &Call, o: &Obligation) -> (r: Vec<RuleAction>)
    ensures
        views(r@) == ack_given_up(call@, o@),
{
    proof {
        reveal(ack_given_up);
    }
    match o {
        Obligation::AckOf2xx { leg, .. } => {
            let r = if answers_initial_invite(call, o) {
                vec![
                    RuleAction::cdr(CdrEventType::Bye, leg, None, some("ack_timeout")),
                    RuleAction::hang_up("ack-timeout"),
                ]
            } else {
                vec![
                    RuleAction::cdr(CdrEventType::Bye, leg, None, some("reinvite_ack_timeout")),
                    RuleAction::hang_up("reinvite-ack-timeout"),
                ]
            };
            assert(views(r@) =~= ack_given_up(call@, o@));
            r
        },
        Obligation::PrackOf { .. } => nothing(),
    }
}

/// The obligation a give-up is about.
pub open spec fn given_up(ctx: RuleContextView) -> Option<ObligationView> {
    match ctx.timer() {
        Some(TimerTypeView::RepeatGiveUp { obligation }) => Some(obligation),
        _ => None,
    }
}

/// The obligation a give-up is about.
pub(crate) fn given_up_obligation<'a>(ctx: &'a RuleContext) -> (r: Option<&'a Obligation>)
    ensures
        match r {
            Some(o) => given_up(ctx@) == Some(o@),
            None => given_up(ctx@) is None,
        },
{
    match ctx.timer_type() {
        Some(TimerType::RepeatGiveUp { obligation }) => Some(obligation),
        _ => None,
    }
}

/// No ACK came.
#[verifier::opaque]
pub open spec fn no_ack(ctx: RuleContextView) -> Seq<RuleActionView> {
    match given_up(ctx) {
        Some(o) => ack_given_up(ctx.call, o),
        None => Seq::empty(),
    }
}

pub(crate) fn on_ack_give_up(ctx: &RuleContext) -> (r: Vec<RuleAction>)
    ensures
        views(r@) == no_ack(ctx@),
{
    proof {
        reveal(no_ack);
    }
    match given_up_obligation(ctx) {
        Some(o) => unacked_2xx_give_up_actions(ctx.call, o),
        None => nothing(),
    }
}

/// No PRACK came: the INVITE the provisional answered is rejected. A relayed
/// re-INVITE is one transaction; the caller's own INVITE is the call.
#[verifier::opaque]
pub open spec fn no_prack(ctx: RuleContextView) -> Seq<RuleActionView> {
    match given_up(ctx) {
        Some(ObligationView::PrackOf { a_tag, a_rseq }) => match invite_answered_by(
            ctx.call,
            a_tag,
            a_rseq,
        ) {
            Some((leg_id, outbound_cseq)) => seq![
                RuleActionView::cdr(
                    CdrEventType::Timeout,
                    match shown_on(ctx.call, a_tag) {
                        Some(l) => l,
                        None => ctx.call.a_leg.leg_id,
                    },
                    Some(504),
                    text("prack_timeout"),
                ),
                RuleActionView::RejectPendingReinvite {
                    leg_id,
                    outbound_cseq,
                    status: 504,
                    reason: "Server Time-out"@,
                },
            ],
            None => if any_answered(ctx) {
                Seq::empty()
            } else {
                seq![
                    RuleActionView::cdr(
                        CdrEventType::Timeout,
                        ctx.call.a_leg.leg_id,
                        Some(504),
                        text("prack_timeout"),
                    ),
                    RuleActionView::RespondToALeg {
                        authored: plain_final(504, "Server Time-out"@),
                    },
                    RuleActionView::hang_up("prack-timeout"@),
                ]
            },
        },
        _ => Seq::empty(),
    }
}

pub(crate) fn on_prack_give_up(ctx: &RuleContext) -> (r: Vec<RuleAction>)
    ensures
        views(r@) == no_prack(ctx@),
{
    proof {
        reveal(no_prack);
    }
    let (a_tag, a_rseq) = match given_up_obligation(ctx) {
        Some(Obligation::PrackOf { a_tag, a_rseq }) => (a_tag, *a_rseq),
        _ => {
            return nothing();
        },
    };
    if let Some((leg_id, outbound_cseq)) = pending_invite_answered_by(ctx.call, a_tag, a_rseq) {
        let silent = match leg_shown(ctx.call, a_tag) {
            Some(l) => l,
            None => ctx.call.a_leg.leg_id.clone(),
        };
        let r = vec![
            RuleAction::cdr(CdrEventType::Timeout, &silent, Some(504), some("prack_timeout")),
            RuleAction::RejectPendingReinvite {
                leg_id,
                outbound_cseq,
                status: 504,
                reason: "Server Time-out".to_string(),
            },
        ];
        assert(views(r@) =~= no_prack(ctx@));
        return r;
    }
    if is_answered(ctx) {
        return nothing();
    }
    let r = vec![
        RuleAction::cdr(
            CdrEventType::Timeout,
            &ctx.call.a_leg.leg_id,
            Some(504),
            some("prack_timeout"),
        ),
        RuleAction::RespondToALeg { authored: bare_final(504, "Server Time-out") },
        RuleAction::hang_up("prack-timeout"),
    ];
    assert(views(r@) =~= no_prack(ctx@));
    r
}

// ── force ───────────────────────────────────────────────────────────────
/// Every leg that is not done yet brought to its end.
pub open spec fn forced(ls: Seq<LegView>) -> Seq<RuleActionView>
    decreases ls.len(),
{
    if ls.len() == 0 {
        Seq::empty()
    } else if leg_resolved(ls.last()) {
        forced(ls.drop_last())
    } else {
        forced(ls.drop_last()).push(
            RuleActionView::end(ls.last().leg_id, ByeDisposition::ByeTimeout),
        )
    }
}

pub(crate) fn force_legs(ctx: &RuleContext) -> (r: Vec<RuleAction>)
    ensures
        views(r@) == forced(ctx@.call.legs()),
{
    let legs = clone_legs(ctx.call);
    let ghost all = views(legs@);
    let mut out = nothing();
    assert(all.take(0).len() == 0);
    for i in 0..legs.len()
        invariant
            all == views(legs@),
            views(out@) == forced(all.take(i as int)),
    {
        assert(all.take(i + 1).drop_last() =~= all.take(i as int));
        assert(all.take(i + 1).last() == legs@[i as int]@);
        if !leg_is_resolved(&legs[i]) {
            add_action(&mut out, RuleAction::end(&legs[i].leg_id, ByeDisposition::ByeTimeout));
        }
    }
    assert(all.take(legs@.len() as int) =~= all);
    out
}

/// The reaper found the call dead: it ends without a word on the wire.
#[verifier::opaque]
pub open spec fn reaped(ctx: RuleContextView, reason: Seq<char>) -> Seq<RuleActionView> {
    forced(ctx.call.legs()) + seq![
        RuleActionView::cdr(CdrEventType::Bye, ctx.call.a_leg.leg_id, None, Some(reason)),
        RuleActionView::hang_up(reason),
    ]
}

pub(crate) fn reap_force_terminal(ctx: &RuleContext, reason: &str) -> (r: Vec<RuleAction>)
    ensures
        views(r@) == reaped(ctx@, reason@),
{
    proof {
        reveal(reaped);
    }
    let first = force_legs(ctx);
    let last = vec![
        RuleAction::cdr(CdrEventType::Bye, &ctx.call.a_leg.leg_id, None, some(reason)),
        RuleAction::hang_up(reason),
    ];
    assert(views(last@) =~= seq![
        RuleActionView::cdr(CdrEventType::Bye, ctx@.call.a_leg.leg_id, None, Some(reason@)),
        RuleActionView::hang_up(reason@),
    ]);
    then_do(first, last)
}

} // verus!
