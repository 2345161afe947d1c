//! While the transfer awaits its authorization: denied, allowed, or not answered
//! in time.
use vstd::prelude::*;

use super::{
    cancel_overall, close, closed, guards_timer, moves, originate_effect, originates,
    overall_cancelled, timer_effect, transfer_rule, transition,
};
use crate::action::{NewLeg, NewLegView, RuleAction, RuleActionView};
use crate::actions::originate::{leg_id_for, next_leg_id};
use crate::call::{CallView, TimerKind, TransferPhase, TransferState, TransferStateView};
use crate::defaults::handlers::{read_code, stated_code};
use crate::defaults::route_fold::{
    as_i64, header_updates, parse_header_updates, read_stated_port, stated_port, Nodes,
};
use crate::headers::{bare_uri, to_bare_uri};
use crate::json::{json_get, json_nodes, member, member_i64, member_text, read_i64, read_text};
use crate::model::{
    CallEvent, CallEventView, Effect, Guard, Handler, Match, MatchView, RuleContext,
    RuleContextView, RuleDefinition, RuleDefinitionView, RuleHandleResult, RuleHandleResultView,
    Transition,
};
use crate::refer_transfer::notify::{notify, report, Subscription};
use crate::seqs::{opt_view, views};
use crate::text::{clone_opt_bytes, same};
use crate::verbs::then_do;
use crate::wire::{HostPort, HostPortView, Method, MethodView};

verus! {

// ── denied ──────────────────────────────────────────────────────────────
/// The status a denial is reported with: the one the decision states, and that
/// of a failed consult where none was made.
pub open spec fn denial(ctx: RuleContextView) -> (u16, Seq<char>) {
    match ctx.event {
        CallEventView::Internal { outcome, payload, .. } => if outcome == "reject"@ {
            (
                stated_code(payload, "reject_code"@, 603),
                match member_text(payload, "reject_reason"@) {
                    Some(t) => t,
                    None => "Declined"@,
                },
            )
        } else {
            (500, "Server Internal Error"@)
        },
        _ => (500, "Server Internal Error"@),
    }
}

fn reject_code_reason(ctx: &RuleContext) -> (r: (u16, String))
    ensures
        (r.0, r.1@) == denial(ctx@),
{
    match ctx.event {
        CallEvent::Internal { outcome, payload, .. } => {
            if same(outcome.as_str(), "reject") {
                let code = read_code(payload, "reject_code", 603);
                let reason = match read_text(payload, "reject_reason") {
                    Some(t) => t,
                    None => "Declined".to_string(),
                };
                (code, reason)
            } else {
                (500, "Server Internal Error".to_string())
            }
        },
        _ => (500, "Server Internal Error".to_string()),
    }
}

/// The referrer is told of the denial, and the transfer is over.
#[verifier::opaque]
pub open spec fn refer_denied(ctx: RuleContextView) -> Option<Seq<RuleActionView>> {
    match ctx.call.transfer {
        Some(st) => Some(report(st, Subscription::Ended, denial(ctx).0, denial(ctx).1) + closed()),
        None => None,
    }
}

pub(crate) fn on_refer_denied(ctx: &RuleContext) -> (r: Option<Vec<RuleAction>>)
    ensures
        (match r {
            Some(v) => Some(views(v@)),
            None => None,
        }) == refer_denied(ctx@),
{
    proof {
        reveal(refer_denied);
    }
    match &ctx.call.transfer {
        Some(st) => {
            let (code, reason) = reject_code_reason(ctx);
            let first = notify(st, Subscription::Ended, code, reason.as_str());
            Some(then_do(first, close()))
        },
        None => None,
    }
}

// ── allowed ─────────────────────────────────────────────────────────────
/// The reason phrase of a target that does not read.
pub open spec fn unreadable_phrase(field: Seq<char>) -> Seq<char> {
    "Unreadable Transfer Target ("@ + field + ")"@
}

/// An authorization that names a target nobody reads ends the transfer, and the
/// referrer is told so. The call goes on.
pub open spec fn transfer_refused(
    st: TransferStateView,
    field: Seq<char>,
    reason: Seq<char>,
) -> RuleHandleResultView {
    RuleHandleResultView::of(
        report(st, Subscription::Ended, 502, unreadable_phrase(field)) + closed(),
    ).refusing(field, reason)
}

fn refuse_transfer(st: &TransferState, field: &str, reason: &str) -> (r: RuleHandleResult)
    ensures
        r@ == transfer_refused(st@, field@, reason@),
{
    let mut phrase = "Unreadable Transfer Target (".to_string();
    phrase.append(field);
    phrase.append(")");
    let first = notify(st, Subscription::Ended, 502, phrase.as_str());
    RuleHandleResult::new(then_do(first, close())).with_diagnostic(field, reason)
}

/// The host an authorization names.
pub open spec fn target_host(payload: Nodes) -> Option<Seq<char>> {
    match member(payload, "destination"@) {
        Some(d) => member_text(d, "host"@),
        None => None,
    }
}

/// The port an authorization names, or the usual one.
pub open spec fn target_port(payload: Nodes) -> Option<u16> {
    stated_port(
        match member(payload, "destination"@) {
            Some(d) => member(d, "port"@),
            None => None,
        },
    )
}

/// The target an authorization names: its own, or the one the referrer stated.
pub open spec fn target_text(st: TransferStateView, payload: Nodes) -> Seq<char> {
    match member_text(payload, "new_refer_to"@) {
        Some(t) => t,
        None => st.refer_to_uri,
    }
}

/// The body the target is dialled with: the caller's description on hold, and
/// none where there is no description.
pub open spec fn held_offer(c: CallView) -> Seq<u8> {
    match c.a_leg_invite.held_sdp {
        Some(b) => b,
        None => Seq::empty(),
    }
}

/// The leg of the target.
pub open spec fn target_leg(
    c: CallView,
    payload: Nodes,
    host: Seq<char>,
    port: u16,
    uri: Seq<char>,
) -> NewLegView {
    NewLegView {
        destination: HostPortView { host, port },
        new_ruri: Some(uri),
        new_from: None,
        new_to: None,
        no_answer_timeout_sec: as_i64(member_i64(payload, "no_answer_timeout_sec"@)),
        callback_context: member_text(payload, "callback_context"@),
        body_override: Some(held_offer(c)),
        header_updates: header_updates(payload),
        kind: None,
    }
}

/// The transfer while its target rings.
pub open spec fn ringing(
    st: TransferStateView,
    c: CallView,
    payload: Nodes,
    uri: Seq<char>,
) -> TransferStateView {
    TransferStateView {
        phase: TransferPhase::CRinging,
        c_leg_id: Some(next_leg_id(c)),
        effective_refer_to_uri: Some(uri),
        callback_context: match member_text(payload, "callback_context"@) {
            Some(t) => Some(t),
            None => st.callback_context,
        },
        ..st
    }
}

/// What an authorization of a transfer leads to.
pub open spec fn target_dialled(
    st: TransferStateView,
    c: CallView,
    payload: Nodes,
) -> Option<RuleHandleResultView> {
    match target_host(payload) {
        Some(host) => match target_port(payload) {
            Some(port) => match bare_uri(target_text(st, payload)) {
                Some(uri) => Some(
                    RuleHandleResultView::of(
                        seq![
                            RuleActionView::CreateLeg {
                                leg: target_leg(c, payload, host, port, uri),
                            },
                            RuleActionView::SetTransfer {
                                state: Some(ringing(st, c, payload, uri)),
                            },
                        ],
                    ),
                ),
                None => Some(transfer_refused(st, "refer_to"@, "not an address"@)),
            },
            None => Some(
                transfer_refused(st, "destination.port"@, "not a port number in 1..=65535"@),
            ),
        },
        None => None,
    }
}

/// The transfer was authorized: its target is dialled on held media.
#[verifier::opaque]
pub open spec fn refer_allowed(ctx: RuleContextView) -> Option<RuleHandleResultView> {
    match ctx.call.transfer {
        Some(st) => match ctx.event {
            CallEventView::Internal { payload, .. } => target_dialled(st, ctx.call, payload),
            _ => None,
        },
        None => None,
    }
}

fn dial_target(
    ctx: &RuleContext,
    st: &TransferState,
    payload: &serde_json::Value,
) -> (r: Option<RuleHandleResult>)
    ensures
        opt_view(r) == target_dialled(st@, ctx@.call, json_nodes(*payload)),
{
    let destination = json_get(payload, "destination");
    let host = match destination {
        Some(d) => match read_text(d, "host") {
            Some(h) => h,
            None => {
                return None;
            },
        },
        None => {
            return None;
        },
    };
    let stated = match destination {
        Some(d) => json_get(d, "port"),
        None => None,
    };
    let port = match read_stated_port(stated) {
        Some(p) => p,
        None => {
            return Some(
                refuse_transfer(st, "destination.port", "not a port number in 1..=65535"),
            );
        },
    };
    let raw = match read_text(payload, "new_refer_to") {
        Some(t) => t,
        None => st.refer_to_uri.clone(),
    };
    let uri = match to_bare_uri(raw.as_str()) {
        Some(u) => u,
        None => {
            return Some(refuse_transfer(st, "refer_to", "not an address"));
        },
    };
    let held = match clone_opt_bytes(&ctx.call.a_leg_invite.held_sdp) {
        Some(b) => b,
        None => {
            let none: Vec<u8> = Vec::new();
            assert(none@ =~= Seq::<u8>::empty());
            none
        },
    };
    let context = read_text(payload, "callback_context");
    let mut next = st.clone();
    next.phase = TransferPhase::CRinging;
    next.c_leg_id = Some(leg_id_for(ctx.call));
    next.effective_refer_to_uri = Some(uri.clone());
    if context.is_some() {
        next.callback_context = context.clone();
    }
    let leg = NewLeg {
        destination: HostPort { host, port },
        new_ruri: Some(uri),
        new_from: None,
        new_to: None,
        no_answer_timeout_sec: read_i64(payload, "no_answer_timeout_sec"),
        callback_context: context,
        body_override: Some(held),
        header_updates: parse_header_updates(payload),
        kind: None,
    };
    let ghost lv = leg@;
    let ghost nv = next@;
    let actions = vec![
        RuleAction::CreateLeg { leg },
        RuleAction::SetTransfer { state: Some(next) },
    ];
    assert(views(actions@) =~= seq![
        RuleActionView::CreateLeg { leg: lv },
        RuleActionView::SetTransfer { state: Some(nv) },
    ]);
    Some(RuleHandleResult::new(actions))
}

pub(crate) fn on_refer_allowed(ctx: &RuleContext) -> (r: Option<RuleHandleResult>)
    ensures
        opt_view(r) == refer_allowed(ctx@),
{
    proof {
        reveal(refer_allowed);
    }
    match &ctx.call.transfer {
        Some(st) => match ctx.event {
            CallEvent::Internal { payload, .. } => dial_target(ctx, st, payload),
            _ => None,
        },
        None => None,
    }
}

// ── not answered ────────────────────────────────────────────────────────
/// The consult did not answer: the referrer is told, and the transfer is over.
#[verifier::opaque]
pub open spec fn refer_timed_out(ctx: RuleContextView) -> Option<Seq<RuleActionView>> {
    match ctx.call.transfer {
        Some(st) => Some(
            report(st, Subscription::TimedOut, 500, "Server Internal Error"@) + seq![
                overall_cancelled(),
                RuleActionView::SetTransfer { state: None },
            ],
        ),
        None => None,
    }
}

pub(crate) fn on_refer_timeout(ctx: &RuleContext) -> (r: Option<Vec<RuleAction>>)
    ensures
        (match r {
            Some(v) => Some(views(v@)),
            None => None,
        }) == refer_timed_out(ctx@),
{
    proof {
        reveal(refer_timed_out);
    }
    match &ctx.call.transfer {
        Some(st) => {
            let first = notify(st, Subscription::TimedOut, 500, "Server Internal Error");
            let last = vec![cancel_overall(), RuleAction::SetTransfer { state: None }];
            assert(views(last@) =~= seq![
                overall_cancelled(),
                RuleActionView::SetTransfer { state: None },
            ]);
            Some(then_do(first, last))
        },
        None => None,
    }
}

// ── rules ───────────────────────────────────────────────────────────────
/// The transfer was denied, or the consult failed.
#[verifier::opaque]
pub open spec fn http_reject_rule() -> RuleDefinitionView {
    transfer_rule(
        "transfer-http-reject"@,
        seq!["ReferAuthorizing"@],
        MatchView::internal_event().about("refer-http-result"@).when(Guard::ReferDenied),
        Handler::ReferDenied,
        seq![moves("ReferAuthorizing"@, "[*]"@)],
        seq![
            originates(MethodView::Notify, "NOTIFY terminated → referrer"@),
            guards_timer(TimerKind::ReferSubscriptionExpiry, "cancel subscription-expiry"@),
            guards_timer(TimerKind::ReferOverallSafety, "cancel overall-safety"@),
        ],
    )
}

/// The transfer was denied, or the consult failed.
pub(super) fn http_reject() -> (r: RuleDefinition)
    ensures
        r@ == http_reject_rule(),
{
    proof {
        reveal(http_reject_rule);
    }
    let states: Vec<&str> = vec!["ReferAuthorizing"];
    assert(views(states@) =~= seq!["ReferAuthorizing"@]);
    let steps: Vec<Transition> = vec![transition("ReferAuthorizing", "[*]")];
    assert(views(steps@) =~= seq![moves("ReferAuthorizing"@, "[*]"@)]);
    let effects: Vec<Effect> = vec![
        originate_effect(Method::Notify, "NOTIFY terminated → referrer"),
        timer_effect(TimerKind::ReferSubscriptionExpiry, "cancel subscription-expiry"),
        timer_effect(TimerKind::ReferOverallSafety, "cancel overall-safety"),
    ];
    assert(views(effects@) =~= seq![
        originates(MethodView::Notify, "NOTIFY terminated → referrer"@),
        guards_timer(TimerKind::ReferSubscriptionExpiry, "cancel subscription-expiry"@),
        guards_timer(TimerKind::ReferOverallSafety, "cancel overall-safety"@),
    ]);
    let matcher = Match::internal_event().topic("refer-http-result").filter(Guard::ReferDenied);
    RuleDefinition::of_machine(
        "transfer",
        "transfer-http-reject",
        states,
        matcher,
        Handler::ReferDenied,
        steps,
        effects,
    )
}

/// The transfer was authorized: the target is dialled, unless it does not read.
#[verifier::opaque]
pub open spec fn http_allow_rule() -> RuleDefinitionView {
    transfer_rule(
        "transfer-http-allow"@,
        seq!["ReferAuthorizing"@],
        MatchView::internal_event().about("refer-http-result"@).ending("allow"@),
        Handler::ReferAllowed,
        seq![
            moves("ReferAuthorizing"@, "CRinging"@),
            moves("ReferAuthorizing"@, "[*]"@),
        ],
        seq![
            originates(MethodView::Invite, "INVITE → C (transfer target)"@),
            originates(MethodView::Notify, "NOTIFY terminated → referrer (unreadable target)"@),
            guards_timer(TimerKind::ReferSubscriptionExpiry, "cancel subscription-expiry"@),
            guards_timer(TimerKind::ReferOverallSafety, "cancel overall-safety"@),
        ],
    )
}

/// The transfer was authorized: the target is dialled, unless it does not read.
pub(super) fn http_allow() -> (r: RuleDefinition)
    ensures
        r@ == http_allow_rule(),
{
    proof {
        reveal(http_allow_rule);
    }
    let states: Vec<&str> = vec!["ReferAuthorizing"];
    assert(views(states@) =~= seq!["ReferAuthorizing"@]);
    let steps: Vec<Transition> = vec![
        transition("ReferAuthorizing", "CRinging"),
        transition("ReferAuthorizing", "[*]"),
    ];
    assert(views(steps@) =~= seq![
        moves("ReferAuthorizing"@, "CRinging"@),
        moves("ReferAuthorizing"@, "[*]"@),
    ]);
    let effects: Vec<Effect> = vec![
        originate_effect(Method::Invite, "INVITE → C (transfer target)"),
        originate_effect(Method::Notify, "NOTIFY terminated → referrer (unreadable target)"),
        timer_effect(TimerKind::ReferSubscriptionExpiry, "cancel subscription-expiry"),
        timer_effect(TimerKind::ReferOverallSafety, "cancel overall-safety"),
    ];
    assert(views(effects@) =~= seq![
        originates(MethodView::Invite, "INVITE → C (transfer target)"@),
        originates(MethodView::Notify, "NOTIFY terminated → referrer (unreadable target)"@),
        guards_timer(TimerKind::ReferSubscriptionExpiry, "cancel subscription-expiry"@),
        guards_timer(TimerKind::ReferOverallSafety, "cancel overall-safety"@),
    ]);
    let matcher = Match::internal_event().topic("refer-http-result").outcome("allow");
    RuleDefinition::of_machine(
        "transfer",
        "transfer-http-allow",
        states,
        matcher,
        Handler::ReferAllowed,
        steps,
        effects,
    )
}

/// The consult did not answer in time.
#[verifier::opaque]
pub open spec fn http_timeout_rule() -> RuleDefinitionView {
    transfer_rule(
        "transfer-http-timeout"@,
        seq!["ReferAuthorizing"@],
        MatchView::timer().timer_type(TimerKind::ReferSubscriptionExpiry),
        Handler::ReferTimeout,
        seq![moves("ReferAuthorizing"@, "[*]"@)],
        seq![
            originates(MethodView::Notify, "NOTIFY terminated;timeout → referrer"@),
            guards_timer(TimerKind::ReferOverallSafety, "cancel overall-safety"@),
        ],
    )
}

/// The consult did not answer in time.
pub(super) fn http_timeout() -> (r: RuleDefinition)
    ensures
        r@ == http_timeout_rule(),
{
    proof {
        reveal(http_timeout_rule);
    }
    let states: Vec<&str> = vec!["ReferAuthorizing"];
    assert(views(states@) =~= seq!["ReferAuthorizing"@]);
    let steps: Vec<Transition> = vec![transition("ReferAuthorizing", "[*]")];
    assert(views(steps@) =~= seq![moves("ReferAuthorizing"@, "[*]"@)]);
    let effects: Vec<Effect> = vec![
        originate_effect(Method::Notify, "NOTIFY terminated;timeout → referrer"),
        timer_effect(TimerKind::ReferOverallSafety, "cancel overall-safety"),
    ];
    assert(views(effects@) =~= seq![
        originates(MethodView::Notify, "NOTIFY terminated;timeout → referrer"@),
        guards_timer(TimerKind::ReferOverallSafety, "cancel overall-safety"@),
    ]);
    let matcher = Match::timer().timer_type(TimerKind::ReferSubscriptionExpiry);
    RuleDefinition::of_machine(
        "transfer",
        "transfer-http-timeout",
        states,
        matcher,
        Handler::ReferTimeout,
        steps,
        effects,
    )
}

} // verus!
