//! While the target rings: its progress, its answer, its failure.
use vstd::prelude::*;

use super::{
    cancel_expiry, cancel_overall, close, closed, expiry_cancelled, guards_timer, moves,
    originate_effect, originates, overall_cancelled, timer_effect, transfer_rule, transition,
};
use crate::action::{RuleAction, RuleActionView};
use crate::call::{
    ByeDisposition, CallView, CdrEventType, Direction, LegDisposition, LegState, TimerKind,
    TimerType, TimerTypeView, TransferPhase, TransferState, TransferStateView,
};
use crate::model::{
    Effect, Guard, Handler, Match, MatchView, RuleContext, RuleContextView, RuleDefinition,
    RuleDefinitionView, Transition,
};
use crate::promote_pem::{prack_owed, pracks_owed};
use crate::refer_transfer::notify::{notify, report, Subscription};
use crate::sdp::{carries_sdp, is_sdp};
use crate::seqs::views;
use crate::text::clone_bytes;
use crate::verbs::{add_action, nothing, some, text, then_do};
use crate::wire::{Method, MethodView, SipHeader, SipResponse, SipResponseView};

verus! {

// ── progress ────────────────────────────────────────────────────────────
/// A provisional nobody is shown: its leg rings, a reliable one is
/// acknowledged, and it is recorded.
pub open spec fn absorbed(ctx: RuleContextView, resp: SipResponseView) -> Seq<RuleActionView> {
    let b = ctx.source_leg_id;
    (seq![
        RuleActionView::UpdateLegState { leg_id: b, state: LegState::Early, disposition: None },
    ] + prack_owed(ctx, resp)).push(
        RuleActionView::cdr(CdrEventType::Provisional, b, Some(resp.status as i64), None),
    )
}

fn absorbed_provisional_actions(ctx: &RuleContext, resp: &SipResponse) -> (r: Vec<RuleAction>)
    ensures
        views(r@) == absorbed(ctx@, resp@),
{
    let b = ctx.source_leg_id;
    let a = RuleAction::UpdateLegState {
        leg_id: b.clone(),
        state: LegState::Early,
        disposition: None,
    };
    let mut first = nothing();
    add_action(&mut first, a);
    assert(views(first@) =~= seq![a@]);
    let mut out = then_do(first, pracks_owed(ctx, resp));
    add_action(
        &mut out,
        RuleAction::cdr(CdrEventType::Provisional, b, Some(resp.status as i64), None),
    );
    out
}

/// The target's progress is reported to the referrer, a status it was told last
/// not again.
#[verifier::opaque]
pub open spec fn target_progressed(ctx: RuleContextView) -> Option<Seq<RuleActionView>> {
    match (ctx.call.transfer, ctx.response()) {
        (Some(st), Some(resp)) => Some(
            if st.last_c_leg_notified_status == Some(resp.status) {
                absorbed(ctx, resp)
            } else {
                (absorbed(ctx, resp) + report(st, Subscription::Active, resp.status, resp.reason)).push(
                    RuleActionView::SetTransfer {
                        state: Some(
                            TransferStateView {
                                last_c_leg_notified_status: Some(resp.status),
                                ..st
                            },
                        ),
                    },
                )
            },
        ),
        _ => None,
    }
}

pub(crate) fn on_target_progress(ctx: &RuleContext) -> (r: Option<Vec<RuleAction>>)
    ensures
        (match r {
            Some(v) => Some(views(v@)),
            None => None,
        }) == target_progressed(ctx@),
{
    proof {
        reveal(target_progressed);
    }
    let st = match &ctx.call.transfer {
        Some(st) => st,
        None => {
            return None;
        },
    };
    let resp = match ctx.response() {
        Some(r) => r,
        None => {
            return None;
        },
    };
    let heard = absorbed_provisional_actions(ctx, resp);
    if let Some(last) = st.last_c_leg_notified_status {
        if last == resp.status {
            return Some(heard);
        }
    }
    let told = notify(st, Subscription::Active, resp.status, resp.reason.as_str());
    let mut out = then_do(heard, told);
    let mut next = st.clone();
    next.last_c_leg_notified_status = Some(resp.status);
    add_action(&mut out, RuleAction::SetTransfer { state: Some(next) });
    Some(out)
}

// ── answer ──────────────────────────────────────────────────────────────
/// The caller's description, as its INVITE carried it.
pub open spec fn caller_sdp(c: CallView) -> Seq<u8> {
    if is_sdp(c.a_leg_invite.headers, c.a_leg_invite.body) {
        c.a_leg_invite.body
    } else {
        Seq::empty()
    }
}

/// The description an answer carries.
pub open spec fn answer_sdp(resp: SipResponseView) -> Option<Seq<u8>> {
    if is_sdp(resp.headers, resp.body) {
        Some(resp.body)
    } else {
        None
    }
}

/// The target's leg is up.
pub open spec fn taken(c: Seq<char>) -> Seq<RuleActionView> {
    seq![
        RuleActionView::UpdateLegState {
            leg_id: c,
            state: LegState::Confirmed,
            disposition: Some(LegDisposition::Bridged),
        },
        RuleActionView::ConfirmDialog { leg_id: c },
        RuleActionView::ack(c),
    ]
}

/// The target is asked to take the caller's description.
pub open spec fn realigning(
    ctx: RuleContextView,
    st: TransferStateView,
    c: Seq<char>,
    resp: SipResponseView,
) -> Seq<RuleActionView> {
    seq![
        expiry_cancelled(),
        RuleActionView::cancel_timer(TimerTypeView::NoAnswer, Some(c)),
        RuleActionView::arm(
            TimerTypeView::ReferReinviteAnswer,
            ctx.config.refer_reinvite_answer_sec,
            Some(c),
        ),
        RuleActionView::SendReinvite {
            leg_id: c,
            body: caller_sdp(ctx.call),
            add_headers: Seq::empty(),
        },
        RuleActionView::cdr(CdrEventType::Answer, c, Some(200), None),
        RuleActionView::SetTransfer {
            state: Some(
                TransferStateView {
                    phase: TransferPhase::CRealigning,
                    c_initial_sdp: answer_sdp(resp),
                    ..st
                },
            ),
        },
    ]
}

/// The target answered: the referrer is told so for the last time, and the
/// target asked to take the caller's description.
#[verifier::opaque]
pub open spec fn target_answered(ctx: RuleContextView) -> Option<Seq<RuleActionView>> {
    match (ctx.call.transfer, ctx.response()) {
        (Some(st), Some(resp)) => match st.c_leg_id {
            Some(c) => Some(
                taken(c) + report(st, Subscription::Ended, 200, "OK"@) + realigning(
                    ctx,
                    st,
                    c,
                    resp,
                ),
            ),
            None => None,
        },
        _ => None,
    }
}

fn take(c: &String) -> (r: Vec<RuleAction>)
    ensures
        views(r@) == taken(c@),
{
    let r = vec![
        RuleAction::UpdateLegState {
            leg_id: c.clone(),
            state: LegState::Confirmed,
            disposition: Some(LegDisposition::Bridged),
        },
        RuleAction::ConfirmDialog { leg_id: c.clone() },
        RuleAction::ack(c),
    ];
    assert(views(r@) =~= taken(c@));
    r
}

fn realign_target(
    ctx: &RuleContext,
    st: &TransferState,
    c: &String,
    resp: &SipResponse,
) -> (r: Vec<RuleAction>)
    ensures
        views(r@) == realigning(ctx@, st@, c@, resp@),
{
    let invite = &ctx.call.a_leg_invite;
    let body = if carries_sdp(&invite.headers, &invite.body) {
        clone_bytes(&invite.body)
    } else {
        Vec::new()
    };
    assert(body@ =~= caller_sdp(ctx@.call));
    let mut next = st.clone();
    next.phase = TransferPhase::CRealigning;
    next.c_initial_sdp = if carries_sdp(&resp.headers, &resp.body) {
        Some(clone_bytes(&resp.body))
    } else {
        None
    };
    let none: Vec<SipHeader> = Vec::new();
    assert(views(none@) =~= Seq::empty());
    let r = vec![
        cancel_expiry(),
        RuleAction::cancel_timer(&TimerType::NoAnswer, Some(c.clone())),
        RuleAction::arm(
            TimerType::ReferReinviteAnswer,
            ctx.config.refer_reinvite_answer_sec,
            Some(c.clone()),
        ),
        RuleAction::SendReinvite { leg_id: c.clone(), body, add_headers: none },
        RuleAction::cdr(CdrEventType::Answer, c, Some(200), None),
        RuleAction::SetTransfer { state: Some(next) },
    ];
    assert(views(r@) =~= realigning(ctx@, st@, c@, resp@));
    r
}

pub(crate) fn on_target_answer(ctx: &RuleContext) -> (r: Option<Vec<RuleAction>>)
    ensures
        (match r {
            Some(v) => Some(views(v@)),
            None => None,
        }) == target_answered(ctx@),
{
    proof {
        reveal(target_answered);
    }
    let st = match &ctx.call.transfer {
        Some(st) => st,
        None => {
            return None;
        },
    };
    let resp = match ctx.response() {
        Some(r) => r,
        None => {
            return None;
        },
    };
    let c = match &st.c_leg_id {
        Some(c) => c,
        None => {
            return None;
        },
    };
    let told = notify(st, Subscription::Ended, 200, "OK");
    let first = then_do(take(c), told);
    Some(then_do(first, realign_target(ctx, st, c, resp)))
}

// ── failure ─────────────────────────────────────────────────────────────
/// The leg of the target that failed ends.
pub open spec fn target_ended(c: Seq<char>, resp: SipResponseView) -> Seq<RuleActionView> {
    seq![
        RuleActionView::cancel_timer(TimerTypeView::NoAnswer, Some(c)),
        RuleActionView::cdr(
            CdrEventType::Reject,
            c,
            Some(resp.status as i64),
            Some(resp.reason),
        ),
        RuleActionView::end(c, ByeDisposition::Rejected),
    ]
}

/// The target failed: the referrer is told, and the transfer is over.
#[verifier::opaque]
pub open spec fn target_failed(ctx: RuleContextView) -> Option<Seq<RuleActionView>> {
    match (ctx.call.transfer, ctx.response()) {
        (Some(st), Some(resp)) => Some(
            (report(st, Subscription::Ended, resp.status, resp.reason) + seq![
                expiry_cancelled(),
                overall_cancelled(),
            ] + (match st.c_leg_id {
                Some(c) => target_ended(c, resp),
                None => Seq::empty(),
            })).push(RuleActionView::SetTransfer { state: None }),
        ),
        _ => None,
    }
}

pub(crate) fn on_target_failure(ctx: &RuleContext) -> (r: Option<Vec<RuleAction>>)
    ensures
        (match r {
            Some(v) => Some(views(v@)),
            None => None,
        }) == target_failed(ctx@),
{
    proof {
        reveal(target_failed);
    }
    let st = match &ctx.call.transfer {
        Some(st) => st,
        None => {
            return None;
        },
    };
    let resp = match ctx.response() {
        Some(r) => r,
        None => {
            return None;
        },
    };
    let told = notify(st, Subscription::Ended, resp.status, resp.reason.as_str());
    let ends = vec![cancel_expiry(), cancel_overall()];
    assert(views(ends@) =~= seq![expiry_cancelled(), overall_cancelled()]);
    let first = then_do(told, ends);
    let leg = match &st.c_leg_id {
        Some(c) => {
            let v = vec![
                RuleAction::cancel_timer(&TimerType::NoAnswer, Some(c.clone())),
                RuleAction::cdr(
                    CdrEventType::Reject,
                    c,
                    Some(resp.status as i64),
                    Some(resp.reason.clone()),
                ),
                RuleAction::end(c, ByeDisposition::Rejected),
            ];
            assert(views(v@) =~= target_ended(c@, resp@));
            v
        },
        None => nothing(),
    };
    let mut out = then_do(first, leg);
    add_action(&mut out, RuleAction::SetTransfer { state: None });
    Some(out)
}

/// The target did not answer in time: the referrer is told, the leg destroyed,
/// and the transfer is over.
#[verifier::opaque]
pub open spec fn target_unanswered(ctx: RuleContextView) -> Option<Seq<RuleActionView>> {
    match ctx.call.transfer {
        Some(st) => match st.c_leg_id {
            Some(c) => Some(
                report(st, Subscription::TimedOut, 408, "Request Timeout"@) + seq![
                    RuleActionView::cdr(CdrEventType::Timeout, c, None, text("no_answer_timeout")),
                    RuleActionView::DestroyLeg { leg_id: c },
                ] + closed(),
            ),
            None => None,
        },
        None => None,
    }
}

pub(crate) fn on_target_no_answer(ctx: &RuleContext) -> (r: Option<Vec<RuleAction>>)
    ensures
        (match r {
            Some(v) => Some(views(v@)),
            None => None,
        }) == target_unanswered(ctx@),
{
    proof {
        reveal(target_unanswered);
    }
    let st = match &ctx.call.transfer {
        Some(st) => st,
        None => {
            return None;
        },
    };
    let c = match &st.c_leg_id {
        Some(c) => c,
        None => {
            return None;
        },
    };
    let told = notify(st, Subscription::TimedOut, 408, "Request Timeout");
    let leg = vec![
        RuleAction::cdr(CdrEventType::Timeout, c, None, some("no_answer_timeout")),
        RuleAction::DestroyLeg { leg_id: c.clone() },
    ];
    assert(views(leg@) =~= seq![
        RuleActionView::cdr(CdrEventType::Timeout, c@, None, text("no_answer_timeout")),
        RuleActionView::DestroyLeg { leg_id: c@ },
    ]);
    let first = then_do(told, leg);
    Some(then_do(first, close()))
}

// ── rules ───────────────────────────────────────────────────────────────
/// The target rings.
#[verifier::opaque]
pub open spec fn c_1xx_to_notify_rule() -> RuleDefinitionView {
    transfer_rule(
        "transfer-c-1xx-to-notify"@,
        seq!["CRinging"@],
        MatchView::response()
            .method(MethodView::Invite)
            .status_class(1)
            .from(Direction::FromB)
            .when(Guard::FromTarget),
        Handler::TargetProgress,
        Seq::empty(),
        seq![
            originates(MethodView::Notify, "NOTIFY active (C progress) → referrer"@),
            originates(MethodView::Prack, "PRACK → C (reliable 1xx, nothing shown to A)"@),
        ],
    )
}

/// The target rings.
pub(super) fn c_1xx_to_notify() -> (r: RuleDefinition)
    ensures
        r@ == c_1xx_to_notify_rule(),
{
    proof {
        reveal(c_1xx_to_notify_rule);
    }
    let states: Vec<&str> = vec!["CRinging"];
    assert(views(states@) =~= seq!["CRinging"@]);
    let steps: Vec<Transition> = Vec::new();
    assert(views(steps@) =~= Seq::empty());
    let effects: Vec<Effect> = vec![
        originate_effect(Method::Notify, "NOTIFY active (C progress) → referrer"),
        originate_effect(Method::Prack, "PRACK → C (reliable 1xx, nothing shown to A)"),
    ];
    assert(views(effects@) =~= seq![
        originates(MethodView::Notify, "NOTIFY active (C progress) → referrer"@),
        originates(MethodView::Prack, "PRACK → C (reliable 1xx, nothing shown to A)"@),
    ]);
    let matcher = Match::response()
        .method(Method::Invite)
        .status_class(1)
        .direction(Direction::FromB)
        .filter(Guard::FromTarget);
    RuleDefinition::of_machine(
        "transfer",
        "transfer-c-1xx-to-notify",
        states,
        matcher,
        Handler::TargetProgress,
        steps,
        effects,
    )
}

/// The target answers.
#[verifier::opaque]
pub open spec fn c_200_initial_rule() -> RuleDefinitionView {
    transfer_rule(
        "transfer-c-200-initial"@,
        seq!["CRinging"@],
        MatchView::response()
            .method(MethodView::Invite)
            .status_class(2)
            .from(Direction::FromB)
            .leg_states(seq![LegState::Trying, LegState::Early])
            .when(Guard::FromTarget),
        Handler::TargetAnswer,
        seq![moves("CRinging"@, "CRealigning"@)],
        seq![
            originates(MethodView::Ack, "ACK → C (answer initial INVITE)"@),
            originates(MethodView::Notify, "NOTIFY terminated → referrer"@),
            originates(MethodView::Invite, "re-INVITE → C (c-realign, A's SDP)"@),
            guards_timer(TimerKind::ReferReinviteAnswer, "arm c-realign re-INVITE watchdog"@),
            guards_timer(TimerKind::ReferSubscriptionExpiry, "cancel subscription-expiry"@),
            guards_timer(TimerKind::NoAnswer, "cancel C no-answer"@),
        ],
    )
}

/// The target answers.
pub(super) fn c_200_initial() -> (r: RuleDefinition)
    ensures
        r@ == c_200_initial_rule(),
{
    proof {
        reveal(c_200_initial_rule);
    }
    let legs: Vec<LegState> = vec![LegState::Trying, LegState::Early];
    assert(legs@ =~= seq![LegState::Trying, LegState::Early]);
    let states: Vec<&str> = vec!["CRinging"];
    assert(views(states@) =~= seq!["CRinging"@]);
    let steps: Vec<Transition> = vec![transition("CRinging", "CRealigning")];
    assert(views(steps@) =~= seq![moves("CRinging"@, "CRealigning"@)]);
    let effects: Vec<Effect> = vec![
        originate_effect(Method::Ack, "ACK → C (answer initial INVITE)"),
        originate_effect(Method::Notify, "NOTIFY terminated → referrer"),
        originate_effect(Method::Invite, "re-INVITE → C (c-realign, A's SDP)"),
        timer_effect(TimerKind::ReferReinviteAnswer, "arm c-realign re-INVITE watchdog"),
        timer_effect(TimerKind::ReferSubscriptionExpiry, "cancel subscription-expiry"),
        timer_effect(TimerKind::NoAnswer, "cancel C no-answer"),
    ];
    assert(views(effects@) =~= seq![
        originates(MethodView::Ack, "ACK → C (answer initial INVITE)"@),
        originates(MethodView::Notify, "NOTIFY terminated → referrer"@),
        originates(MethodView::Invite, "re-INVITE → C (c-realign, A's SDP)"@),
        guards_timer(TimerKind::ReferReinviteAnswer, "arm c-realign re-INVITE watchdog"@),
        guards_timer(TimerKind::ReferSubscriptionExpiry, "cancel subscription-expiry"@),
        guards_timer(TimerKind::NoAnswer, "cancel C no-answer"@),
    ]);
    let matcher = Match::response()
        .method(Method::Invite)
        .status_class(2)
        .direction(Direction::FromB)
        .leg_states(legs)
        .filter(Guard::FromTarget);
    RuleDefinition::of_machine(
        "transfer",
        "transfer-c-200-initial",
        states,
        matcher,
        Handler::TargetAnswer,
        steps,
        effects,
    )
}

/// The target fails.
#[verifier::opaque]
pub open spec fn c_fail_initial_rule() -> RuleDefinitionView {
    transfer_rule(
        "transfer-c-fail-initial"@,
        seq!["CRinging"@],
        MatchView::response()
            .method(MethodView::Invite)
            .from(Direction::FromB)
            .leg_states(seq![LegState::Trying, LegState::Early])
            .when(Guard::TargetFailure),
        Handler::TargetFailure,
        seq![moves("CRinging"@, "[*]"@)],
        seq![
            originates(MethodView::Notify, "NOTIFY terminated (C failed) → referrer"@),
            originates(MethodView::Bye, "BYE → C (terminate failed leg)"@),
            guards_timer(
                TimerKind::ReferSubscriptionExpiry,
                "cancel subscription-expiry + overall + C no-answer"@,
            ),
        ],
    )
}

/// The target fails.
pub(super) fn c_fail_initial() -> (r: RuleDefinition)
    ensures
        r@ == c_fail_initial_rule(),
{
    proof {
        reveal(c_fail_initial_rule);
    }
    let legs: Vec<LegState> = vec![LegState::Trying, LegState::Early];
    assert(legs@ =~= seq![LegState::Trying, LegState::Early]);
    let states: Vec<&str> = vec!["CRinging"];
    assert(views(states@) =~= seq!["CRinging"@]);
    let steps: Vec<Transition> = vec![transition("CRinging", "[*]")];
    assert(views(steps@) =~= seq![moves("CRinging"@, "[*]"@)]);
    let effects: Vec<Effect> = vec![
        originate_effect(Method::Notify, "NOTIFY terminated (C failed) → referrer"),
        originate_effect(Method::Bye, "BYE → C (terminate failed leg)"),
        timer_effect(
            TimerKind::ReferSubscriptionExpiry,
            "cancel subscription-expiry + overall + C no-answer",
        ),
    ];
    assert(views(effects@) =~= seq![
        originates(MethodView::Notify, "NOTIFY terminated (C failed) → referrer"@),
        originates(MethodView::Bye, "BYE → C (terminate failed leg)"@),
        guards_timer(
            TimerKind::ReferSubscriptionExpiry,
            "cancel subscription-expiry + overall + C no-answer"@,
        ),
    ]);
    let matcher = Match::response()
        .method(Method::Invite)
        .direction(Direction::FromB)
        .leg_states(legs)
        .filter(Guard::TargetFailure);
    RuleDefinition::of_machine(
        "transfer",
        "transfer-c-fail-initial",
        states,
        matcher,
        Handler::TargetFailure,
        steps,
        effects,
    )
}

/// The target does not answer.
#[verifier::opaque]
pub open spec fn c_no_answer_rule() -> RuleDefinitionView {
    transfer_rule(
        "transfer-c-no-answer"@,
        seq!["CRinging"@],
        MatchView::timer().timer_type(TimerKind::NoAnswer).when(Guard::TargetTimer),
        Handler::TargetNoAnswer,
        seq![moves("CRinging"@, "[*]"@)],
        seq![
            originates(MethodView::Notify, "NOTIFY terminated;timeout → referrer"@),
            originates(MethodView::Bye, "BYE → C (no answer)"@),
            guards_timer(
                TimerKind::ReferSubscriptionExpiry,
                "cancel subscription-expiry + overall"@,
            ),
        ],
    )
}

/// The target does not answer.
pub(super) fn c_no_answer() -> (r: RuleDefinition)
    ensures
        r@ == c_no_answer_rule(),
{
    proof {
        reveal(c_no_answer_rule);
    }
    let states: Vec<&str> = vec!["CRinging"];
    assert(views(states@) =~= seq!["CRinging"@]);
    let steps: Vec<Transition> = vec![transition("CRinging", "[*]")];
    assert(views(steps@) =~= seq![moves("CRinging"@, "[*]"@)]);
    let effects: Vec<Effect> = vec![
        originate_effect(Method::Notify, "NOTIFY terminated;timeout → referrer"),
        originate_effect(Method::Bye, "BYE → C (no answer)"),
        timer_effect(TimerKind::ReferSubscriptionExpiry, "cancel subscription-expiry + overall"),
    ];
    assert(views(effects@) =~= seq![
        originates(MethodView::Notify, "NOTIFY terminated;timeout → referrer"@),
        originates(MethodView::Bye, "BYE → C (no answer)"@),
        guards_timer(TimerKind::ReferSubscriptionExpiry, "cancel subscription-expiry + overall"@),
    ]);
    let matcher = Match::timer().timer_type(TimerKind::NoAnswer).filter(Guard::TargetTimer);
    RuleDefinition::of_machine(
        "transfer",
        "transfer-c-no-answer",
        states,
        matcher,
        Handler::TargetNoAnswer,
        steps,
        effects,
    )
}

} // verus!
