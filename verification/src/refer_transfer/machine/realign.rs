//! While the ends are realigned: first the target takes the caller's
//! description, then the caller the target's, and then they are bridged. A
//! failure on the way rolls the whole call back.
use vstd::prelude::*;

use super::{
    cancel_overall, cancel_realign, commands, guards_timer, lifecycle_effect, moves,
    originate_effect, originates, overall_cancelled, realign_cancelled, rolled_back, timer_effect,
    transfer_rule, transition,
};
use crate::action::{RuleAction, RuleActionView};
use crate::call::{
    CdrEventType, Direction, LegState, TimerKind, TimerType, TimerTypeView, TransferPhase,
    TransferStateView,
};
use crate::model::{
    Effect, Guard, Handler, Match, MatchView, RuleContext, RuleContextView, RuleDefinition,
    RuleDefinitionView, Transition,
};
use crate::seqs::views;
use crate::text::clone_bytes;
use crate::verbs::{add_action, nothing, some, text};
use crate::wire::{Method, MethodView, SipHeader};

verus! {

// ── the target ──────────────────────────────────────────────────────────
/// The target took the caller's description: the caller is asked to take the
/// one the target just answered with.
#[verifier::opaque]
pub open spec fn target_realigned(ctx: RuleContextView) -> Option<Seq<RuleActionView>> {
    match (ctx.call.transfer, ctx.response()) {
        (Some(st), Some(resp)) => match st.c_leg_id {
            Some(c) => Some(
                seq![
                    RuleActionView::ack(c),
                    realign_cancelled(c),
                    RuleActionView::arm(
                        TimerTypeView::ReferReinviteAnswer,
                        ctx.config.refer_reinvite_answer_sec,
                        text("a"),
                    ),
                    RuleActionView::SendReinvite {
                        leg_id: "a"@,
                        body: resp.body,
                        add_headers: Seq::empty(),
                    },
                    RuleActionView::SetTransfer {
                        state: Some(
                            TransferStateView { phase: TransferPhase::ARealigning, ..st },
                        ),
                    },
                ],
            ),
            None => None,
        },
        _ => None,
    }
}

pub(crate) fn on_target_realigned(ctx: &RuleContext) -> (r: Option<Vec<RuleAction>>)
    ensures
        (match r {
            Some(v) => Some(views(v@)),
            None => None,
        }) == target_realigned(ctx@),
{
    proof {
        reveal(target_realigned);
    }
    let st = match &ctx.call.transfer {
        Some(st) => st,
        None => {
            return None;
        },
    };
    let resp = match ctx.response() {
        Some(r) => r,
        None => {
            return None;
        },
    };
    let c = match &st.c_leg_id {
        Some(c) => c,
        None => {
            return None;
        },
    };
    let mut next = st.clone();
    next.phase = TransferPhase::ARealigning;
    let none: Vec<SipHeader> = Vec::new();
    assert(views(none@) =~= Seq::empty());
    let r = vec![
        RuleAction::ack(c),
        cancel_realign(c.as_str()),
        RuleAction::arm(
            TimerType::ReferReinviteAnswer,
            ctx.config.refer_reinvite_answer_sec,
            some("a"),
        ),
        RuleAction::SendReinvite {
            leg_id: "a".to_string(),
            body: clone_bytes(&resp.body),
            add_headers: none,
        },
        RuleAction::SetTransfer { state: Some(next) },
    ];
    assert(views(r@) =~= target_realigned(ctx@)->0);
    Some(r)
}

/// The target refused its realignment.
#[verifier::opaque]
pub open spec fn target_realign_failed(ctx: RuleContextView) -> Option<Seq<RuleActionView>> {
    match (ctx.call.transfer, ctx.response()) {
        (Some(st), Some(resp)) => Some(
            match st.c_leg_id {
                Some(c) => seq![
                    realign_cancelled(c),
                    overall_cancelled(),
                    RuleActionView::cdr(
                        CdrEventType::Reject,
                        c,
                        Some(resp.status as i64),
                        text("transfer-rollback-c-realign"),
                    ),
                    rolled_back(),
                ],
                None => seq![overall_cancelled(), rolled_back()],
            },
        ),
        _ => None,
    }
}

pub(crate) fn on_target_realign_failed(ctx: &RuleContext) -> (r: Option<Vec<RuleAction>>)
    ensures
        (match r {
            Some(v) => Some(views(v@)),
            None => None,
        }) == target_realign_failed(ctx@),
{
    proof {
        reveal(target_realign_failed);
    }
    let st = match &ctx.call.transfer {
        Some(st) => st,
        None => {
            return None;
        },
    };
    let resp = match ctx.response() {
        Some(r) => r,
        None => {
            return None;
        },
    };
    let mut out = nothing();
    if let Some(c) = &st.c_leg_id {
        add_action(&mut out, cancel_realign(c.as_str()));
    }
    add_action(&mut out, cancel_overall());
    if let Some(c) = &st.c_leg_id {
        add_action(
            &mut out,
            RuleAction::cdr(
                CdrEventType::Reject,
                c,
                Some(resp.status as i64),
                some("transfer-rollback-c-realign"),
            ),
        );
    }
    add_action(&mut out, RuleAction::BeginTermination { reason: None });
    assert(views(out@) =~= target_realign_failed(ctx@)->0);
    Some(out)
}

/// The target left its realignment unanswered.
#[verifier::opaque]
pub open spec fn target_realign_timed_out(ctx: RuleContextView) -> Option<Seq<RuleActionView>> {
    match ctx.call.transfer {
        Some(st) => Some(
            match st.c_leg_id {
                Some(c) => seq![
                    overall_cancelled(),
                    RuleActionView::cdr(
                        CdrEventType::Timeout,
                        c,
                        None,
                        text("transfer-rollback-c-realign"),
                    ),
                    rolled_back(),
                ],
                None => seq![overall_cancelled(), rolled_back()],
            },
        ),
        None => None,
    }
}

pub(crate) fn on_target_realign_timeout(ctx: &RuleContext) -> (r: Option<Vec<RuleAction>>)
    ensures
        (match r {
            Some(v) => Some(views(v@)),
            None => None,
        }) == target_realign_timed_out(ctx@),
{
    proof {
        reveal(target_realign_timed_out);
    }
    let st = match &ctx.call.transfer {
        Some(st) => st,
        None => {
            return None;
        },
    };
    let mut out = nothing();
    add_action(&mut out, cancel_overall());
    if let Some(c) = &st.c_leg_id {
        add_action(
            &mut out,
            RuleAction::cdr(
                CdrEventType::Timeout,
                c,
                None,
                some("transfer-rollback-c-realign"),
            ),
        );
    }
    add_action(&mut out, RuleAction::BeginTermination { reason: None });
    assert(views(out@) =~= target_realign_timed_out(ctx@)->0);
    Some(out)
}

// ── the caller ──────────────────────────────────────────────────────────
/// The caller took the target's description: the two are bridged, and the
/// transfer is over. The referrer keeps its leg until somebody hangs up.
#[verifier::opaque]
pub open spec fn caller_realigned(ctx: RuleContextView) -> Option<Seq<RuleActionView>> {
    match ctx.call.transfer {
        Some(st) => match st.c_leg_id {
            Some(c) => Some(
                seq![
                    RuleActionView::ack("a"@),
                    realign_cancelled("a"@),
                    overall_cancelled(),
                    RuleActionView::Merge { leg_a: "a"@, leg_b: c },
                    RuleActionView::cdr(
                        CdrEventType::Answer,
                        "a"@,
                        Some(200),
                        text("transfer-completed"),
                    ),
                    RuleActionView::SetTransfer { state: None },
                ],
            ),
            None => None,
        },
        None => None,
    }
}

pub(crate) fn on_caller_realigned(ctx: &RuleContext) -> (r: Option<Vec<RuleAction>>)
    ensures
        (match r {
            Some(v) => Some(views(v@)),
            None => None,
        }) == caller_realigned(ctx@),
{
    proof {
        reveal(caller_realigned);
    }
    let st = match &ctx.call.transfer {
        Some(st) => st,
        None => {
            return None;
        },
    };
    let c = match &st.c_leg_id {
        Some(c) => c,
        None => {
            return None;
        },
    };
    let a = "a".to_string();
    let r = vec![
        RuleAction::ack(&a),
        cancel_realign("a"),
        cancel_overall(),
        RuleAction::Merge { leg_a: a.clone(), leg_b: c.clone() },
        RuleAction::cdr(CdrEventType::Answer, &a, Some(200), some("transfer-completed")),
        RuleAction::SetTransfer { state: None },
    ];
    assert(views(r@) =~= caller_realigned(ctx@)->0);
    Some(r)
}

/// The caller refused its realignment.
#[verifier::opaque]
pub open spec fn caller_realign_failed(ctx: RuleContextView) -> Option<Seq<RuleActionView>> {
    match ctx.response() {
        Some(resp) => Some(
            seq![
                realign_cancelled("a"@),
                overall_cancelled(),
                RuleActionView::cdr(
                    CdrEventType::Reject,
                    "a"@,
                    Some(resp.status as i64),
                    text("transfer-rollback-a-realign"),
                ),
                rolled_back(),
            ],
        ),
        None => None,
    }
}

pub(crate) fn on_caller_realign_failed(ctx: &RuleContext) -> (r: Option<Vec<RuleAction>>)
    ensures
        (match r {
            Some(v) => Some(views(v@)),
            None => None,
        }) == caller_realign_failed(ctx@),
{
    proof {
        reveal(caller_realign_failed);
    }
    let resp = match ctx.response() {
        Some(r) => r,
        None => {
            return None;
        },
    };
    let r = vec![
        cancel_realign("a"),
        cancel_overall(),
        RuleAction::cdr(
            CdrEventType::Reject,
            &"a".to_string(),
            Some(resp.status as i64),
            some("transfer-rollback-a-realign"),
        ),
        RuleAction::BeginTermination { reason: None },
    ];
    assert(views(r@) =~= caller_realign_failed(ctx@)->0);
    Some(r)
}

/// The caller left its realignment unanswered.
#[verifier::opaque]
pub open spec fn caller_realign_timed_out() -> Seq<RuleActionView> {
    seq![
        overall_cancelled(),
        RuleActionView::cdr(
            CdrEventType::Timeout,
            "a"@,
            None,
            text("transfer-rollback-a-realign"),
        ),
        rolled_back(),
    ]
}

pub(crate) fn on_caller_realign_timeout() -> (r: Vec<RuleAction>)
    ensures
        views(r@) == caller_realign_timed_out(),
{
    proof {
        reveal(caller_realign_timed_out);
    }
    let r = vec![
        cancel_overall(),
        RuleAction::cdr(
            CdrEventType::Timeout,
            &"a".to_string(),
            None,
            some("transfer-rollback-a-realign"),
        ),
        RuleAction::BeginTermination { reason: None },
    ];
    assert(views(r@) =~= caller_realign_timed_out());
    r
}

// ── rules ───────────────────────────────────────────────────────────────
/// The target takes the caller's description. A confirmed leg tells this answer
/// from the one that opened it.
#[verifier::opaque]
pub open spec fn c_realign_200_rule() -> RuleDefinitionView {
    transfer_rule(
        "transfer-c-realign-200"@,
        seq!["CRealigning"@],
        MatchView::response()
            .method(MethodView::Invite)
            .status_class(2)
            .from(Direction::FromB)
            .leg_states(seq![LegState::Confirmed])
            .when(Guard::FromTarget),
        Handler::TargetRealigned,
        seq![moves("CRealigning"@, "ARealigning"@)],
        seq![
            originates(MethodView::Ack, "ACK → C (c-realign answered)"@),
            originates(MethodView::Invite, "re-INVITE → A (a-realign, C's active SDP)"@),
            guards_timer(TimerKind::ReferReinviteAnswer, "cancel C / arm A re-INVITE watchdog"@),
        ],
    )
}

/// The target takes the caller's description. A confirmed leg tells this answer
/// from the one that opened it.
pub(super) fn c_realign_200() -> (r: RuleDefinition)
    ensures
        r@ == c_realign_200_rule(),
{
    proof {
        reveal(c_realign_200_rule);
    }
    let legs: Vec<LegState> = vec![LegState::Confirmed];
    assert(legs@ =~= seq![LegState::Confirmed]);
    let states: Vec<&str> = vec!["CRealigning"];
    assert(views(states@) =~= seq!["CRealigning"@]);
    let steps: Vec<Transition> = vec![transition("CRealigning", "ARealigning")];
    assert(views(steps@) =~= seq![moves("CRealigning"@, "ARealigning"@)]);
    let effects: Vec<Effect> = vec![
        originate_effect(Method::Ack, "ACK → C (c-realign answered)"),
        originate_effect(Method::Invite, "re-INVITE → A (a-realign, C's active SDP)"),
        timer_effect(TimerKind::ReferReinviteAnswer, "cancel C / arm A re-INVITE watchdog"),
    ];
    assert(views(effects@) =~= seq![
        originates(MethodView::Ack, "ACK → C (c-realign answered)"@),
        originates(MethodView::Invite, "re-INVITE → A (a-realign, C's active SDP)"@),
        guards_timer(TimerKind::ReferReinviteAnswer, "cancel C / arm A re-INVITE watchdog"@),
    ]);
    let matcher = Match::response()
        .method(Method::Invite)
        .status_class(2)
        .direction(Direction::FromB)
        .leg_states(legs)
        .filter(Guard::FromTarget);
    RuleDefinition::of_machine(
        "transfer",
        "transfer-c-realign-200",
        states,
        matcher,
        Handler::TargetRealigned,
        steps,
        effects,
    )
}

/// The target refuses the caller's description: the call is rolled back.
#[verifier::opaque]
pub open spec fn c_realign_fail_rule() -> RuleDefinitionView {
    transfer_rule(
        "transfer-c-realign-fail"@,
        seq!["CRealigning"@],
        MatchView::response()
            .method(MethodView::Invite)
            .from(Direction::FromB)
            .leg_states(seq![LegState::Confirmed])
            .when(Guard::TargetFailure),
        Handler::TargetRealignFailed,
        Seq::empty(),
        seq![
            guards_timer(TimerKind::ReferOverallSafety, "cancel re-INVITE watchdog + overall"@),
            commands("terminate (c-realign rollback — BYE A/B/C)"@),
        ],
    )
}

/// The target refuses the caller's description: the call is rolled back.
pub(super) fn c_realign_fail() -> (r: RuleDefinition)
    ensures
        r@ == c_realign_fail_rule(),
{
    proof {
        reveal(c_realign_fail_rule);
    }
    let legs: Vec<LegState> = vec![LegState::Confirmed];
    assert(legs@ =~= seq![LegState::Confirmed]);
    let states: Vec<&str> = vec!["CRealigning"];
    assert(views(states@) =~= seq!["CRealigning"@]);
    let steps: Vec<Transition> = Vec::new();
    assert(views(steps@) =~= Seq::empty());
    let effects: Vec<Effect> = vec![
        timer_effect(TimerKind::ReferOverallSafety, "cancel re-INVITE watchdog + overall"),
        lifecycle_effect("terminate (c-realign rollback — BYE A/B/C)"),
    ];
    assert(views(effects@) =~= seq![
        guards_timer(TimerKind::ReferOverallSafety, "cancel re-INVITE watchdog + overall"@),
        commands("terminate (c-realign rollback — BYE A/B/C)"@),
    ]);
    let matcher = Match::response()
        .method(Method::Invite)
        .direction(Direction::FromB)
        .leg_states(legs)
        .filter(Guard::TargetFailure);
    RuleDefinition::of_machine(
        "transfer",
        "transfer-c-realign-fail",
        states,
        matcher,
        Handler::TargetRealignFailed,
        steps,
        effects,
    )
}

/// The target leaves its realignment unanswered: the call is rolled back.
#[verifier::opaque]
pub open spec fn c_realign_timeout_rule() -> RuleDefinitionView {
    transfer_rule(
        "transfer-c-realign-timeout"@,
        seq!["CRealigning"@],
        MatchView::timer().timer_type(TimerKind::ReferReinviteAnswer),
        Handler::TargetRealignTimeout,
        Seq::empty(),
        seq![
            guards_timer(TimerKind::ReferOverallSafety, "cancel overall-safety"@),
            commands("terminate (c-realign timeout rollback)"@),
        ],
    )
}

/// The target leaves its realignment unanswered: the call is rolled back.
pub(super) fn c_realign_timeout() -> (r: RuleDefinition)
    ensures
        r@ == c_realign_timeout_rule(),
{
    proof {
        reveal(c_realign_timeout_rule);
    }
    let states: Vec<&str> = vec!["CRealigning"];
    assert(views(states@) =~= seq!["CRealigning"@]);
    let steps: Vec<Transition> = Vec::new();
    assert(views(steps@) =~= Seq::empty());
    let effects: Vec<Effect> = vec![
        timer_effect(TimerKind::ReferOverallSafety, "cancel overall-safety"),
        lifecycle_effect("terminate (c-realign timeout rollback)"),
    ];
    assert(views(effects@) =~= seq![
        guards_timer(TimerKind::ReferOverallSafety, "cancel overall-safety"@),
        commands("terminate (c-realign timeout rollback)"@),
    ]);
    let matcher = Match::timer().timer_type(TimerKind::ReferReinviteAnswer);
    RuleDefinition::of_machine(
        "transfer",
        "transfer-c-realign-timeout",
        states,
        matcher,
        Handler::TargetRealignTimeout,
        steps,
        effects,
    )
}

/// The caller takes the target's description: the two are bridged.
#[verifier::opaque]
pub open spec fn a_realign_200_rule() -> RuleDefinitionView {
    transfer_rule(
        "transfer-a-realign-200"@,
        seq!["ARealigning"@],
        MatchView::response()
            .method(MethodView::Invite)
            .status_class(2)
            .from(Direction::FromA)
            .when(Guard::FromCaller),
        Handler::CallerRealigned,
        seq![moves("ARealigning"@, "[*]"@)],
        seq![
            originates(MethodView::Ack, "ACK → A (a-realign answered)"@),
            guards_timer(TimerKind::ReferReinviteAnswer, "cancel A re-INVITE watchdog + overall"@),
            commands("merge A↔C (transfer complete)"@),
        ],
    )
}

/// The caller takes the target's description: the two are bridged.
pub(super) fn a_realign_200() -> (r: RuleDefinition)
    ensures
        r@ == a_realign_200_rule(),
{
    proof {
        reveal(a_realign_200_rule);
    }
    let states: Vec<&str> = vec!["ARealigning"];
    assert(views(states@) =~= seq!["ARealigning"@]);
    let steps: Vec<Transition> = vec![transition("ARealigning", "[*]")];
    assert(views(steps@) =~= seq![moves("ARealigning"@, "[*]"@)]);
    let effects: Vec<Effect> = vec![
        originate_effect(Method::Ack, "ACK → A (a-realign answered)"),
        timer_effect(TimerKind::ReferReinviteAnswer, "cancel A re-INVITE watchdog + overall"),
        lifecycle_effect("merge A↔C (transfer complete)"),
    ];
    assert(views(effects@) =~= seq![
        originates(MethodView::Ack, "ACK → A (a-realign answered)"@),
        guards_timer(TimerKind::ReferReinviteAnswer, "cancel A re-INVITE watchdog + overall"@),
        commands("merge A↔C (transfer complete)"@),
    ]);
    let matcher = Match::response()
        .method(Method::Invite)
        .status_class(2)
        .direction(Direction::FromA)
        .filter(Guard::FromCaller);
    RuleDefinition::of_machine(
        "transfer",
        "transfer-a-realign-200",
        states,
        matcher,
        Handler::CallerRealigned,
        steps,
        effects,
    )
}

/// The caller refuses the target's description: the call is rolled back.
#[verifier::opaque]
pub open spec fn a_realign_fail_rule() -> RuleDefinitionView {
    transfer_rule(
        "transfer-a-realign-fail"@,
        seq!["ARealigning"@],
        MatchView::response()
            .method(MethodView::Invite)
            .from(Direction::FromA)
            .when(Guard::CallerFailure),
        Handler::CallerRealignFailed,
        Seq::empty(),
        seq![
            guards_timer(TimerKind::ReferReinviteAnswer, "cancel A re-INVITE watchdog + overall"@),
            commands("terminate (a-realign rollback — BYE A/B/C)"@),
        ],
    )
}

/// The caller refuses the target's description: the call is rolled back.
pub(super) fn a_realign_fail() -> (r: RuleDefinition)
    ensures
        r@ == a_realign_fail_rule(),
{
    proof {
        reveal(a_realign_fail_rule);
    }
    let states: Vec<&str> = vec!["ARealigning"];
    assert(views(states@) =~= seq!["ARealigning"@]);
    let steps: Vec<Transition> = Vec::new();
    assert(views(steps@) =~= Seq::empty());
    let effects: Vec<Effect> = vec![
        timer_effect(TimerKind::ReferReinviteAnswer, "cancel A re-INVITE watchdog + overall"),
        lifecycle_effect("terminate (a-realign rollback — BYE A/B/C)"),
    ];
    assert(views(effects@) =~= seq![
        guards_timer(TimerKind::ReferReinviteAnswer, "cancel A re-INVITE watchdog + overall"@),
        commands("terminate (a-realign rollback — BYE A/B/C)"@),
    ]);
    let matcher = Match::response()
        .method(Method::Invite)
        .direction(Direction::FromA)
        .filter(Guard::CallerFailure);
    RuleDefinition::of_machine(
        "transfer",
        "transfer-a-realign-fail",
        states,
        matcher,
        Handler::CallerRealignFailed,
        steps,
        effects,
    )
}

/// The caller leaves its realignment unanswered: the call is rolled back.
#[verifier::opaque]
pub open spec fn a_realign_timeout_rule() -> RuleDefinitionView {
    transfer_rule(
        "transfer-a-realign-timeout"@,
        seq!["ARealigning"@],
        MatchView::timer().timer_type(TimerKind::ReferReinviteAnswer).when(Guard::CallerTimer),
        Handler::CallerRealignTimeout,
        Seq::empty(),
        seq![
            guards_timer(TimerKind::ReferOverallSafety, "cancel overall-safety"@),
            commands("terminate (a-realign timeout rollback)"@),
        ],
    )
}

/// The caller leaves its realignment unanswered: the call is rolled back.
pub(super) fn a_realign_timeout() -> (r: RuleDefinition)
    ensures
        r@ == a_realign_timeout_rule(),
{
    proof {
        reveal(a_realign_timeout_rule);
    }
    let states: Vec<&str> = vec!["ARealigning"];
    assert(views(states@) =~= seq!["ARealigning"@]);
    let steps: Vec<Transition> = Vec::new();
    assert(views(steps@) =~= Seq::empty());
    let effects: Vec<Effect> = vec![
        timer_effect(TimerKind::ReferOverallSafety, "cancel overall-safety"),
        lifecycle_effect("terminate (a-realign timeout rollback)"),
    ];
    assert(views(effects@) =~= seq![
        guards_timer(TimerKind::ReferOverallSafety, "cancel overall-safety"@),
        commands("terminate (a-realign timeout rollback)"@),
    ]);
    let matcher = Match::timer()
        .timer_type(TimerKind::ReferReinviteAnswer)
        .filter(Guard::CallerTimer);
    RuleDefinition::of_machine(
        "transfer",
        "transfer-a-realign-timeout",
        states,
        matcher,
        Handler::CallerRealignTimeout,
        steps,
        effects,
    )
}

} // verus!
