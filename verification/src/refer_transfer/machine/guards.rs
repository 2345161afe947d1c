//! The rules of every phase: requests that must wait or fail while a transfer is
//! under way, the end of the subscription, and the watchdog of the whole.
use vstd::prelude::*;

use super::{
    cancel_expiry, cancel_realign, commands, expiry_cancelled, guards_timer, lifecycle_effect,
    realign_cancelled, respond_effect, responds, rolled_back, timer_effect, transfer_rule,
};
use crate::action::{RuleAction, RuleActionView};
use crate::call::{CdrEventType, Direction, TimerKind, TransferStateView};
use crate::model::{
    Effect, Guard, Handler, Match, MatchView, RuleContext, RuleContextView, RuleDefinition,
    RuleDefinitionView, Transition,
};
use crate::seqs::views;
use crate::verbs::{add_action, nothing, some, text, then_do};
use crate::wire::{Method, MethodView};

verus! {

// ── handlers ────────────────────────────────────────────────────────────
/// The deadlines that may still run, in the phase the transfer stands in.
pub open spec fn deadlines_cancelled(st: TransferStateView) -> Seq<RuleActionView> {
    seq![expiry_cancelled()] + (match st.c_leg_id {
        Some(c) => seq![realign_cancelled(c)],
        None => Seq::empty(),
    }) + seq![realign_cancelled("a"@)]
}

/// The transfer took too long: its deadlines end, and the call is rolled back.
#[verifier::opaque]
pub open spec fn transfer_timed_out(ctx: RuleContextView) -> Option<Seq<RuleActionView>> {
    match ctx.call.transfer {
        Some(st) => Some(
            deadlines_cancelled(st) + seq![
                RuleActionView::cdr(
                    CdrEventType::Timeout,
                    "a"@,
                    None,
                    text("transfer-overall-timeout"),
                ),
                rolled_back(),
            ],
        ),
        None => None,
    }
}

pub(crate) fn on_transfer_timeout(ctx: &RuleContext) -> (r: Option<Vec<RuleAction>>)
    ensures
        (match r {
            Some(v) => Some(views(v@)),
            None => None,
        }) == transfer_timed_out(ctx@),
{
    proof {
        reveal(transfer_timed_out);
    }
    let st = match &ctx.call.transfer {
        Some(st) => st,
        None => {
            return None;
        },
    };
    let mut out = nothing();
    add_action(&mut out, cancel_expiry());
    if let Some(c) = &st.c_leg_id {
        add_action(&mut out, cancel_realign(c.as_str()));
    }
    add_action(&mut out, cancel_realign("a"));
    assert(views(out@) =~= deadlines_cancelled(st@));
    let last = vec![
        RuleAction::cdr(
            CdrEventType::Timeout,
            &"a".to_string(),
            None,
            some("transfer-overall-timeout"),
        ),
        RuleAction::BeginTermination { reason: None },
    ];
    assert(views(last@) =~= seq![
        RuleActionView::cdr(CdrEventType::Timeout, "a"@, None, text("transfer-overall-timeout")),
        rolled_back(),
    ]);
    Some(then_do(out, last))
}

/// The referrer ended the subscription: no report leaves on it any more. The
/// transfer goes on.
#[verifier::opaque]
pub open spec fn subscription_over(ctx: RuleContextView) -> Option<Seq<RuleActionView>> {
    match ctx.call.transfer {
        Some(st) => Some(
            seq![
                RuleActionView::SetTransfer {
                    state: Some(TransferStateView { subscription_terminated: true, ..st }),
                },
            ],
        ),
        None => None,
    }
}

pub(crate) fn on_notify_denied(ctx: &RuleContext) -> (r: Option<Vec<RuleAction>>)
    ensures
        (match r {
            Some(v) => Some(views(v@)),
            None => None,
        }) == subscription_over(ctx@),
{
    proof {
        reveal(subscription_over);
    }
    let st = match &ctx.call.transfer {
        Some(st) => st,
        None => {
            return None;
        },
    };
    let mut next = st.clone();
    next.subscription_terminated = true;
    let r = vec![RuleAction::SetTransfer { state: Some(next) }];
    assert(views(r@) =~= subscription_over(ctx@)->0);
    Some(r)
}

// ── rules ───────────────────────────────────────────────────────────────
/// A second REFER while a transfer is under way is refused.
#[verifier::opaque]
pub open spec fn reject_second_refer_rule() -> RuleDefinitionView {
    transfer_rule(
        "transfer-reject-second-refer"@,
        seq![
            "ReferAuthorizing"@,
            "CRinging"@,
            "CRealigning"@,
            "ARealigning"@,
        ],
        MatchView::request().method(MethodView::Refer).from(Direction::FromB),
        Handler::RefusePending,
        Seq::empty(),
        seq![responds(491, "491 → B (second REFER pending)"@)],
    )
}

/// A second REFER while a transfer is under way is refused.
pub(super) fn reject_second_refer() -> (r: RuleDefinition)
    ensures
        r@ == reject_second_refer_rule(),
{
    proof {
        reveal(reject_second_refer_rule);
    }
    let states: Vec<&str> = vec![
        "ReferAuthorizing",
        "CRinging",
        "CRealigning",
        "ARealigning",
    ];
    assert(views(states@) =~= seq![
        "ReferAuthorizing"@,
        "CRinging"@,
        "CRealigning"@,
        "ARealigning"@,
    ]);
    let steps: Vec<Transition> = Vec::new();
    assert(views(steps@) =~= Seq::empty());
    let effects: Vec<Effect> = vec![respond_effect(491, "491 → B (second REFER pending)")];
    assert(views(effects@) =~= seq![responds(491, "491 → B (second REFER pending)"@)]);
    let matcher = Match::request().method(Method::Refer).direction(Direction::FromB);
    RuleDefinition::of_machine(
        "transfer",
        "transfer-reject-second-refer",
        states,
        matcher,
        Handler::RefusePending,
        steps,
        effects,
    )
}

/// The target's re-INVITE during a realignment is refused.
#[verifier::opaque]
pub open spec fn c_glare_reinvite_rule() -> RuleDefinitionView {
    transfer_rule(
        "transfer-c-glare-reinvite"@,
        seq![
            "CRealigning"@,
            "ARealigning"@,
        ],
        MatchView::request().method(MethodView::Invite).from(Direction::FromB).when(Guard::FromTarget),
        Handler::RefusePending,
        Seq::empty(),
        seq![responds(491, "491 → C (glare during realign)"@)],
    )
}

/// The target's re-INVITE during a realignment is refused.
pub(super) fn c_glare_reinvite() -> (r: RuleDefinition)
    ensures
        r@ == c_glare_reinvite_rule(),
{
    proof {
        reveal(c_glare_reinvite_rule);
    }
    let states: Vec<&str> = vec![
        "CRealigning",
        "ARealigning",
    ];
    assert(views(states@) =~= seq![
        "CRealigning"@,
        "ARealigning"@,
    ]);
    let steps: Vec<Transition> = Vec::new();
    assert(views(steps@) =~= Seq::empty());
    let effects: Vec<Effect> = vec![respond_effect(491, "491 → C (glare during realign)")];
    assert(views(effects@) =~= seq![responds(491, "491 → C (glare during realign)"@)]);
    let matcher = Match::request()
        .method(Method::Invite)
        .direction(Direction::FromB)
        .filter(Guard::FromTarget);
    RuleDefinition::of_machine(
        "transfer",
        "transfer-c-glare-reinvite",
        states,
        matcher,
        Handler::RefusePending,
        steps,
        effects,
    )
}

/// The caller's re-INVITE during a realignment is refused.
#[verifier::opaque]
pub open spec fn a_glare_reinvite_rule() -> RuleDefinitionView {
    transfer_rule(
        "transfer-a-glare-reinvite"@,
        seq![
            "CRealigning"@,
            "ARealigning"@,
        ],
        MatchView::request().method(MethodView::Invite).from(Direction::FromA),
        Handler::RefusePending,
        Seq::empty(),
        seq![responds(491, "491 → A (glare during realign)"@)],
    )
}

/// The caller's re-INVITE during a realignment is refused.
pub(super) fn a_glare_reinvite() -> (r: RuleDefinition)
    ensures
        r@ == a_glare_reinvite_rule(),
{
    proof {
        reveal(a_glare_reinvite_rule);
    }
    let states: Vec<&str> = vec![
        "CRealigning",
        "ARealigning",
    ];
    assert(views(states@) =~= seq![
        "CRealigning"@,
        "ARealigning"@,
    ]);
    let steps: Vec<Transition> = Vec::new();
    assert(views(steps@) =~= Seq::empty());
    let effects: Vec<Effect> = vec![respond_effect(491, "491 → A (glare during realign)")];
    assert(views(effects@) =~= seq![responds(491, "491 → A (glare during realign)"@)]);
    let matcher = Match::request().method(Method::Invite).direction(Direction::FromA);
    RuleDefinition::of_machine(
        "transfer",
        "transfer-a-glare-reinvite",
        states,
        matcher,
        Handler::RefusePending,
        steps,
        effects,
    )
}

/// The watchdog of the whole transfer rolls it back, whatever its phase.
#[verifier::opaque]
pub open spec fn overall_timeout_rule() -> RuleDefinitionView {
    transfer_rule(
        "transfer-overall-timeout"@,
        seq![
            "ReferAuthorizing"@,
            "CRinging"@,
            "CRealigning"@,
            "ARealigning"@,
        ],
        MatchView::timer().timer_type(TimerKind::ReferOverallSafety),
        Handler::TransferTimeout,
        Seq::empty(),
        seq![
            guards_timer(
                TimerKind::ReferSubscriptionExpiry,
                "cancel subscription-expiry + both re-INVITE watchdogs"@,
            ),
            commands("terminate (overall-safety watchdog rollback)"@),
        ],
    )
}

/// The watchdog of the whole transfer rolls it back, whatever its phase.
pub(super) fn overall_timeout() -> (r: RuleDefinition)
    ensures
        r@ == overall_timeout_rule(),
{
    proof {
        reveal(overall_timeout_rule);
    }
    let states: Vec<&str> = vec![
        "ReferAuthorizing",
        "CRinging",
        "CRealigning",
        "ARealigning",
    ];
    assert(views(states@) =~= seq![
        "ReferAuthorizing"@,
        "CRinging"@,
        "CRealigning"@,
        "ARealigning"@,
    ]);
    let steps: Vec<Transition> = Vec::new();
    assert(views(steps@) =~= Seq::empty());
    let effects: Vec<Effect> = vec![
        timer_effect(
            TimerKind::ReferSubscriptionExpiry,
            "cancel subscription-expiry + both re-INVITE watchdogs",
        ),
        lifecycle_effect("terminate (overall-safety watchdog rollback)"),
    ];
    assert(views(effects@) =~= seq![
        guards_timer(
            TimerKind::ReferSubscriptionExpiry,
            "cancel subscription-expiry + both re-INVITE watchdogs"@,
        ),
        commands("terminate (overall-safety watchdog rollback)"@),
    ]);
    let matcher = Match::timer().timer_type(TimerKind::ReferOverallSafety);
    RuleDefinition::of_machine(
        "transfer",
        "transfer-overall-timeout",
        states,
        matcher,
        Handler::TransferTimeout,
        steps,
        effects,
    )
}

/// The referrer's 481 to a report ends the subscription, and nothing else. A relayed
/// NOTIFY's 481 is the peer's.
#[verifier::opaque]
pub open spec fn referrer_notify_481_rule() -> RuleDefinitionView {
    transfer_rule(
        "transfer-notify-481"@,
        seq![
            "ReferAuthorizing"@,
            "CRinging"@,
            "CRealigning"@,
            "ARealigning"@,
        ],
        MatchView::response()
            .method(MethodView::Notify)
            .status_code(481)
            .from(Direction::FromB)
            .when(Guard::ReferrerDenies),
        Handler::NotifyDenied,
        Seq::empty(),
        Seq::empty(),
    )
}

/// The referrer's 481 to a report ends the subscription, and nothing else. A relayed
/// NOTIFY's 481 is the peer's.
pub(super) fn referrer_notify_481() -> (r: RuleDefinition)
    ensures
        r@ == referrer_notify_481_rule(),
{
    proof {
        reveal(referrer_notify_481_rule);
    }
    let states: Vec<&str> = vec![
        "ReferAuthorizing",
        "CRinging",
        "CRealigning",
        "ARealigning",
    ];
    assert(views(states@) =~= seq![
        "ReferAuthorizing"@,
        "CRinging"@,
        "CRealigning"@,
        "ARealigning"@,
    ]);
    let steps: Vec<Transition> = Vec::new();
    assert(views(steps@) =~= Seq::empty());
    let effects: Vec<Effect> = Vec::new();
    assert(views(effects@) =~= Seq::empty());
    let matcher = Match::response()
        .method(Method::Notify)
        .status_code(481)
        .direction(Direction::FromB)
        .filter(Guard::ReferrerDenies);
    RuleDefinition::of_machine(
        "transfer",
        "transfer-notify-481",
        states,
        matcher,
        Handler::NotifyDenied,
        steps,
        effects,
    )
}

/// The referrer's requests during a realignment are refused, but for its BYE.
#[verifier::opaque]
pub open spec fn b_in_realign_reject_rule() -> RuleDefinitionView {
    transfer_rule(
        "transfer-b-in-cre-are-reject"@,
        seq![
            "CRealigning"@,
            "ARealigning"@,
        ],
        MatchView::request().from(Direction::FromB).when(Guard::ReferrerRequest),
        Handler::RefuseUnknown,
        Seq::empty(),
        seq![
            responds(481, "481 → B (referrer signalling dead until merge)"@),
        ],
    )
}

/// The referrer's requests during a realignment are refused, but for its BYE.
pub(super) fn b_in_realign_reject() -> (r: RuleDefinition)
    ensures
        r@ == b_in_realign_reject_rule(),
{
    proof {
        reveal(b_in_realign_reject_rule);
    }
    let states: Vec<&str> = vec![
        "CRealigning",
        "ARealigning",
    ];
    assert(views(states@) =~= seq![
        "CRealigning"@,
        "ARealigning"@,
    ]);
    let steps: Vec<Transition> = Vec::new();
    assert(views(steps@) =~= Seq::empty());
    let effects: Vec<Effect> = vec![
        respond_effect(481, "481 → B (referrer signalling dead until merge)"),
    ];
    assert(views(effects@) =~= seq![
        responds(481, "481 → B (referrer signalling dead until merge)"@),
    ]);
    let matcher = Match::request().direction(Direction::FromB).filter(Guard::ReferrerRequest);
    RuleDefinition::of_machine(
        "transfer",
        "transfer-b-in-cre-are-reject",
        states,
        matcher,
        Handler::RefuseUnknown,
        steps,
        effects,
    )
}

} // verus!
