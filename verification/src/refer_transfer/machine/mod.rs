//! The machine of a transfer. Its cursor is a projection of the phase the call
//! stands in; the moves its rules declare are what its diagram shows.
//!
//! The rules stand by phase: [`authorizing`], [`c_ringing`], [`realign`], and
//! those of every phase in [`guards`].
use vstd::prelude::*;

use crate::action::{RuleAction, RuleActionView};
use crate::call::{Call, CallView, TimerKind, TimerType, TimerTypeView, TransferPhase};
use crate::model::{
    Effect, EffectView, Handler, MatchView, RuleDefinition, RuleDefinitionView, ServiceDef,
    ServiceDefView, ServiceInit, ServiceInitView, Transition, TransitionView,
};
use crate::seqs::views;
use crate::state::{clear_cursor, set_cursor};
use crate::wire::{Method, MethodView};

pub mod authorizing;
pub mod c_ringing;
pub mod declared;
pub mod guards;
pub mod realign;

verus! {

// ── the cursor ──────────────────────────────────────────────────────────
/// The machine.
pub open spec fn transfer_machine() -> Seq<char> {
    "transfer"@
}

/// The state of the machine in a phase.
pub open spec fn phase_text(p: TransferPhase) -> Seq<char> {
    match p {
        TransferPhase::ReferAuthorizing => "ReferAuthorizing"@,
        TransferPhase::CRinging => "CRinging"@,
        TransferPhase::CRealigning => "CRealigning"@,
        TransferPhase::ARealigning => "ARealigning"@,
    }
}

fn phase_label(p: TransferPhase) -> (r: String)
    ensures
        r@ == phase_text(p),
{
    match p {
        TransferPhase::ReferAuthorizing => "ReferAuthorizing".to_string(),
        TransferPhase::CRinging => "CRinging".to_string(),
        TransferPhase::CRealigning => "CRealigning".to_string(),
        TransferPhase::ARealigning => "ARealigning".to_string(),
    }
}

/// The cursor of the machine shows the phase of the transfer; without a transfer
/// there is none.
pub open spec fn phase_shown(c: CallView) -> CallView {
    match c.transfer {
        Some(t) => c.with_cursor(transfer_machine(), phase_text(t.phase)),
        None => c.without_cursor(transfer_machine()),
    }
}

/// Show the phase of the transfer in the cursor of its machine.
pub fn project_cursor(call: &mut Call)
    ensures
        final(call)@ == phase_shown(old(call)@),
{
    let machine = "transfer".to_string();
    let phase = match &call.transfer {
        Some(t) => Some(t.phase),
        None => None,
    };
    match phase {
        Some(p) => {
            let label = phase_label(p);
            set_cursor(call, &machine, &label);
        },
        None => {
            clear_cursor(call, &machine);
        },
    }
}

// ── declarations ────────────────────────────────────────────────────────
/// A rule of the machine.
pub open spec fn transfer_rule(
    id: Seq<char>,
    states: Seq<Seq<char>>,
    matcher: MatchView,
    handler: Handler,
    steps: Seq<TransitionView>,
    effects: Seq<EffectView>,
) -> RuleDefinitionView {
    RuleDefinitionView::of_machine(
        transfer_machine(),
        id,
        states,
        matcher,
        handler,
        steps,
        effects,
    )
}

pub open spec fn moves(from: Seq<char>, to: Seq<char>) -> TransitionView {
    TransitionView { from, to }
}

pub open spec fn responds(status: u16, label: Seq<char>) -> EffectView {
    EffectView::Respond { status, label }
}

pub open spec fn originates(method: MethodView, label: Seq<char>) -> EffectView {
    EffectView::Originate { method, label }
}

pub open spec fn guards_timer(timer: TimerKind, label: Seq<char>) -> EffectView {
    EffectView::GuardTimer { timer, label }
}

pub open spec fn commands(label: Seq<char>) -> EffectView {
    EffectView::LifecycleCommand { label }
}

fn transition(from: &str, to: &str) -> (r: Transition)
    ensures
        r@ == moves(from@, to@),
{
    Transition { from: from.to_string(), to: to.to_string() }
}

fn respond_effect(status: u16, label: &str) -> (r: Effect)
    ensures
        r@ == responds(status, label@),
{
    Effect::Respond { status, label: label.to_string() }
}

fn originate_effect(method: Method, label: &str) -> (r: Effect)
    ensures
        r@ == originates(method@, label@),
{
    Effect::Originate { method, label: label.to_string() }
}

fn timer_effect(timer: TimerKind, label: &str) -> (r: Effect)
    ensures
        r@ == guards_timer(timer, label@),
{
    Effect::GuardTimer { timer, label: label.to_string() }
}

fn lifecycle_effect(label: &str) -> (r: Effect)
    ensures
        r@ == commands(label@),
{
    Effect::LifecycleCommand { label: label.to_string() }
}

// ── actions several phases share ────────────────────────────────────────
/// The watchdog of the whole transfer cancelled.
pub open spec fn overall_cancelled() -> RuleActionView {
    RuleActionView::cancel_timer(TimerTypeView::ReferOverallSafety, None)
}

/// The deadline of the subscription cancelled.
pub open spec fn expiry_cancelled() -> RuleActionView {
    RuleActionView::cancel_timer(TimerTypeView::ReferSubscriptionExpiry, None)
}

/// The deadline of a realignment cancelled.
pub open spec fn realign_cancelled(leg_id: Seq<char>) -> RuleActionView {
    RuleActionView::cancel_timer(TimerTypeView::ReferReinviteAnswer, Some(leg_id))
}

/// The call torn down, for no stated cause.
pub open spec fn rolled_back() -> RuleActionView {
    RuleActionView::BeginTermination { reason: None }
}

/// The transfer is over: its deadlines end with it.
pub open spec fn closed() -> Seq<RuleActionView> {
    seq![
        expiry_cancelled(),
        overall_cancelled(),
        RuleActionView::SetTransfer { state: None },
    ]
}

fn cancel_overall() -> (r: RuleAction)
    ensures
        r@ == overall_cancelled(),
{
    RuleAction::cancel_timer(&TimerType::ReferOverallSafety, None)
}

fn cancel_expiry() -> (r: RuleAction)
    ensures
        r@ == expiry_cancelled(),
{
    RuleAction::cancel_timer(&TimerType::ReferSubscriptionExpiry, None)
}

fn cancel_realign(leg_id: &str) -> (r: RuleAction)
    ensures
        r@ == realign_cancelled(leg_id@),
{
    RuleAction::cancel_timer(&TimerType::ReferReinviteAnswer, Some(leg_id.to_string()))
}

fn close() -> (r: Vec<RuleAction>)
    ensures
        views(r@) == closed(),
{
    let r = vec![cancel_expiry(), cancel_overall(), RuleAction::SetTransfer { state: None }];
    assert(views(r@) =~= closed());
    r
}

// ── the service ─────────────────────────────────────────────────────────
/// The rules of the machine, in their order.
#[verifier::opaque]
pub open spec fn machine_rules() -> Seq<RuleDefinitionView> {
    seq![
        guards::reject_second_refer_rule(),
        authorizing::http_reject_rule(),
        authorizing::http_allow_rule(),
        authorizing::http_timeout_rule(),
        c_ringing::c_1xx_to_notify_rule(),
        c_ringing::c_200_initial_rule(),
        c_ringing::c_fail_initial_rule(),
        c_ringing::c_no_answer_rule(),
        realign::c_realign_200_rule(),
        realign::c_realign_fail_rule(),
        realign::c_realign_timeout_rule(),
        guards::c_glare_reinvite_rule(),
        realign::a_realign_200_rule(),
        realign::a_realign_fail_rule(),
        realign::a_realign_timeout_rule(),
        guards::a_glare_reinvite_rule(),
        guards::overall_timeout_rule(),
        guards::referrer_notify_481_rule(),
        guards::b_in_realign_reject_rule(),
    ]
}

/// The rules of the machine.
pub fn transfer_rules() -> (r: Vec<RuleDefinition>)
    ensures
        views(r@) == machine_rules(),
{
    proof {
        reveal(machine_rules);
    }
    let r = vec![
        guards::reject_second_refer(),
        authorizing::http_reject(),
        authorizing::http_allow(),
        authorizing::http_timeout(),
        c_ringing::c_1xx_to_notify(),
        c_ringing::c_200_initial(),
        c_ringing::c_fail_initial(),
        c_ringing::c_no_answer(),
        realign::c_realign_200(),
        realign::c_realign_fail(),
        realign::c_realign_timeout(),
        guards::c_glare_reinvite(),
        realign::a_realign_200(),
        realign::a_realign_fail(),
        realign::a_realign_timeout(),
        guards::a_glare_reinvite(),
        guards::overall_timeout(),
        guards::referrer_notify_481(),
        guards::b_in_realign_reject(),
    ];
    assert(views(r@) =~= machine_rules());
    r
}

/// The service and its rules, from which its diagram is drawn. Its machine is
/// dormant on every call until a REFER seeds it.
pub fn transfer_service_def() -> (r: ServiceDef)
    ensures
        r@ == (ServiceDefView {
            id: transfer_machine(),
            init: ServiceInitView::Dormant,
            rules: machine_rules(),
        }),
        forall|c: CallView| (#[trigger] r@.seed(c)) is None,
{
    ServiceDef {
        id: "transfer".to_string(),
        init: ServiceInit::Dormant,
        rules: transfer_rules(),
    }
}

} // verus!
