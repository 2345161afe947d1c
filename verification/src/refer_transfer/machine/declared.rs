//! What the machine of a transfer declares is all it does: every message, timer
//! and command of a rule is of a category the rule declares, and every phase it
//! moves the transfer to is a move the rule declares.
use vstd::prelude::*;

use super::authorizing::{
    denial, http_allow_rule, http_reject_rule, http_timeout_rule, refer_allowed, refer_denied,
    refer_timed_out,
};
use super::c_ringing::{
    absorbed, c_1xx_to_notify_rule, c_200_initial_rule, c_fail_initial_rule, c_no_answer_rule,
    realigning, taken, target_answered, target_ended, target_failed, target_progressed,
    target_unanswered,
};
use super::guards::{
    a_glare_reinvite_rule, b_in_realign_reject_rule, c_glare_reinvite_rule, deadlines_cancelled,
    overall_timeout_rule, referrer_notify_481_rule, reject_second_refer_rule, subscription_over,
    transfer_timed_out,
};
use super::realign::{
    a_realign_200_rule, a_realign_fail_rule, a_realign_timeout_rule, c_realign_200_rule,
    c_realign_fail_rule, c_realign_timeout_rule, caller_realign_failed, caller_realign_timed_out,
    caller_realigned, target_realign_failed, target_realign_timed_out, target_realigned,
};
use super::{closed, expiry_cancelled, machine_rules, overall_cancelled, phase_text};
use crate::action::RuleActionView;
use crate::call::{CdrEventType, TransferPhase, TransferStateView};
use crate::executor::{declares, declares_move, kind_of_effect, undeclared, undeclared_kinds};
use crate::handling::handled;
use crate::model::{EffectKind, Handler, RuleContextView, RuleDefinitionView};
use crate::promote_pem::prack_owed;
use crate::refer_transfer::notify::{report, Subscription};
use crate::verbs::text;

verus! {

/// An action is of a category the rule declares, and where it moves the
/// transfer it makes a move the rule declares.
pub open spec fn fits(
    r: RuleDefinitionView,
    phase: TransferPhase,
) -> spec_fn(RuleActionView) -> bool {
    |a: RuleActionView|
        !undeclared(r, a) && match a {
            RuleActionView::SetTransfer { state: Some(s) } => s.phase == phase || declares_move(
                r,
                phase_text(phase),
                Some(phase_text(s.phase)),
            ),
            RuleActionView::SetTransfer { state: None } => declares_move(
                r,
                phase_text(phase),
                None,
            ),
            _ => true,
        }
}

/// Every action of a list fits.
pub open spec fn all_fit(
    r: RuleDefinitionView,
    phase: TransferPhase,
    actions: Seq<RuleActionView>,
) -> bool {
    forall|i: int| 0 <= i < actions.len() ==> fits(r, phase)(#[trigger] actions[i])
}

proof fn both_fit(
    r: RuleDefinitionView,
    phase: TransferPhase,
    a: Seq<RuleActionView>,
    b: Seq<RuleActionView>,
)
    requires
        all_fit(r, phase, a),
        all_fit(r, phase, b),
    ensures
        all_fit(r, phase, a + b),
{
    assert forall|i: int| 0 <= i < (a + b).len() implies fits(r, phase)(#[trigger] (a + b)[i]) by {
        if i < a.len() {
            assert((a + b)[i] == a[i]);
        } else {
            assert((a + b)[i] == b[i - a.len()]);
        }
    }
}

proof fn nothing_is_undeclared(
    r: RuleDefinitionView,
    phase: TransferPhase,
    actions: Seq<RuleActionView>,
)
    requires
        all_fit(r, phase, actions),
    ensures
        undeclared_kinds(r, actions).len() == 0,
    decreases actions.len(),
{
    if actions.len() > 0 {
        assert(fits(r, phase)(actions[actions.len() - 1]));
        let before = actions.drop_last();
        assert forall|i: int| 0 <= i < before.len() implies fits(r, phase)(#[trigger] before[i]) by {
            assert(before[i] == actions[i]);
        }
        nothing_is_undeclared(r, phase, before);
    }
}

proof fn report_fits(
    r: RuleDefinitionView,
    phase: TransferPhase,
    st: TransferStateView,
    s: Subscription,
    code: u16,
    reason: Seq<char>,
)
    requires
        declares(r, EffectKind::LegMessage),
    ensures
        all_fit(r, phase, report(st, s, code, reason)),
{
}

proof fn closing_fits(r: RuleDefinitionView, phase: TransferPhase)
    requires
        declares(r, EffectKind::GuardTimer),
        declares_move(r, phase_text(phase), None),
    ensures
        all_fit(r, phase, closed()),
{
}

proof fn reject_second_refer_is_declared(ctx: RuleContextView, phase: TransferPhase)
    requires
        phase_is(ctx, phase),
        handled(Handler::RefusePending, ctx) is Some,
    ensures
        all_fit(reject_second_refer_rule(), phase, handled(Handler::RefusePending, ctx)->0.actions),
{
    reveal(reject_second_refer_rule);
    reveal(handled);
    let r = reject_second_refer_rule();
    assert(kind_of_effect(r.effects[0]) == EffectKind::LegMessage);
}

proof fn http_reject_is_declared(ctx: RuleContextView, phase: TransferPhase)
    requires
        phase_is(ctx, phase),
        handled(Handler::ReferDenied, ctx) is Some,
        phase == TransferPhase::ReferAuthorizing,
    ensures
        all_fit(http_reject_rule(), phase, handled(Handler::ReferDenied, ctx)->0.actions),
{
    reveal(http_reject_rule);
    reveal(handled);
    reveal(refer_denied);
    let r = http_reject_rule();
    assert(kind_of_effect(r.effects[0]) == EffectKind::LegMessage);
    assert(kind_of_effect(r.effects[1]) == EffectKind::GuardTimer);
    assert(r.transitions.contains(r.transitions[0]));
    match ctx.call.transfer {
        Some(st) => {
            let (code, reason) = denial(ctx);
            report_fits(r, phase, st, Subscription::Ended, code, reason);
            closing_fits(r, phase);
            both_fit(r, phase, report(st, Subscription::Ended, code, reason), closed());
        },
        None => {},
    }
}

proof fn http_allow_is_declared(ctx: RuleContextView, phase: TransferPhase)
    requires
        phase_is(ctx, phase),
        handled(Handler::ReferAllowed, ctx) is Some,
        phase == TransferPhase::ReferAuthorizing,
    ensures
        all_fit(http_allow_rule(), phase, handled(Handler::ReferAllowed, ctx)->0.actions),
{
    reveal(http_allow_rule);
    reveal(handled);
    reveal(refer_allowed);
    let r = http_allow_rule();
    assert(kind_of_effect(r.effects[0]) == EffectKind::LegMessage);
    assert(kind_of_effect(r.effects[2]) == EffectKind::GuardTimer);
    assert(r.transitions.contains(r.transitions[0]));
    assert(r.transitions.contains(r.transitions[1]));
    closing_fits(r, phase);
    assert forall|st: TransferStateView, reason: Seq<char>| all_fit(
        r,
        phase,
        #[trigger] report(st, Subscription::Ended, 502, reason) + closed(),
    ) by {
        report_fits(r, phase, st, Subscription::Ended, 502, reason);
        both_fit(r, phase, report(st, Subscription::Ended, 502, reason), closed());
    }
}

proof fn http_timeout_is_declared(ctx: RuleContextView, phase: TransferPhase)
    requires
        phase_is(ctx, phase),
        handled(Handler::ReferTimeout, ctx) is Some,
        phase == TransferPhase::ReferAuthorizing,
    ensures
        all_fit(http_timeout_rule(), phase, handled(Handler::ReferTimeout, ctx)->0.actions),
{
    reveal(http_timeout_rule);
    reveal(handled);
    reveal(refer_timed_out);
    let r = http_timeout_rule();
    assert(kind_of_effect(r.effects[0]) == EffectKind::LegMessage);
    assert(kind_of_effect(r.effects[1]) == EffectKind::GuardTimer);
    assert(r.transitions.contains(r.transitions[0]));
    match ctx.call.transfer {
        Some(st) => {
            let a = report(st, Subscription::TimedOut, 500, "Server Internal Error"@);
            report_fits(r, phase, st, Subscription::TimedOut, 500, "Server Internal Error"@);
            let b = seq![
                overall_cancelled(),
                RuleActionView::SetTransfer { state: None },
            ];
            assert(all_fit(r, phase, b));
            both_fit(r, phase, a, b);
        },
        None => {},
    }
}

proof fn c_1xx_to_notify_is_declared(ctx: RuleContextView, phase: TransferPhase)
    requires
        phase_is(ctx, phase),
        handled(Handler::TargetProgress, ctx) is Some,
        phase == TransferPhase::CRinging,
    ensures
        all_fit(c_1xx_to_notify_rule(), phase, handled(Handler::TargetProgress, ctx)->0.actions),
{
    reveal(c_1xx_to_notify_rule);
    reveal(handled);
    reveal(target_progressed);
    let r = c_1xx_to_notify_rule();
    assert(kind_of_effect(r.effects[0]) == EffectKind::LegMessage);
    match (ctx.call.transfer, ctx.response()) {
        (Some(st), Some(resp)) => {
            let a = absorbed(ctx, resp);
            assert(all_fit(r, phase, prack_owed(ctx, resp)));
            assert(all_fit(r, phase, a));
            let b = report(st, Subscription::Active, resp.status, resp.reason);
            report_fits(r, phase, st, Subscription::Active, resp.status, resp.reason);
            both_fit(r, phase, a, b);
        },
        _ => {},
    }
}

proof fn c_200_initial_is_declared(ctx: RuleContextView, phase: TransferPhase)
    requires
        phase_is(ctx, phase),
        handled(Handler::TargetAnswer, ctx) is Some,
        phase == TransferPhase::CRinging,
    ensures
        all_fit(c_200_initial_rule(), phase, handled(Handler::TargetAnswer, ctx)->0.actions),
{
    reveal(c_200_initial_rule);
    reveal(handled);
    reveal(target_answered);
    let r = c_200_initial_rule();
    assert(kind_of_effect(r.effects[0]) == EffectKind::LegMessage);
    assert(kind_of_effect(r.effects[3]) == EffectKind::GuardTimer);
    assert(r.transitions.contains(r.transitions[0]));
    match (ctx.call.transfer, ctx.response()) {
        (Some(st), Some(resp)) => match st.c_leg_id {
            Some(c) => {
                let a = taken(c);
                let b = report(st, Subscription::Ended, 200, "OK"@);
                let d = realigning(ctx, st, c, resp);
                assert(all_fit(r, phase, a));
                report_fits(r, phase, st, Subscription::Ended, 200, "OK"@);
                both_fit(r, phase, a, b);
                assert(all_fit(r, phase, d));
                both_fit(r, phase, a + b, d);
            },
            None => {},
        },
        _ => {},
    }
}

proof fn c_fail_initial_is_declared(ctx: RuleContextView, phase: TransferPhase)
    requires
        phase_is(ctx, phase),
        handled(Handler::TargetFailure, ctx) is Some,
        phase == TransferPhase::CRinging,
    ensures
        all_fit(c_fail_initial_rule(), phase, handled(Handler::TargetFailure, ctx)->0.actions),
{
    reveal(c_fail_initial_rule);
    reveal(handled);
    reveal(target_failed);
    let r = c_fail_initial_rule();
    assert(kind_of_effect(r.effects[0]) == EffectKind::LegMessage);
    assert(kind_of_effect(r.effects[2]) == EffectKind::GuardTimer);
    assert(r.transitions.contains(r.transitions[0]));
    match (ctx.call.transfer, ctx.response()) {
        (Some(st), Some(resp)) => {
            let a = report(st, Subscription::Ended, resp.status, resp.reason);
            let b = seq![expiry_cancelled(), overall_cancelled()];
            let d = match st.c_leg_id {
                Some(c) => target_ended(c, resp),
                None => Seq::empty(),
            };
            report_fits(r, phase, st, Subscription::Ended, resp.status, resp.reason);
            assert(all_fit(r, phase, b));
            both_fit(r, phase, a, b);
            assert(all_fit(r, phase, d));
            both_fit(r, phase, a + b, d);
        },
        _ => {},
    }
}

proof fn c_no_answer_is_declared(ctx: RuleContextView, phase: TransferPhase)
    requires
        phase_is(ctx, phase),
        handled(Handler::TargetNoAnswer, ctx) is Some,
        phase == TransferPhase::CRinging,
    ensures
        all_fit(c_no_answer_rule(), phase, handled(Handler::TargetNoAnswer, ctx)->0.actions),
{
    reveal(c_no_answer_rule);
    reveal(handled);
    reveal(target_unanswered);
    let r = c_no_answer_rule();
    assert(kind_of_effect(r.effects[0]) == EffectKind::LegMessage);
    assert(kind_of_effect(r.effects[2]) == EffectKind::GuardTimer);
    assert(r.transitions.contains(r.transitions[0]));
    match ctx.call.transfer {
        Some(st) => match st.c_leg_id {
            Some(c) => {
                let a = report(st, Subscription::TimedOut, 408, "Request Timeout"@);
                let b = seq![
                    RuleActionView::cdr(
                        CdrEventType::Timeout,
                        c,
                        None,
                        text("no_answer_timeout"),
                    ),
                    RuleActionView::DestroyLeg { leg_id: c },
                ];
                report_fits(r, phase, st, Subscription::TimedOut, 408, "Request Timeout"@);
                assert(all_fit(r, phase, b));
                both_fit(r, phase, a, b);
                closing_fits(r, phase);
                both_fit(r, phase, a + b, closed());
            },
            None => {},
        },
        None => {},
    }
}

proof fn c_realign_200_is_declared(ctx: RuleContextView, phase: TransferPhase)
    requires
        phase_is(ctx, phase),
        handled(Handler::TargetRealigned, ctx) is Some,
        phase == TransferPhase::CRealigning,
    ensures
        all_fit(c_realign_200_rule(), phase, handled(Handler::TargetRealigned, ctx)->0.actions),
{
    reveal(c_realign_200_rule);
    reveal(handled);
    reveal(target_realigned);
    let r = c_realign_200_rule();
    assert(kind_of_effect(r.effects[0]) == EffectKind::LegMessage);
    assert(kind_of_effect(r.effects[2]) == EffectKind::GuardTimer);
    assert(r.transitions.contains(r.transitions[0]));
}

proof fn c_realign_fail_is_declared(ctx: RuleContextView, phase: TransferPhase)
    requires
        phase_is(ctx, phase),
        handled(Handler::TargetRealignFailed, ctx) is Some,
        phase == TransferPhase::CRealigning,
    ensures
        all_fit(
            c_realign_fail_rule(),
            phase,
            handled(Handler::TargetRealignFailed, ctx)->0.actions,
        ),
{
    reveal(c_realign_fail_rule);
    reveal(handled);
    reveal(target_realign_failed);
    let r = c_realign_fail_rule();
    assert(kind_of_effect(r.effects[0]) == EffectKind::GuardTimer);
    assert(kind_of_effect(r.effects[1]) == EffectKind::LifecycleCommand);
}

proof fn c_realign_timeout_is_declared(ctx: RuleContextView, phase: TransferPhase)
    requires
        phase_is(ctx, phase),
        handled(Handler::TargetRealignTimeout, ctx) is Some,
        phase == TransferPhase::CRealigning,
    ensures
        all_fit(
            c_realign_timeout_rule(),
            phase,
            handled(Handler::TargetRealignTimeout, ctx)->0.actions,
        ),
{
    reveal(c_realign_timeout_rule);
    reveal(handled);
    reveal(target_realign_timed_out);
    let r = c_realign_timeout_rule();
    assert(kind_of_effect(r.effects[0]) == EffectKind::GuardTimer);
    assert(kind_of_effect(r.effects[1]) == EffectKind::LifecycleCommand);
}

proof fn c_glare_reinvite_is_declared(ctx: RuleContextView, phase: TransferPhase)
    requires
        phase_is(ctx, phase),
        handled(Handler::RefusePending, ctx) is Some,
    ensures
        all_fit(c_glare_reinvite_rule(), phase, handled(Handler::RefusePending, ctx)->0.actions),
{
    reveal(c_glare_reinvite_rule);
    reveal(handled);
    let r = c_glare_reinvite_rule();
    assert(kind_of_effect(r.effects[0]) == EffectKind::LegMessage);
}

proof fn a_realign_200_is_declared(ctx: RuleContextView, phase: TransferPhase)
    requires
        phase_is(ctx, phase),
        handled(Handler::CallerRealigned, ctx) is Some,
        phase == TransferPhase::ARealigning,
    ensures
        all_fit(a_realign_200_rule(), phase, handled(Handler::CallerRealigned, ctx)->0.actions),
{
    reveal(a_realign_200_rule);
    reveal(handled);
    reveal(caller_realigned);
    let r = a_realign_200_rule();
    assert(kind_of_effect(r.effects[0]) == EffectKind::LegMessage);
    assert(kind_of_effect(r.effects[1]) == EffectKind::GuardTimer);
    assert(kind_of_effect(r.effects[2]) == EffectKind::LifecycleCommand);
    assert(r.transitions.contains(r.transitions[0]));
}

proof fn a_realign_fail_is_declared(ctx: RuleContextView, phase: TransferPhase)
    requires
        phase_is(ctx, phase),
        handled(Handler::CallerRealignFailed, ctx) is Some,
        phase == TransferPhase::ARealigning,
    ensures
        all_fit(
            a_realign_fail_rule(),
            phase,
            handled(Handler::CallerRealignFailed, ctx)->0.actions,
        ),
{
    reveal(a_realign_fail_rule);
    reveal(handled);
    reveal(caller_realign_failed);
    let r = a_realign_fail_rule();
    assert(kind_of_effect(r.effects[0]) == EffectKind::GuardTimer);
    assert(kind_of_effect(r.effects[1]) == EffectKind::LifecycleCommand);
}

proof fn a_realign_timeout_is_declared(ctx: RuleContextView, phase: TransferPhase)
    requires
        phase_is(ctx, phase),
        handled(Handler::CallerRealignTimeout, ctx) is Some,
        phase == TransferPhase::ARealigning,
    ensures
        all_fit(
            a_realign_timeout_rule(),
            phase,
            handled(Handler::CallerRealignTimeout, ctx)->0.actions,
        ),
{
    reveal(a_realign_timeout_rule);
    reveal(handled);
    reveal(caller_realign_timed_out);
    let r = a_realign_timeout_rule();
    assert(kind_of_effect(r.effects[0]) == EffectKind::GuardTimer);
    assert(kind_of_effect(r.effects[1]) == EffectKind::LifecycleCommand);
}

proof fn a_glare_reinvite_is_declared(ctx: RuleContextView, phase: TransferPhase)
    requires
        phase_is(ctx, phase),
        handled(Handler::RefusePending, ctx) is Some,
    ensures
        all_fit(a_glare_reinvite_rule(), phase, handled(Handler::RefusePending, ctx)->0.actions),
{
    reveal(a_glare_reinvite_rule);
    reveal(handled);
    let r = a_glare_reinvite_rule();
    assert(kind_of_effect(r.effects[0]) == EffectKind::LegMessage);
}

proof fn overall_timeout_is_declared(ctx: RuleContextView, phase: TransferPhase)
    requires
        phase_is(ctx, phase),
        handled(Handler::TransferTimeout, ctx) is Some,
    ensures
        all_fit(overall_timeout_rule(), phase, handled(Handler::TransferTimeout, ctx)->0.actions),
{
    reveal(overall_timeout_rule);
    reveal(handled);
    reveal(transfer_timed_out);
    let r = overall_timeout_rule();
    assert(kind_of_effect(r.effects[0]) == EffectKind::GuardTimer);
    assert(kind_of_effect(r.effects[1]) == EffectKind::LifecycleCommand);
    match ctx.call.transfer {
        Some(st) => {
            let a = deadlines_cancelled(st);
            assert(all_fit(r, phase, a));
        },
        None => {},
    }
}

proof fn referrer_notify_481_is_declared(ctx: RuleContextView, phase: TransferPhase)
    requires
        phase_is(ctx, phase),
        handled(Handler::NotifyDenied, ctx) is Some,
    ensures
        all_fit(referrer_notify_481_rule(), phase, handled(Handler::NotifyDenied, ctx)->0.actions),
{
    reveal(referrer_notify_481_rule);
    reveal(handled);
    reveal(subscription_over);
    let r = referrer_notify_481_rule();
}

proof fn b_in_realign_reject_is_declared(ctx: RuleContextView, phase: TransferPhase)
    requires
        phase_is(ctx, phase),
        handled(Handler::RefuseUnknown, ctx) is Some,
    ensures
        all_fit(b_in_realign_reject_rule(), phase, handled(Handler::RefuseUnknown, ctx)->0.actions),
{
    reveal(b_in_realign_reject_rule);
    reveal(handled);
    let r = b_in_realign_reject_rule();
    assert(kind_of_effect(r.effects[0]) == EffectKind::LegMessage);
}

/// The transfer of a call stands in that phase, or there is none.
pub open spec fn phase_is(ctx: RuleContextView, phase: TransferPhase) -> bool {
    ctx.call.transfer matches Some(st) ==> st.phase == phase
}

/// The rule is active in that phase.
pub open spec fn active_in(r: RuleDefinitionView, phase: TransferPhase) -> bool {
    r.active_states.contains(phase_text(phase))
}

proof fn phases_differ(p: TransferPhase, q: TransferPhase)
    ensures
        phase_text(p) == phase_text(q) ==> p == q,
{
    reveal_strlit("ReferAuthorizing");
    reveal_strlit("CRinging");
    reveal_strlit("CRealigning");
    reveal_strlit("ARealigning");
    if p != q && phase_text(p) == phase_text(q) {
        assert(phase_text(p).len() == phase_text(q).len());
        assert(phase_text(p)[0] == phase_text(q)[0]);
    }
}

/// A rule of the machine, run in a phase it is active in, does what it declares
/// and nothing else: each of its messages, timers and commands is of a category
/// it declares, and each phase it sets is a move it declares.
pub proof fn the_transfer_declares_all_it_does(k: int, ctx: RuleContextView, phase: TransferPhase)
    requires
        0 <= k < machine_rules().len(),
        phase_is(ctx, phase),
        active_in(machine_rules()[k], phase),
        handled(machine_rules()[k].handler, ctx) is Some,
    ensures
        ({
            let r = machine_rules()[k];
            let actions = handled(r.handler, ctx)->0.actions;
            &&& all_fit(r, phase, actions)
            &&& undeclared_kinds(r, actions).len() == 0
        }),
{
    reveal(machine_rules);
    let r = machine_rules()[k];
    phases_differ(phase, TransferPhase::ReferAuthorizing);
    phases_differ(phase, TransferPhase::CRinging);
    phases_differ(phase, TransferPhase::CRealigning);
    phases_differ(phase, TransferPhase::ARealigning);
    if k == 0 {
        reveal(reject_second_refer_rule);
        reject_second_refer_is_declared(ctx, phase);
    } else if k == 1 {
        reveal(http_reject_rule);
        http_reject_is_declared(ctx, phase);
    } else if k == 2 {
        reveal(http_allow_rule);
        http_allow_is_declared(ctx, phase);
    } else if k == 3 {
        reveal(http_timeout_rule);
        http_timeout_is_declared(ctx, phase);
    } else if k == 4 {
        reveal(c_1xx_to_notify_rule);
        c_1xx_to_notify_is_declared(ctx, phase);
    } else if k == 5 {
        reveal(c_200_initial_rule);
        c_200_initial_is_declared(ctx, phase);
    } else if k == 6 {
        reveal(c_fail_initial_rule);
        c_fail_initial_is_declared(ctx, phase);
    } else if k == 7 {
        reveal(c_no_answer_rule);
        c_no_answer_is_declared(ctx, phase);
    } else if k == 8 {
        reveal(c_realign_200_rule);
        c_realign_200_is_declared(ctx, phase);
    } else if k == 9 {
        reveal(c_realign_fail_rule);
        c_realign_fail_is_declared(ctx, phase);
    } else if k == 10 {
        reveal(c_realign_timeout_rule);
        c_realign_timeout_is_declared(ctx, phase);
    } else if k == 11 {
        reveal(c_glare_reinvite_rule);
        c_glare_reinvite_is_declared(ctx, phase);
    } else if k == 12 {
        reveal(a_realign_200_rule);
        a_realign_200_is_declared(ctx, phase);
    } else if k == 13 {
        reveal(a_realign_fail_rule);
        a_realign_fail_is_declared(ctx, phase);
    } else if k == 14 {
        reveal(a_realign_timeout_rule);
        a_realign_timeout_is_declared(ctx, phase);
    } else if k == 15 {
        reveal(a_glare_reinvite_rule);
        a_glare_reinvite_is_declared(ctx, phase);
    } else if k == 16 {
        reveal(overall_timeout_rule);
        overall_timeout_is_declared(ctx, phase);
    } else if k == 17 {
        reveal(referrer_notify_481_rule);
        referrer_notify_481_is_declared(ctx, phase);
    } else {
        reveal(b_in_realign_reject_rule);
        b_in_realign_reject_is_declared(ctx, phase);
    }
    nothing_is_undeclared(r, phase, handled(r.handler, ctx)->0.actions);
}

} // verus!
