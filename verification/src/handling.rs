//! What each handler answers an event with.
use vstd::prelude::*;

use crate::action::{RuleAction, RuleActionView};
use crate::call::{ByeDisposition, TimerType, TimerTypeView};
use crate::defaults::handlers::{
    bye_crossed, bye_relayed, call_cancelled, cancel_crossed, cancelled_reinvite_answered,
    ceiling_passed, dialog_confirmed, dialog_denied, failover_created, failover_declined,
    failover_redirected, failover_rejected, force_legs, forced, no_ack, no_answer, no_prack,
    on_ack_give_up, on_answer, on_bye, on_call_cancel, on_cancel_crossed,
    on_cancelled_reinvite_answered, on_cross_bye, on_dialog_denied, on_failover,
    on_failover_declined, on_failover_redirected, on_failover_rejected, on_keepalive,
    on_keepalive_timeout, on_max_duration, on_no_answer, on_prack, on_prack_give_up,
    on_provisional, on_reinvite_cancel, on_route_failure, on_setup_timeout,
    on_transaction_timeout, prack_relayed, probe_unanswered, probed, provisional_relayed,
    reap_force_terminal, reaped, reinvite_cancelled, route_failed, setup_timed_out,
    transaction_timed_out,
};
use crate::model::{
    Handler, RuleContext, RuleContextView, RuleHandleResult, RuleHandleResultView,
};
use crate::promote_pem::{
    ack_absorbed, early_media_promoted, on_early_media, on_promoted_ack, on_promoted_answer,
    on_promoted_failure, on_resync_answer, on_suppressed, promoted_confirmed, promoted_failed,
    provisional_suppressed, resync_answered,
};
use crate::refer_transfer::machine::authorizing::{
    on_refer_allowed, on_refer_denied, on_refer_timeout, refer_allowed, refer_denied,
    refer_timed_out,
};
use crate::refer_transfer::machine::c_ringing::{
    on_target_answer, on_target_failure, on_target_no_answer, on_target_progress, target_answered,
    target_failed, target_progressed, target_unanswered,
};
use crate::refer_transfer::machine::guards::{
    on_notify_denied, on_transfer_timeout, subscription_over, transfer_timed_out,
};
use crate::refer_transfer::machine::realign::{
    caller_realign_failed, caller_realign_timed_out, caller_realigned, on_caller_realign_failed,
    on_caller_realign_timeout, on_caller_realigned, on_target_realign_failed,
    on_target_realign_timeout, on_target_realigned, target_realign_failed,
    target_realign_timed_out, target_realigned,
};
use crate::refer_transfer::seed::{on_refer, transfer_begun};
use crate::seqs::{opt_view, views};
use crate::verbs::{add_action, nothing, ok};

verus! {

/// The event is answered with actions.
pub open spec fn answer(actions: Seq<RuleActionView>) -> Option<RuleHandleResultView> {
    Some(RuleHandleResultView::of(actions))
}

/// The event is answered with actions, or left to the next rule.
pub open spec fn maybe(actions: Option<Seq<RuleActionView>>) -> Option<RuleHandleResultView> {
    match actions {
        Some(a) => answer(a),
        None => None,
    }
}

fn one(a: RuleAction) -> (r: Option<RuleHandleResult>)
    ensures
        opt_view(r) == answer(seq![a@]),
{
    let mut out = nothing();
    let ghost av = a@;
    add_action(&mut out, a);
    assert(views(out@) =~= seq![av]);
    ok(out)
}

fn when_some(actions: Option<Vec<RuleAction>>) -> (r: Option<RuleHandleResult>)
    ensures
        opt_view(r) == maybe(
            match actions {
                Some(v) => Some(views(v@)),
                None => None,
            },
        ),
{
    match actions {
        Some(v) => ok(v),
        None => None,
    }
}

/// What a handler answers an event with; nothing where it leaves the event to
/// the next rule.
#[verifier::opaque]
pub open spec fn handled(h: Handler, ctx: RuleContextView) -> Option<RuleHandleResultView> {
    match h {
        Handler::Absorb => answer(Seq::empty()),
        Handler::Relay => answer(seq![RuleActionView::relay()]),
        Handler::RefusePending => answer(seq![RuleActionView::refuse(491, "Request Pending"@)]),
        Handler::RefuseUnknown => answer(
            seq![RuleActionView::refuse(481, "Call/Transaction Does Not Exist"@)],
        ),
        Handler::RefuseUnimplemented => answer(
            seq![RuleActionView::refuse(501, "Not Implemented"@)],
        ),
        Handler::RefuseBadRequest => answer(seq![RuleActionView::refuse(400, "Bad Request"@)]),
        Handler::RefuseNotAcceptable => answer(
            seq![RuleActionView::refuse(488, "Not Acceptable Here"@)],
        ),
        Handler::CancelResolved => answer(
            seq![RuleActionView::end(ctx.source_leg_id, ByeDisposition::Cancelled)],
        ),
        Handler::ReAck => answer(seq![RuleActionView::ack(ctx.source_leg_id)]),
        Handler::KeepaliveAnswered => answer(
            seq![
                RuleActionView::cancel_timer(
                    TimerTypeView::KeepaliveTimeout,
                    Some(ctx.source_leg_id),
                ),
            ],
        ),
        Handler::ByeAnswered => answer(
            seq![RuleActionView::end(ctx.source_leg_id, ByeDisposition::ByeConfirmed)],
        ),
        Handler::RelayPrack => answer(seq![prack_relayed(ctx)]),
        Handler::CancelCrossed => answer(cancel_crossed(ctx)),
        Handler::CancelledReinviteAnswered => maybe(cancelled_reinvite_answered(ctx)),
        Handler::RelayProvisional => answer(provisional_relayed(ctx)),
        Handler::ConfirmDialog => answer(dialog_confirmed(ctx)),
        Handler::RouteFailure => answer(route_failed(ctx)),
        Handler::FailoverCreateLeg => maybe(failover_created(ctx)),
        Handler::FailoverTerminate => maybe(failover_declined(ctx)),
        Handler::FailoverReject => maybe(failover_rejected(ctx)),
        Handler::FailoverRedirect => maybe(failover_redirected(ctx)),
        Handler::DialogDenied => answer(dialog_denied(ctx)),
        Handler::CrossBye => answer(bye_crossed(ctx)),
        Handler::RelayBye => answer(bye_relayed(ctx)),
        Handler::ReinviteCancel => answer(reinvite_cancelled(ctx)),
        Handler::CallCancel => answer(call_cancelled(ctx)),
        Handler::TransactionTimeout => answer(transaction_timed_out(ctx)),
        Handler::ReaperStale => answer(reaped(ctx, "reaper-stale"@)),
        Handler::ReaperFatal => answer(reaped(ctx, "handler-panic"@)),
        Handler::TerminatingSafety => answer(forced(ctx.call.legs())),
        Handler::NoAnswer => answer(no_answer(ctx)),
        Handler::SetupTimeout => answer(setup_timed_out(ctx)),
        Handler::MaxDuration => answer(ceiling_passed(ctx)),
        Handler::Keepalive => answer(probed(ctx)),
        Handler::KeepaliveTimeout => answer(probe_unanswered(ctx)),
        Handler::AckGiveUp => answer(no_ack(ctx)),
        Handler::PrackGiveUp => answer(no_prack(ctx)),
        Handler::Promote183 => maybe(early_media_promoted(ctx)),
        Handler::SuppressProvisional => maybe(provisional_suppressed(ctx)),
        Handler::ConfirmPromoted => maybe(promoted_confirmed(ctx)),
        Handler::ResyncAnswered => maybe(resync_answered(ctx)),
        Handler::AbsorbPromotedAck => answer(ack_absorbed()),
        Handler::PromotedFailure => maybe(promoted_failed(ctx)),
        Handler::InterceptRefer => maybe(transfer_begun(ctx)),
        Handler::ReferDenied => maybe(refer_denied(ctx)),
        Handler::ReferAllowed => refer_allowed(ctx),
        Handler::ReferTimeout => maybe(refer_timed_out(ctx)),
        Handler::TargetProgress => maybe(target_progressed(ctx)),
        Handler::TargetAnswer => maybe(target_answered(ctx)),
        Handler::TargetFailure => maybe(target_failed(ctx)),
        Handler::TargetNoAnswer => maybe(target_unanswered(ctx)),
        Handler::TargetRealigned => maybe(target_realigned(ctx)),
        Handler::TargetRealignFailed => maybe(target_realign_failed(ctx)),
        Handler::TargetRealignTimeout => maybe(target_realign_timed_out(ctx)),
        Handler::CallerRealigned => maybe(caller_realigned(ctx)),
        Handler::CallerRealignFailed => maybe(caller_realign_failed(ctx)),
        Handler::CallerRealignTimeout => answer(caller_realign_timed_out()),
        Handler::TransferTimeout => maybe(transfer_timed_out(ctx)),
        Handler::NotifyDenied => maybe(subscription_over(ctx)),
    }
}

/// Handlers of one step, or none.
pub open spec fn is_plain(h: Handler) -> bool {
    h is Absorb
        || h is Relay
        || h is RefusePending
        || h is RefuseUnknown
        || h is RefuseUnimplemented
        || h is RefuseBadRequest
        || h is RefuseNotAcceptable
        || h is CancelResolved
        || h is ReAck
        || h is KeepaliveAnswered
        || h is ByeAnswered
        || h is RelayPrack
}

fn handle_plain(h: Handler, ctx: &RuleContext) -> (r: Option<RuleHandleResult>)
    requires
        is_plain(h),
    ensures
        opt_view(r) == handled(h, ctx@),
{
    proof {
        reveal(handled);
    }
    match h {
        Handler::Absorb => ok(nothing()),
        Handler::Relay => one(RuleAction::relay()),
        Handler::RefusePending => one(RuleAction::refuse(491, "Request Pending")),
        Handler::RefuseUnknown => one(RuleAction::refuse(481, "Call/Transaction Does Not Exist")),
        Handler::RefuseUnimplemented => one(RuleAction::refuse(501, "Not Implemented")),
        Handler::RefuseBadRequest => one(RuleAction::refuse(400, "Bad Request")),
        Handler::RefuseNotAcceptable => one(RuleAction::refuse(488, "Not Acceptable Here")),
        Handler::CancelResolved => one(
            RuleAction::end(ctx.source_leg_id, ByeDisposition::Cancelled),
        ),
        Handler::ReAck => one(RuleAction::ack(ctx.source_leg_id)),
        Handler::KeepaliveAnswered => one(
            RuleAction::cancel_timer(&TimerType::KeepaliveTimeout, Some(ctx.source_leg_id.clone())),
        ),
        Handler::ByeAnswered => one(
            RuleAction::end(ctx.source_leg_id, ByeDisposition::ByeConfirmed),
        ),
        _ => one(on_prack(ctx)),
    }
}

/// Handlers of a call's progress.
pub open spec fn is_progress(h: Handler) -> bool {
    h is CancelCrossed
        || h is CancelledReinviteAnswered
        || h is RelayProvisional
        || h is ConfirmDialog
        || h is RouteFailure
        || h is FailoverCreateLeg
        || h is FailoverTerminate
        || h is FailoverReject
        || h is FailoverRedirect
}

fn handle_progress(h: Handler, ctx: &RuleContext) -> (r: Option<RuleHandleResult>)
    requires
        is_progress(h),
    ensures
        opt_view(r) == handled(h, ctx@),
{
    proof {
        reveal(handled);
    }
    match h {
        Handler::CancelCrossed => ok(on_cancel_crossed(ctx)),
        Handler::CancelledReinviteAnswered => when_some(on_cancelled_reinvite_answered(ctx)),
        Handler::RelayProvisional => ok(on_provisional(ctx)),
        Handler::ConfirmDialog => ok(on_answer(ctx)),
        Handler::RouteFailure => ok(on_route_failure(ctx)),
        Handler::FailoverCreateLeg => when_some(on_failover(ctx)),
        Handler::FailoverTerminate => when_some(on_failover_declined(ctx)),
        Handler::FailoverReject => when_some(on_failover_rejected(ctx)),
        _ => when_some(on_failover_redirected(ctx)),
    }
}

/// Handlers of a call's end.
pub open spec fn is_ending(h: Handler) -> bool {
    h is DialogDenied
        || h is CrossBye
        || h is RelayBye
        || h is ReinviteCancel
        || h is CallCancel
        || h is TransactionTimeout
        || h is ReaperStale
        || h is ReaperFatal
        || h is TerminatingSafety
}

fn handle_ending(h: Handler, ctx: &RuleContext) -> (r: Option<RuleHandleResult>)
    requires
        is_ending(h),
    ensures
        opt_view(r) == handled(h, ctx@),
{
    proof {
        reveal(handled);
    }
    match h {
        Handler::DialogDenied => ok(on_dialog_denied(ctx)),
        Handler::CrossBye => ok(on_cross_bye(ctx)),
        Handler::RelayBye => ok(on_bye(ctx)),
        Handler::ReinviteCancel => ok(on_reinvite_cancel(ctx)),
        Handler::CallCancel => ok(on_call_cancel(ctx)),
        Handler::TransactionTimeout => ok(on_transaction_timeout(ctx)),
        Handler::ReaperStale => ok(reap_force_terminal(ctx, "reaper-stale")),
        Handler::ReaperFatal => ok(reap_force_terminal(ctx, "handler-panic")),
        _ => ok(force_legs(ctx)),
    }
}

/// Handlers of a call's deadlines.
pub open spec fn is_deadline(h: Handler) -> bool {
    h is NoAnswer
        || h is SetupTimeout
        || h is MaxDuration
        || h is Keepalive
        || h is KeepaliveTimeout
        || h is AckGiveUp
        || h is PrackGiveUp
}

fn handle_deadline(h: Handler, ctx: &RuleContext) -> (r: Option<RuleHandleResult>)
    requires
        is_deadline(h),
    ensures
        opt_view(r) == handled(h, ctx@),
{
    proof {
        reveal(handled);
    }
    match h {
        Handler::NoAnswer => ok(on_no_answer(ctx)),
        Handler::SetupTimeout => ok(on_setup_timeout(ctx)),
        Handler::MaxDuration => ok(on_max_duration(ctx)),
        Handler::Keepalive => ok(on_keepalive(ctx)),
        Handler::KeepaliveTimeout => ok(on_keepalive_timeout(ctx)),
        Handler::AckGiveUp => ok(on_ack_give_up(ctx)),
        _ => ok(on_prack_give_up(ctx)),
    }
}

/// Handlers of promoted early media.
pub open spec fn is_promotion(h: Handler) -> bool {
    h is Promote183
        || h is SuppressProvisional
        || h is ConfirmPromoted
        || h is ResyncAnswered
        || h is AbsorbPromotedAck
        || h is PromotedFailure
}

fn handle_promotion(h: Handler, ctx: &RuleContext) -> (r: Option<RuleHandleResult>)
    requires
        is_promotion(h),
    ensures
        opt_view(r) == handled(h, ctx@),
{
    proof {
        reveal(handled);
    }
    match h {
        Handler::Promote183 => when_some(on_early_media(ctx)),
        Handler::SuppressProvisional => when_some(on_suppressed(ctx)),
        Handler::ConfirmPromoted => when_some(on_promoted_answer(ctx)),
        Handler::ResyncAnswered => when_some(on_resync_answer(ctx)),
        Handler::AbsorbPromotedAck => ok(on_promoted_ack()),
        _ => when_some(on_promoted_failure(ctx)),
    }
}

/// Handlers of a transfer.
pub open spec fn is_transfer(h: Handler) -> bool {
    h is InterceptRefer
        || h is ReferDenied
        || h is ReferAllowed
        || h is ReferTimeout
        || h is TargetProgress
        || h is TargetAnswer
        || h is TargetFailure
        || h is TargetNoAnswer
}

fn handle_transfer(h: Handler, ctx: &RuleContext) -> (r: Option<RuleHandleResult>)
    requires
        is_transfer(h),
    ensures
        opt_view(r) == handled(h, ctx@),
{
    proof {
        reveal(handled);
    }
    match h {
        Handler::InterceptRefer => when_some(on_refer(ctx)),
        Handler::ReferDenied => when_some(on_refer_denied(ctx)),
        Handler::ReferAllowed => on_refer_allowed(ctx),
        Handler::ReferTimeout => when_some(on_refer_timeout(ctx)),
        Handler::TargetProgress => when_some(on_target_progress(ctx)),
        Handler::TargetAnswer => when_some(on_target_answer(ctx)),
        Handler::TargetFailure => when_some(on_target_failure(ctx)),
        _ => when_some(on_target_no_answer(ctx)),
    }
}

/// Handlers of a transfer's last steps.
pub open spec fn is_realignment(h: Handler) -> bool {
    h is TargetRealigned
        || h is TargetRealignFailed
        || h is TargetRealignTimeout
        || h is CallerRealigned
        || h is CallerRealignFailed
        || h is CallerRealignTimeout
        || h is TransferTimeout
        || h is NotifyDenied
}

fn handle_realignment(h: Handler, ctx: &RuleContext) -> (r: Option<RuleHandleResult>)
    requires
        is_realignment(h),
    ensures
        opt_view(r) == handled(h, ctx@),
{
    proof {
        reveal(handled);
    }
    match h {
        Handler::TargetRealigned => when_some(on_target_realigned(ctx)),
        Handler::TargetRealignFailed => when_some(on_target_realign_failed(ctx)),
        Handler::TargetRealignTimeout => when_some(on_target_realign_timeout(ctx)),
        Handler::CallerRealigned => when_some(on_caller_realigned(ctx)),
        Handler::CallerRealignFailed => when_some(on_caller_realign_failed(ctx)),
        Handler::CallerRealignTimeout => ok(on_caller_realign_timeout()),
        Handler::TransferTimeout => when_some(on_transfer_timeout(ctx)),
        _ => when_some(on_notify_denied(ctx)),
    }
}

impl Handler {
    /// Answer an event.
    pub fn handle(self, ctx: &RuleContext) -> (r: Option<RuleHandleResult>)
        ensures
            opt_view(r) == handled(self, ctx@),
    {
        match self {
            Handler::Absorb
            | Handler::Relay
            | Handler::RefusePending
            | Handler::RefuseUnknown
            | Handler::RefuseUnimplemented
            | Handler::RefuseBadRequest
            | Handler::RefuseNotAcceptable
            | Handler::CancelResolved
            | Handler::ReAck
            | Handler::KeepaliveAnswered
            | Handler::ByeAnswered
            | Handler::RelayPrack => handle_plain(self, ctx),
            Handler::CancelCrossed
            | Handler::CancelledReinviteAnswered
            | Handler::RelayProvisional
            | Handler::ConfirmDialog
            | Handler::RouteFailure
            | Handler::FailoverCreateLeg
            | Handler::FailoverTerminate
            | Handler::FailoverReject
            | Handler::FailoverRedirect => handle_progress(self, ctx),
            Handler::DialogDenied
            | Handler::CrossBye
            | Handler::RelayBye
            | Handler::ReinviteCancel
            | Handler::CallCancel
            | Handler::TransactionTimeout
            | Handler::ReaperStale
            | Handler::ReaperFatal
            | Handler::TerminatingSafety => handle_ending(self, ctx),
            Handler::NoAnswer
            | Handler::SetupTimeout
            | Handler::MaxDuration
            | Handler::Keepalive
            | Handler::KeepaliveTimeout
            | Handler::AckGiveUp
            | Handler::PrackGiveUp => handle_deadline(self, ctx),
            Handler::Promote183
            | Handler::SuppressProvisional
            | Handler::ConfirmPromoted
            | Handler::ResyncAnswered
            | Handler::AbsorbPromotedAck
            | Handler::PromotedFailure => handle_promotion(self, ctx),
            Handler::InterceptRefer
            | Handler::ReferDenied
            | Handler::ReferAllowed
            | Handler::ReferTimeout
            | Handler::TargetProgress
            | Handler::TargetAnswer
            | Handler::TargetFailure
            | Handler::TargetNoAnswer => handle_transfer(self, ctx),
            _ => handle_realignment(self, ctx),
        }
    }
}

} // verus!
