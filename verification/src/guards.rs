//! The conditions of rules beyond the columns of their matchers.
use vstd::prelude::*;

use crate::actions::select::{invite_cseq, invite_cseq_from_handle};
use crate::books::{answers_initial_invite, is_initial_answer};
use crate::call::{ByeDisposition, Obligation};
use crate::defaults::handlers::{given_up, given_up_obligation};
use crate::headers::{has_header, has_p_early_media};
use crate::lens::{find_pending_request, is_a};
use crate::model::{CallEvent, Guard, RuleContext, RuleContextView};
use crate::promote_pem::{
    active, is_promoted, is_window_open, promote_pem_active, promoted, window_open,
};
use crate::refer_transfer::seed::{
    attended, local_refer, refer_to_has_replaces, refer_to_readable, refers_locally, target_reads,
    transfer_active, transferring,
};
use crate::reliable::{tag_or_empty, tag_text};
use crate::state::{invite_open, invite_transaction_open};
use crate::text::same;
use crate::wire::{Method, MethodView};

verus! {

// ── responses ───────────────────────────────────────────────────────────
/// A failure final.
pub open spec fn failure_final(ctx: RuleContextView) -> bool {
    ctx.response() is Some && ctx.response()->0.status >= 300
}

fn is_failure_final(ctx: &RuleContext) -> (r: bool)
    ensures
        r == failure_final(ctx@),
{
    match ctx.response() {
        Some(r) => r.status >= 300,
        None => false,
    }
}

/// The response answers a relayed request that was, or was not, cancelled.
pub open spec fn answers_snapshot(ctx: RuleContextView, cancelled: bool) -> bool {
    ctx.snapshot() is Some && ctx.snapshot()->0.cancelled == cancelled
}

fn answers_snapshot_that_was(ctx: &RuleContext, cancelled: bool) -> (r: bool)
    ensures
        r == answers_snapshot(ctx@, cancelled),
{
    match ctx.snapshot_cancelled() {
        Some(c) => c == cancelled,
        None => false,
    }
}

/// The response repeats a 2xx that was acknowledged: it is of the same dialog
/// and the same INVITE, and answers nothing that was relayed.
pub open spec fn repeats_2xx(ctx: RuleContextView) -> bool {
    match (ctx.source_dialog(), ctx.response()) {
        (Some(d), Some(resp)) => d.ext.ack_branch is Some && tag_or_empty(resp.to_tag)
            == d.sip.remote_tag && invite_cseq(d) == resp.cseq && d.pending(resp.cseq) is None,
        _ => false,
    }
}

fn is_repeated_2xx(ctx: &RuleContext) -> (r: bool)
    ensures
        r == repeats_2xx(ctx@),
{
    match ctx.source_dialog() {
        Some(d) => match ctx.response() {
            Some(resp) => {
                let tag = tag_text(&resp.to_tag);
                d.ext.ack_branch.is_some() && tag == d.sip.remote_tag && invite_cseq_from_handle(d)
                    == resp.cseq && find_pending_request(d, resp.cseq).is_none()
            },
            None => false,
        },
        None => false,
    }
}

/// The response denies a dialog: not only a transaction, as that of a PRACK or a
/// CANCEL does, nor a subscription.
pub open spec fn denies_dialog(ctx: RuleContextView) -> bool {
    ctx.response() is Some && ctx.response()->0.method != MethodView::Prack
        && ctx.response()->0.method != MethodView::Cancel && ctx.response()->0.method != MethodView::Notify
}

fn is_dialog_denied(ctx: &RuleContext) -> (r: bool)
    ensures
        r == denies_dialog(ctx@),
{
    match ctx.response() {
        Some(r) => r.method != Method::Prack && r.method != Method::Cancel && r.method
            != Method::Notify,
        None => false,
    }
}

/// The leg awaits the answer to its BYE.
pub open spec fn awaits_bye(ctx: RuleContextView) -> bool {
    ctx.source_leg() is Some && ctx.source_leg()->0.bye_disposition == Some(ByeDisposition::ByeSent)
}

fn is_bye_awaited(ctx: &RuleContext) -> (r: bool)
    ensures
        r == awaits_bye(ctx@),
{
    match ctx.source_leg() {
        Some(l) => match l.bye_disposition {
            Some(b) => b == ByeDisposition::ByeSent,
            None => false,
        },
        None => false,
    }
}

// ── requests ────────────────────────────────────────────────────────────
/// An INVITE transaction is open on the dialog the request came on, or on the
/// one its relay would go out on.
pub open spec fn glares(ctx: RuleContextView) -> bool {
    ||| (ctx.source_dialog() is Some && invite_open(ctx.source_dialog()->0))
    ||| match ctx.peer_dialog() {
        Some((_, d)) => invite_open(d),
        None => false,
    }
}

fn is_glare(ctx: &RuleContext) -> (r: bool)
    ensures
        r == glares(ctx@),
{
    if let Some(d) = ctx.source_dialog() {
        if invite_transaction_open(d) {
            return true;
        }
    }
    match ctx.peer_dialog() {
        Some((_, d)) => invite_transaction_open(d),
        None => false,
    }
}

/// The CANCEL matched an INVITE within a dialog.
pub open spec fn cancels_in_dialog(ctx: RuleContextView) -> bool {
    ctx.event is Cancelled && ctx.event->in_dialog
}

fn is_in_dialog_cancel(ctx: &RuleContext) -> (r: bool)
    ensures
        r == cancels_in_dialog(ctx@),
{
    match ctx.event {
        CallEvent::Cancelled { in_dialog, .. } => *in_dialog,
        _ => false,
    }
}

// ── give-ups ────────────────────────────────────────────────────────────
/// The ACK of a 2xx was given up: of the answer to the caller, or of another.
pub open spec fn ack_gave_up(ctx: RuleContextView, initial: bool) -> bool {
    given_up(ctx) is Some && given_up(ctx)->0 is AckOf2xx && is_initial_answer(
        ctx.call,
        given_up(ctx)->0,
    ) == initial
}

fn is_ack_given_up(ctx: &RuleContext, initial: bool) -> (r: bool)
    ensures
        r == ack_gave_up(ctx@, initial),
{
    match given_up_obligation(ctx) {
        Some(o) => match o {
            Obligation::AckOf2xx { .. } => answers_initial_invite(ctx.call, o) == initial,
            Obligation::PrackOf { .. } => false,
        },
        None => false,
    }
}

/// The PRACK of a provisional was given up.
pub open spec fn prack_gave_up(ctx: RuleContextView) -> bool {
    given_up(ctx) is Some && given_up(ctx)->0 is PrackOf
}

fn is_prack_given_up(ctx: &RuleContext) -> (r: bool)
    ensures
        r == prack_gave_up(ctx@),
{
    match given_up_obligation(ctx) {
        Some(o) => match o {
            Obligation::PrackOf { .. } => true,
            Obligation::AckOf2xx { .. } => false,
        },
        None => false,
    }
}

// ── promoted early media ────────────────────────────────────────────────
/// Early media that is to be promoted: a body, and the authorization of it.
pub open spec fn promotable(ctx: RuleContextView) -> bool {
    active(ctx) && !promoted(ctx) && ctx.response() is Some && ctx.response()->0.body.len() > 0
        && has_header(ctx.response()->0.headers, "P-Early-Media"@)
}

fn is_promotable(ctx: &RuleContext) -> (r: bool)
    ensures
        r == promotable(ctx@),
{
    if !promote_pem_active(ctx) || is_promoted(ctx) {
        return false;
    }
    match ctx.response() {
        Some(r) => r.body.len() > 0 && has_p_early_media(r),
        None => false,
    }
}

/// The response answers the re-INVITE that brings the caller in line.
pub open spec fn answers_resync(ctx: RuleContextView) -> bool {
    active(ctx) && ctx.response() is Some && ctx.call.promote_pem is Some
        && ctx.call.promote_pem->0.resync_reinvite_cseq == Some(ctx.response()->0.cseq)
}

fn is_resync_answer(ctx: &RuleContext) -> (r: bool)
    ensures
        r == answers_resync(ctx@),
{
    if !promote_pem_active(ctx) {
        return false;
    }
    match (ctx.response(), &ctx.call.promote_pem) {
        (Some(r), Some(s)) => match s.resync_reinvite_cseq {
            Some(c) => c == r.cseq,
            None => false,
        },
        _ => false,
    }
}

// ── transfers ───────────────────────────────────────────────────────────
/// The transfer was denied, or its consult failed.
pub open spec fn denies_transfer(ctx: RuleContextView) -> bool {
    ctx.event is Internal && (ctx.event->outcome == "reject"@ || ctx.event->outcome == "error"@)
}

fn is_transfer_denied(ctx: &RuleContext) -> (r: bool)
    ensures
        r == denies_transfer(ctx@),
{
    match ctx.event {
        CallEvent::Internal { outcome, .. } => same(outcome.as_str(), "reject") || same(
            outcome.as_str(),
            "error",
        ),
        _ => false,
    }
}

/// The event comes from the target of the transfer.
pub open spec fn from_target(ctx: RuleContextView) -> bool {
    ctx.call.transfer is Some && ctx.call.transfer->0.c_leg_id == Some(ctx.source_leg_id)
}

fn is_from_target(ctx: &RuleContext) -> (r: bool)
    ensures
        r == from_target(ctx@),
{
    match &ctx.call.transfer {
        Some(t) => match &t.c_leg_id {
            Some(c) => *c == *ctx.source_leg_id,
            None => false,
        },
        None => false,
    }
}

/// The timer is the target's.
pub open spec fn target_timer(ctx: RuleContextView) -> bool {
    ctx.call.transfer is Some && ctx.call.transfer->0.c_leg_id is Some
        && ctx.call.transfer->0.c_leg_id == ctx.timer_leg()
}

fn is_target_timer(ctx: &RuleContext) -> (r: bool)
    ensures
        r == target_timer(ctx@),
{
    match &ctx.call.transfer {
        Some(t) => match (&t.c_leg_id, ctx.timer_leg()) {
            (Some(c), Some(l)) => *c == *l,
            _ => false,
        },
        None => false,
    }
}

/// The event comes from the caller's leg.
pub open spec fn from_caller(ctx: RuleContextView) -> bool {
    ctx.source_leg_id == "a"@
}

/// The timer is the caller's.
pub open spec fn caller_timer(ctx: RuleContextView) -> bool {
    ctx.timer_leg() == Some("a"@)
}

fn is_caller_timer(ctx: &RuleContext) -> (r: bool)
    ensures
        r == caller_timer(ctx@),
{
    match ctx.timer_leg() {
        Some(l) => is_a(l),
        None => false,
    }
}

/// The event comes from the referrer.
pub open spec fn from_referrer(ctx: RuleContextView) -> bool {
    ctx.call.transfer is Some && ctx.call.transfer->0.referrer_leg_id == ctx.source_leg_id
}

fn is_from_referrer(ctx: &RuleContext) -> (r: bool)
    ensures
        r == from_referrer(ctx@),
{
    match &ctx.call.transfer {
        Some(t) => t.referrer_leg_id == *ctx.source_leg_id,
        None => false,
    }
}

/// A request other than BYE.
pub open spec fn not_a_bye(ctx: RuleContextView) -> bool {
    ctx.request() is Some && ctx.request()->0.method != MethodView::Bye
}

fn is_not_a_bye(ctx: &RuleContext) -> (r: bool)
    ensures
        r == not_a_bye(ctx@),
{
    match ctx.request() {
        Some(r) => r.method != Method::Bye,
        None => false,
    }
}

// ── all of them ─────────────────────────────────────────────────────────
/// The conditions of core rules.
pub open spec fn is_core_guard(g: Guard) -> bool {
    g is FailureFinal || g is InviteGlare || g is PeerNotReady || g is CancelledReinviteAnswer
        || g is RelayedReinviteAnswer || g is Repeated2xx || g is RelayedFailure || g is DialogDenied
        || g is OwnRequestFailure || g is OwnRequestAnswer || g is ByeAwaited || g is InDialogCancel
        || g is InitialAnswerGaveUp || g is ReinviteAnswerGaveUp || g is ProvisionalGaveUp
}

/// What a condition says of an event.
pub open spec fn guard_holds(g: Guard, ctx: RuleContextView) -> bool {
    match g {
        Guard::FailureFinal => failure_final(ctx),
        Guard::InviteGlare => glares(ctx),
        Guard::PeerNotReady => !ctx.peer_ready(),
        Guard::CancelledReinviteAnswer => answers_snapshot(ctx, true),
        Guard::RelayedReinviteAnswer => answers_snapshot(ctx, false),
        Guard::Repeated2xx => repeats_2xx(ctx),
        Guard::RelayedFailure => failure_final(ctx) && ctx.answers_relayed(),
        Guard::DialogDenied => denies_dialog(ctx),
        Guard::OwnRequestFailure => failure_final(ctx) && !ctx.answers_relayed(),
        Guard::OwnRequestAnswer => !ctx.answers_relayed(),
        Guard::ByeAwaited => awaits_bye(ctx),
        Guard::InDialogCancel => cancels_in_dialog(ctx),
        Guard::InitialAnswerGaveUp => ack_gave_up(ctx, true),
        Guard::ReinviteAnswerGaveUp => ack_gave_up(ctx, false),
        Guard::ProvisionalGaveUp => prack_gave_up(ctx),
        Guard::Promotable => promotable(ctx),
        Guard::Promoted => active(ctx) && promoted(ctx),
        Guard::ResyncAnswer => answers_resync(ctx),
        Guard::PromotionWindow => active(ctx) && window_open(ctx),
        Guard::PromotedUnbridged => active(ctx) && promoted(ctx) && ctx.call.active_peer is None,
        Guard::PromotedFailure => active(ctx) && promoted(ctx) && failure_final(ctx),
        Guard::LocalAttended => refers_locally(ctx) && attended(ctx),
        Guard::LocalRefer => refers_locally(ctx),
        Guard::LocalUnreadable => refers_locally(ctx) && !target_reads(ctx) && !transferring(ctx),
        Guard::LocalTransfer => refers_locally(ctx) && target_reads(ctx) && !attended(ctx)
            && !transferring(ctx),
        Guard::ReferDenied => denies_transfer(ctx),
        Guard::FromTarget => from_target(ctx),
        Guard::TargetFailure => failure_final(ctx) && from_target(ctx),
        Guard::TargetTimer => target_timer(ctx),
        Guard::FromCaller => from_caller(ctx),
        Guard::CallerFailure => failure_final(ctx) && from_caller(ctx),
        Guard::CallerTimer => caller_timer(ctx),
        Guard::ReferrerDenies => from_referrer(ctx) && !ctx.answers_relayed(),
        Guard::ReferrerRequest => not_a_bye(ctx) && from_referrer(ctx),
    }
}

fn core_guard(g: Guard, ctx: &RuleContext) -> (r: bool)
    requires
        is_core_guard(g),
    ensures
        r == guard_holds(g, ctx@),
{
    match g {
        Guard::FailureFinal => is_failure_final(ctx),
        Guard::InviteGlare => is_glare(ctx),
        Guard::PeerNotReady => !ctx.peer_relay_ready(),
        Guard::CancelledReinviteAnswer => answers_snapshot_that_was(ctx, true),
        Guard::RelayedReinviteAnswer => answers_snapshot_that_was(ctx, false),
        Guard::Repeated2xx => is_repeated_2xx(ctx),
        Guard::RelayedFailure => is_failure_final(ctx) && ctx.answers_relayed_request(),
        Guard::DialogDenied => is_dialog_denied(ctx),
        Guard::OwnRequestFailure => is_failure_final(ctx) && !ctx.answers_relayed_request(),
        Guard::OwnRequestAnswer => !ctx.answers_relayed_request(),
        Guard::ByeAwaited => is_bye_awaited(ctx),
        Guard::InDialogCancel => is_in_dialog_cancel(ctx),
        Guard::InitialAnswerGaveUp => is_ack_given_up(ctx, true),
        Guard::ReinviteAnswerGaveUp => is_ack_given_up(ctx, false),
        _ => is_prack_given_up(ctx),
    }
}

impl Guard {
    /// Test a condition on an event.
    pub fn holds(self, ctx: &RuleContext) -> (r: bool)
        ensures
            r == guard_holds(self, ctx@),
    {
        match self {
            Guard::Promotable => is_promotable(ctx),
            Guard::Promoted => promote_pem_active(ctx) && is_promoted(ctx),
            Guard::ResyncAnswer => is_resync_answer(ctx),
            Guard::PromotionWindow => promote_pem_active(ctx) && is_window_open(ctx),
            Guard::PromotedUnbridged => promote_pem_active(ctx) && is_promoted(ctx)
                && ctx.call.active_peer.is_none(),
            Guard::PromotedFailure => promote_pem_active(ctx) && is_promoted(ctx)
                && is_failure_final(ctx),
            Guard::LocalAttended => local_refer(ctx) && refer_to_has_replaces(ctx),
            Guard::LocalRefer => local_refer(ctx),
            Guard::LocalUnreadable => local_refer(ctx) && !refer_to_readable(ctx)
                && !transfer_active(ctx),
            Guard::LocalTransfer => local_refer(ctx) && refer_to_readable(ctx)
                && !refer_to_has_replaces(ctx) && !transfer_active(ctx),
            Guard::ReferDenied => is_transfer_denied(ctx),
            Guard::FromTarget => is_from_target(ctx),
            Guard::TargetFailure => is_failure_final(ctx) && is_from_target(ctx),
            Guard::TargetTimer => is_target_timer(ctx),
            Guard::FromCaller => is_a(ctx.source_leg_id),
            Guard::CallerFailure => is_failure_final(ctx) && is_a(ctx.source_leg_id),
            Guard::CallerTimer => is_caller_timer(ctx),
            Guard::ReferrerDenies => is_from_referrer(ctx) && !ctx.answers_relayed_request(),
            Guard::ReferrerRequest => is_not_a_bye(ctx) && is_from_referrer(ctx),
            _ => core_guard(self, ctx),
        }
    }
}

} // verus!
