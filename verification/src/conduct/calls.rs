//! What the core rules do: how a call is answered, rerouted, probed and ended.
use vstd::prelude::*;

use crate::action::{AuthoredFinalView, MessageTransformView, Provisional, RuleActionView};
use crate::actions::stated::either_holds;
use crate::actions::teardown::{dialog_invites, is_live_invite, leg_invites};
use crate::books::is_initial_answer;
use crate::call::{
    ByeDisposition, CallModelState, CdrEventType, DialogView, LegState, LegView, ObligationView,
    PeerPairView, PendingRequestView, ReleaseEventKind, TimerTypeView,
};
use crate::conduct::comes_before;
use crate::context::timer_key;
use crate::defaults::handlers::{
    ack_given_up, bye_crossed, bye_relayed, call_cancelled, came_under, cancel_crossed,
    cancelled_reinvite_answered, ceiling_passed, dialog_confirmed, dialog_denied, failover_created,
    failover_declined, failover_redirected, failover_rejected, forced, leg_cancelled,
    legs_cancelled, no_ack, no_answer, no_prack, prack_relayed, probe_unanswered, probed,
    provisional_relayed, reaped, reinvite_cancelled, route_failed, setup_timed_out, told_lines,
    transaction_timed_out,
};
use crate::defaults::route_fold::{
    ext_actions, feature_actions, header_updates, hold_actions, limiter_holds, Nodes,
    redirect_contacts, route_fold, service_ext, stated_port, subscription_actions,
};
use crate::effects::{FailureOrigin, FailureRequestView, ReleaseRequestView, TimeoutKind};
use crate::handling::handled;
use crate::headers::header_value;
use crate::json::{member, member_i64, member_text, member_u64, Node, root};
use crate::model::{CallEventView, Handler, RuleContextView};
use crate::reliable::{invite_answered_by, names_nothing, numbers_on, shown_on, tag_or_empty};
use crate::routes::rack_tokens;
use crate::seqs::{first_where, first_where_found, keep, keep_sound};
use crate::state::{going_away, leg_resolved};
use crate::wire::{HostPortView, MethodView, SipRequestView, SipResponseView};

verus! {

/// An event that is absorbed does nothing.
pub proof fn an_absorbed_event_does_nothing(
    ctx: RuleContextView,
)
    ensures
        handled(Handler::Absorb, ctx) is Some,
        ({
            let a = handled(Handler::Absorb, ctx)->0.actions;
            &&& a.len() == 0
        }),
{
    reveal(handled);
    let a = handled(Handler::Absorb, ctx)->0.actions;
}

/// An event that is relayed is relayed as it stands, once.
pub proof fn a_relayed_event_is_relayed_as_it_stands(
    ctx: RuleContextView,
)
    ensures
        handled(Handler::Relay, ctx) is Some,
        ({
            let a = handled(Handler::Relay, ctx)->0.actions;
            &&& a.contains(
                RuleActionView::RelayToPeer {
                    transform: MessageTransformView {
                        status: None,
                        reason: None,
                        drop_body: false,
                        remove_headers: Seq::empty(),
                        add_headers: Seq::empty(),
                    },
                },
            )
            &&& a.len() == 1
        }),
{
    reveal(handled);
    let a = handled(Handler::Relay, ctx)->0.actions;
    assert(a[0] == RuleActionView::RelayToPeer {
        transform: MessageTransformView {
            status: None,
            reason: None,
            drop_body: false,
            remove_headers: Seq::empty(),
            add_headers: Seq::empty(),
        },
    });
}

/// A request that another one of its kind stands in the way of is refused,
/// and nothing else happens.
pub proof fn a_request_is_refused_with_491(
    ctx: RuleContextView,
)
    ensures
        handled(Handler::RefusePending, ctx) is Some,
        ({
            let a = handled(Handler::RefusePending, ctx)->0.actions;
            &&& a.contains(
                RuleActionView::Respond {
                    status: 491,
                    reason: "Request Pending"@,
                    body: Seq::empty(),
                    content_type: None,
                },
            )
            &&& a.len() == 1
        }),
{
    reveal(handled);
    let a = handled(Handler::RefusePending, ctx)->0.actions;
    assert(a[0] == RuleActionView::Respond {
        status: 491,
        reason: "Request Pending"@,
        body: Seq::empty(),
        content_type: None,
    });
}

/// A request that names nothing that is known is refused,
/// and nothing else happens.
pub proof fn a_request_is_refused_with_481(
    ctx: RuleContextView,
)
    ensures
        handled(Handler::RefuseUnknown, ctx) is Some,
        ({
            let a = handled(Handler::RefuseUnknown, ctx)->0.actions;
            &&& a.contains(
                RuleActionView::Respond {
                    status: 481,
                    reason: "Call/Transaction Does Not Exist"@,
                    body: Seq::empty(),
                    content_type: None,
                },
            )
            &&& a.len() == 1
        }),
{
    reveal(handled);
    let a = handled(Handler::RefuseUnknown, ctx)->0.actions;
    assert(a[0] == RuleActionView::Respond {
        status: 481,
        reason: "Call/Transaction Does Not Exist"@,
        body: Seq::empty(),
        content_type: None,
    });
}

/// A request for what is not done here is refused,
/// and nothing else happens.
pub proof fn a_request_is_refused_with_501(
    ctx: RuleContextView,
)
    ensures
        handled(Handler::RefuseUnimplemented, ctx) is Some,
        ({
            let a = handled(Handler::RefuseUnimplemented, ctx)->0.actions;
            &&& a.contains(
                RuleActionView::Respond {
                    status: 501,
                    reason: "Not Implemented"@,
                    body: Seq::empty(),
                    content_type: None,
                },
            )
            &&& a.len() == 1
        }),
{
    reveal(handled);
    let a = handled(Handler::RefuseUnimplemented, ctx)->0.actions;
    assert(a[0] == RuleActionView::Respond {
        status: 501,
        reason: "Not Implemented"@,
        body: Seq::empty(),
        content_type: None,
    });
}

/// A request that does not read is refused,
/// and nothing else happens.
pub proof fn a_request_is_refused_with_400(
    ctx: RuleContextView,
)
    ensures
        handled(Handler::RefuseBadRequest, ctx) is Some,
        ({
            let a = handled(Handler::RefuseBadRequest, ctx)->0.actions;
            &&& a.contains(
                RuleActionView::Respond {
                    status: 400,
                    reason: "Bad Request"@,
                    body: Seq::empty(),
                    content_type: None,
                },
            )
            &&& a.len() == 1
        }),
{
    reveal(handled);
    let a = handled(Handler::RefuseBadRequest, ctx)->0.actions;
    assert(a[0] == RuleActionView::Respond {
        status: 400,
        reason: "Bad Request"@,
        body: Seq::empty(),
        content_type: None,
    });
}

/// A request that cannot be taken yet is refused,
/// and nothing else happens.
pub proof fn a_request_is_refused_with_488(
    ctx: RuleContextView,
)
    ensures
        handled(Handler::RefuseNotAcceptable, ctx) is Some,
        ({
            let a = handled(Handler::RefuseNotAcceptable, ctx)->0.actions;
            &&& a.contains(
                RuleActionView::Respond {
                    status: 488,
                    reason: "Not Acceptable Here"@,
                    body: Seq::empty(),
                    content_type: None,
                },
            )
            &&& a.len() == 1
        }),
{
    reveal(handled);
    let a = handled(Handler::RefuseNotAcceptable, ctx)->0.actions;
    assert(a[0] == RuleActionView::Respond {
        status: 488,
        reason: "Not Acceptable Here"@,
        body: Seq::empty(),
        content_type: None,
    });
}

/// The final of a cancelled leg ends that leg.
pub proof fn a_cancelled_leg_is_done_with_its_final(
    ctx: RuleContextView,
)
    ensures
        handled(Handler::CancelResolved, ctx) is Some,
        ({
            let a = handled(Handler::CancelResolved, ctx)->0.actions;
            &&& a.contains(
                RuleActionView::TerminateLeg {
                    leg_id: ctx.source_leg_id,
                    bye_disposition: Some(ByeDisposition::Cancelled),
                },
            )
            &&& a.len() == 1
        }),
{
    reveal(handled);
    let a = handled(Handler::CancelResolved, ctx)->0.actions;
    assert(a[0] == RuleActionView::TerminateLeg {
        leg_id: ctx.source_leg_id,
        bye_disposition: Some(ByeDisposition::Cancelled),
    });
}

/// A repeated answer is acknowledged again, on the leg it came on.
pub proof fn a_repeated_answer_is_acknowledged_again(
    ctx: RuleContextView,
)
    ensures
        handled(Handler::ReAck, ctx) is Some,
        ({
            let a = handled(Handler::ReAck, ctx)->0.actions;
            &&& a.contains(
                RuleActionView::AckLeg {
                    leg_id: ctx.source_leg_id,
                    body: Seq::empty(),
                    content_type: None,
                },
            )
            &&& a.len() == 1
        }),
{
    reveal(handled);
    let a = handled(Handler::ReAck, ctx)->0.actions;
    assert(a[0] == RuleActionView::AckLeg {
        leg_id: ctx.source_leg_id,
        body: Seq::empty(),
        content_type: None,
    });
}

/// The answer to a probe ends the wait for it, and for no other.
pub proof fn an_answered_probe_ends_its_wait(
    ctx: RuleContextView,
)
    ensures
        handled(Handler::KeepaliveAnswered, ctx) is Some,
        ({
            let a = handled(Handler::KeepaliveAnswered, ctx)->0.actions;
            &&& a.contains(
                RuleActionView::CancelTimer {
                    id: timer_key(TimerTypeView::KeepaliveTimeout, Some(ctx.source_leg_id)),
                },
            )
            &&& a.len() == 1
        }),
{
    reveal(handled);
    let a = handled(Handler::KeepaliveAnswered, ctx)->0.actions;
    assert(a[0] == RuleActionView::CancelTimer {
        id: timer_key(TimerTypeView::KeepaliveTimeout, Some(ctx.source_leg_id)),
    });
}

/// The answer to a BYE ends the leg it was sent on.
pub proof fn an_answered_bye_ends_its_leg(
    ctx: RuleContextView,
)
    ensures
        handled(Handler::ByeAnswered, ctx) is Some,
        ({
            let a = handled(Handler::ByeAnswered, ctx)->0.actions;
            &&& a.contains(
                RuleActionView::TerminateLeg {
                    leg_id: ctx.source_leg_id,
                    bye_disposition: Some(ByeDisposition::ByeConfirmed),
                },
            )
            &&& a.len() == 1
        }),
{
    reveal(handled);
    let a = handled(Handler::ByeAnswered, ctx)->0.actions;
    assert(a[0] == RuleActionView::TerminateLeg {
        leg_id: ctx.source_leg_id,
        bye_disposition: Some(ByeDisposition::ByeConfirmed),
    });
}

/// An answer that crossed the CANCEL is taken, acknowledged, and hung up on.
pub proof fn an_answer_that_crossed_a_cancel_is_taken_and_hung_up_on(
    ctx: RuleContextView,
)
    ensures
        handled(Handler::CancelCrossed, ctx) is Some,
        ({
            let a = handled(Handler::CancelCrossed, ctx)->0.actions;
            &&& a.contains(
                RuleActionView::ConfirmDialog { leg_id: ctx.source_leg_id },
            )
            &&& a.contains(
                RuleActionView::AckLeg {
                    leg_id: ctx.source_leg_id,
                    body: Seq::empty(),
                    content_type: None,
                },
            )
            &&& a.contains(
                RuleActionView::AddCdrEvent {
                    event_type: CdrEventType::Answer,
                    leg_id: ctx.source_leg_id,
                    status_code: Some(200),
                    reason: Some("cancel_crossing"@),
                },
            )
            &&& a.contains(
                RuleActionView::AddCdrEvent {
                    event_type: CdrEventType::Bye,
                    leg_id: ctx.source_leg_id,
                    status_code: None,
                    reason: Some("cancel_crossing"@),
                },
            )
            &&& a.contains(
                RuleActionView::DestroyLeg { leg_id: ctx.source_leg_id },
            )
            &&& a.len() == 5
            &&& comes_before(
                a,
                RuleActionView::ConfirmDialog { leg_id: ctx.source_leg_id },
                RuleActionView::AckLeg {
                    leg_id: ctx.source_leg_id,
                    body: Seq::empty(),
                    content_type: None,
                },
            )
            &&& comes_before(
                a,
                RuleActionView::AckLeg {
                    leg_id: ctx.source_leg_id,
                    body: Seq::empty(),
                    content_type: None,
                },
                RuleActionView::DestroyLeg { leg_id: ctx.source_leg_id },
            )
        }),
{
    reveal(handled);
    reveal(cancel_crossed);
    let a = handled(Handler::CancelCrossed, ctx)->0.actions;
    assert(a[0] == RuleActionView::ConfirmDialog { leg_id: ctx.source_leg_id });
    assert(a[1] == RuleActionView::AckLeg {
        leg_id: ctx.source_leg_id,
        body: Seq::empty(),
        content_type: None,
    });
    assert(a[2] == RuleActionView::AddCdrEvent {
        event_type: CdrEventType::Answer,
        leg_id: ctx.source_leg_id,
        status_code: Some(200),
        reason: Some("cancel_crossing"@),
    });
    assert(a[3] == RuleActionView::AddCdrEvent {
        event_type: CdrEventType::Bye,
        leg_id: ctx.source_leg_id,
        status_code: None,
        reason: Some("cancel_crossing"@),
    });
    assert(a[4] == RuleActionView::DestroyLeg { leg_id: ctx.source_leg_id });
}

/// A provisional to a re-INVITE that was cancelled is nothing.
pub proof fn a_provisional_of_a_cancelled_reinvite_is_nothing(
    ctx: RuleContextView,
    resp: SipResponseView,
)
    requires
        ctx.response() == Some(resp),
        resp.status < 200,
    ensures
        handled(Handler::CancelledReinviteAnswered, ctx) is Some,
        ({
            let a = handled(Handler::CancelledReinviteAnswered, ctx)->0.actions;
            &&& a.len() == 0
        }),
{
    reveal(handled);
    reveal(cancelled_reinvite_answered);
    let a = handled(Handler::CancelledReinviteAnswered, ctx)->0.actions;
}

/// An answer to a re-INVITE that was cancelled is acknowledged, and goes no further.
pub proof fn an_answer_to_a_cancelled_reinvite_is_acknowledged(
    ctx: RuleContextView,
    resp: SipResponseView,
)
    requires
        ctx.response() == Some(resp),
        200 <= resp.status < 300,
    ensures
        handled(Handler::CancelledReinviteAnswered, ctx) is Some,
        ({
            let a = handled(Handler::CancelledReinviteAnswered, ctx)->0.actions;
            &&& a.contains(
                RuleActionView::AckLeg {
                    leg_id: ctx.source_leg_id,
                    body: Seq::empty(),
                    content_type: None,
                },
            )
            &&& a.contains(
                RuleActionView::ResolveCancelledReinvite {
                    leg_id: ctx.source_leg_id,
                    outbound_cseq: resp.cseq,
                },
            )
            &&& a.len() == 2
        }),
{
    reveal(handled);
    reveal(cancelled_reinvite_answered);
    let a = handled(Handler::CancelledReinviteAnswered, ctx)->0.actions;
    assert(a[0] == RuleActionView::AckLeg {
        leg_id: ctx.source_leg_id,
        body: Seq::empty(),
        content_type: None,
    });
    assert(a[1] == RuleActionView::ResolveCancelledReinvite {
        leg_id: ctx.source_leg_id,
        outbound_cseq: resp.cseq,
    });
}

/// A refusal of a re-INVITE that was cancelled goes no further.
pub proof fn a_refusal_of_a_cancelled_reinvite_goes_no_further(
    ctx: RuleContextView,
    resp: SipResponseView,
)
    requires
        ctx.response() == Some(resp),
        resp.status >= 300,
    ensures
        handled(Handler::CancelledReinviteAnswered, ctx) is Some,
        ({
            let a = handled(Handler::CancelledReinviteAnswered, ctx)->0.actions;
            &&& a.contains(
                RuleActionView::ResolveCancelledReinvite {
                    leg_id: ctx.source_leg_id,
                    outbound_cseq: resp.cseq,
                },
            )
            &&& a.len() == 1
        }),
{
    reveal(handled);
    reveal(cancelled_reinvite_answered);
    let a = handled(Handler::CancelledReinviteAnswered, ctx)->0.actions;
    assert(a[0] == RuleActionView::ResolveCancelledReinvite {
        leg_id: ctx.source_leg_id,
        outbound_cseq: resp.cseq,
    });
}

/// A callee's provisional puts its leg in the early state, is relayed as it stands,
/// and recorded under its status.
pub proof fn a_provisional_is_relayed_and_recorded(
    ctx: RuleContextView,
    resp: SipResponseView,
)
    requires
        ctx.response() == Some(resp),
    ensures
        handled(Handler::RelayProvisional, ctx) is Some,
        ({
            let a = handled(Handler::RelayProvisional, ctx)->0.actions;
            &&& a.contains(
                RuleActionView::UpdateLegState {
                    leg_id: ctx.source_leg_id,
                    state: LegState::Early,
                    disposition: None,
                },
            )
            &&& a.contains(
                RuleActionView::RelayToPeer {
                    transform: MessageTransformView {
                        status: None,
                        reason: None,
                        drop_body: false,
                        remove_headers: Seq::empty(),
                        add_headers: Seq::empty(),
                    },
                },
            )
            &&& a.contains(
                RuleActionView::AddCdrEvent {
                    event_type: CdrEventType::Provisional,
                    leg_id: ctx.source_leg_id,
                    status_code: Some(resp.status as i64),
                    reason: None,
                },
            )
            &&& a.len() == 3
        }),
{
    reveal(handled);
    reveal(provisional_relayed);
    let a = handled(Handler::RelayProvisional, ctx)->0.actions;
    assert(a[0] == RuleActionView::UpdateLegState {
        leg_id: ctx.source_leg_id,
        state: LegState::Early,
        disposition: None,
    });
    assert(a[1] == RuleActionView::RelayToPeer {
        transform: MessageTransformView {
            status: None,
            reason: None,
            drop_body: false,
            remove_headers: Seq::empty(),
            add_headers: Seq::empty(),
        },
    });
    assert(a[2] == RuleActionView::AddCdrEvent {
        event_type: CdrEventType::Provisional,
        leg_id: ctx.source_leg_id,
        status_code: Some(resp.status as i64),
        reason: None,
    });
}

/// A callee's answer confirms its dialog, bridges it to the caller, and answers the
/// caller as it stands. It is acknowledged at once where its leg carried the offer.
/// The deadlines of the setup end, and those of a call begin.
pub proof fn an_answer_bridges_the_call(
    ctx: RuleContextView,
)
    ensures
        handled(Handler::ConfirmDialog, ctx) is Some,
        ({
            let a = handled(Handler::ConfirmDialog, ctx)->0.actions;
            let ceiling = match ctx.call.features {
                Some(f) => f.platform.max_duration_sec,
                None => 3600i64,
            };
            &&& a.contains(
                RuleActionView::ConfirmDialog { leg_id: ctx.source_leg_id },
            )
            &&& a.contains(
                RuleActionView::Merge { leg_a: ctx.call.a_leg.leg_id, leg_b: ctx.source_leg_id },
            )
            &&& a.contains(
                RuleActionView::RelayToPeer {
                    transform: MessageTransformView {
                        status: None,
                        reason: None,
                        drop_body: false,
                        remove_headers: Seq::empty(),
                        add_headers: Seq::empty(),
                    },
                },
            )
            &&& (ctx.call.leg(ctx.source_leg_id) matches Some(l) && l.offers_sdp) ==> a.contains(
                RuleActionView::AckLeg {
                    leg_id: ctx.source_leg_id,
                    body: Seq::empty(),
                    content_type: None,
                },
            )
            &&& a.contains(
                RuleActionView::CancelTimer {
                    id: timer_key(TimerTypeView::NoAnswer, Some(ctx.source_leg_id)),
                },
            )
            &&& a.contains(
                RuleActionView::CancelTimer { id: timer_key(TimerTypeView::SetupTimeout, None) },
            )
            &&& a.contains(
                RuleActionView::ScheduleTimer {
                    timer_type: TimerTypeView::GlobalDuration,
                    delay_sec: ceiling,
                    leg_id: None,
                },
            )
            &&& a.contains(
                RuleActionView::ScheduleTimer {
                    timer_type: TimerTypeView::Keepalive,
                    delay_sec: ctx.config.keepalive_interval_sec,
                    leg_id: None,
                },
            )
            &&& a.contains(
                RuleActionView::AddCdrEvent {
                    event_type: CdrEventType::Answer,
                    leg_id: ctx.source_leg_id,
                    status_code: Some(200),
                    reason: None,
                },
            )
            &&& a.contains(
                RuleActionView::SetFailureHeaders { headers: Seq::empty() },
            )
            &&& a.len() == 9 + if (ctx.call.leg(ctx.source_leg_id) matches Some(l) && l.offers_sdp) {
                1int
            } else {
                0int
            }
            &&& comes_before(
                a,
                RuleActionView::ConfirmDialog { leg_id: ctx.source_leg_id },
                RuleActionView::RelayToPeer {
                    transform: MessageTransformView {
                        status: None,
                        reason: None,
                        drop_body: false,
                        remove_headers: Seq::empty(),
                        add_headers: Seq::empty(),
                    },
                },
            )
        }),
{
    reveal(handled);
    reveal(dialog_confirmed);
    let a = handled(Handler::ConfirmDialog, ctx)->0.actions;
    let ceiling = match ctx.call.features {
        Some(f) => f.platform.max_duration_sec,
        None => 3600i64,
    };
    if (ctx.call.leg(ctx.source_leg_id) matches Some(l) && l.offers_sdp) {
        assert(a[0] == RuleActionView::ConfirmDialog { leg_id: ctx.source_leg_id });
        assert(a[1] == RuleActionView::Merge {
            leg_a: ctx.call.a_leg.leg_id,
            leg_b: ctx.source_leg_id,
        });
        assert(a[2] == RuleActionView::RelayToPeer {
            transform: MessageTransformView {
                status: None,
                reason: None,
                drop_body: false,
                remove_headers: Seq::empty(),
                add_headers: Seq::empty(),
            },
        });
        assert(a[3] == RuleActionView::AckLeg {
            leg_id: ctx.source_leg_id,
            body: Seq::empty(),
            content_type: None,
        });
        assert(a[4] == RuleActionView::CancelTimer {
            id: timer_key(TimerTypeView::NoAnswer, Some(ctx.source_leg_id)),
        });
        assert(a[5] == RuleActionView::CancelTimer {
            id: timer_key(TimerTypeView::SetupTimeout, None),
        });
        assert(a[6] == RuleActionView::ScheduleTimer {
            timer_type: TimerTypeView::GlobalDuration,
            delay_sec: ceiling,
            leg_id: None,
        });
        assert(a[7] == RuleActionView::ScheduleTimer {
            timer_type: TimerTypeView::Keepalive,
            delay_sec: ctx.config.keepalive_interval_sec,
            leg_id: None,
        });
        assert(a[8] == RuleActionView::AddCdrEvent {
            event_type: CdrEventType::Answer,
            leg_id: ctx.source_leg_id,
            status_code: Some(200),
            reason: None,
        });
        assert(a[9] == RuleActionView::SetFailureHeaders { headers: Seq::empty() });
    } else {
        assert(a[0] == RuleActionView::ConfirmDialog { leg_id: ctx.source_leg_id });
        assert(a[1] == RuleActionView::Merge {
            leg_a: ctx.call.a_leg.leg_id,
            leg_b: ctx.source_leg_id,
        });
        assert(a[2] == RuleActionView::RelayToPeer {
            transform: MessageTransformView {
                status: None,
                reason: None,
                drop_body: false,
                remove_headers: Seq::empty(),
                add_headers: Seq::empty(),
            },
        });
        assert(a[3] == RuleActionView::CancelTimer {
            id: timer_key(TimerTypeView::NoAnswer, Some(ctx.source_leg_id)),
        });
        assert(a[4] == RuleActionView::CancelTimer {
            id: timer_key(TimerTypeView::SetupTimeout, None),
        });
        assert(a[5] == RuleActionView::ScheduleTimer {
            timer_type: TimerTypeView::GlobalDuration,
            delay_sec: ceiling,
            leg_id: None,
        });
        assert(a[6] == RuleActionView::ScheduleTimer {
            timer_type: TimerTypeView::Keepalive,
            delay_sec: ctx.config.keepalive_interval_sec,
            leg_id: None,
        });
        assert(a[7] == RuleActionView::AddCdrEvent {
            event_type: CdrEventType::Answer,
            leg_id: ctx.source_leg_id,
            status_code: Some(200),
            reason: None,
        });
        assert(a[8] == RuleActionView::SetFailureHeaders { headers: Seq::empty() });
    }
}

/// A leg that fails ends, on record with its status and phrase; the backend that
/// routed the call is asked about that leg, and told the status, the phrase and the
/// lines of its final. Nothing is relayed yet.
pub proof fn a_failure_is_put_to_the_backend(
    ctx: RuleContextView,
    resp: SipResponseView,
    cb: Seq<char>,
)
    requires
        ctx.response() == Some(resp),
        ctx.call.callback_context == Some(cb),
    ensures
        handled(Handler::RouteFailure, ctx) is Some,
        ({
            let a = handled(Handler::RouteFailure, ctx)->0.actions;
            &&& a.contains(
                RuleActionView::AddCdrEvent {
                    event_type: CdrEventType::Reject,
                    leg_id: ctx.source_leg_id,
                    status_code: Some(resp.status as i64),
                    reason: Some(resp.reason),
                },
            )
            &&& a.contains(
                RuleActionView::TerminateLeg {
                    leg_id: ctx.source_leg_id,
                    bye_disposition: Some(ByeDisposition::Rejected),
                },
            )
            &&& a.contains(
                RuleActionView::SetFailureHeaders { headers: resp.relayable },
            )
            &&& a.contains(
                RuleActionView::FailureAsyncHttp {
                    request: FailureRequestView {
                        callback_context: cb,
                        origin: FailureOrigin::External,
                        timeout_kind: None,
                        sip_code: Some(resp.status as i64),
                        sip_reason: Some(resp.reason),
                        failed_leg_id: ctx.source_leg_id,
                        sip_headers: told_lines(resp.headers),
                    },
                },
            )
            &&& a.len() == 4
        }),
{
    reveal(handled);
    reveal(route_failed);
    let a = handled(Handler::RouteFailure, ctx)->0.actions;
    assert(a[0] == RuleActionView::AddCdrEvent {
        event_type: CdrEventType::Reject,
        leg_id: ctx.source_leg_id,
        status_code: Some(resp.status as i64),
        reason: Some(resp.reason),
    });
    assert(a[1] == RuleActionView::TerminateLeg {
        leg_id: ctx.source_leg_id,
        bye_disposition: Some(ByeDisposition::Rejected),
    });
    assert(a[2] == RuleActionView::SetFailureHeaders { headers: resp.relayable });
    assert(a[3] == RuleActionView::FailureAsyncHttp {
        request: FailureRequestView {
            callback_context: cb,
            origin: FailureOrigin::External,
            timeout_kind: None,
            sip_code: Some(resp.status as i64),
            sip_reason: Some(resp.reason),
            failed_leg_id: ctx.source_leg_id,
            sip_headers: told_lines(resp.headers),
        },
    });
}

/// A leg that fails where nobody can reroute the call ends it: its failure is
/// relayed as it stands.
pub proof fn a_failure_nobody_reroutes_is_relayed(
    ctx: RuleContextView,
    resp: SipResponseView,
)
    requires
        ctx.response() == Some(resp),
        ctx.call.callback_context is None,
    ensures
        handled(Handler::RouteFailure, ctx) is Some,
        ({
            let a = handled(Handler::RouteFailure, ctx)->0.actions;
            &&& a.contains(
                RuleActionView::AddCdrEvent {
                    event_type: CdrEventType::Reject,
                    leg_id: ctx.source_leg_id,
                    status_code: Some(resp.status as i64),
                    reason: Some(resp.reason),
                },
            )
            &&& a.contains(
                RuleActionView::TerminateLeg {
                    leg_id: ctx.source_leg_id,
                    bye_disposition: Some(ByeDisposition::Rejected),
                },
            )
            &&& a.contains(
                RuleActionView::RelayToPeer {
                    transform: MessageTransformView {
                        status: None,
                        reason: None,
                        drop_body: false,
                        remove_headers: Seq::empty(),
                        add_headers: Seq::empty(),
                    },
                },
            )
            &&& a.contains(
                RuleActionView::TerminateCall,
            )
            &&& a.len() == 4
            &&& comes_before(
                a,
                RuleActionView::RelayToPeer {
                    transform: MessageTransformView {
                        status: None,
                        reason: None,
                        drop_body: false,
                        remove_headers: Seq::empty(),
                        add_headers: Seq::empty(),
                    },
                },
                RuleActionView::TerminateCall,
            )
        }),
{
    reveal(handled);
    reveal(route_failed);
    let a = handled(Handler::RouteFailure, ctx)->0.actions;
    assert(a[0] == RuleActionView::AddCdrEvent {
        event_type: CdrEventType::Reject,
        leg_id: ctx.source_leg_id,
        status_code: Some(resp.status as i64),
        reason: Some(resp.reason),
    });
    assert(a[1] == RuleActionView::TerminateLeg {
        leg_id: ctx.source_leg_id,
        bye_disposition: Some(ByeDisposition::Rejected),
    });
    assert(a[2] == RuleActionView::RelayToPeer {
        transform: MessageTransformView {
            status: None,
            reason: None,
            drop_body: false,
            remove_headers: Seq::empty(),
            add_headers: Seq::empty(),
        },
    });
    assert(a[3] == RuleActionView::TerminateCall);
}

/// The failure that a backend rerouted: its event is the answer, and the call still
/// stands.
pub open spec fn decides(ctx: RuleContextView, payload: Nodes) -> bool {
    ctx.call.state == CallModelState::Active && ctx.event is Internal && ctx.event->payload
        == payload
}

/// A failed call that the backend reroutes gets one more leg: to the destination
/// the decision names, with each of its addresses, its body, its header updates and
/// its ring deadline as the decision states them. The ring of the leg that failed
/// ends.
pub proof fn a_reroute_dials_what_was_decided(
    ctx: RuleContextView,
    payload: Nodes,
    at: Nodes,
    host: Seq<char>,
    port: u16,
)
    requires
        decides(ctx, payload),
        member(payload, "destination"@) == Some(at),
        member_text(at, "host"@) == Some(host),
        stated_port(member(at, "port"@)) == Some(port),
    ensures
        handled(Handler::FailoverCreateLeg, ctx) is Some,
        ({
            let a = handled(Handler::FailoverCreateLeg, ctx)->0.actions;
            let n = a.last()->CreateLeg_leg;
            &&& a.len() > 0
            &&& a.last() is CreateLeg
            &&& forall|i: int| 0 <= i < a.len() - 1 ==> !((#[trigger] a[i]) is CreateLeg)
            &&& n.destination == (HostPortView { host, port })
            &&& n.new_ruri == member_text(payload, "new_ruri"@)
            &&& n.new_from == member_text(payload, "new_from"@)
            &&& n.new_to == member_text(payload, "new_to"@)
            &&& n.callback_context == member_text(payload, "callback_context"@)
            &&& n.header_updates == header_updates(payload)
            &&& n.kind is None
            &&& member_i64(payload, "no_answer_timeout_sec"@) matches Some(secs)
                ==> n.no_answer_timeout_sec == Some(secs as i64)
            &&& member_i64(payload, "no_answer_timeout_sec"@) is None ==> (
            match ctx.event->features {
                Some(f) => n.no_answer_timeout_sec == f.no_answer_timeout_sec,
                None => n.no_answer_timeout_sec is None,
            })
            &&& (match member(payload, "update_body"@) {
                Some(b) => match root(b) {
                    Node::Null => n.body_override is Some && n.body_override->0.len() == 0,
                    Node::Text(s) => n.body_override == Some(vstd::utf8::encode_utf8(s)),
                    _ => n.body_override is None,
                },
                None => n.body_override is None,
            })
            &&& member_text(payload, "failed_leg_id"@) matches Some(failed) ==> (failed.len() > 0
                ==> a.contains(
                RuleActionView::CancelTimer {
                    id: timer_key(TimerTypeView::NoAnswer, Some(failed)),
                },
            ))
            &&& ctx.event->features matches Some(f) ==> a.contains(
                RuleActionView::SetFeatures { features: f },
            ) && a.contains(
                RuleActionView::ScheduleTimer {
                    timer_type: TimerTypeView::GlobalDuration,
                    delay_sec: f.platform.max_duration_sec,
                    leg_id: None,
                },
            )
            &&& ctx.event->subscriptions matches Some(events) ==> a.contains(
                RuleActionView::SetSubscriptions { events },
            )
            &&& limiter_holds(payload) matches Some(h) ==> a.contains(
                RuleActionView::RecordLimiterHolds { entries: h.entries, window: h.window },
            ) && a.contains(
                RuleActionView::ScheduleTimer {
                    timer_type: TimerTypeView::LimiterRefresh,
                    delay_sec: ctx.config.limiter_refresh_sec,
                    leg_id: None,
                },
            )
            &&& service_ext(payload, ctx.config.reserved_ext).len() > 0 ==> a.contains(
                RuleActionView::MergeCallExt {
                    ext: service_ext(payload, ctx.config.reserved_ext),
                },
            )
        }),
{
    reveal(handled);
    reveal(failover_created);
    let a = handled(Handler::FailoverCreateLeg, ctx)->0.actions;
    let f = route_fold(
        payload,
        ctx.event->features,
        ctx.event->subscriptions,
        ctx.config.reserved_ext,
    )->0;
    let failed = tag_or_empty(member_text(payload, "failed_leg_id"@));
    let p0 = if failed.len() > 0 {
        seq![
            RuleActionView::CancelTimer { id: timer_key(TimerTypeView::NoAnswer, Some(failed)) },
        ]
    } else {
        Seq::empty()
    };
    let p1 = feature_actions(f.features);
    let p2 = ext_actions(f.service_ext);
    let p3 = subscription_actions(f.subscriptions);
    let p4 = hold_actions(f.limiter_holds, ctx.config.limiter_refresh_sec);
    let p5 = seq![a.last()];
    assert(a =~= p0 + (p1 + p2 + p3 + p4) + p5);
    assert forall|y: RuleActionView|
        p0.contains(y) || p1.contains(y) || p2.contains(y) || p3.contains(y) || p4.contains(
            y,
        ) implies #[trigger] a.contains(y) by {
        either_holds(p1, p2, y);
        either_holds(p1 + p2, p3, y);
        either_holds(p1 + p2 + p3, p4, y);
        either_holds(p0, p1 + p2 + p3 + p4, y);
        either_holds(p0 + (p1 + p2 + p3 + p4), p5, y);
    }
    if failed.len() > 0 {
        assert(p0.contains(p0[0]));
    }
    if f.features is Some {
        assert(p1.contains(p1[0]));
        assert(p1.contains(p1[1]));
    }
    if f.service_ext.len() > 0 {
        assert(p2.contains(p2[0]));
    }
    if f.subscriptions is Some {
        assert(p3.contains(p3[0]));
    }
    if f.limiter_holds is Some {
        assert(p4.contains(p4[0]));
        assert(p4.contains(p4[1]));
    }
}

/// Where the backend declines to reroute, the caller gets the status and the phrase
/// it states, and the call ends.
pub proof fn a_declined_reroute_relays_the_failure(
    ctx: RuleContextView,
    payload: Nodes,
)
    requires
        decides(ctx, payload),
        member_u64(payload, "status"@) is Some,
    ensures
        handled(Handler::FailoverTerminate, ctx) is Some,
        ({
            let a = handled(Handler::FailoverTerminate, ctx)->0.actions;
            let code = match member_u64(payload, "status"@) {
                Some(n) => (n % 0x10000) as u16,
                None => 0u16,
            };
            let phrase = match member_text(payload, "reason"@) {
                Some(t) => t,
                None => "Server Internal Error"@,
            };
            &&& a.contains(
                RuleActionView::RelayFailureToALeg { status: code, reason: phrase },
            )
            &&& a.contains(
                RuleActionView::BeginTermination { reason: Some("failover-declined"@) },
            )
            &&& a.len() == 2
            &&& comes_before(
                a,
                RuleActionView::RelayFailureToALeg { status: code, reason: phrase },
                RuleActionView::BeginTermination { reason: Some("failover-declined"@) },
            )
        }),
{
    reveal(handled);
    reveal(failover_declined);
    let a = handled(Handler::FailoverTerminate, ctx)->0.actions;
    let code = match member_u64(payload, "status"@) {
        Some(n) => (n % 0x10000) as u16,
        None => 0u16,
    };
    let phrase = match member_text(payload, "reason"@) {
        Some(t) => t,
        None => "Server Internal Error"@,
    };
    assert(a[0] == RuleActionView::RelayFailureToALeg { status: code, reason: phrase });
    assert(a[1] == RuleActionView::BeginTermination { reason: Some("failover-declined"@) });
}

/// Where the backend declines and states no status, the call just ends.
pub proof fn a_declined_reroute_without_a_status_just_ends(
    ctx: RuleContextView,
    payload: Nodes,
)
    requires
        decides(ctx, payload),
        member_u64(payload, "status"@) is None,
    ensures
        handled(Handler::FailoverTerminate, ctx) is Some,
        ({
            let a = handled(Handler::FailoverTerminate, ctx)->0.actions;
            &&& a.contains(
                RuleActionView::BeginTermination { reason: Some("failover-declined"@) },
            )
            &&& a.len() == 1
        }),
{
    reveal(handled);
    reveal(failover_declined);
    let a = handled(Handler::FailoverTerminate, ctx)->0.actions;
    assert(a[0] == RuleActionView::BeginTermination { reason: Some("failover-declined"@) });
}

/// A reject the backend authors is the final the caller gets, and the call ends.
pub proof fn an_authored_reject_reaches_the_caller(
    ctx: RuleContextView,
    payload: Nodes,
)
    requires
        decides(ctx, payload),
    ensures
        handled(Handler::FailoverReject, ctx) is Some,
        ({
            let a = handled(Handler::FailoverReject, ctx)->0.actions;
            let code = match member_u64(payload, "code"@) {
                Some(n) => (n % 0x10000) as u16,
                None => 500u16,
            };
            let phrase = match member_text(payload, "reason"@) {
                Some(t) => t,
                None => "Declined"@,
            };
            &&& a.contains(
                RuleActionView::RespondToALeg {
                    authored: AuthoredFinalView {
                        status: code,
                        reason: phrase,
                        header_updates: header_updates(payload),
                        contacts: Seq::empty(),
                    },
                },
            )
            &&& a.contains(
                RuleActionView::BeginTermination { reason: Some("failover-reject"@) },
            )
            &&& a.len() == 2
            &&& comes_before(
                a,
                RuleActionView::RespondToALeg {
                    authored: AuthoredFinalView {
                        status: code,
                        reason: phrase,
                        header_updates: header_updates(payload),
                        contacts: Seq::empty(),
                    },
                },
                RuleActionView::BeginTermination { reason: Some("failover-reject"@) },
            )
        }),
{
    reveal(handled);
    reveal(failover_rejected);
    let a = handled(Handler::FailoverReject, ctx)->0.actions;
    let code = match member_u64(payload, "code"@) {
        Some(n) => (n % 0x10000) as u16,
        None => 500u16,
    };
    let phrase = match member_text(payload, "reason"@) {
        Some(t) => t,
        None => "Declined"@,
    };
    assert(a[0] == RuleActionView::RespondToALeg {
        authored: AuthoredFinalView {
            status: code,
            reason: phrase,
            header_updates: header_updates(payload),
            contacts: Seq::empty(),
        },
    });
    assert(a[1] == RuleActionView::BeginTermination { reason: Some("failover-reject"@) });
}

/// A redirect the backend authors is the final the caller gets, with every target it
/// states, and the call ends.
pub proof fn an_authored_redirect_reaches_the_caller(
    ctx: RuleContextView,
    payload: Nodes,
)
    requires
        decides(ctx, payload),
    ensures
        handled(Handler::FailoverRedirect, ctx) is Some,
        ({
            let a = handled(Handler::FailoverRedirect, ctx)->0.actions;
            let code = match member_u64(payload, "code"@) {
                Some(n) => (n % 0x10000) as u16,
                None => 302u16,
            };
            let phrase = match member_text(payload, "reason"@) {
                Some(t) => t,
                None => "Moved Temporarily"@,
            };
            &&& a.contains(
                RuleActionView::RespondToALeg {
                    authored: AuthoredFinalView {
                        status: code,
                        reason: phrase,
                        header_updates: header_updates(payload),
                        contacts: redirect_contacts(payload),
                    },
                },
            )
            &&& a.contains(
                RuleActionView::BeginTermination { reason: Some("failover-redirect"@) },
            )
            &&& a.len() == 2
            &&& comes_before(
                a,
                RuleActionView::RespondToALeg {
                    authored: AuthoredFinalView {
                        status: code,
                        reason: phrase,
                        header_updates: header_updates(payload),
                        contacts: redirect_contacts(payload),
                    },
                },
                RuleActionView::BeginTermination { reason: Some("failover-redirect"@) },
            )
        }),
{
    reveal(handled);
    reveal(failover_redirected);
    let a = handled(Handler::FailoverRedirect, ctx)->0.actions;
    let code = match member_u64(payload, "code"@) {
        Some(n) => (n % 0x10000) as u16,
        None => 302u16,
    };
    let phrase = match member_text(payload, "reason"@) {
        Some(t) => t,
        None => "Moved Temporarily"@,
    };
    assert(a[0] == RuleActionView::RespondToALeg {
        authored: AuthoredFinalView {
            status: code,
            reason: phrase,
            header_updates: header_updates(payload),
            contacts: redirect_contacts(payload),
        },
    });
    assert(a[1] == RuleActionView::BeginTermination { reason: Some("failover-redirect"@) });
}

/// A decision about a call that is going away does nothing.
pub proof fn a_late_decision_does_nothing(ctx: RuleContextView, h: Handler)
    requires
        ctx.call.state != CallModelState::Active,
        h is FailoverCreateLeg || h is FailoverTerminate || h is FailoverReject
            || h is FailoverRedirect,
    ensures
        handled(h, ctx) is Some,
        handled(h, ctx)->0.actions.len() == 0,
{
    reveal(handled);
    reveal(failover_created);
    reveal(failover_declined);
    reveal(failover_rejected);
    reveal(failover_redirected);
}

/// A peer that denies the dialog ends its leg without a further word to it, and the
/// call.
pub proof fn a_denied_dialog_ends_the_call(
    ctx: RuleContextView,
)
    ensures
        handled(Handler::DialogDenied, ctx) is Some,
        ({
            let a = handled(Handler::DialogDenied, ctx)->0.actions;
            &&& a.contains(
                RuleActionView::TerminateLeg {
                    leg_id: ctx.source_leg_id,
                    bye_disposition: Some(ByeDisposition::ByeTimeout),
                },
            )
            &&& a.contains(
                RuleActionView::AddCdrEvent {
                    event_type: CdrEventType::Bye,
                    leg_id: ctx.source_leg_id,
                    status_code: Some(481),
                    reason: Some("Call/Transaction Does Not Exist"@),
                },
            )
            &&& a.contains(
                RuleActionView::BeginTermination { reason: Some("481"@) },
            )
            &&& a.len() == 3
            &&& comes_before(
                a,
                RuleActionView::TerminateLeg {
                    leg_id: ctx.source_leg_id,
                    bye_disposition: Some(ByeDisposition::ByeTimeout),
                },
                RuleActionView::BeginTermination { reason: Some("481"@) },
            )
        }),
{
    reveal(handled);
    reveal(dialog_denied);
    let a = handled(Handler::DialogDenied, ctx)->0.actions;
    assert(a[0] == RuleActionView::TerminateLeg {
        leg_id: ctx.source_leg_id,
        bye_disposition: Some(ByeDisposition::ByeTimeout),
    });
    assert(a[1] == RuleActionView::AddCdrEvent {
        event_type: CdrEventType::Bye,
        leg_id: ctx.source_leg_id,
        status_code: Some(481),
        reason: Some("Call/Transaction Does Not Exist"@),
    });
    assert(a[2] == RuleActionView::BeginTermination { reason: Some("481"@) });
}

/// A BYE on a call that is ending is answered, and its leg is done.
pub proof fn a_crossing_bye_is_answered(
    ctx: RuleContextView,
)
    ensures
        handled(Handler::CrossBye, ctx) is Some,
        ({
            let a = handled(Handler::CrossBye, ctx)->0.actions;
            &&& a.contains(
                RuleActionView::Respond {
                    status: 200,
                    reason: "OK"@,
                    body: Seq::empty(),
                    content_type: None,
                },
            )
            &&& a.contains(
                RuleActionView::TerminateLeg {
                    leg_id: ctx.source_leg_id,
                    bye_disposition: Some(ByeDisposition::ByeReceived),
                },
            )
            &&& a.len() == 2
        }),
{
    reveal(handled);
    reveal(bye_crossed);
    let a = handled(Handler::CrossBye, ctx)->0.actions;
    assert(a[0] == RuleActionView::Respond {
        status: 200,
        reason: "OK"@,
        body: Seq::empty(),
        content_type: None,
    });
    assert(a[1] == RuleActionView::TerminateLeg {
        leg_id: ctx.source_leg_id,
        bye_disposition: Some(ByeDisposition::ByeReceived),
    });
}

/// A BYE is answered here, ends its own leg, is recorded, and ends the call.
pub proof fn a_bye_ends_the_call(
    ctx: RuleContextView,
)
    ensures
        handled(Handler::RelayBye, ctx) is Some,
        ({
            let a = handled(Handler::RelayBye, ctx)->0.actions;
            &&& a.contains(
                RuleActionView::Respond {
                    status: 200,
                    reason: "OK"@,
                    body: Seq::empty(),
                    content_type: None,
                },
            )
            &&& a.contains(
                RuleActionView::TerminateLeg {
                    leg_id: ctx.source_leg_id,
                    bye_disposition: Some(ByeDisposition::ByeReceived),
                },
            )
            &&& a.contains(
                RuleActionView::AddCdrEvent {
                    event_type: CdrEventType::Bye,
                    leg_id: ctx.source_leg_id,
                    status_code: None,
                    reason: None,
                },
            )
            &&& a.contains(
                RuleActionView::BeginTermination { reason: Some("BYE"@) },
            )
            &&& a.len() == 4
            &&& comes_before(
                a,
                RuleActionView::TerminateLeg {
                    leg_id: ctx.source_leg_id,
                    bye_disposition: Some(ByeDisposition::ByeReceived),
                },
                RuleActionView::BeginTermination { reason: Some("BYE"@) },
            )
        }),
{
    reveal(handled);
    reveal(bye_relayed);
    let a = handled(Handler::RelayBye, ctx)->0.actions;
    assert(a[0] == RuleActionView::Respond {
        status: 200,
        reason: "OK"@,
        body: Seq::empty(),
        content_type: None,
    });
    assert(a[1] == RuleActionView::TerminateLeg {
        leg_id: ctx.source_leg_id,
        bye_disposition: Some(ByeDisposition::ByeReceived),
    });
    assert(a[2] == RuleActionView::AddCdrEvent {
        event_type: CdrEventType::Bye,
        leg_id: ctx.source_leg_id,
        status_code: None,
        reason: None,
    });
    assert(a[3] == RuleActionView::BeginTermination { reason: Some("BYE"@) });
}

/// A PRACK whose `RAck` names a provisional this stack showed is relayed; one that
/// names nothing shown is refused, and so is one that does not read where this stack
/// numbers provisionals on that leg.
pub proof fn a_prack_is_relayed_where_it_names_what_was_shown(
    ctx: RuleContextView,
    req: SipRequestView,
)
    requires
        ctx.request() == Some(req),
    ensures
        handled(Handler::RelayPrack, ctx) is Some,
        ({
            let a = handled(Handler::RelayPrack, ctx)->0.actions;
            let named = match header_value(req.headers, "RAck"@) {
                Some(t) => rack_tokens(t),
                None => None,
            };
            let tag = if req.to_tag is Some {
                req.to_tag->0
            } else {
                Seq::empty()
            };
            &&& a.len() == 1
            &&& named matches Some(t) ==> (if names_nothing(ctx.call, ctx.source_leg_id, tag, t) {
                a[0] == (RuleActionView::Respond {
                    status: 481,
                    reason: "Call/Transaction Does Not Exist"@,
                    body: Seq::empty(),
                    content_type: None,
                })
            } else {
                a[0] == (RuleActionView::RelayToPeer { transform: as_it_stands() })
            })
            &&& named is None ==> (if numbers_on(ctx.call, ctx.source_leg_id) {
                a[0] == (RuleActionView::Respond {
                    status: 400,
                    reason: "Bad Request"@,
                    body: Seq::empty(),
                    content_type: None,
                })
            } else {
                a[0] == (RuleActionView::RelayToPeer { transform: as_it_stands() })
            })
        }),
{
    reveal(handled);
    reveal(prack_relayed);
}

/// A message relayed with nothing changed.
pub open spec fn as_it_stands() -> MessageTransformView {
    MessageTransformView {
        status: None,
        reason: None,
        drop_body: false,
        remove_headers: Seq::empty(),
        add_headers: Seq::empty(),
    }
}

/// A CANCEL of a re-INVITE cancels the one that was relayed under the number it
/// names, where that one still is pending, and no other; the call stands.
pub proof fn a_cancelled_reinvite_is_cancelled_alone(ctx: RuleContextView, cseq: i64)
    requires
        ctx.event is Cancelled,
        ctx.event->invite_cseq == Some(cseq),
    ensures
        handled(Handler::ReinviteCancel, ctx) is Some,
        ({
            let a = handled(Handler::ReinviteCancel, ctx)->0.actions;
            &&& a.len() == 0 || a.len() == 2
            &&& a.len() == 2 ==> {
                &&& a[0] is CancelPendingReinvite
                &&& a[1] == (RuleActionView::AddCdrEvent {
                    event_type: CdrEventType::Cancel,
                    leg_id: a[0]->CancelPendingReinvite_leg_id,
                    status_code: None,
                    reason: Some("reinvite_cancelled"@),
                })
                &&& exists|i: int, j: int|
                    #![trigger ctx.call.legs()[i].dialogs[j]]
                    0 <= i < ctx.call.legs().len() && 0 <= j < ctx.call.legs()[i].dialogs.len() && {
                        let l = ctx.call.legs()[i];
                        &&& l.leg_id == a[0]->CancelPendingReinvite_leg_id
                        &&& pending_as(
                            l.dialogs[j],
                            cseq,
                            a[0]->CancelPendingReinvite_outbound_cseq,
                        )
                    }
            }
        }),
{
    reveal(handled);
    reveal(reinvite_cancelled);
    let all = leg_invites(ctx.call.legs());
    first_where_found(all, came_under(cseq));
    if let Some(k) = first_where(all, came_under(cseq)) {
        every_pending_invite_stands_on_a_leg(ctx.call.legs(), k);
        let (i, j, p) = choose|i: int, j: int, p: PendingRequestView|
            #![trigger stands_pending(ctx.call.legs(), i, j, p)]
            stands_pending(ctx.call.legs(), i, j, p) && all[k] == (ctx.call.legs()[i].leg_id, p);
        let d = ctx.call.legs()[i].dialogs[j];
        assert(pending_as(d, cseq, p.outbound_cseq));
    }
}

/// A relayed INVITE that came under that number is pending on the dialog under the
/// other, and was not cancelled.
pub open spec fn pending_as(d: DialogView, inbound: i64, outbound: i64) -> bool {
    exists|m: int|
        0 <= m < d.ext.inbound_pending_requests.len() && {
            let p = #[trigger] d.ext.inbound_pending_requests[m];
            p.method == MethodView::Invite && !p.cancelled && p.inbound_cseq == inbound
                && p.outbound_cseq == outbound
        }
}

pub open spec fn stands_pending(
    ls: Seq<LegView>,
    i: int,
    j: int,
    p: PendingRequestView,
) -> bool {
    &&& 0 <= i < ls.len()
    &&& 0 <= j < ls[i].dialogs.len()
    &&& ls[i].dialogs[j].ext.inbound_pending_requests.contains(p)
    &&& p.method == MethodView::Invite
    &&& !p.cancelled
}

proof fn every_pending_invite_stands_on_a_leg(ls: Seq<LegView>, k: int)
    requires
        0 <= k < leg_invites(ls).len(),
    ensures
        exists|i: int, j: int, p: PendingRequestView|
            #![trigger stands_pending(ls, i, j, p)]
            stands_pending(ls, i, j, p) && leg_invites(ls)[k] == (ls[i].leg_id, p),
    decreases ls.len(),
{
    if ls.len() > 0 {
        let t = ls.drop_last();
        let n = leg_invites(t).len();
        if k < n {
            every_pending_invite_stands_on_a_leg(t, k);
            let (i, j, p) = choose|i: int, j: int, p: PendingRequestView|
                #![trigger stands_pending(t, i, j, p)]
                stands_pending(t, i, j, p) && leg_invites(t)[k] == (t[i].leg_id, p);
            assert(ls[i] == t[i]);
            assert(stands_pending(ls, i, j, p));
        } else {
            let l = ls.last();
            every_pending_invite_stands_on_a_dialog(l.leg_id, l.dialogs, k - n);
            let (j, p) = choose|j: int, p: PendingRequestView|
                #![trigger l.dialogs[j].ext.inbound_pending_requests.contains(p)]
                0 <= j < l.dialogs.len() && l.dialogs[j].ext.inbound_pending_requests.contains(p)
                    && p.method == MethodView::Invite && !p.cancelled && dialog_invites(
                    l.leg_id,
                    l.dialogs,
                )[k - n] == (l.leg_id, p);
            assert(ls[ls.len() - 1] == l);
            assert(stands_pending(ls, ls.len() - 1, j, p));
        }
    }
}

proof fn every_pending_invite_stands_on_a_dialog(
    leg_id: Seq<char>,
    ds: Seq<DialogView>,
    k: int,
)
    requires
        0 <= k < dialog_invites(leg_id, ds).len(),
    ensures
        exists|j: int, p: PendingRequestView|
            #![trigger ds[j].ext.inbound_pending_requests.contains(p)]
            0 <= j < ds.len() && ds[j].ext.inbound_pending_requests.contains(p) && p.method
                == MethodView::Invite && !p.cancelled && dialog_invites(leg_id, ds)[k] == (
                leg_id,
                p,
            ),
    decreases ds.len(),
{
    if ds.len() > 0 {
        let t = ds.drop_last();
        let n = dialog_invites(leg_id, t).len();
        if k < n {
            every_pending_invite_stands_on_a_dialog(leg_id, t, k);
            let (j, p) = choose|j: int, p: PendingRequestView|
                #![trigger t[j].ext.inbound_pending_requests.contains(p)]
                0 <= j < t.len() && t[j].ext.inbound_pending_requests.contains(p) && p.method
                    == MethodView::Invite && !p.cancelled && dialog_invites(leg_id, t)[k] == (
                    leg_id,
                    p,
                );
            assert(ds[j] == t[j]);
            assert(ds[j].ext.inbound_pending_requests.contains(p));
        } else {
            let d = ds.last();
            let kept = keep(d.ext.inbound_pending_requests, is_live_invite());
            keep_sound(d.ext.inbound_pending_requests, is_live_invite());
            let p = kept[k - n];
            assert(is_live_invite()(p));
            assert(ds[ds.len() - 1] == d);
            assert(ds[ds.len() - 1].ext.inbound_pending_requests.contains(p));
        }
    }
}

/// A caller that cancels its call has every leg of the callee's told: one that rings
/// is cancelled, one that answered destroyed, and one that ended left alone; it is
/// recorded, and the call ends.
pub proof fn a_cancelled_call_ends_on_every_leg(ctx: RuleContextView, i: int)
    requires
        0 <= i < ctx.call.b_legs.len(),
    ensures
        handled(Handler::CallCancel, ctx) is Some,
        ({
            let a = handled(Handler::CallCancel, ctx)->0.actions;
            let l = ctx.call.b_legs[i];
            &&& l.state == LegState::Confirmed ==> a.contains(
                RuleActionView::DestroyLeg { leg_id: l.leg_id },
            )
            &&& l.state == LegState::Trying || l.state == LegState::Early ==> a.contains(
                RuleActionView::CancelLeg { leg_id: l.leg_id },
            )
            &&& a.len() >= 2
            &&& a[a.len() - 2] == (RuleActionView::AddCdrEvent {
                event_type: CdrEventType::Cancel,
                leg_id: ctx.call.a_leg.leg_id,
                status_code: None,
                reason: None,
            })
            &&& a.last() == (RuleActionView::BeginTermination { reason: Some("CANCEL"@) })
            &&& forall|k: int|
                0 <= k < a.len() - 2 ==> (#[trigger] a[k]) is CancelLeg || a[k] is DestroyLeg
        }),
{
    reveal(handled);
    reveal(call_cancelled);
    let ls = ctx.call.b_legs;
    let a = handled(Handler::CallCancel, ctx)->0.actions;
    let p = legs_cancelled(ls);
    let q = seq![a[a.len() - 2], a.last()];
    assert(a =~= p + q);
    each_leg_is_told(ls, i);
    told_by_their_state(ls);
    either_holds(p, q, RuleActionView::DestroyLeg { leg_id: ls[i].leg_id });
    either_holds(p, q, RuleActionView::CancelLeg { leg_id: ls[i].leg_id });
}

proof fn each_leg_is_told(ls: Seq<LegView>, i: int)
    requires
        0 <= i < ls.len(),
    ensures
        ls[i].state == LegState::Confirmed ==> legs_cancelled(ls).contains(
            RuleActionView::DestroyLeg { leg_id: ls[i].leg_id },
        ),
        ls[i].state == LegState::Trying || ls[i].state == LegState::Early ==> legs_cancelled(
            ls,
        ).contains(RuleActionView::CancelLeg { leg_id: ls[i].leg_id }),
    decreases ls.len(),
{
    let t = ls.drop_last();
    let y = if ls[i].state == LegState::Confirmed {
        RuleActionView::DestroyLeg { leg_id: ls[i].leg_id }
    } else {
        RuleActionView::CancelLeg { leg_id: ls[i].leg_id }
    };
    either_holds(legs_cancelled(t), leg_cancelled(ls.last()), y);
    if i < t.len() {
        each_leg_is_told(t, i);
    } else if ls[i].state != LegState::Terminated {
        assert(leg_cancelled(ls.last())[0] == y);
    }
}

proof fn told_by_their_state(ls: Seq<LegView>)
    ensures
        forall|k: int|
            0 <= k < legs_cancelled(ls).len() ==> (#[trigger] legs_cancelled(ls)[k]) is CancelLeg
                || legs_cancelled(ls)[k] is DestroyLeg,
    decreases ls.len(),
{
    if ls.len() > 0 {
        told_by_their_state(ls.drop_last());
    }
}

/// A transaction that times out on a leg that is going away ends that leg.
pub proof fn a_timeout_on_a_leg_going_away_ends_it(
    ctx: RuleContextView,
    l: LegView,
)
    requires
        ctx.source_leg() == Some(l),
        going_away(ctx.call.state, l),
    ensures
        handled(Handler::TransactionTimeout, ctx) is Some,
        ({
            let a = handled(Handler::TransactionTimeout, ctx)->0.actions;
            &&& l.bye_disposition == Some(ByeDisposition::ByeSent) ==> a.contains(
                RuleActionView::TerminateLeg {
                    leg_id: ctx.source_leg_id,
                    bye_disposition: Some(ByeDisposition::ByeTimeout),
                },
            )
            &&& l.bye_disposition != Some(ByeDisposition::ByeSent) ==> a.contains(
                RuleActionView::TerminateLeg {
                    leg_id: ctx.source_leg_id,
                    bye_disposition: Some(ByeDisposition::Cancelled),
                },
            )
            &&& a.len() == 0 + if l.bye_disposition == Some(ByeDisposition::ByeSent) {
                1int
            } else {
                0int
            } + if l.bye_disposition != Some(ByeDisposition::ByeSent) {
                1int
            } else {
                0int
            }
        }),
{
    reveal(handled);
    reveal(transaction_timed_out);
    let a = handled(Handler::TransactionTimeout, ctx)->0.actions;
    if l.bye_disposition == Some(ByeDisposition::ByeSent) {
        if l.bye_disposition != Some(ByeDisposition::ByeSent) {
            assert(a[0] == RuleActionView::TerminateLeg {
                leg_id: ctx.source_leg_id,
                bye_disposition: Some(ByeDisposition::ByeTimeout),
            });
            assert(a[1] == RuleActionView::TerminateLeg {
                leg_id: ctx.source_leg_id,
                bye_disposition: Some(ByeDisposition::Cancelled),
            });
        } else {
            assert(a[0] == RuleActionView::TerminateLeg {
                leg_id: ctx.source_leg_id,
                bye_disposition: Some(ByeDisposition::ByeTimeout),
            });
        }
    } else {
        if l.bye_disposition != Some(ByeDisposition::ByeSent) {
            assert(a[0] == RuleActionView::TerminateLeg {
                leg_id: ctx.source_leg_id,
                bye_disposition: Some(ByeDisposition::Cancelled),
            });
        } else {
        }
    }
}

/// An INVITE that draws no answer gives its leg up, and the backend is asked about
/// it.
pub proof fn a_ringing_leg_that_times_out_is_put_to_the_backend(
    ctx: RuleContextView,
    l: LegView,
    cb: Seq<char>,
    kind: Option<TimeoutKind>,
)
    requires
        ctx.source_leg() == Some(l),
        !going_away(ctx.call.state, l),
        ctx.event == (CallEventView::Timeout { method: Some(MethodView::Invite), kind }),
        l.leg_id != ctx.call.a_leg.leg_id,
        l.state == LegState::Trying || l.state == LegState::Early,
        ctx.call.callback_context == Some(cb),
    ensures
        handled(Handler::TransactionTimeout, ctx) is Some,
        ({
            let a = handled(Handler::TransactionTimeout, ctx)->0.actions;
            &&& a.contains(
                RuleActionView::AddCdrEvent {
                    event_type: CdrEventType::Timeout,
                    leg_id: ctx.source_leg_id,
                    status_code: None,
                    reason: Some("transaction_timeout"@),
                },
            )
            &&& a.contains(
                RuleActionView::DestroyLeg { leg_id: ctx.source_leg_id },
            )
            &&& a.contains(
                RuleActionView::SetFailureHeaders { headers: Seq::empty() },
            )
            &&& a.contains(
                RuleActionView::FailureAsyncHttp {
                    request: FailureRequestView {
                        callback_context: cb,
                        origin: FailureOrigin::TransactionTimeout,
                        timeout_kind: Some(
                            if kind == Some(TimeoutKind::Response) { TimeoutKind::Response } else { TimeoutKind::Transaction },
                        ),
                        sip_code: None,
                        sip_reason: None,
                        failed_leg_id: ctx.source_leg_id,
                        sip_headers: Seq::empty(),
                    },
                },
            )
            &&& a.len() == 4
        }),
{
    reveal(handled);
    reveal(transaction_timed_out);
    let a = handled(Handler::TransactionTimeout, ctx)->0.actions;
    assert(a[0] == RuleActionView::AddCdrEvent {
        event_type: CdrEventType::Timeout,
        leg_id: ctx.source_leg_id,
        status_code: None,
        reason: Some("transaction_timeout"@),
    });
    assert(a[1] == RuleActionView::DestroyLeg { leg_id: ctx.source_leg_id });
    assert(a[2] == RuleActionView::SetFailureHeaders { headers: Seq::empty() });
    assert(a[3] == RuleActionView::FailureAsyncHttp {
        request: FailureRequestView {
            callback_context: cb,
            origin: FailureOrigin::TransactionTimeout,
            timeout_kind: Some(
                if kind == Some(TimeoutKind::Response) { TimeoutKind::Response } else { TimeoutKind::Transaction },
            ),
            sip_code: None,
            sip_reason: None,
            failed_leg_id: ctx.source_leg_id,
            sip_headers: Seq::empty(),
        },
    });
}

/// Any other transaction that times out ends the call.
pub proof fn any_other_timeout_ends_the_call(
    ctx: RuleContextView,
    l: LegView,
)
    requires
        ctx.source_leg() == Some(l),
        !going_away(ctx.call.state, l),
        l.state == LegState::Confirmed,
    ensures
        handled(Handler::TransactionTimeout, ctx) is Some,
        ({
            let a = handled(Handler::TransactionTimeout, ctx)->0.actions;
            &&& a.contains(
                RuleActionView::BeginTermination { reason: Some("timeout"@) },
            )
            &&& a.len() == 1
        }),
{
    reveal(handled);
    reveal(transaction_timed_out);
    let a = handled(Handler::TransactionTimeout, ctx)->0.actions;
    assert(a[0] == RuleActionView::BeginTermination { reason: Some("timeout"@) });
}

/// A leg that rings past its deadline is given up, and the backend asked about it.
pub proof fn a_ring_deadline_gives_the_leg_up(
    ctx: RuleContextView,
    l: LegView,
    cb: Seq<char>,
)
    requires
        ctx.source_leg() == Some(l),
        l.state != LegState::Confirmed,
        ctx.call.a_leg.state != LegState::Confirmed,
        !going_away(ctx.call.state, l),
        ctx.call.callback_context == Some(cb),
    ensures
        handled(Handler::NoAnswer, ctx) is Some,
        ({
            let a = handled(Handler::NoAnswer, ctx)->0.actions;
            &&& a.contains(
                RuleActionView::AddCdrEvent {
                    event_type: CdrEventType::Timeout,
                    leg_id: ctx.source_leg_id,
                    status_code: None,
                    reason: Some("no_answer_timeout"@),
                },
            )
            &&& a.contains(
                RuleActionView::DestroyLeg { leg_id: ctx.source_leg_id },
            )
            &&& a.contains(
                RuleActionView::SetFailureHeaders { headers: Seq::empty() },
            )
            &&& a.contains(
                RuleActionView::FailureAsyncHttp {
                    request: FailureRequestView {
                        callback_context: cb,
                        origin: FailureOrigin::NoAnswerTimeout,
                        timeout_kind: None,
                        sip_code: None,
                        sip_reason: None,
                        failed_leg_id: ctx.source_leg_id,
                        sip_headers: Seq::empty(),
                    },
                },
            )
            &&& a.len() == 4
        }),
{
    reveal(handled);
    reveal(no_answer);
    let a = handled(Handler::NoAnswer, ctx)->0.actions;
    assert(a[0] == RuleActionView::AddCdrEvent {
        event_type: CdrEventType::Timeout,
        leg_id: ctx.source_leg_id,
        status_code: None,
        reason: Some("no_answer_timeout"@),
    });
    assert(a[1] == RuleActionView::DestroyLeg { leg_id: ctx.source_leg_id });
    assert(a[2] == RuleActionView::SetFailureHeaders { headers: Seq::empty() });
    assert(a[3] == RuleActionView::FailureAsyncHttp {
        request: FailureRequestView {
            callback_context: cb,
            origin: FailureOrigin::NoAnswerTimeout,
            timeout_kind: None,
            sip_code: None,
            sip_reason: None,
            failed_leg_id: ctx.source_leg_id,
            sip_headers: Seq::empty(),
        },
    });
}

/// Where nobody can reroute the call, it ends.
pub proof fn a_ring_deadline_nobody_reroutes_ends_the_call(
    ctx: RuleContextView,
    l: LegView,
)
    requires
        ctx.source_leg() == Some(l),
        l.state != LegState::Confirmed,
        ctx.call.a_leg.state != LegState::Confirmed,
        !going_away(ctx.call.state, l),
        ctx.call.callback_context is None,
    ensures
        handled(Handler::NoAnswer, ctx) is Some,
        ({
            let a = handled(Handler::NoAnswer, ctx)->0.actions;
            &&& a.contains(
                RuleActionView::AddCdrEvent {
                    event_type: CdrEventType::Timeout,
                    leg_id: ctx.source_leg_id,
                    status_code: None,
                    reason: Some("no_answer_timeout"@),
                },
            )
            &&& a.contains(
                RuleActionView::DestroyLeg { leg_id: ctx.source_leg_id },
            )
            &&& a.contains(
                RuleActionView::BeginTermination { reason: Some("no-answer"@) },
            )
            &&& a.len() == 3
        }),
{
    reveal(handled);
    reveal(no_answer);
    let a = handled(Handler::NoAnswer, ctx)->0.actions;
    assert(a[0] == RuleActionView::AddCdrEvent {
        event_type: CdrEventType::Timeout,
        leg_id: ctx.source_leg_id,
        status_code: None,
        reason: Some("no_answer_timeout"@),
    });
    assert(a[1] == RuleActionView::DestroyLeg { leg_id: ctx.source_leg_id });
    assert(a[2] == RuleActionView::BeginTermination { reason: Some("no-answer"@) });
}

/// A ring deadline nobody waits for any more only leaves the ledger.
pub proof fn a_spent_ring_deadline_only_leaves(
    ctx: RuleContextView,
)
    requires
        ctx.call.a_leg.state == LegState::Confirmed || (ctx.source_leg() matches Some(l) && l.state == LegState::Confirmed),
    ensures
        handled(Handler::NoAnswer, ctx) is Some,
        ({
            let a = handled(Handler::NoAnswer, ctx)->0.actions;
            &&& a.contains(
                RuleActionView::CancelTimer {
                    id: timer_key(TimerTypeView::NoAnswer, Some(ctx.source_leg_id)),
                },
            )
            &&& a.len() == 1
        }),
{
    reveal(handled);
    reveal(no_answer);
    let a = handled(Handler::NoAnswer, ctx)->0.actions;
    assert(a[0] == RuleActionView::CancelTimer {
        id: timer_key(TimerTypeView::NoAnswer, Some(ctx.source_leg_id)),
    });
}

/// A caller that waits too long is answered 408, and the call ends.
pub proof fn a_setup_that_takes_too_long_is_answered(
    ctx: RuleContextView,
)
    requires
        ctx.call.state == CallModelState::Active,
        ctx.call.a_leg.state != LegState::Confirmed,
        forall|i: int| 0 <= i < ctx.call.b_legs.len() ==> (#[trigger] ctx.call.b_legs[i]).state != LegState::Confirmed,
    ensures
        handled(Handler::SetupTimeout, ctx) is Some,
        ({
            let a = handled(Handler::SetupTimeout, ctx)->0.actions;
            &&& a.contains(
                RuleActionView::AddCdrEvent {
                    event_type: CdrEventType::Timeout,
                    leg_id: ctx.call.a_leg.leg_id,
                    status_code: Some(408),
                    reason: Some("setup_timeout"@),
                },
            )
            &&& a.contains(
                RuleActionView::RespondToALeg {
                    authored: AuthoredFinalView {
                        status: 408,
                        reason: "Request Timeout"@,
                        header_updates: Seq::empty(),
                        contacts: Seq::empty(),
                    },
                },
            )
            &&& a.contains(
                RuleActionView::BeginTermination { reason: Some("setup-timeout"@) },
            )
            &&& a.len() == 3
            &&& comes_before(
                a,
                RuleActionView::RespondToALeg {
                    authored: AuthoredFinalView {
                        status: 408,
                        reason: "Request Timeout"@,
                        header_updates: Seq::empty(),
                        contacts: Seq::empty(),
                    },
                },
                RuleActionView::BeginTermination { reason: Some("setup-timeout"@) },
            )
        }),
{
    reveal(handled);
    reveal(setup_timed_out);
    let a = handled(Handler::SetupTimeout, ctx)->0.actions;
    assert(a[0] == RuleActionView::AddCdrEvent {
        event_type: CdrEventType::Timeout,
        leg_id: ctx.call.a_leg.leg_id,
        status_code: Some(408),
        reason: Some("setup_timeout"@),
    });
    assert(a[1] == RuleActionView::RespondToALeg {
        authored: AuthoredFinalView {
            status: 408,
            reason: "Request Timeout"@,
            header_updates: Seq::empty(),
            contacts: Seq::empty(),
        },
    });
    assert(a[2] == RuleActionView::BeginTermination { reason: Some("setup-timeout"@) });
}

/// The setup deadline of a call that was answered only leaves the ledger.
pub proof fn a_spent_setup_deadline_only_leaves(
    ctx: RuleContextView,
)
    requires
        ctx.call.a_leg.state == LegState::Confirmed,
    ensures
        handled(Handler::SetupTimeout, ctx) is Some,
        ({
            let a = handled(Handler::SetupTimeout, ctx)->0.actions;
            &&& a.contains(
                RuleActionView::CancelTimer { id: timer_key(TimerTypeView::SetupTimeout, None) },
            )
            &&& a.len() == 1
        }),
{
    reveal(handled);
    reveal(setup_timed_out);
    let a = handled(Handler::SetupTimeout, ctx)->0.actions;
    assert(a[0] == RuleActionView::CancelTimer {
        id: timer_key(TimerTypeView::SetupTimeout, None),
    });
}

/// A call that reaches its ceiling ends, where its backend did not ask to be asked.
pub proof fn a_call_that_lasts_too_long_ends(
    ctx: RuleContextView,
)
    requires
        ctx.call.state == CallModelState::Active,
        !ctx.call.subscriptions.contains(ReleaseEventKind::MaxCallDuration),
    ensures
        handled(Handler::MaxDuration, ctx) is Some,
        ({
            let a = handled(Handler::MaxDuration, ctx)->0.actions;
            &&& a.contains(
                RuleActionView::AddCdrEvent {
                    event_type: CdrEventType::Bye,
                    leg_id: ctx.call.a_leg.leg_id,
                    status_code: None,
                    reason: Some("max_duration"@),
                },
            )
            &&& a.contains(
                RuleActionView::BeginTermination { reason: Some("max-duration"@) },
            )
            &&& a.len() == 2
        }),
{
    reveal(handled);
    reveal(ceiling_passed);
    let a = handled(Handler::MaxDuration, ctx)->0.actions;
    assert(a[0] == RuleActionView::AddCdrEvent {
        event_type: CdrEventType::Bye,
        leg_id: ctx.call.a_leg.leg_id,
        status_code: None,
        reason: Some("max_duration"@),
    });
    assert(a[1] == RuleActionView::BeginTermination { reason: Some("max-duration"@) });
}

/// A call that reaches its ceiling is put to the backend that asked for it.
pub proof fn a_backend_that_subscribed_is_asked_at_the_ceiling(
    ctx: RuleContextView,
    cb: Seq<char>,
)
    requires
        ctx.call.state == CallModelState::Active,
        ctx.call.a_leg.state == LegState::Confirmed,
        ctx.call.reroute is None,
        ctx.call.subscriptions.contains(ReleaseEventKind::MaxCallDuration),
        ctx.call.callback_context == Some(cb),
    ensures
        handled(Handler::MaxDuration, ctx) is Some,
        ({
            let a = handled(Handler::MaxDuration, ctx)->0.actions;
            &&& a.contains(
                RuleActionView::ReleaseAsyncHttp {
                    request: ReleaseRequestView {
                        callback_context: cb,
                        event: ReleaseEventKind::MaxCallDuration,
                    },
                },
            )
            &&& a.len() == 1
        }),
{
    reveal(handled);
    reveal(ceiling_passed);
    let a = handled(Handler::MaxDuration, ctx)->0.actions;
    assert(a[0] == RuleActionView::ReleaseAsyncHttp {
        request: ReleaseRequestView {
            callback_context: cb,
            event: ReleaseEventKind::MaxCallDuration,
        },
    });
}

/// The ceiling of a call that is going away only leaves the ledger.
pub proof fn a_spent_ceiling_only_leaves(
    ctx: RuleContextView,
)
    requires
        ctx.call.state != CallModelState::Active,
    ensures
        handled(Handler::MaxDuration, ctx) is Some,
        ({
            let a = handled(Handler::MaxDuration, ctx)->0.actions;
            &&& a.contains(
                RuleActionView::CancelTimer { id: timer_key(TimerTypeView::GlobalDuration, None) },
            )
            &&& a.len() == 1
        }),
{
    reveal(handled);
    reveal(ceiling_passed);
    let a = handled(Handler::MaxDuration, ctx)->0.actions;
    assert(a[0] == RuleActionView::CancelTimer {
        id: timer_key(TimerTypeView::GlobalDuration, None),
    });
}

/// Both legs of the bridge are probed, each with a wait of its own, and the next
/// probe is armed.
pub proof fn both_bridged_legs_are_probed(
    ctx: RuleContextView,
    p: PeerPairView,
)
    requires
        ctx.call.active_peer == Some(p),
    ensures
        handled(Handler::Keepalive, ctx) is Some,
        ({
            let a = handled(Handler::Keepalive, ctx)->0.actions;
            &&& a.contains(
                RuleActionView::SendRequestToLeg {
                    leg_id: p.leg_a,
                    method: MethodView::Options,
                    body: Seq::empty(),
                    content_type: None,
                    headers: Seq::empty(),
                },
            )
            &&& a.contains(
                RuleActionView::ScheduleTimer {
                    timer_type: TimerTypeView::KeepaliveTimeout,
                    delay_sec: ctx.config.keepalive_timeout_sec,
                    leg_id: Some(p.leg_a),
                },
            )
            &&& a.contains(
                RuleActionView::SendRequestToLeg {
                    leg_id: p.leg_b,
                    method: MethodView::Options,
                    body: Seq::empty(),
                    content_type: None,
                    headers: Seq::empty(),
                },
            )
            &&& a.contains(
                RuleActionView::ScheduleTimer {
                    timer_type: TimerTypeView::KeepaliveTimeout,
                    delay_sec: ctx.config.keepalive_timeout_sec,
                    leg_id: Some(p.leg_b),
                },
            )
            &&& a.contains(
                RuleActionView::ScheduleTimer {
                    timer_type: TimerTypeView::Keepalive,
                    delay_sec: ctx.config.keepalive_interval_sec,
                    leg_id: None,
                },
            )
            &&& a.len() == 5
        }),
{
    reveal(handled);
    reveal(probed);
    let a = handled(Handler::Keepalive, ctx)->0.actions;
    assert(a[0] == RuleActionView::SendRequestToLeg {
        leg_id: p.leg_a,
        method: MethodView::Options,
        body: Seq::empty(),
        content_type: None,
        headers: Seq::empty(),
    });
    assert(a[1] == RuleActionView::ScheduleTimer {
        timer_type: TimerTypeView::KeepaliveTimeout,
        delay_sec: ctx.config.keepalive_timeout_sec,
        leg_id: Some(p.leg_a),
    });
    assert(a[2] == RuleActionView::SendRequestToLeg {
        leg_id: p.leg_b,
        method: MethodView::Options,
        body: Seq::empty(),
        content_type: None,
        headers: Seq::empty(),
    });
    assert(a[3] == RuleActionView::ScheduleTimer {
        timer_type: TimerTypeView::KeepaliveTimeout,
        delay_sec: ctx.config.keepalive_timeout_sec,
        leg_id: Some(p.leg_b),
    });
    assert(a[4] == RuleActionView::ScheduleTimer {
        timer_type: TimerTypeView::Keepalive,
        delay_sec: ctx.config.keepalive_interval_sec,
        leg_id: None,
    });
}

/// A call that is not bridged has nothing to probe.
pub proof fn an_unbridged_call_only_arms_the_next_probe(
    ctx: RuleContextView,
)
    requires
        ctx.call.active_peer is None,
    ensures
        handled(Handler::Keepalive, ctx) is Some,
        ({
            let a = handled(Handler::Keepalive, ctx)->0.actions;
            &&& a.contains(
                RuleActionView::ScheduleTimer {
                    timer_type: TimerTypeView::Keepalive,
                    delay_sec: ctx.config.keepalive_interval_sec,
                    leg_id: None,
                },
            )
            &&& a.len() == 1
        }),
{
    reveal(handled);
    reveal(probed);
    let a = handled(Handler::Keepalive, ctx)->0.actions;
    assert(a[0] == RuleActionView::ScheduleTimer {
        timer_type: TimerTypeView::Keepalive,
        delay_sec: ctx.config.keepalive_interval_sec,
        leg_id: None,
    });
}

/// A leg that does not answer its probe is dead, and the call ends.
pub proof fn a_leg_that_answers_no_probe_ends_the_call(
    ctx: RuleContextView,
)
    ensures
        handled(Handler::KeepaliveTimeout, ctx) is Some,
        ({
            let a = handled(Handler::KeepaliveTimeout, ctx)->0.actions;
            &&& a.contains(
                RuleActionView::TerminateLeg {
                    leg_id: ctx.source_leg_id,
                    bye_disposition: Some(ByeDisposition::ByeTimeout),
                },
            )
            &&& a.contains(
                RuleActionView::AddCdrEvent {
                    event_type: CdrEventType::Bye,
                    leg_id: ctx.source_leg_id,
                    status_code: None,
                    reason: Some("keepalive timeout"@),
                },
            )
            &&& a.contains(
                RuleActionView::BeginTermination { reason: Some("keepalive-timeout"@) },
            )
            &&& a.len() == 3
            &&& comes_before(
                a,
                RuleActionView::TerminateLeg {
                    leg_id: ctx.source_leg_id,
                    bye_disposition: Some(ByeDisposition::ByeTimeout),
                },
                RuleActionView::BeginTermination { reason: Some("keepalive-timeout"@) },
            )
        }),
{
    reveal(handled);
    reveal(probe_unanswered);
    let a = handled(Handler::KeepaliveTimeout, ctx)->0.actions;
    assert(a[0] == RuleActionView::TerminateLeg {
        leg_id: ctx.source_leg_id,
        bye_disposition: Some(ByeDisposition::ByeTimeout),
    });
    assert(a[1] == RuleActionView::AddCdrEvent {
        event_type: CdrEventType::Bye,
        leg_id: ctx.source_leg_id,
        status_code: None,
        reason: Some("keepalive timeout"@),
    });
    assert(a[2] == RuleActionView::BeginTermination { reason: Some("keepalive-timeout"@) });
}

/// An answer to the caller that is never acknowledged ends the call, and the record
/// names the leg that owed the ACK.
pub proof fn an_unacknowledged_answer_ends_the_call(
    ctx: RuleContextView,
    o: ObligationView,
    leg: Seq<char>,
    tag: Seq<char>,
    cseq: i64,
)
    requires
        ctx.event matches CallEventView::Timer {
            timer_type: TimerTypeView::RepeatGiveUp { obligation },
            ..
        } && obligation == o,
        o == (ObligationView::AckOf2xx { leg, dialog_tag: tag, cseq }),
        is_initial_answer(ctx.call, o),
    ensures
        handled(Handler::AckGiveUp, ctx) is Some,
        ({
            let a = handled(Handler::AckGiveUp, ctx)->0.actions;
            &&& a.contains(
                RuleActionView::AddCdrEvent {
                    event_type: CdrEventType::Bye,
                    leg_id: leg,
                    status_code: None,
                    reason: Some("ack_timeout"@),
                },
            )
            &&& a.contains(
                RuleActionView::BeginTermination { reason: Some("ack-timeout"@) },
            )
            &&& a.len() == 2
        }),
{
    reveal(handled);
    reveal(no_ack);
    reveal(ack_given_up);
    let a = handled(Handler::AckGiveUp, ctx)->0.actions;
    assert(a[0] == RuleActionView::AddCdrEvent {
        event_type: CdrEventType::Bye,
        leg_id: leg,
        status_code: None,
        reason: Some("ack_timeout"@),
    });
    assert(a[1] == RuleActionView::BeginTermination { reason: Some("ack-timeout"@) });
}

/// The answer to a re-INVITE that is never acknowledged ends the call too, and is
/// recorded as such.
pub proof fn an_unacknowledged_reinvite_answer_ends_the_call(
    ctx: RuleContextView,
    o: ObligationView,
    leg: Seq<char>,
    tag: Seq<char>,
    cseq: i64,
)
    requires
        ctx.event matches CallEventView::Timer {
            timer_type: TimerTypeView::RepeatGiveUp { obligation },
            ..
        } && obligation == o,
        o == (ObligationView::AckOf2xx { leg, dialog_tag: tag, cseq }),
        !is_initial_answer(ctx.call, o),
    ensures
        handled(Handler::AckGiveUp, ctx) is Some,
        ({
            let a = handled(Handler::AckGiveUp, ctx)->0.actions;
            &&& a.contains(
                RuleActionView::AddCdrEvent {
                    event_type: CdrEventType::Bye,
                    leg_id: leg,
                    status_code: None,
                    reason: Some("reinvite_ack_timeout"@),
                },
            )
            &&& a.contains(
                RuleActionView::BeginTermination { reason: Some("reinvite-ack-timeout"@) },
            )
            &&& a.len() == 2
        }),
{
    reveal(handled);
    reveal(no_ack);
    reveal(ack_given_up);
    let a = handled(Handler::AckGiveUp, ctx)->0.actions;
    assert(a[0] == RuleActionView::AddCdrEvent {
        event_type: CdrEventType::Bye,
        leg_id: leg,
        status_code: None,
        reason: Some("reinvite_ack_timeout"@),
    });
    assert(a[1] == RuleActionView::BeginTermination { reason: Some("reinvite-ack-timeout"@) });
}

/// A provisional to a relayed re-INVITE that is never acknowledged has that re-INVITE
/// rejected; the call stands.
pub proof fn an_unacknowledged_provisional_rejects_its_reinvite(
    ctx: RuleContextView,
    o: ObligationView,
    tag: Seq<char>,
    n: i64,
    leg_id: Seq<char>,
    outbound_cseq: i64,
)
    requires
        ctx.event matches CallEventView::Timer {
            timer_type: TimerTypeView::RepeatGiveUp { obligation },
            ..
        } && obligation == o,
        o == (ObligationView::PrackOf { a_tag: tag, a_rseq: n }),
        invite_answered_by(ctx.call, tag, n) == Some((leg_id, outbound_cseq)),
    ensures
        handled(Handler::PrackGiveUp, ctx) is Some,
        ({
            let a = handled(Handler::PrackGiveUp, ctx)->0.actions;
            &&& a.contains(
                RuleActionView::AddCdrEvent {
                    event_type: CdrEventType::Timeout,
                    leg_id: if shown_on(ctx.call, tag) is Some { shown_on(ctx.call, tag)->0 } else { ctx.call.a_leg.leg_id },
                    status_code: Some(504),
                    reason: Some("prack_timeout"@),
                },
            )
            &&& a.contains(
                RuleActionView::RejectPendingReinvite {
                    leg_id,
                    outbound_cseq,
                    status: 504,
                    reason: "Server Time-out"@,
                },
            )
            &&& a.len() == 2
        }),
{
    reveal(handled);
    reveal(no_prack);
    let a = handled(Handler::PrackGiveUp, ctx)->0.actions;
    assert(a[0] == RuleActionView::AddCdrEvent {
        event_type: CdrEventType::Timeout,
        leg_id: if shown_on(ctx.call, tag) is Some { shown_on(ctx.call, tag)->0 } else { ctx.call.a_leg.leg_id },
        status_code: Some(504),
        reason: Some("prack_timeout"@),
    });
    assert(a[1] == RuleActionView::RejectPendingReinvite {
        leg_id,
        outbound_cseq,
        status: 504,
        reason: "Server Time-out"@,
    });
}

/// A provisional to the caller's own INVITE that is never acknowledged has the call
/// rejected, while nobody answered it.
pub proof fn an_unacknowledged_provisional_rejects_the_call(
    ctx: RuleContextView,
    o: ObligationView,
    tag: Seq<char>,
    n: i64,
)
    requires
        ctx.event matches CallEventView::Timer {
            timer_type: TimerTypeView::RepeatGiveUp { obligation },
            ..
        } && obligation == o,
        o == (ObligationView::PrackOf { a_tag: tag, a_rseq: n }),
        invite_answered_by(ctx.call, tag, n) is None,
        ctx.call.a_leg.state != LegState::Confirmed,
        forall|i: int| 0 <= i < ctx.call.b_legs.len() ==> (#[trigger] ctx.call.b_legs[i]).state != LegState::Confirmed,
    ensures
        handled(Handler::PrackGiveUp, ctx) is Some,
        ({
            let a = handled(Handler::PrackGiveUp, ctx)->0.actions;
            &&& a.contains(
                RuleActionView::AddCdrEvent {
                    event_type: CdrEventType::Timeout,
                    leg_id: ctx.call.a_leg.leg_id,
                    status_code: Some(504),
                    reason: Some("prack_timeout"@),
                },
            )
            &&& a.contains(
                RuleActionView::RespondToALeg {
                    authored: AuthoredFinalView {
                        status: 504,
                        reason: "Server Time-out"@,
                        header_updates: Seq::empty(),
                        contacts: Seq::empty(),
                    },
                },
            )
            &&& a.contains(
                RuleActionView::BeginTermination { reason: Some("prack-timeout"@) },
            )
            &&& a.len() == 3
            &&& comes_before(
                a,
                RuleActionView::RespondToALeg {
                    authored: AuthoredFinalView {
                        status: 504,
                        reason: "Server Time-out"@,
                        header_updates: Seq::empty(),
                        contacts: Seq::empty(),
                    },
                },
                RuleActionView::BeginTermination { reason: Some("prack-timeout"@) },
            )
        }),
{
    reveal(handled);
    reveal(no_prack);
    let a = handled(Handler::PrackGiveUp, ctx)->0.actions;
    assert(a[0] == RuleActionView::AddCdrEvent {
        event_type: CdrEventType::Timeout,
        leg_id: ctx.call.a_leg.leg_id,
        status_code: Some(504),
        reason: Some("prack_timeout"@),
    });
    assert(a[1] == RuleActionView::RespondToALeg {
        authored: AuthoredFinalView {
            status: 504,
            reason: "Server Time-out"@,
            header_updates: Seq::empty(),
            contacts: Seq::empty(),
        },
    });
    assert(a[2] == RuleActionView::BeginTermination { reason: Some("prack-timeout"@) });
}

/// A call the reaper finds dead has every leg that is not done brought to its end,
/// without a word to it, and ends on record; so does a terminating call whose last
/// deadline passes.
pub proof fn a_dead_call_is_brought_to_its_end(ctx: RuleContextView, h: Handler, i: int)
    requires
        h is ReaperStale || h is ReaperFatal || h is TerminatingSafety,
        0 <= i < ctx.call.legs().len(),
    ensures
        handled(h, ctx) is Some,
        ({
            let a = handled(h, ctx)->0.actions;
            let l = ctx.call.legs()[i];
            let cause = if h is ReaperStale {
                "reaper-stale"@
            } else {
                "handler-panic"@
            };
            &&& !leg_resolved(l) ==> a.contains(
                RuleActionView::TerminateLeg {
                    leg_id: l.leg_id,
                    bye_disposition: Some(ByeDisposition::ByeTimeout),
                },
            )
            &&& !(h is TerminatingSafety) ==> {
                &&& a.len() >= 2
                &&& a[a.len() - 2] == (RuleActionView::AddCdrEvent {
                    event_type: CdrEventType::Bye,
                    leg_id: ctx.call.a_leg.leg_id,
                    status_code: None,
                    reason: Some(cause),
                })
                &&& a.last() == (RuleActionView::BeginTermination { reason: Some(cause) })
            }
        }),
{
    reveal(handled);
    reveal(reaped);
    let ls = ctx.call.legs();
    let a = handled(h, ctx)->0.actions;
    let y = RuleActionView::TerminateLeg {
        leg_id: ls[i].leg_id,
        bye_disposition: Some(ByeDisposition::ByeTimeout),
    };
    if !leg_resolved(ls[i]) {
        each_unresolved_leg_is_forced(ls, i);
    }
    if !(h is TerminatingSafety) {
        let q = seq![a[a.len() - 2], a.last()];
        assert(a =~= forced(ls) + q);
        either_holds(forced(ls), q, y);
    }
}

proof fn each_unresolved_leg_is_forced(ls: Seq<LegView>, i: int)
    requires
        0 <= i < ls.len(),
        !leg_resolved(ls[i]),
    ensures
        forced(ls).contains(
            RuleActionView::TerminateLeg {
                leg_id: ls[i].leg_id,
                bye_disposition: Some(ByeDisposition::ByeTimeout),
            },
        ),
    decreases ls.len(),
{
    let t = ls.drop_last();
    let y = RuleActionView::TerminateLeg {
        leg_id: ls[i].leg_id,
        bye_disposition: Some(ByeDisposition::ByeTimeout),
    };
    if i < t.len() {
        each_unresolved_leg_is_forced(t, i);
        let k = choose|k: int| 0 <= k < forced(t).len() && forced(t)[k] == y;
        assert(forced(ls)[k] == y);
    } else {
        assert(forced(ls)[forced(t).len() as int] == y);
    }
}

} // verus!
