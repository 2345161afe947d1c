//! What a transfer does at each of its steps: whom it tells what, whom it offers whose
//! description, and how it ends.
use vstd::prelude::*;

use crate::action::{Provisional, RuleActionView};
use crate::call::{
    ByeDisposition, CdrEventType, LegDisposition, LegState, TimerTypeView, TransferPhase,
    TransferStateView,
};
use crate::conduct::comes_before;
use crate::context::timer_key;
use crate::defaults::route_fold::{header_updates, Nodes, stated_port};
use crate::effects::ReferRequestView;
use crate::handling::handled;
use crate::headers::{bare_uri, header_value, rseq_of};
use crate::json::{member, member_i64, member_text, member_u64};
use crate::model::{Handler, RuleContextView};
use crate::refer_transfer::machine::authorizing::{refer_allowed, refer_denied, refer_timed_out};
use crate::refer_transfer::machine::c_ringing::{
    target_answered, target_failed, target_progressed, target_unanswered,
};
use crate::refer_transfer::machine::guards::{subscription_over, transfer_timed_out};
use crate::refer_transfer::machine::realign::{
    caller_realign_failed, caller_realign_timed_out, caller_realigned, target_realign_failed,
    target_realign_timed_out, target_realigned,
};
use crate::refer_transfer::seed::{dialog_id, shown_headers, transfer_begun};
use crate::sdp::is_sdp;
use crate::text::decimal_text;
use crate::wire::{HostPortView, SipRequestView, SipResponseView};

verus! {

/// The report of a status line to a referrer, as the body of a NOTIFY.
pub open spec fn told(
    to: Seq<char>,
    subscription: Seq<char>,
    code: nat,
    phrase: Seq<char>,
) -> RuleActionView {
    RuleActionView::SendNotify {
        leg_id: to,
        event: "refer"@,
        subscription_state: subscription,
        content_type: Some("message/sipfrag;version=2.0"@),
        body: vstd::utf8::encode_utf8(
            "SIP/2.0 "@ + decimal_text(code) + " "@ + phrase + "\r\n"@,
        ),
    }
}

/// A REFER that is taken up is accepted, its referrer told so, and the decision layer
/// asked about the very target it names; the transfer remembers who asked for what,
/// and both its watchdogs run.
pub proof fn a_transfer_begins_with_its_question(
    ctx: RuleContextView,
    req: SipRequestView,
    to: Seq<char>,
)
    requires
        ctx.request() == Some(req),
        header_value(req.headers, "Refer-To"@) == Some(to),
    ensures
        handled(Handler::InterceptRefer, ctx) is Some,
        ({
            let a = handled(Handler::InterceptRefer, ctx)->0.actions;
            &&& a.contains(
                RuleActionView::Respond {
                    status: 202,
                    reason: "Accepted"@,
                    body: Seq::empty(),
                    content_type: None,
                },
            )
            &&& a.contains(
                RuleActionView::SetTransfer {
                    state: Some(
                        TransferStateView {
                            phase: TransferPhase::ReferAuthorizing,
                            referrer_leg_id: ctx.source_leg_id,
                            refer_to_uri: to,
                            effective_refer_to_uri: None,
                            callback_context: None,
                            c_leg_id: None,
                            refer_cseq: Some(req.cseq),
                            started_at_ms: ctx.now_ms,
                            last_c_leg_notified_status: None,
                            c_initial_sdp: None,
                            subscription_terminated: false,
                        },
                    ),
                },
            )
            &&& a.contains(
                RuleActionView::ScheduleTimer {
                    timer_type: TimerTypeView::ReferSubscriptionExpiry,
                    delay_sec: ctx.config.refer_subscription_expiry_sec,
                    leg_id: None,
                },
            )
            &&& a.contains(
                RuleActionView::ScheduleTimer {
                    timer_type: TimerTypeView::ReferOverallSafety,
                    delay_sec: ctx.config.refer_overall_safety_sec,
                    leg_id: None,
                },
            )
            &&& a.contains(
                told(ctx.source_leg_id, "active;expires=60"@, 100, "Trying"@),
            )
            &&& a.contains(
                RuleActionView::ReferAsyncHttp {
                    request: ReferRequestView {
                        call_id: ctx.call.a_leg.call_id,
                        dialog_id: dialog_id(ctx),
                        refer_to: to,
                        referred_by: header_value(req.headers, "Referred-By"@),
                        sip_headers: shown_headers(req),
                    },
                },
            )
            &&& a.len() == 6
        }),
{
    reveal(handled);
    reveal(transfer_begun);
    let a = handled(Handler::InterceptRefer, ctx)->0.actions;
    assert(a[0] == RuleActionView::Respond {
        status: 202,
        reason: "Accepted"@,
        body: Seq::empty(),
        content_type: None,
    });
    assert(a[1] == RuleActionView::SetTransfer {
        state: Some(
            TransferStateView {
                phase: TransferPhase::ReferAuthorizing,
                referrer_leg_id: ctx.source_leg_id,
                refer_to_uri: to,
                effective_refer_to_uri: None,
                callback_context: None,
                c_leg_id: None,
                refer_cseq: Some(req.cseq),
                started_at_ms: ctx.now_ms,
                last_c_leg_notified_status: None,
                c_initial_sdp: None,
                subscription_terminated: false,
            },
        ),
    });
    assert(a[2] == RuleActionView::ScheduleTimer {
        timer_type: TimerTypeView::ReferSubscriptionExpiry,
        delay_sec: ctx.config.refer_subscription_expiry_sec,
        leg_id: None,
    });
    assert(a[3] == RuleActionView::ScheduleTimer {
        timer_type: TimerTypeView::ReferOverallSafety,
        delay_sec: ctx.config.refer_overall_safety_sec,
        leg_id: None,
    });
    assert(a[4] == told(ctx.source_leg_id, "active;expires=60"@, 100, "Trying"@));
    assert(a[5] == RuleActionView::ReferAsyncHttp {
        request: ReferRequestView {
            call_id: ctx.call.a_leg.call_id,
            dialog_id: dialog_id(ctx),
            refer_to: to,
            referred_by: header_value(req.headers, "Referred-By"@),
            sip_headers: shown_headers(req),
        },
    });
}

/// What an authorization names as the target: its own address, else the one the
/// referrer asked for.
pub open spec fn authorized_target(st: TransferStateView, payload: Nodes) -> Seq<char> {
    if member_text(payload, "new_refer_to"@) is Some {
        member_text(payload, "new_refer_to"@)->0
    } else {
        st.refer_to_uri
    }
}

/// An authorized target is dialled: at the host and the port the authorization
/// names, under the bare form of its address, with the caller's description on
/// hold; it takes the caller's identities, and the transfer awaits that leg.
pub proof fn an_authorized_target_is_dialled(
    ctx: RuleContextView,
    st: TransferStateView,
    payload: Nodes,
    at: Nodes,
    host: Seq<char>,
    port: u16,
    uri: Seq<char>,
)
    requires
        ctx.call.transfer == Some(st),
        ctx.event is Internal,
        ctx.event->payload == payload,
        member(payload, "destination"@) == Some(at),
        member_text(at, "host"@) == Some(host),
        stated_port(member(at, "port"@)) == Some(port),
        bare_uri(authorized_target(st, payload)) == Some(uri),
    ensures
        handled(Handler::ReferAllowed, ctx) is Some,
        ({
            let a = handled(Handler::ReferAllowed, ctx)->0.actions;
            let n = a[0]->CreateLeg_leg;
            let next = a[1]->SetTransfer_state->0;
            &&& a.len() == 2
            &&& a[0] is CreateLeg
            &&& n.destination == (HostPortView { host, port })
            &&& n.new_ruri == Some(uri)
            &&& n.new_from is None
            &&& n.new_to is None
            &&& n.kind is None
            &&& n.callback_context == member_text(payload, "callback_context"@)
            &&& n.header_updates == header_updates(payload)
            &&& member_i64(payload, "no_answer_timeout_sec"@) is None
                ==> n.no_answer_timeout_sec is None
            &&& member_i64(payload, "no_answer_timeout_sec"@) matches Some(secs)
                ==> n.no_answer_timeout_sec == Some(secs as i64)
            &&& n.body_override is Some
            &&& ctx.call.a_leg_invite.held_sdp matches Some(held) ==> n.body_override == Some(held)
            &&& ctx.call.a_leg_invite.held_sdp is None ==> n.body_override->0.len() == 0
            &&& a[1] is SetTransfer
            &&& a[1]->SetTransfer_state is Some
            &&& next.phase == TransferPhase::CRinging
            &&& next.effective_refer_to_uri == Some(uri)
            &&& ctx.call.b_legs.len() < u64::MAX ==> next.c_leg_id == Some(
                "b-"@ + decimal_text((ctx.call.b_legs.len() + 1) as nat),
            )
            &&& next == (TransferStateView {
                phase: next.phase,
                effective_refer_to_uri: next.effective_refer_to_uri,
                c_leg_id: next.c_leg_id,
                callback_context: next.callback_context,
                ..st
            })
            &&& member_text(payload, "callback_context"@) is None ==> next.callback_context
                == st.callback_context
            &&& member_text(payload, "callback_context"@) is Some ==> next.callback_context
                == member_text(payload, "callback_context"@)
        }),
{
    reveal(handled);
    reveal(refer_allowed);
}

/// A transfer that is denied is reported to the referrer with the status and the
/// phrase the decision states, or as a plain decline; then it is over.
pub proof fn a_denied_transfer_is_reported_and_over(
    ctx: RuleContextView,
    st: TransferStateView,
    payload: Nodes,
)
    requires
        ctx.call.transfer == Some(st),
        ctx.event is Internal,
        ctx.event->payload == payload,
        ctx.event->outcome == "reject"@,
    ensures
        handled(Handler::ReferDenied, ctx) is Some,
        ({
            let a = handled(Handler::ReferDenied, ctx)->0.actions;
            let code = match member_u64(payload, "reject_code"@) {
                Some(n) => (n % 0x10000) as u16,
                None => 603u16,
            };
            let phrase = match member_text(payload, "reject_reason"@) {
                Some(t) => t,
                None => "Declined"@,
            };
            &&& !st.subscription_terminated ==> a.contains(
                told(st.referrer_leg_id, "terminated;reason=noresource"@, code as nat, phrase),
            )
            &&& a.contains(
                RuleActionView::CancelTimer {
                    id: timer_key(TimerTypeView::ReferSubscriptionExpiry, None),
                },
            )
            &&& a.contains(
                RuleActionView::CancelTimer {
                    id: timer_key(TimerTypeView::ReferOverallSafety, None),
                },
            )
            &&& a.contains(
                RuleActionView::SetTransfer { state: None },
            )
            &&& a.len() == 3 + if !st.subscription_terminated {
                1int
            } else {
                0int
            }
        }),
{
    reveal(handled);
    reveal(refer_denied);
    let a = handled(Handler::ReferDenied, ctx)->0.actions;
    let code = match member_u64(payload, "reject_code"@) {
        Some(n) => (n % 0x10000) as u16,
        None => 603u16,
    };
    let phrase = match member_text(payload, "reject_reason"@) {
        Some(t) => t,
        None => "Declined"@,
    };
    if !st.subscription_terminated {
        assert(a[0] == told(
            st.referrer_leg_id,
            "terminated;reason=noresource"@,
            code as nat,
            phrase,
        ));
        assert(a[1] == RuleActionView::CancelTimer {
            id: timer_key(TimerTypeView::ReferSubscriptionExpiry, None),
        });
        assert(a[2] == RuleActionView::CancelTimer {
            id: timer_key(TimerTypeView::ReferOverallSafety, None),
        });
        assert(a[3] == RuleActionView::SetTransfer { state: None });
    } else {
        assert(a[0] == RuleActionView::CancelTimer {
            id: timer_key(TimerTypeView::ReferSubscriptionExpiry, None),
        });
        assert(a[1] == RuleActionView::CancelTimer {
            id: timer_key(TimerTypeView::ReferOverallSafety, None),
        });
        assert(a[2] == RuleActionView::SetTransfer { state: None });
    }
}

/// A consult that fails is reported to the referrer as a server error, and the
/// transfer is over.
pub proof fn a_failed_consult_is_reported_and_over(
    ctx: RuleContextView,
    st: TransferStateView,
)
    requires
        ctx.call.transfer == Some(st),
        ctx.event is Internal,
        ctx.event->outcome != "reject"@,
    ensures
        handled(Handler::ReferDenied, ctx) is Some,
        ({
            let a = handled(Handler::ReferDenied, ctx)->0.actions;
            &&& !st.subscription_terminated ==> a.contains(
                told(
                    st.referrer_leg_id,
                    "terminated;reason=noresource"@,
                    500,
                    "Server Internal Error"@,
                ),
            )
            &&& a.contains(
                RuleActionView::CancelTimer {
                    id: timer_key(TimerTypeView::ReferSubscriptionExpiry, None),
                },
            )
            &&& a.contains(
                RuleActionView::CancelTimer {
                    id: timer_key(TimerTypeView::ReferOverallSafety, None),
                },
            )
            &&& a.contains(
                RuleActionView::SetTransfer { state: None },
            )
            &&& a.len() == 3 + if !st.subscription_terminated {
                1int
            } else {
                0int
            }
        }),
{
    reveal(handled);
    reveal(refer_denied);
    let a = handled(Handler::ReferDenied, ctx)->0.actions;
    if !st.subscription_terminated {
        assert(a[0] == told(
            st.referrer_leg_id,
            "terminated;reason=noresource"@,
            500,
            "Server Internal Error"@,
        ));
        assert(a[1] == RuleActionView::CancelTimer {
            id: timer_key(TimerTypeView::ReferSubscriptionExpiry, None),
        });
        assert(a[2] == RuleActionView::CancelTimer {
            id: timer_key(TimerTypeView::ReferOverallSafety, None),
        });
        assert(a[3] == RuleActionView::SetTransfer { state: None });
    } else {
        assert(a[0] == RuleActionView::CancelTimer {
            id: timer_key(TimerTypeView::ReferSubscriptionExpiry, None),
        });
        assert(a[1] == RuleActionView::CancelTimer {
            id: timer_key(TimerTypeView::ReferOverallSafety, None),
        });
        assert(a[2] == RuleActionView::SetTransfer { state: None });
    }
}

/// A consult that does not answer in time is reported to the referrer, and the
/// transfer is over.
pub proof fn a_silent_consult_is_reported_and_over(
    ctx: RuleContextView,
    st: TransferStateView,
)
    requires
        ctx.call.transfer == Some(st),
    ensures
        handled(Handler::ReferTimeout, ctx) is Some,
        ({
            let a = handled(Handler::ReferTimeout, ctx)->0.actions;
            &&& !st.subscription_terminated ==> a.contains(
                told(
                    st.referrer_leg_id,
                    "terminated;reason=timeout"@,
                    500,
                    "Server Internal Error"@,
                ),
            )
            &&& a.contains(
                RuleActionView::CancelTimer {
                    id: timer_key(TimerTypeView::ReferOverallSafety, None),
                },
            )
            &&& a.contains(
                RuleActionView::SetTransfer { state: None },
            )
            &&& a.len() == 2 + if !st.subscription_terminated {
                1int
            } else {
                0int
            }
        }),
{
    reveal(handled);
    reveal(refer_timed_out);
    let a = handled(Handler::ReferTimeout, ctx)->0.actions;
    if !st.subscription_terminated {
        assert(a[0] == told(
            st.referrer_leg_id,
            "terminated;reason=timeout"@,
            500,
            "Server Internal Error"@,
        ));
        assert(a[1] == RuleActionView::CancelTimer {
            id: timer_key(TimerTypeView::ReferOverallSafety, None),
        });
        assert(a[2] == RuleActionView::SetTransfer { state: None });
    } else {
        assert(a[0] == RuleActionView::CancelTimer {
            id: timer_key(TimerTypeView::ReferOverallSafety, None),
        });
        assert(a[1] == RuleActionView::SetTransfer { state: None });
    }
}

/// The PRACK a reliable provisional is owed.
pub open spec fn owed_prack(ctx: RuleContextView, resp: SipResponseView) -> RuleActionView {
    RuleActionView::SendPrackToLeg {
        leg_id: ctx.source_leg_id,
        rseq: rseq_of(resp)->0 as i64,
        invite_cseq: resp.cseq,
        b_tag: if resp.to_tag is Some {
            resp.to_tag->0
        } else {
            Seq::empty()
        },
    }
}

/// What the target answers before it answers is reported to the referrer, under its
/// own status and phrase, and a status that was reported last is not reported again.
/// The caller hears nothing of it; a reliable one is acknowledged.
pub proof fn the_targets_progress_is_reported(
    ctx: RuleContextView,
    st: TransferStateView,
    resp: SipResponseView,
)
    requires
        ctx.call.transfer == Some(st),
        ctx.response() == Some(resp),
        st.last_c_leg_notified_status != Some(resp.status),
    ensures
        handled(Handler::TargetProgress, ctx) is Some,
        ({
            let a = handled(Handler::TargetProgress, ctx)->0.actions;
            &&& a.contains(
                RuleActionView::UpdateLegState {
                    leg_id: ctx.source_leg_id,
                    state: LegState::Early,
                    disposition: None,
                },
            )
            &&& rseq_of(resp) is Some ==> a.contains(
                owed_prack(ctx, resp),
            )
            &&& a.contains(
                RuleActionView::AddCdrEvent {
                    event_type: CdrEventType::Provisional,
                    leg_id: ctx.source_leg_id,
                    status_code: Some(resp.status as i64),
                    reason: None,
                },
            )
            &&& !st.subscription_terminated ==> a.contains(
                told(st.referrer_leg_id, "active;expires=60"@, resp.status as nat, resp.reason),
            )
            &&& a.contains(
                RuleActionView::SetTransfer {
                    state: Some(
                        TransferStateView { last_c_leg_notified_status: Some(resp.status), ..st },
                    ),
                },
            )
            &&& a.len() == 3 + if rseq_of(resp) is Some {
                1int
            } else {
                0int
            } + if !st.subscription_terminated {
                1int
            } else {
                0int
            }
        }),
{
    reveal(handled);
    reveal(target_progressed);
    let a = handled(Handler::TargetProgress, ctx)->0.actions;
    if rseq_of(resp) is Some {
        if !st.subscription_terminated {
            assert(a[0] == RuleActionView::UpdateLegState {
                leg_id: ctx.source_leg_id,
                state: LegState::Early,
                disposition: None,
            });
            assert(a[1] == owed_prack(ctx, resp));
            assert(a[2] == RuleActionView::AddCdrEvent {
                event_type: CdrEventType::Provisional,
                leg_id: ctx.source_leg_id,
                status_code: Some(resp.status as i64),
                reason: None,
            });
            assert(a[3] == told(
                st.referrer_leg_id,
                "active;expires=60"@,
                resp.status as nat,
                resp.reason,
            ));
            assert(a[4] == RuleActionView::SetTransfer {
                state: Some(
                    TransferStateView { last_c_leg_notified_status: Some(resp.status), ..st },
                ),
            });
        } else {
            assert(a[0] == RuleActionView::UpdateLegState {
                leg_id: ctx.source_leg_id,
                state: LegState::Early,
                disposition: None,
            });
            assert(a[1] == owed_prack(ctx, resp));
            assert(a[2] == RuleActionView::AddCdrEvent {
                event_type: CdrEventType::Provisional,
                leg_id: ctx.source_leg_id,
                status_code: Some(resp.status as i64),
                reason: None,
            });
            assert(a[3] == RuleActionView::SetTransfer {
                state: Some(
                    TransferStateView { last_c_leg_notified_status: Some(resp.status), ..st },
                ),
            });
        }
    } else {
        if !st.subscription_terminated {
            assert(a[0] == RuleActionView::UpdateLegState {
                leg_id: ctx.source_leg_id,
                state: LegState::Early,
                disposition: None,
            });
            assert(a[1] == RuleActionView::AddCdrEvent {
                event_type: CdrEventType::Provisional,
                leg_id: ctx.source_leg_id,
                status_code: Some(resp.status as i64),
                reason: None,
            });
            assert(a[2] == told(
                st.referrer_leg_id,
                "active;expires=60"@,
                resp.status as nat,
                resp.reason,
            ));
            assert(a[3] == RuleActionView::SetTransfer {
                state: Some(
                    TransferStateView { last_c_leg_notified_status: Some(resp.status), ..st },
                ),
            });
        } else {
            assert(a[0] == RuleActionView::UpdateLegState {
                leg_id: ctx.source_leg_id,
                state: LegState::Early,
                disposition: None,
            });
            assert(a[1] == RuleActionView::AddCdrEvent {
                event_type: CdrEventType::Provisional,
                leg_id: ctx.source_leg_id,
                status_code: Some(resp.status as i64),
                reason: None,
            });
            assert(a[2] == RuleActionView::SetTransfer {
                state: Some(
                    TransferStateView { last_c_leg_notified_status: Some(resp.status), ..st },
                ),
            });
        }
    }
}

/// A status of the target's that was reported last is taken, and not reported.
pub proof fn a_repeated_progress_is_not_reported_again(
    ctx: RuleContextView,
    st: TransferStateView,
    resp: SipResponseView,
)
    requires
        ctx.call.transfer == Some(st),
        ctx.response() == Some(resp),
        st.last_c_leg_notified_status == Some(resp.status),
    ensures
        handled(Handler::TargetProgress, ctx) is Some,
        ({
            let a = handled(Handler::TargetProgress, ctx)->0.actions;
            &&& a.contains(
                RuleActionView::UpdateLegState {
                    leg_id: ctx.source_leg_id,
                    state: LegState::Early,
                    disposition: None,
                },
            )
            &&& rseq_of(resp) is Some ==> a.contains(
                owed_prack(ctx, resp),
            )
            &&& a.contains(
                RuleActionView::AddCdrEvent {
                    event_type: CdrEventType::Provisional,
                    leg_id: ctx.source_leg_id,
                    status_code: Some(resp.status as i64),
                    reason: None,
                },
            )
            &&& a.len() == 2 + if rseq_of(resp) is Some {
                1int
            } else {
                0int
            }
        }),
{
    reveal(handled);
    reveal(target_progressed);
    let a = handled(Handler::TargetProgress, ctx)->0.actions;
    if rseq_of(resp) is Some {
        assert(a[0] == RuleActionView::UpdateLegState {
            leg_id: ctx.source_leg_id,
            state: LegState::Early,
            disposition: None,
        });
        assert(a[1] == owed_prack(ctx, resp));
        assert(a[2] == RuleActionView::AddCdrEvent {
            event_type: CdrEventType::Provisional,
            leg_id: ctx.source_leg_id,
            status_code: Some(resp.status as i64),
            reason: None,
        });
    } else {
        assert(a[0] == RuleActionView::UpdateLegState {
            leg_id: ctx.source_leg_id,
            state: LegState::Early,
            disposition: None,
        });
        assert(a[1] == RuleActionView::AddCdrEvent {
            event_type: CdrEventType::Provisional,
            leg_id: ctx.source_leg_id,
            status_code: Some(resp.status as i64),
            reason: None,
        });
    }
}

/// The description the caller's INVITE carried; nothing where it carried none.
pub open spec fn callers_offer(ctx: RuleContextView) -> Seq<u8> {
    if is_sdp(ctx.call.a_leg_invite.headers, ctx.call.a_leg_invite.body) {
        ctx.call.a_leg_invite.body
    } else {
        Seq::empty()
    }
}

/// A target that answers is taken and acknowledged, the referrer told so for the last
/// time, and the target asked to take the description of the caller's own INVITE:
/// what the target answered with plays no part in that offer. It is kept aside.
pub proof fn an_answering_target_is_offered_the_callers_description(
    ctx: RuleContextView,
    st: TransferStateView,
    resp: SipResponseView,
    c: Seq<char>,
)
    requires
        ctx.call.transfer == Some(st),
        ctx.response() == Some(resp),
        st.c_leg_id == Some(c),
    ensures
        handled(Handler::TargetAnswer, ctx) is Some,
        ({
            let a = handled(Handler::TargetAnswer, ctx)->0.actions;
            &&& a.contains(
                RuleActionView::UpdateLegState {
                    leg_id: c,
                    state: LegState::Confirmed,
                    disposition: Some(LegDisposition::Bridged),
                },
            )
            &&& a.contains(
                RuleActionView::ConfirmDialog { leg_id: c },
            )
            &&& a.contains(
                RuleActionView::AckLeg { leg_id: c, body: Seq::empty(), content_type: None },
            )
            &&& !st.subscription_terminated ==> a.contains(
                told(st.referrer_leg_id, "terminated;reason=noresource"@, 200, "OK"@),
            )
            &&& a.contains(
                RuleActionView::CancelTimer {
                    id: timer_key(TimerTypeView::ReferSubscriptionExpiry, None),
                },
            )
            &&& a.contains(
                RuleActionView::CancelTimer { id: timer_key(TimerTypeView::NoAnswer, Some(c)) },
            )
            &&& a.contains(
                RuleActionView::ScheduleTimer {
                    timer_type: TimerTypeView::ReferReinviteAnswer,
                    delay_sec: ctx.config.refer_reinvite_answer_sec,
                    leg_id: Some(c),
                },
            )
            &&& a.contains(
                RuleActionView::SendReinvite {
                    leg_id: c,
                    body: callers_offer(ctx),
                    add_headers: Seq::empty(),
                },
            )
            &&& a.contains(
                RuleActionView::AddCdrEvent {
                    event_type: CdrEventType::Answer,
                    leg_id: c,
                    status_code: Some(200),
                    reason: None,
                },
            )
            &&& a.contains(
                RuleActionView::SetTransfer {
                    state: Some(
                        TransferStateView {
                            phase: TransferPhase::CRealigning,
                            c_initial_sdp: a.last()->SetTransfer_state->0.c_initial_sdp,
                            ..st
                        },
                    ),
                },
            )
            &&& a.len() == 9 + if !st.subscription_terminated {
                1int
            } else {
                0int
            }
            &&& comes_before(
                a,
                RuleActionView::ConfirmDialog { leg_id: c },
                RuleActionView::SendReinvite {
                    leg_id: c,
                    body: callers_offer(ctx),
                    add_headers: Seq::empty(),
                },
            )
            &&& comes_before(
                a,
                RuleActionView::AckLeg { leg_id: c, body: Seq::empty(), content_type: None },
                RuleActionView::SendReinvite {
                    leg_id: c,
                    body: callers_offer(ctx),
                    add_headers: Seq::empty(),
                },
            )
            &&& forall|i: int|
                0 <= i < a.len() && (#[trigger] a[i]) is SendReinvite ==> a[i]->SendReinvite_leg_id == c
                    && a[i]->SendReinvite_body == callers_offer(ctx)
            &&& is_sdp(resp.headers, resp.body) ==> a.last()->SetTransfer_state->0.c_initial_sdp == Some(
                resp.body,
            )
            &&& !is_sdp(resp.headers, resp.body)
                ==> a.last()->SetTransfer_state->0.c_initial_sdp is None
        }),
{
    reveal(handled);
    reveal(target_answered);
    let a = handled(Handler::TargetAnswer, ctx)->0.actions;
    if !st.subscription_terminated {
        assert(a[0] == RuleActionView::UpdateLegState {
            leg_id: c,
            state: LegState::Confirmed,
            disposition: Some(LegDisposition::Bridged),
        });
        assert(a[1] == RuleActionView::ConfirmDialog { leg_id: c });
        assert(a[2] == RuleActionView::AckLeg {
            leg_id: c,
            body: Seq::empty(),
            content_type: None,
        });
        assert(a[3] == told(st.referrer_leg_id, "terminated;reason=noresource"@, 200, "OK"@));
        assert(a[4] == RuleActionView::CancelTimer {
            id: timer_key(TimerTypeView::ReferSubscriptionExpiry, None),
        });
        assert(a[5] == RuleActionView::CancelTimer {
            id: timer_key(TimerTypeView::NoAnswer, Some(c)),
        });
        assert(a[6] == RuleActionView::ScheduleTimer {
            timer_type: TimerTypeView::ReferReinviteAnswer,
            delay_sec: ctx.config.refer_reinvite_answer_sec,
            leg_id: Some(c),
        });
        assert(a[7] == RuleActionView::SendReinvite {
            leg_id: c,
            body: callers_offer(ctx),
            add_headers: Seq::empty(),
        });
        assert(a[8] == RuleActionView::AddCdrEvent {
            event_type: CdrEventType::Answer,
            leg_id: c,
            status_code: Some(200),
            reason: None,
        });
        assert(a[9] == RuleActionView::SetTransfer {
            state: Some(
                TransferStateView {
                    phase: TransferPhase::CRealigning,
                    c_initial_sdp: a.last()->SetTransfer_state->0.c_initial_sdp,
                    ..st
                },
            ),
        });
    } else {
        assert(a[0] == RuleActionView::UpdateLegState {
            leg_id: c,
            state: LegState::Confirmed,
            disposition: Some(LegDisposition::Bridged),
        });
        assert(a[1] == RuleActionView::ConfirmDialog { leg_id: c });
        assert(a[2] == RuleActionView::AckLeg {
            leg_id: c,
            body: Seq::empty(),
            content_type: None,
        });
        assert(a[3] == RuleActionView::CancelTimer {
            id: timer_key(TimerTypeView::ReferSubscriptionExpiry, None),
        });
        assert(a[4] == RuleActionView::CancelTimer {
            id: timer_key(TimerTypeView::NoAnswer, Some(c)),
        });
        assert(a[5] == RuleActionView::ScheduleTimer {
            timer_type: TimerTypeView::ReferReinviteAnswer,
            delay_sec: ctx.config.refer_reinvite_answer_sec,
            leg_id: Some(c),
        });
        assert(a[6] == RuleActionView::SendReinvite {
            leg_id: c,
            body: callers_offer(ctx),
            add_headers: Seq::empty(),
        });
        assert(a[7] == RuleActionView::AddCdrEvent {
            event_type: CdrEventType::Answer,
            leg_id: c,
            status_code: Some(200),
            reason: None,
        });
        assert(a[8] == RuleActionView::SetTransfer {
            state: Some(
                TransferStateView {
                    phase: TransferPhase::CRealigning,
                    c_initial_sdp: a.last()->SetTransfer_state->0.c_initial_sdp,
                    ..st
                },
            ),
        });
    }
}

/// Whatever the target answers with, it is offered the same description.
pub proof fn the_targets_offer_is_the_callers_alone(
    ctx1: RuleContextView,
    ctx2: RuleContextView,
    i: int,
    j: int,
)
    requires
        handled(Handler::TargetAnswer, ctx1) is Some,
        handled(Handler::TargetAnswer, ctx2) is Some,
        ctx1.call.a_leg_invite == ctx2.call.a_leg_invite,
        0 <= i < handled(Handler::TargetAnswer, ctx1)->0.actions.len(),
        0 <= j < handled(Handler::TargetAnswer, ctx2)->0.actions.len(),
        handled(Handler::TargetAnswer, ctx1)->0.actions[i] is SendReinvite,
        handled(Handler::TargetAnswer, ctx2)->0.actions[j] is SendReinvite,
    ensures
        handled(Handler::TargetAnswer, ctx1)->0.actions[i]->SendReinvite_body == handled(
            Handler::TargetAnswer,
            ctx2,
        )->0.actions[j]->SendReinvite_body,
{
    reveal(handled);
    reveal(target_answered);
    let st1 = ctx1.call.transfer->0;
    let st2 = ctx2.call.transfer->0;
    an_answering_target_is_offered_the_callers_description(
        ctx1,
        st1,
        ctx1.response()->0,
        st1.c_leg_id->0,
    );
    an_answering_target_is_offered_the_callers_description(
        ctx2,
        st2,
        ctx2.response()->0,
        st2.c_leg_id->0,
    );
}

/// A target that fails is reported to the referrer under its own status and phrase;
/// its leg ends, and the transfer is over.
pub proof fn a_failing_target_is_reported_and_over(
    ctx: RuleContextView,
    st: TransferStateView,
    resp: SipResponseView,
    c: Seq<char>,
)
    requires
        ctx.call.transfer == Some(st),
        ctx.response() == Some(resp),
        st.c_leg_id == Some(c),
    ensures
        handled(Handler::TargetFailure, ctx) is Some,
        ({
            let a = handled(Handler::TargetFailure, ctx)->0.actions;
            &&& !st.subscription_terminated ==> a.contains(
                told(
                    st.referrer_leg_id,
                    "terminated;reason=noresource"@,
                    resp.status as nat,
                    resp.reason,
                ),
            )
            &&& a.contains(
                RuleActionView::CancelTimer {
                    id: timer_key(TimerTypeView::ReferSubscriptionExpiry, None),
                },
            )
            &&& a.contains(
                RuleActionView::CancelTimer {
                    id: timer_key(TimerTypeView::ReferOverallSafety, None),
                },
            )
            &&& a.contains(
                RuleActionView::CancelTimer { id: timer_key(TimerTypeView::NoAnswer, Some(c)) },
            )
            &&& a.contains(
                RuleActionView::AddCdrEvent {
                    event_type: CdrEventType::Reject,
                    leg_id: c,
                    status_code: Some(resp.status as i64),
                    reason: Some(resp.reason),
                },
            )
            &&& a.contains(
                RuleActionView::TerminateLeg {
                    leg_id: c,
                    bye_disposition: Some(ByeDisposition::Rejected),
                },
            )
            &&& a.contains(
                RuleActionView::SetTransfer { state: None },
            )
            &&& a.len() == 6 + if !st.subscription_terminated {
                1int
            } else {
                0int
            }
        }),
{
    reveal(handled);
    reveal(target_failed);
    let a = handled(Handler::TargetFailure, ctx)->0.actions;
    if !st.subscription_terminated {
        assert(a[0] == told(
            st.referrer_leg_id,
            "terminated;reason=noresource"@,
            resp.status as nat,
            resp.reason,
        ));
        assert(a[1] == RuleActionView::CancelTimer {
            id: timer_key(TimerTypeView::ReferSubscriptionExpiry, None),
        });
        assert(a[2] == RuleActionView::CancelTimer {
            id: timer_key(TimerTypeView::ReferOverallSafety, None),
        });
        assert(a[3] == RuleActionView::CancelTimer {
            id: timer_key(TimerTypeView::NoAnswer, Some(c)),
        });
        assert(a[4] == RuleActionView::AddCdrEvent {
            event_type: CdrEventType::Reject,
            leg_id: c,
            status_code: Some(resp.status as i64),
            reason: Some(resp.reason),
        });
        assert(a[5] == RuleActionView::TerminateLeg {
            leg_id: c,
            bye_disposition: Some(ByeDisposition::Rejected),
        });
        assert(a[6] == RuleActionView::SetTransfer { state: None });
    } else {
        assert(a[0] == RuleActionView::CancelTimer {
            id: timer_key(TimerTypeView::ReferSubscriptionExpiry, None),
        });
        assert(a[1] == RuleActionView::CancelTimer {
            id: timer_key(TimerTypeView::ReferOverallSafety, None),
        });
        assert(a[2] == RuleActionView::CancelTimer {
            id: timer_key(TimerTypeView::NoAnswer, Some(c)),
        });
        assert(a[3] == RuleActionView::AddCdrEvent {
            event_type: CdrEventType::Reject,
            leg_id: c,
            status_code: Some(resp.status as i64),
            reason: Some(resp.reason),
        });
        assert(a[4] == RuleActionView::TerminateLeg {
            leg_id: c,
            bye_disposition: Some(ByeDisposition::Rejected),
        });
        assert(a[5] == RuleActionView::SetTransfer { state: None });
    }
}

/// A target that does not answer in time is reported to the referrer, its leg
/// destroyed, and the transfer is over.
pub proof fn a_target_that_stays_silent_is_reported_and_over(
    ctx: RuleContextView,
    st: TransferStateView,
    c: Seq<char>,
)
    requires
        ctx.call.transfer == Some(st),
        st.c_leg_id == Some(c),
    ensures
        handled(Handler::TargetNoAnswer, ctx) is Some,
        ({
            let a = handled(Handler::TargetNoAnswer, ctx)->0.actions;
            &&& !st.subscription_terminated ==> a.contains(
                told(st.referrer_leg_id, "terminated;reason=timeout"@, 408, "Request Timeout"@),
            )
            &&& a.contains(
                RuleActionView::AddCdrEvent {
                    event_type: CdrEventType::Timeout,
                    leg_id: c,
                    status_code: None,
                    reason: Some("no_answer_timeout"@),
                },
            )
            &&& a.contains(
                RuleActionView::DestroyLeg { leg_id: c },
            )
            &&& a.contains(
                RuleActionView::CancelTimer {
                    id: timer_key(TimerTypeView::ReferSubscriptionExpiry, None),
                },
            )
            &&& a.contains(
                RuleActionView::CancelTimer {
                    id: timer_key(TimerTypeView::ReferOverallSafety, None),
                },
            )
            &&& a.contains(
                RuleActionView::SetTransfer { state: None },
            )
            &&& a.len() == 5 + if !st.subscription_terminated {
                1int
            } else {
                0int
            }
        }),
{
    reveal(handled);
    reveal(target_unanswered);
    let a = handled(Handler::TargetNoAnswer, ctx)->0.actions;
    if !st.subscription_terminated {
        assert(a[0] == told(
            st.referrer_leg_id,
            "terminated;reason=timeout"@,
            408,
            "Request Timeout"@,
        ));
        assert(a[1] == RuleActionView::AddCdrEvent {
            event_type: CdrEventType::Timeout,
            leg_id: c,
            status_code: None,
            reason: Some("no_answer_timeout"@),
        });
        assert(a[2] == RuleActionView::DestroyLeg { leg_id: c });
        assert(a[3] == RuleActionView::CancelTimer {
            id: timer_key(TimerTypeView::ReferSubscriptionExpiry, None),
        });
        assert(a[4] == RuleActionView::CancelTimer {
            id: timer_key(TimerTypeView::ReferOverallSafety, None),
        });
        assert(a[5] == RuleActionView::SetTransfer { state: None });
    } else {
        assert(a[0] == RuleActionView::AddCdrEvent {
            event_type: CdrEventType::Timeout,
            leg_id: c,
            status_code: None,
            reason: Some("no_answer_timeout"@),
        });
        assert(a[1] == RuleActionView::DestroyLeg { leg_id: c });
        assert(a[2] == RuleActionView::CancelTimer {
            id: timer_key(TimerTypeView::ReferSubscriptionExpiry, None),
        });
        assert(a[3] == RuleActionView::CancelTimer {
            id: timer_key(TimerTypeView::ReferOverallSafety, None),
        });
        assert(a[4] == RuleActionView::SetTransfer { state: None });
    }
}

/// Once the target has taken the caller's description, the caller is asked to take
/// the one the target just answered with, and nothing else.
pub proof fn the_caller_is_offered_the_targets_description(
    ctx: RuleContextView,
    st: TransferStateView,
    resp: SipResponseView,
    c: Seq<char>,
)
    requires
        ctx.call.transfer == Some(st),
        ctx.response() == Some(resp),
        st.c_leg_id == Some(c),
    ensures
        handled(Handler::TargetRealigned, ctx) is Some,
        ({
            let a = handled(Handler::TargetRealigned, ctx)->0.actions;
            &&& a.contains(
                RuleActionView::AckLeg { leg_id: c, body: Seq::empty(), content_type: None },
            )
            &&& a.contains(
                RuleActionView::CancelTimer {
                    id: timer_key(TimerTypeView::ReferReinviteAnswer, Some(c)),
                },
            )
            &&& a.contains(
                RuleActionView::ScheduleTimer {
                    timer_type: TimerTypeView::ReferReinviteAnswer,
                    delay_sec: ctx.config.refer_reinvite_answer_sec,
                    leg_id: Some("a"@),
                },
            )
            &&& a.contains(
                RuleActionView::SendReinvite {
                    leg_id: "a"@,
                    body: resp.body,
                    add_headers: Seq::empty(),
                },
            )
            &&& a.contains(
                RuleActionView::SetTransfer {
                    state: Some(TransferStateView { phase: TransferPhase::ARealigning, ..st }),
                },
            )
            &&& a.len() == 5
            &&& forall|i: int|
                0 <= i < a.len() && (#[trigger] a[i]) is SendReinvite ==> a[i]->SendReinvite_leg_id == "a"@
                    && a[i]->SendReinvite_body == resp.body
        }),
{
    reveal(handled);
    reveal(target_realigned);
    let a = handled(Handler::TargetRealigned, ctx)->0.actions;
    assert(a[0] == RuleActionView::AckLeg { leg_id: c, body: Seq::empty(), content_type: None });
    assert(a[1] == RuleActionView::CancelTimer {
        id: timer_key(TimerTypeView::ReferReinviteAnswer, Some(c)),
    });
    assert(a[2] == RuleActionView::ScheduleTimer {
        timer_type: TimerTypeView::ReferReinviteAnswer,
        delay_sec: ctx.config.refer_reinvite_answer_sec,
        leg_id: Some("a"@),
    });
    assert(a[3] == RuleActionView::SendReinvite {
        leg_id: "a"@,
        body: resp.body,
        add_headers: Seq::empty(),
    });
    assert(a[4] == RuleActionView::SetTransfer {
        state: Some(TransferStateView { phase: TransferPhase::ARealigning, ..st }),
    });
}

/// Once the caller has taken the target's description, the two are bridged, and the
/// transfer is over. Nobody is hung up on.
pub proof fn a_completed_transfer_bridges_caller_and_target(
    ctx: RuleContextView,
    st: TransferStateView,
    c: Seq<char>,
)
    requires
        ctx.call.transfer == Some(st),
        st.c_leg_id == Some(c),
    ensures
        handled(Handler::CallerRealigned, ctx) is Some,
        ({
            let a = handled(Handler::CallerRealigned, ctx)->0.actions;
            &&& a.contains(
                RuleActionView::AckLeg { leg_id: "a"@, body: Seq::empty(), content_type: None },
            )
            &&& a.contains(
                RuleActionView::CancelTimer {
                    id: timer_key(TimerTypeView::ReferReinviteAnswer, Some("a"@)),
                },
            )
            &&& a.contains(
                RuleActionView::CancelTimer {
                    id: timer_key(TimerTypeView::ReferOverallSafety, None),
                },
            )
            &&& a.contains(
                RuleActionView::Merge { leg_a: "a"@, leg_b: c },
            )
            &&& a.contains(
                RuleActionView::AddCdrEvent {
                    event_type: CdrEventType::Answer,
                    leg_id: "a"@,
                    status_code: Some(200),
                    reason: Some("transfer-completed"@),
                },
            )
            &&& a.contains(
                RuleActionView::SetTransfer { state: None },
            )
            &&& a.len() == 6
        }),
{
    reveal(handled);
    reveal(caller_realigned);
    let a = handled(Handler::CallerRealigned, ctx)->0.actions;
    assert(a[0] == RuleActionView::AckLeg { leg_id: "a"@, body: Seq::empty(), content_type: None });
    assert(a[1] == RuleActionView::CancelTimer {
        id: timer_key(TimerTypeView::ReferReinviteAnswer, Some("a"@)),
    });
    assert(a[2] == RuleActionView::CancelTimer {
        id: timer_key(TimerTypeView::ReferOverallSafety, None),
    });
    assert(a[3] == RuleActionView::Merge { leg_a: "a"@, leg_b: c });
    assert(a[4] == RuleActionView::AddCdrEvent {
        event_type: CdrEventType::Answer,
        leg_id: "a"@,
        status_code: Some(200),
        reason: Some("transfer-completed"@),
    });
    assert(a[5] == RuleActionView::SetTransfer { state: None });
}

/// A target that refuses the caller's description ends the call.
pub proof fn a_target_that_refuses_realignment_ends_the_call(
    ctx: RuleContextView,
    st: TransferStateView,
    resp: SipResponseView,
    c: Seq<char>,
)
    requires
        ctx.call.transfer == Some(st),
        ctx.response() == Some(resp),
        st.c_leg_id == Some(c),
    ensures
        handled(Handler::TargetRealignFailed, ctx) is Some,
        ({
            let a = handled(Handler::TargetRealignFailed, ctx)->0.actions;
            &&& a.contains(
                RuleActionView::CancelTimer {
                    id: timer_key(TimerTypeView::ReferReinviteAnswer, Some(c)),
                },
            )
            &&& a.contains(
                RuleActionView::CancelTimer {
                    id: timer_key(TimerTypeView::ReferOverallSafety, None),
                },
            )
            &&& a.contains(
                RuleActionView::AddCdrEvent {
                    event_type: CdrEventType::Reject,
                    leg_id: c,
                    status_code: Some(resp.status as i64),
                    reason: Some("transfer-rollback-c-realign"@),
                },
            )
            &&& a.contains(
                RuleActionView::BeginTermination { reason: None },
            )
            &&& a.len() == 4
        }),
{
    reveal(handled);
    reveal(target_realign_failed);
    let a = handled(Handler::TargetRealignFailed, ctx)->0.actions;
    assert(a[0] == RuleActionView::CancelTimer {
        id: timer_key(TimerTypeView::ReferReinviteAnswer, Some(c)),
    });
    assert(a[1] == RuleActionView::CancelTimer {
        id: timer_key(TimerTypeView::ReferOverallSafety, None),
    });
    assert(a[2] == RuleActionView::AddCdrEvent {
        event_type: CdrEventType::Reject,
        leg_id: c,
        status_code: Some(resp.status as i64),
        reason: Some("transfer-rollback-c-realign"@),
    });
    assert(a[3] == RuleActionView::BeginTermination { reason: None });
}

/// A target that leaves the caller's description unanswered ends the call.
pub proof fn a_target_that_leaves_realignment_unanswered_ends_the_call(
    ctx: RuleContextView,
    st: TransferStateView,
    c: Seq<char>,
)
    requires
        ctx.call.transfer == Some(st),
        st.c_leg_id == Some(c),
    ensures
        handled(Handler::TargetRealignTimeout, ctx) is Some,
        ({
            let a = handled(Handler::TargetRealignTimeout, ctx)->0.actions;
            &&& a.contains(
                RuleActionView::CancelTimer {
                    id: timer_key(TimerTypeView::ReferOverallSafety, None),
                },
            )
            &&& a.contains(
                RuleActionView::AddCdrEvent {
                    event_type: CdrEventType::Timeout,
                    leg_id: c,
                    status_code: None,
                    reason: Some("transfer-rollback-c-realign"@),
                },
            )
            &&& a.contains(
                RuleActionView::BeginTermination { reason: None },
            )
            &&& a.len() == 3
        }),
{
    reveal(handled);
    reveal(target_realign_timed_out);
    let a = handled(Handler::TargetRealignTimeout, ctx)->0.actions;
    assert(a[0] == RuleActionView::CancelTimer {
        id: timer_key(TimerTypeView::ReferOverallSafety, None),
    });
    assert(a[1] == RuleActionView::AddCdrEvent {
        event_type: CdrEventType::Timeout,
        leg_id: c,
        status_code: None,
        reason: Some("transfer-rollback-c-realign"@),
    });
    assert(a[2] == RuleActionView::BeginTermination { reason: None });
}

/// A caller that refuses the target's description ends the call.
pub proof fn a_caller_that_refuses_realignment_ends_the_call(
    ctx: RuleContextView,
    resp: SipResponseView,
)
    requires
        ctx.response() == Some(resp),
    ensures
        handled(Handler::CallerRealignFailed, ctx) is Some,
        ({
            let a = handled(Handler::CallerRealignFailed, ctx)->0.actions;
            &&& a.contains(
                RuleActionView::CancelTimer {
                    id: timer_key(TimerTypeView::ReferReinviteAnswer, Some("a"@)),
                },
            )
            &&& a.contains(
                RuleActionView::CancelTimer {
                    id: timer_key(TimerTypeView::ReferOverallSafety, None),
                },
            )
            &&& a.contains(
                RuleActionView::AddCdrEvent {
                    event_type: CdrEventType::Reject,
                    leg_id: "a"@,
                    status_code: Some(resp.status as i64),
                    reason: Some("transfer-rollback-a-realign"@),
                },
            )
            &&& a.contains(
                RuleActionView::BeginTermination { reason: None },
            )
            &&& a.len() == 4
        }),
{
    reveal(handled);
    reveal(caller_realign_failed);
    let a = handled(Handler::CallerRealignFailed, ctx)->0.actions;
    assert(a[0] == RuleActionView::CancelTimer {
        id: timer_key(TimerTypeView::ReferReinviteAnswer, Some("a"@)),
    });
    assert(a[1] == RuleActionView::CancelTimer {
        id: timer_key(TimerTypeView::ReferOverallSafety, None),
    });
    assert(a[2] == RuleActionView::AddCdrEvent {
        event_type: CdrEventType::Reject,
        leg_id: "a"@,
        status_code: Some(resp.status as i64),
        reason: Some("transfer-rollback-a-realign"@),
    });
    assert(a[3] == RuleActionView::BeginTermination { reason: None });
}

/// A caller that leaves the target's description unanswered ends the call.
pub proof fn a_caller_that_leaves_realignment_unanswered_ends_the_call(
    ctx: RuleContextView,
)
    ensures
        handled(Handler::CallerRealignTimeout, ctx) is Some,
        ({
            let a = handled(Handler::CallerRealignTimeout, ctx)->0.actions;
            &&& a.contains(
                RuleActionView::CancelTimer {
                    id: timer_key(TimerTypeView::ReferOverallSafety, None),
                },
            )
            &&& a.contains(
                RuleActionView::AddCdrEvent {
                    event_type: CdrEventType::Timeout,
                    leg_id: "a"@,
                    status_code: None,
                    reason: Some("transfer-rollback-a-realign"@),
                },
            )
            &&& a.contains(
                RuleActionView::BeginTermination { reason: None },
            )
            &&& a.len() == 3
        }),
{
    reveal(handled);
    reveal(caller_realign_timed_out);
    let a = handled(Handler::CallerRealignTimeout, ctx)->0.actions;
    assert(a[0] == RuleActionView::CancelTimer {
        id: timer_key(TimerTypeView::ReferOverallSafety, None),
    });
    assert(a[1] == RuleActionView::AddCdrEvent {
        event_type: CdrEventType::Timeout,
        leg_id: "a"@,
        status_code: None,
        reason: Some("transfer-rollback-a-realign"@),
    });
    assert(a[2] == RuleActionView::BeginTermination { reason: None });
}

/// A transfer that takes too long ends the call, with every deadline of its own.
pub proof fn a_transfer_that_takes_too_long_ends_the_call(
    ctx: RuleContextView,
    st: TransferStateView,
)
    requires
        ctx.call.transfer == Some(st),
    ensures
        handled(Handler::TransferTimeout, ctx) is Some,
        ({
            let a = handled(Handler::TransferTimeout, ctx)->0.actions;
            &&& a.contains(
                RuleActionView::CancelTimer {
                    id: timer_key(TimerTypeView::ReferSubscriptionExpiry, None),
                },
            )
            &&& st.c_leg_id is Some ==> a.contains(
                RuleActionView::CancelTimer {
                    id: timer_key(TimerTypeView::ReferReinviteAnswer, st.c_leg_id),
                },
            )
            &&& a.contains(
                RuleActionView::CancelTimer {
                    id: timer_key(TimerTypeView::ReferReinviteAnswer, Some("a"@)),
                },
            )
            &&& a.contains(
                RuleActionView::AddCdrEvent {
                    event_type: CdrEventType::Timeout,
                    leg_id: "a"@,
                    status_code: None,
                    reason: Some("transfer-overall-timeout"@),
                },
            )
            &&& a.contains(
                RuleActionView::BeginTermination { reason: None },
            )
            &&& a.len() == 4 + if st.c_leg_id is Some {
                1int
            } else {
                0int
            }
        }),
{
    reveal(handled);
    reveal(transfer_timed_out);
    let a = handled(Handler::TransferTimeout, ctx)->0.actions;
    if st.c_leg_id is Some {
        assert(a[0] == RuleActionView::CancelTimer {
            id: timer_key(TimerTypeView::ReferSubscriptionExpiry, None),
        });
        assert(a[1] == RuleActionView::CancelTimer {
            id: timer_key(TimerTypeView::ReferReinviteAnswer, st.c_leg_id),
        });
        assert(a[2] == RuleActionView::CancelTimer {
            id: timer_key(TimerTypeView::ReferReinviteAnswer, Some("a"@)),
        });
        assert(a[3] == RuleActionView::AddCdrEvent {
            event_type: CdrEventType::Timeout,
            leg_id: "a"@,
            status_code: None,
            reason: Some("transfer-overall-timeout"@),
        });
        assert(a[4] == RuleActionView::BeginTermination { reason: None });
    } else {
        assert(a[0] == RuleActionView::CancelTimer {
            id: timer_key(TimerTypeView::ReferSubscriptionExpiry, None),
        });
        assert(a[1] == RuleActionView::CancelTimer {
            id: timer_key(TimerTypeView::ReferReinviteAnswer, Some("a"@)),
        });
        assert(a[2] == RuleActionView::AddCdrEvent {
            event_type: CdrEventType::Timeout,
            leg_id: "a"@,
            status_code: None,
            reason: Some("transfer-overall-timeout"@),
        });
        assert(a[3] == RuleActionView::BeginTermination { reason: None });
    }
}

/// A referrer that denies a report gets no further one; the transfer goes on.
pub proof fn a_referrer_that_wants_no_more_hears_no_more(
    ctx: RuleContextView,
    st: TransferStateView,
)
    requires
        ctx.call.transfer == Some(st),
    ensures
        handled(Handler::NotifyDenied, ctx) is Some,
        ({
            let a = handled(Handler::NotifyDenied, ctx)->0.actions;
            &&& a.contains(
                RuleActionView::SetTransfer {
                    state: Some(TransferStateView { subscription_terminated: true, ..st }),
                },
            )
            &&& a.len() == 1
        }),
{
    reveal(handled);
    reveal(subscription_over);
    let a = handled(Handler::NotifyDenied, ctx)->0.actions;
    assert(a[0] == RuleActionView::SetTransfer {
        state: Some(TransferStateView { subscription_terminated: true, ..st }),
    });
}

} // verus!
