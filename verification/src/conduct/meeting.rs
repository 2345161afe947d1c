//! Which events a rule meets: of what kind, from which side, in what state of the leg
//! and of the call.
use vstd::prelude::*;

use crate::call::{
    ByeDisposition, CallModelState, CallView, DialogView, Direction, LegDisposition, LegState,
    LegView, PeerPairView, RelayFirst18xStrategy, TimerKind,
};
use crate::context::columns_accept;
use crate::defaults::core_rules::{
    absorptions, answers, cancels, crossings, endings, failovers, give_ups, relays, renegotiations,
    timers,
};
use crate::executor::applies;
use crate::guards::guard_holds;
use crate::headers::{bare_uri, header_named, header_value, uri_has_replaces};
use crate::model::{Guard, Handler, MatchView, RuleContextView, StatusMatchView};
use crate::promote_pem::promote_rules;
use crate::refer_transfer::machine::machine_rules;
use crate::refer_transfer::machine::authorizing::{
    http_allow_rule, http_reject_rule, http_timeout_rule,
};
use crate::refer_transfer::machine::c_ringing::{
    c_1xx_to_notify_rule, c_200_initial_rule, c_fail_initial_rule, c_no_answer_rule,
};
use crate::refer_transfer::machine::guards::{
    a_glare_reinvite_rule, b_in_realign_reject_rule, c_glare_reinvite_rule, overall_timeout_rule,
    referrer_notify_481_rule, reject_second_refer_rule,
};
use crate::refer_transfer::machine::realign::{
    a_realign_200_rule, a_realign_fail_rule, a_realign_timeout_rule, c_realign_200_rule,
    c_realign_fail_rule, c_realign_timeout_rule,
};
use crate::refer_transfer::seed::seed_rules;
use crate::seqs::any_where;
use crate::state::{invite_open, invite_pending};
use crate::text::same_ignoring_case;
use crate::wire::MethodView;

verus! {

proof fn a_list_of_one<A>()
    ensures
        forall|s: Seq<A>, x: A|
            s.len() == 1 ==> (#[trigger] s.contains(x) <==> x == s[0]),
{
}

proof fn a_list_of_two<A>()
    ensures
        forall|s: Seq<A>, x: A|
            s.len() == 2 ==> (#[trigger] s.contains(x) <==> {
                ||| x == s[0]
                ||| x == s[1]
            }),
{
}

proof fn a_list_of_four<A>()
    ensures
        forall|s: Seq<A>, x: A|
            s.len() == 4 ==> (#[trigger] s.contains(x) <==> {
                ||| x == s[0]
                ||| x == s[1]
                ||| x == s[2]
                ||| x == s[3]
            }),
{
}

proof fn a_list_of_eight<A>()
    ensures
        forall|s: Seq<A>, x: A|
            s.len() == 8 ==> (#[trigger] s.contains(x) <==> {
                ||| x == s[0]
                ||| x == s[1]
                ||| x == s[2]
                ||| x == s[3]
                ||| x == s[4]
                ||| x == s[5]
                ||| x == s[6]
                ||| x == s[7]
            }),
{
}

proof fn a_list_of_seven<A>()
    ensures
        forall|s: Seq<A>, x: A|
            s.len() == 7 ==> (#[trigger] s.contains(x) <==> {
                ||| x == s[0]
                ||| x == s[1]
                ||| x == s[2]
                ||| x == s[3]
                ||| x == s[4]
                ||| x == s[5]
                ||| x == s[6]
            }),
{
}

/// What meets a call whose CANCEL is on its way, or whose leg has ended.
pub proof fn what_crosses_a_cancel(c: CallView, ctx: RuleContextView)
    ensures
        crossings().len() == 4,
        ({
            let r = crossings()[0];
            &&& r.id == "cancel-200-crossing"@
            &&& r.layer == 0
            &&& r.handler == Handler::CancelCrossed
            &&& r.overrides.len() == 0
            &&& !r.runs_while_terminating
            &&& r.machine is None
            &&& applies(r, c, ctx) <==> {
                &&& ctx.event is Response
                &&& ctx.event->response.method == MethodView::Invite
                &&& 200 <= ctx.event->response.status < 300
                &&& ctx.call.leg(ctx.source_leg_id) is Some
                &&& ctx.call.leg(ctx.source_leg_id)->0.disposition == LegDisposition::Cancelling
                &&& ctx.direction == Direction::FromB
            }
        }),
        ({
            let r = crossings()[1];
            &&& r.id == "absorb-1xx-crossing-cancel"@
            &&& r.layer == 0
            &&& r.handler == Handler::Absorb
            &&& r.overrides == seq!["relay-provisional"@]
            &&& !r.runs_while_terminating
            &&& r.machine is None
            &&& applies(r, c, ctx) <==> {
                &&& ctx.event is Response
                &&& ctx.event->response.method == MethodView::Invite
                &&& 100 <= ctx.event->response.status < 200
                &&& ctx.call.leg(ctx.source_leg_id) is Some
                &&& ctx.call.leg(ctx.source_leg_id)->0.disposition == LegDisposition::Cancelling
                &&& ctx.direction == Direction::FromB
            }
        }),
        ({
            let r = crossings()[2];
            &&& r.id == "resolve-cancel-response"@
            &&& r.layer == 0
            &&& r.handler == Handler::CancelResolved
            &&& r.overrides == seq!["route-failure"@, "absorb-stale-failure"@]
            &&& !r.runs_while_terminating
            &&& r.machine is None
            &&& applies(r, c, ctx) <==> {
                &&& ctx.event is Response
                &&& ctx.event->response.method == MethodView::Invite
                &&& ctx.call.leg(ctx.source_leg_id) is Some
                &&& ctx.call.leg(ctx.source_leg_id)->0.disposition == LegDisposition::Cancelling
                &&& ctx.direction == Direction::FromB
                &&& guard_holds(Guard::FailureFinal, ctx)
            }
        }),
        ({
            let r = crossings()[3];
            &&& r.id == "absorb-stale-failure"@
            &&& r.layer == 0
            &&& r.handler == Handler::Absorb
            &&& r.overrides.len() == 0
            &&& !r.runs_while_terminating
            &&& r.machine is None
            &&& applies(r, c, ctx) <==> {
                &&& ctx.event is Response
                &&& ctx.event->response.method == MethodView::Invite
                &&& ctx.call.leg(ctx.source_leg_id) is Some
                &&& ctx.call.leg(ctx.source_leg_id)->0.state == LegState::Terminated
                &&& ctx.direction == Direction::FromB
                &&& guard_holds(Guard::FailureFinal, ctx)
            }
        }),
{
    reveal(crossings);
    a_list_of_one::<MethodView>();
    a_list_of_two::<MethodView>();
    a_list_of_one::<LegState>();
    a_list_of_two::<LegState>();
    a_list_of_one::<LegDisposition>();
    a_list_of_one::<CallModelState>();
    a_list_of_two::<CallModelState>();
    a_list_of_one::<TimerKind>();
}

/// What meets a session that is being renegotiated.
pub proof fn what_renegotiates(c: CallView, ctx: RuleContextView)
    ensures
        renegotiations().len() == 5,
        ({
            let r = renegotiations()[0];
            &&& r.id == "reinvite-glare"@
            &&& r.layer == 0
            &&& r.handler == Handler::RefusePending
            &&& r.overrides == seq!["relay-reinvite"@]
            &&& !r.runs_while_terminating
            &&& r.machine is None
            &&& applies(r, c, ctx) <==> {
                &&& ctx.event is Request
                &&& ctx.event->request.method == MethodView::Invite
                &&& guard_holds(Guard::InviteGlare, ctx)
            }
        }),
        ({
            let r = renegotiations()[1];
            &&& r.id == "update-peer-unavailable"@
            &&& r.layer == 0
            &&& r.handler == Handler::RefusePending
            &&& r.overrides == seq!["relay-update"@]
            &&& !r.runs_while_terminating
            &&& r.machine is None
            &&& applies(r, c, ctx) <==> {
                &&& ctx.event is Request
                &&& ctx.event->request.method == MethodView::Update
                &&& guard_holds(Guard::PeerNotReady, ctx)
            }
        }),
        ({
            let r = renegotiations()[2];
            &&& r.id == "resolve-cancelled-reinvite-response"@
            &&& r.layer == 0
            &&& r.handler == Handler::CancelledReinviteAnswered
            &&& r.overrides == seq![
                "relay-reinvite-response"@,
                "relay-provisional"@,
                "confirm-dialog"@,
                "route-failure"@,
            ]
            &&& !r.runs_while_terminating
            &&& r.machine is None
            &&& applies(r, c, ctx) <==> {
                &&& ctx.event is Response
                &&& ctx.event->response.method == MethodView::Invite
                &&& guard_holds(Guard::CancelledReinviteAnswer, ctx)
            }
        }),
        ({
            let r = renegotiations()[3];
            &&& r.id == "relay-reinvite-response"@
            &&& r.layer == 0
            &&& r.handler == Handler::Relay
            &&& r.overrides == seq![
                "relay-provisional"@,
                "confirm-dialog"@,
                "route-failure"@,
            ]
            &&& !r.runs_while_terminating
            &&& r.machine is None
            &&& applies(r, c, ctx) <==> {
                &&& ctx.event is Response
                &&& ctx.event->response.method == MethodView::Invite
                &&& guard_holds(Guard::RelayedReinviteAnswer, ctx)
            }
        }),
        ({
            let r = renegotiations()[4];
            &&& r.id == "re-ack-retransmitted-2xx"@
            &&& r.layer == 0
            &&& r.handler == Handler::ReAck
            &&& r.overrides.len() == 0
            &&& !r.runs_while_terminating
            &&& r.machine is None
            &&& applies(r, c, ctx) <==> {
                &&& ctx.event is Response
                &&& ctx.event->response.method == MethodView::Invite
                &&& 200 <= ctx.event->response.status < 300
                &&& ctx.call.leg(ctx.source_leg_id) is Some
                &&& {
                    ||| ctx.call.leg(ctx.source_leg_id)->0.state == LegState::Confirmed
                    ||| ctx.call.leg(ctx.source_leg_id)->0.state == LegState::Terminated
                }
                &&& guard_holds(Guard::Repeated2xx, ctx)
            }
        }),
{
    reveal(renegotiations);
    a_list_of_one::<MethodView>();
    a_list_of_two::<MethodView>();
    a_list_of_one::<LegState>();
    a_list_of_two::<LegState>();
    a_list_of_one::<LegDisposition>();
    a_list_of_one::<CallModelState>();
    a_list_of_two::<CallModelState>();
    a_list_of_one::<TimerKind>();
}

/// What meets a response of a callee's, and one to a relayed request.
pub proof fn what_answers_an_invite(c: CallView, ctx: RuleContextView)
    ensures
        answers().len() == 5,
        ({
            let r = answers()[0];
            &&& r.id == "relay-provisional"@
            &&& r.layer == 0
            &&& r.handler == Handler::RelayProvisional
            &&& r.overrides.len() == 0
            &&& !r.runs_while_terminating
            &&& r.machine is None
            &&& applies(r, c, ctx) <==> {
                &&& ctx.event is Response
                &&& ctx.event->response.method == MethodView::Invite
                &&& 100 <= ctx.event->response.status < 200
                &&& ctx.direction == Direction::FromB
            }
        }),
        ({
            let r = answers()[1];
            &&& r.id == "confirm-dialog"@
            &&& r.layer == 0
            &&& r.handler == Handler::ConfirmDialog
            &&& r.overrides.len() == 0
            &&& !r.runs_while_terminating
            &&& r.machine is None
            &&& applies(r, c, ctx) <==> {
                &&& ctx.event is Response
                &&& ctx.event->response.method == MethodView::Invite
                &&& 200 <= ctx.event->response.status < 300
                &&& ctx.call.leg(ctx.source_leg_id) is Some
                &&& {
                    ||| ctx.call.leg(ctx.source_leg_id)->0.state == LegState::Trying
                    ||| ctx.call.leg(ctx.source_leg_id)->0.state == LegState::Early
                }
                &&& ctx.direction == Direction::FromB
            }
        }),
        ({
            let r = answers()[2];
            &&& r.id == "relay-non-invite-200"@
            &&& r.layer == 0
            &&& r.handler == Handler::Relay
            &&& r.overrides.len() == 0
            &&& !r.runs_while_terminating
            &&& r.machine is None
            &&& applies(r, c, ctx) <==> {
                &&& ctx.event is Response
                &&& {
                    ||| ctx.event->response.method == MethodView::Options
                    ||| ctx.event->response.method == MethodView::Info
                    ||| ctx.event->response.method == MethodView::Prack
                    ||| ctx.event->response.method == MethodView::Update
                    ||| ctx.event->response.method == MethodView::Refer
                    ||| ctx.event->response.method == MethodView::Message
                    ||| ctx.event->response.method == MethodView::Subscribe
                    ||| ctx.event->response.method == MethodView::Notify
                }
                &&& 200 <= ctx.event->response.status < 300
            }
        }),
        ({
            let r = answers()[3];
            &&& r.id == "relay-non-invite-failure"@
            &&& r.layer == 0
            &&& r.handler == Handler::Relay
            &&& r.overrides == seq!["handle-481"@]
            &&& !r.runs_while_terminating
            &&& r.machine is None
            &&& applies(r, c, ctx) <==> {
                &&& ctx.event is Response
                &&& {
                    ||| ctx.event->response.method == MethodView::Options
                    ||| ctx.event->response.method == MethodView::Info
                    ||| ctx.event->response.method == MethodView::Prack
                    ||| ctx.event->response.method == MethodView::Update
                    ||| ctx.event->response.method == MethodView::Refer
                    ||| ctx.event->response.method == MethodView::Message
                    ||| ctx.event->response.method == MethodView::Subscribe
                    ||| ctx.event->response.method == MethodView::Notify
                }
                &&& guard_holds(Guard::RelayedFailure, ctx)
            }
        }),
        ({
            let r = answers()[4];
            &&& r.id == "route-failure"@
            &&& r.layer == 0
            &&& r.handler == Handler::RouteFailure
            &&& r.overrides.len() == 0
            &&& !r.runs_while_terminating
            &&& r.machine is None
            &&& applies(r, c, ctx) <==> {
                &&& ctx.event is Response
                &&& ctx.event->response.method == MethodView::Invite
                &&& ctx.direction == Direction::FromB
                &&& guard_holds(Guard::FailureFinal, ctx)
            }
        }),
{
    reveal(answers);
    a_list_of_one::<MethodView>();
    a_list_of_two::<MethodView>();
    a_list_of_one::<LegState>();
    a_list_of_two::<LegState>();
    a_list_of_one::<LegDisposition>();
    a_list_of_one::<CallModelState>();
    a_list_of_two::<CallModelState>();
    a_list_of_one::<TimerKind>();
    a_list_of_eight::<MethodView>();
}

/// What meets the decision on a failed route.
pub proof fn what_a_failover_decides(c: CallView, ctx: RuleContextView)
    ensures
        failovers().len() == 4,
        ({
            let r = failovers()[0];
            &&& r.id == "failover-create-leg"@
            &&& r.layer == 0
            &&& r.handler == Handler::FailoverCreateLeg
            &&& r.overrides.len() == 0
            &&& !r.runs_while_terminating
            &&& r.machine is None
            &&& applies(r, c, ctx) <==> {
                &&& ctx.event is Internal
                &&& ctx.event->topic == "call-failure-result"@
                &&& ctx.event->outcome == "failover"@
            }
        }),
        ({
            let r = failovers()[1];
            &&& r.id == "failover-terminate"@
            &&& r.layer == 0
            &&& r.handler == Handler::FailoverTerminate
            &&& r.overrides.len() == 0
            &&& !r.runs_while_terminating
            &&& r.machine is None
            &&& applies(r, c, ctx) <==> {
                &&& ctx.event is Internal
                &&& ctx.event->topic == "call-failure-result"@
                &&& ctx.event->outcome == "terminate"@
            }
        }),
        ({
            let r = failovers()[2];
            &&& r.id == "failover-reject"@
            &&& r.layer == 0
            &&& r.handler == Handler::FailoverReject
            &&& r.overrides.len() == 0
            &&& !r.runs_while_terminating
            &&& r.machine is None
            &&& applies(r, c, ctx) <==> {
                &&& ctx.event is Internal
                &&& ctx.event->topic == "call-failure-result"@
                &&& ctx.event->outcome == "reject"@
            }
        }),
        ({
            let r = failovers()[3];
            &&& r.id == "failover-redirect"@
            &&& r.layer == 0
            &&& r.handler == Handler::FailoverRedirect
            &&& r.overrides.len() == 0
            &&& !r.runs_while_terminating
            &&& r.machine is None
            &&& applies(r, c, ctx) <==> {
                &&& ctx.event is Internal
                &&& ctx.event->topic == "call-failure-result"@
                &&& ctx.event->outcome == "redirect"@
            }
        }),
{
    reveal(failovers);
    a_list_of_one::<MethodView>();
    a_list_of_two::<MethodView>();
    a_list_of_one::<LegState>();
    a_list_of_two::<LegState>();
    a_list_of_one::<LegDisposition>();
    a_list_of_one::<CallModelState>();
    a_list_of_two::<CallModelState>();
    a_list_of_one::<TimerKind>();
}

/// What meets a response that nobody awaits.
pub proof fn what_is_absorbed(c: CallView, ctx: RuleContextView)
    ensures
        absorptions().len() == 6,
        ({
            let r = absorptions()[0];
            &&& r.id == "handle-481"@
            &&& r.layer == 0
            &&& r.handler == Handler::DialogDenied
            &&& r.overrides.len() == 0
            &&& !r.runs_while_terminating
            &&& r.machine is None
            &&& applies(r, c, ctx) <==> {
                &&& ctx.event is Response
                &&& ctx.event->response.status == 481
                &&& guard_holds(Guard::DialogDenied, ctx)
                &&& ctx.call.state == CallModelState::Active
            }
        }),
        ({
            let r = absorptions()[1];
            &&& r.id == "absorb-own-request-failure"@
            &&& r.layer == 0
            &&& r.handler == Handler::Absorb
            &&& r.overrides.len() == 0
            &&& !r.runs_while_terminating
            &&& r.machine is None
            &&& applies(r, c, ctx) <==> {
                &&& ctx.event is Response
                &&& {
                    ||| ctx.event->response.method == MethodView::Prack
                    ||| ctx.event->response.method == MethodView::Notify
                }
                &&& guard_holds(Guard::OwnRequestFailure, ctx)
            }
        }),
        ({
            let r = absorptions()[2];
            &&& r.id == "absorb-bye-200"@
            &&& r.layer == 0
            &&& r.handler == Handler::Absorb
            &&& r.overrides.len() == 0
            &&& !r.runs_while_terminating
            &&& r.machine is None
            &&& applies(r, c, ctx) <==> {
                &&& ctx.event is Response
                &&& {
                    ||| ctx.event->response.method == MethodView::Bye
                    ||| ctx.event->response.method == MethodView::Cancel
                }
                &&& 200 <= ctx.event->response.status < 300
            }
        }),
        ({
            let r = absorptions()[3];
            &&& r.id == "absorb-options-200"@
            &&& r.layer == 0
            &&& r.handler == Handler::KeepaliveAnswered
            &&& r.overrides == seq!["relay-non-invite-200"@]
            &&& !r.runs_while_terminating
            &&& r.machine is None
            &&& applies(r, c, ctx) <==> {
                &&& ctx.event is Response
                &&& ctx.event->response.method == MethodView::Options
                &&& 200 <= ctx.event->response.status < 300
                &&& guard_holds(Guard::OwnRequestAnswer, ctx)
            }
        }),
        ({
            let r = absorptions()[4];
            &&& r.id == "absorb-notify-200"@
            &&& r.layer == 0
            &&& r.handler == Handler::Absorb
            &&& r.overrides == seq!["relay-non-invite-200"@]
            &&& !r.runs_while_terminating
            &&& r.machine is None
            &&& applies(r, c, ctx) <==> {
                &&& ctx.event is Response
                &&& ctx.event->response.method == MethodView::Notify
                &&& 200 <= ctx.event->response.status < 300
                &&& guard_holds(Guard::OwnRequestAnswer, ctx)
            }
        }),
        ({
            let r = absorptions()[5];
            &&& r.id == "resolve-bye-response"@
            &&& r.layer == 0
            &&& r.handler == Handler::ByeAnswered
            &&& r.overrides == seq!["absorb-bye-200"@]
            &&& !r.runs_while_terminating
            &&& r.machine is None
            &&& applies(r, c, ctx) <==> {
                &&& ctx.event is Response
                &&& ctx.event->response.method == MethodView::Bye
                &&& guard_holds(Guard::ByeAwaited, ctx)
            }
        }),
{
    reveal(absorptions);
    a_list_of_one::<MethodView>();
    a_list_of_two::<MethodView>();
    a_list_of_one::<LegState>();
    a_list_of_two::<LegState>();
    a_list_of_one::<LegDisposition>();
    a_list_of_one::<CallModelState>();
    a_list_of_two::<CallModelState>();
    a_list_of_one::<TimerKind>();
}

/// What meets the ending of a session.
pub proof fn what_ends_a_call(c: CallView, ctx: RuleContextView)
    ensures
        endings().len() == 4,
        ({
            let r = endings()[0];
            &&& r.id == "resolve-cross-bye"@
            &&& r.layer == 0
            &&& r.handler == Handler::CrossBye
            &&& r.overrides.len() == 0
            &&& !r.runs_while_terminating
            &&& r.machine is None
            &&& applies(r, c, ctx) <==> {
                &&& ctx.event is Request
                &&& ctx.event->request.method == MethodView::Bye
                &&& ctx.call.state == CallModelState::Terminating
            }
        }),
        ({
            let r = endings()[1];
            &&& r.id == "post-bye-481"@
            &&& r.layer == 0
            &&& r.handler == Handler::RefuseUnknown
            &&& r.overrides == seq!["reinvite-glare"@, "update-peer-unavailable"@]
            &&& !r.runs_while_terminating
            &&& r.machine is None
            &&& applies(r, c, ctx) <==> {
                &&& ctx.event is Request
                &&& {
                    ||| ctx.event->request.method == MethodView::Invite
                    ||| ctx.event->request.method == MethodView::Update
                    ||| ctx.event->request.method == MethodView::Prack
                    ||| ctx.event->request.method == MethodView::Info
                    ||| ctx.event->request.method == MethodView::Message
                    ||| ctx.event->request.method == MethodView::Refer
                    ||| ctx.event->request.method == MethodView::Notify
                }
                &&& {
                    ||| ctx.call.state == CallModelState::Terminating
                    ||| ctx.call.state == CallModelState::Terminated
                }
            }
        }),
        ({
            let r = endings()[2];
            &&& r.id == "relay-ack"@
            &&& r.layer == 0
            &&& r.handler == Handler::Relay
            &&& r.overrides.len() == 0
            &&& !r.runs_while_terminating
            &&& r.machine is None
            &&& applies(r, c, ctx) <==> {
                &&& ctx.event is Request
                &&& ctx.event->request.method == MethodView::Ack
            }
        }),
        ({
            let r = endings()[3];
            &&& r.id == "relay-bye"@
            &&& r.layer == 0
            &&& r.handler == Handler::RelayBye
            &&& r.overrides.len() == 0
            &&& !r.runs_while_terminating
            &&& r.machine is None
            &&& applies(r, c, ctx) <==> {
                &&& ctx.event is Request
                &&& ctx.event->request.method == MethodView::Bye
                &&& ctx.call.state == CallModelState::Active
            }
        }),
{
    reveal(endings);
    a_list_of_one::<MethodView>();
    a_list_of_two::<MethodView>();
    a_list_of_one::<LegState>();
    a_list_of_two::<LegState>();
    a_list_of_one::<LegDisposition>();
    a_list_of_one::<CallModelState>();
    a_list_of_two::<CallModelState>();
    a_list_of_one::<TimerKind>();
    a_list_of_seven::<MethodView>();
}

/// What meets a request within the dialog.
pub proof fn what_is_relayed(c: CallView, ctx: RuleContextView)
    ensures
        relays().len() == 8,
        ({
            let r = relays()[0];
            &&& r.id == "relay-reinvite"@
            &&& r.layer == 0
            &&& r.handler == Handler::Relay
            &&& r.overrides.len() == 0
            &&& !r.runs_while_terminating
            &&& r.machine is None
            &&& applies(r, c, ctx) <==> {
                &&& ctx.event is Request
                &&& ctx.event->request.method == MethodView::Invite
            }
        }),
        ({
            let r = relays()[1];
            &&& r.id == "relay-prack"@
            &&& r.layer == 0
            &&& r.handler == Handler::RelayPrack
            &&& r.overrides.len() == 0
            &&& !r.runs_while_terminating
            &&& r.machine is None
            &&& applies(r, c, ctx) <==> {
                &&& ctx.event is Request
                &&& ctx.event->request.method == MethodView::Prack
            }
        }),
        ({
            let r = relays()[2];
            &&& r.id == "relay-options"@
            &&& r.layer == 0
            &&& r.handler == Handler::Relay
            &&& r.overrides.len() == 0
            &&& !r.runs_while_terminating
            &&& r.machine is None
            &&& applies(r, c, ctx) <==> {
                &&& ctx.event is Request
                &&& ctx.event->request.method == MethodView::Options
            }
        }),
        ({
            let r = relays()[3];
            &&& r.id == "relay-info"@
            &&& r.layer == 0
            &&& r.handler == Handler::Relay
            &&& r.overrides.len() == 0
            &&& !r.runs_while_terminating
            &&& r.machine is None
            &&& applies(r, c, ctx) <==> {
                &&& ctx.event is Request
                &&& ctx.event->request.method == MethodView::Info
            }
        }),
        ({
            let r = relays()[4];
            &&& r.id == "relay-update"@
            &&& r.layer == 0
            &&& r.handler == Handler::Relay
            &&& r.overrides.len() == 0
            &&& !r.runs_while_terminating
            &&& r.machine is None
            &&& applies(r, c, ctx) <==> {
                &&& ctx.event is Request
                &&& ctx.event->request.method == MethodView::Update
            }
        }),
        ({
            let r = relays()[5];
            &&& r.id == "relay-message"@
            &&& r.layer == 0
            &&& r.handler == Handler::Relay
            &&& r.overrides.len() == 0
            &&& !r.runs_while_terminating
            &&& r.machine is None
            &&& applies(r, c, ctx) <==> {
                &&& ctx.event is Request
                &&& ctx.event->request.method == MethodView::Message
            }
        }),
        ({
            let r = relays()[6];
            &&& r.id == "relay-refer"@
            &&& r.layer == 0
            &&& r.handler == Handler::Relay
            &&& r.overrides.len() == 0
            &&& !r.runs_while_terminating
            &&& r.machine is None
            &&& applies(r, c, ctx) <==> {
                &&& ctx.event is Request
                &&& ctx.event->request.method == MethodView::Refer
            }
        }),
        ({
            let r = relays()[7];
            &&& r.id == "relay-notify"@
            &&& r.layer == 0
            &&& r.handler == Handler::Relay
            &&& r.overrides.len() == 0
            &&& !r.runs_while_terminating
            &&& r.machine is None
            &&& applies(r, c, ctx) <==> {
                &&& ctx.event is Request
                &&& ctx.event->request.method == MethodView::Notify
            }
        }),
{
    reveal(relays);
    a_list_of_one::<MethodView>();
    a_list_of_two::<MethodView>();
    a_list_of_one::<LegState>();
    a_list_of_two::<LegState>();
    a_list_of_one::<LegDisposition>();
    a_list_of_one::<CallModelState>();
    a_list_of_two::<CallModelState>();
    a_list_of_one::<TimerKind>();
}

/// What meets a CANCEL, and a transaction that times out.
pub proof fn what_cancels_a_call(c: CallView, ctx: RuleContextView)
    ensures
        cancels().len() == 3,
        ({
            let r = cancels()[0];
            &&& r.id == "handle-reinvite-cancel"@
            &&& r.layer == 0
            &&& r.handler == Handler::ReinviteCancel
            &&& r.overrides == seq!["handle-cancel"@]
            &&& !r.runs_while_terminating
            &&& r.machine is None
            &&& applies(r, c, ctx) <==> {
                &&& ctx.event is Cancelled
                &&& guard_holds(Guard::InDialogCancel, ctx)
            }
        }),
        ({
            let r = cancels()[1];
            &&& r.id == "handle-cancel"@
            &&& r.layer == 0
            &&& r.handler == Handler::CallCancel
            &&& r.overrides.len() == 0
            &&& !r.runs_while_terminating
            &&& r.machine is None
            &&& applies(r, c, ctx) <==> {
                &&& ctx.event is Cancelled
            }
        }),
        ({
            let r = cancels()[2];
            &&& r.id == "handle-timeout"@
            &&& r.layer == 0
            &&& r.handler == Handler::TransactionTimeout
            &&& r.overrides.len() == 0
            &&& r.runs_while_terminating
            &&& r.machine is None
            &&& applies(r, c, ctx) <==> {
                &&& ctx.event is Timeout
            }
        }),
{
    reveal(cancels);
    a_list_of_one::<MethodView>();
    a_list_of_two::<MethodView>();
    a_list_of_one::<LegState>();
    a_list_of_two::<LegState>();
    a_list_of_one::<LegDisposition>();
    a_list_of_one::<CallModelState>();
    a_list_of_two::<CallModelState>();
    a_list_of_one::<TimerKind>();
}

/// What meets a timer of the call's own.
pub proof fn what_a_timer_wakes(c: CallView, ctx: RuleContextView)
    ensures
        timers().len() == 5,
        ({
            let r = timers()[0];
            &&& r.id == "no-answer"@
            &&& r.layer == 0
            &&& r.handler == Handler::NoAnswer
            &&& r.overrides.len() == 0
            &&& r.runs_while_terminating
            &&& r.machine is None
            &&& applies(r, c, ctx) <==> {
                &&& ctx.event is Timer
                &&& ctx.event->timer_type is NoAnswer
            }
        }),
        ({
            let r = timers()[1];
            &&& r.id == "setup-timeout"@
            &&& r.layer == 0
            &&& r.handler == Handler::SetupTimeout
            &&& r.overrides.len() == 0
            &&& r.runs_while_terminating
            &&& r.machine is None
            &&& applies(r, c, ctx) <==> {
                &&& ctx.event is Timer
                &&& ctx.event->timer_type is SetupTimeout
            }
        }),
        ({
            let r = timers()[2];
            &&& r.id == "max-duration"@
            &&& r.layer == 0
            &&& r.handler == Handler::MaxDuration
            &&& r.overrides.len() == 0
            &&& r.runs_while_terminating
            &&& r.machine is None
            &&& applies(r, c, ctx) <==> {
                &&& ctx.event is Timer
                &&& ctx.event->timer_type is GlobalDuration
            }
        }),
        ({
            let r = timers()[3];
            &&& r.id == "keepalive"@
            &&& r.layer == 0
            &&& r.handler == Handler::Keepalive
            &&& r.overrides.len() == 0
            &&& !r.runs_while_terminating
            &&& r.machine is None
            &&& applies(r, c, ctx) <==> {
                &&& ctx.event is Timer
                &&& ctx.event->timer_type is Keepalive
                &&& ctx.call.state == CallModelState::Active
            }
        }),
        ({
            let r = timers()[4];
            &&& r.id == "keepalive-timeout"@
            &&& r.layer == 0
            &&& r.handler == Handler::KeepaliveTimeout
            &&& r.overrides.len() == 0
            &&& !r.runs_while_terminating
            &&& r.machine is None
            &&& applies(r, c, ctx) <==> {
                &&& ctx.event is Timer
                &&& ctx.event->timer_type is KeepaliveTimeout
                &&& ctx.call.state == CallModelState::Active
            }
        }),
{
    reveal(timers);
    a_list_of_one::<MethodView>();
    a_list_of_two::<MethodView>();
    a_list_of_one::<LegState>();
    a_list_of_two::<LegState>();
    a_list_of_one::<LegDisposition>();
    a_list_of_one::<CallModelState>();
    a_list_of_two::<CallModelState>();
    a_list_of_one::<TimerKind>();
}

/// What meets a deadline that passed, and the reaper.
pub proof fn what_is_given_up(c: CallView, ctx: RuleContextView)
    ensures
        give_ups().len() == 6,
        ({
            let r = give_ups()[0];
            &&& r.id == "unacked-2xx-give-up"@
            &&& r.layer == 0
            &&& r.handler == Handler::AckGiveUp
            &&& r.overrides.len() == 0
            &&& !r.runs_while_terminating
            &&& r.machine is None
            &&& applies(r, c, ctx) <==> {
                &&& ctx.event is Timer
                &&& guard_holds(Guard::InitialAnswerGaveUp, ctx)
                &&& ctx.call.state == CallModelState::Active
            }
        }),
        ({
            let r = give_ups()[1];
            &&& r.id == "unacked-reinvite-2xx-give-up"@
            &&& r.layer == 0
            &&& r.handler == Handler::AckGiveUp
            &&& r.overrides.len() == 0
            &&& !r.runs_while_terminating
            &&& r.machine is None
            &&& applies(r, c, ctx) <==> {
                &&& ctx.event is Timer
                &&& guard_holds(Guard::ReinviteAnswerGaveUp, ctx)
                &&& ctx.call.state == CallModelState::Active
            }
        }),
        ({
            let r = give_ups()[2];
            &&& r.id == "unacked-reliable-1xx-give-up"@
            &&& r.layer == 0
            &&& r.handler == Handler::PrackGiveUp
            &&& r.overrides.len() == 0
            &&& !r.runs_while_terminating
            &&& r.machine is None
            &&& applies(r, c, ctx) <==> {
                &&& ctx.event is Timer
                &&& guard_holds(Guard::ProvisionalGaveUp, ctx)
                &&& ctx.call.state == CallModelState::Active
            }
        }),
        ({
            let r = give_ups()[3];
            &&& r.id == "reaper-stale"@
            &&& r.layer == 0
            &&& r.handler == Handler::ReaperStale
            &&& r.overrides.len() == 0
            &&& r.runs_while_terminating
            &&& r.machine is None
            &&& applies(r, c, ctx) <==> {
                &&& ctx.event is Internal
                &&& ctx.event->topic == "reaper"@
                &&& ctx.event->outcome == "stale"@
            }
        }),
        ({
            let r = give_ups()[4];
            &&& r.id == "reaper-fatal-error"@
            &&& r.layer == 0
            &&& r.handler == Handler::ReaperFatal
            &&& r.overrides.len() == 0
            &&& r.runs_while_terminating
            &&& r.machine is None
            &&& applies(r, c, ctx) <==> {
                &&& ctx.event is Internal
                &&& ctx.event->topic == "reaper"@
                &&& ctx.event->outcome == "fatal"@
            }
        }),
        ({
            let r = give_ups()[5];
            &&& r.id == "terminating-safety-timeout"@
            &&& r.layer == 0
            &&& r.handler == Handler::TerminatingSafety
            &&& r.overrides.len() == 0
            &&& r.runs_while_terminating
            &&& r.machine is None
            &&& applies(r, c, ctx) <==> {
                &&& ctx.event is Timer
                &&& ctx.event->timer_type is TerminatingTimeout
                &&& ctx.call.state == CallModelState::Terminating
            }
        }),
{
    reveal(give_ups);
    a_list_of_one::<MethodView>();
    a_list_of_two::<MethodView>();
    a_list_of_one::<LegState>();
    a_list_of_two::<LegState>();
    a_list_of_one::<LegDisposition>();
    a_list_of_one::<CallModelState>();
    a_list_of_two::<CallModelState>();
    a_list_of_one::<TimerKind>();
}

/// What meets a call whose early media may be, or was, promoted to an answer.
pub proof fn what_meets_a_promotion(c: CallView, ctx: RuleContextView)
    ensures
        promote_rules().len() == 8,
        ({
            let r = promote_rules()[0];
            &&& r.id == "promote-183-pem"@
            &&& r.layer == 100
            &&& r.handler == Handler::Promote183
            &&& r.overrides.len() == 0
            &&& !r.runs_while_terminating
            &&& r.machine is None
            &&& applies(r, c, ctx) <==> {
                &&& ctx.event is Response
                &&& ctx.event->response.method == MethodView::Invite
                &&& ctx.event->response.status == 183
                &&& ctx.direction == Direction::FromB
                &&& guard_holds(Guard::Promotable, ctx)
            }
        }),
        ({
            let r = promote_rules()[1];
            &&& r.id == "suppress-post-promote-18x"@
            &&& r.layer == 100
            &&& r.handler == Handler::SuppressProvisional
            &&& r.overrides.len() == 0
            &&& !r.runs_while_terminating
            &&& r.machine is None
            &&& applies(r, c, ctx) <==> {
                &&& ctx.event is Response
                &&& ctx.event->response.method == MethodView::Invite
                &&& 100 <= ctx.event->response.status < 200
                &&& ctx.direction == Direction::FromB
                &&& guard_holds(Guard::Promoted, ctx)
            }
        }),
        ({
            let r = promote_rules()[2];
            &&& r.id == "confirm-after-promote"@
            &&& r.layer == 100
            &&& r.handler == Handler::ConfirmPromoted
            &&& r.overrides.len() == 0
            &&& !r.runs_while_terminating
            &&& r.machine is None
            &&& applies(r, c, ctx) <==> {
                &&& ctx.event is Response
                &&& ctx.event->response.method == MethodView::Invite
                &&& 200 <= ctx.event->response.status < 300
                &&& ctx.call.leg(ctx.source_leg_id) is Some
                &&& {
                    ||| ctx.call.leg(ctx.source_leg_id)->0.state == LegState::Trying
                    ||| ctx.call.leg(ctx.source_leg_id)->0.state == LegState::Early
                }
                &&& ctx.direction == Direction::FromB
                &&& guard_holds(Guard::Promoted, ctx)
            }
        }),
        ({
            let r = promote_rules()[3];
            &&& r.id == "promote-resync-reinvite-response"@
            &&& r.layer == 100
            &&& r.handler == Handler::ResyncAnswered
            &&& r.overrides.len() == 0
            &&& !r.runs_while_terminating
            &&& r.machine is None
            &&& applies(r, c, ctx) <==> {
                &&& ctx.event is Response
                &&& ctx.event->response.method == MethodView::Invite
                &&& ctx.direction == Direction::FromA
                &&& guard_holds(Guard::ResyncAnswer, ctx)
            }
        }),
        ({
            let r = promote_rules()[4];
            &&& r.id == "promote-reject-a-reinvite-update"@
            &&& r.layer == 100
            &&& r.handler == Handler::RefusePending
            &&& r.overrides.len() == 0
            &&& !r.runs_while_terminating
            &&& r.machine is None
            &&& applies(r, c, ctx) <==> {
                &&& ctx.event is Request
                &&& {
                    ||| ctx.event->request.method == MethodView::Invite
                    ||| ctx.event->request.method == MethodView::Update
                }
                &&& ctx.direction == Direction::FromA
                &&& guard_holds(Guard::PromotionWindow, ctx)
            }
        }),
        ({
            let r = promote_rules()[5];
            &&& r.id == "promote-reject-a-other-indialog"@
            &&& r.layer == 100
            &&& r.handler == Handler::RefuseNotAcceptable
            &&& r.overrides.len() == 0
            &&& !r.runs_while_terminating
            &&& r.machine is None
            &&& applies(r, c, ctx) <==> {
                &&& ctx.event is Request
                &&& {
                    ||| ctx.event->request.method == MethodView::Info
                    ||| ctx.event->request.method == MethodView::Message
                }
                &&& ctx.direction == Direction::FromA
                &&& guard_holds(Guard::PromotionWindow, ctx)
            }
        }),
        ({
            let r = promote_rules()[6];
            &&& r.id == "promote-absorb-a-ack"@
            &&& r.layer == 100
            &&& r.handler == Handler::AbsorbPromotedAck
            &&& r.overrides.len() == 0
            &&& !r.runs_while_terminating
            &&& r.machine is None
            &&& applies(r, c, ctx) <==> {
                &&& ctx.event is Request
                &&& ctx.event->request.method == MethodView::Ack
                &&& ctx.direction == Direction::FromA
                &&& guard_holds(Guard::PromotedUnbridged, ctx)
            }
        }),
        ({
            let r = promote_rules()[7];
            &&& r.id == "promote-b-fails-post-promote"@
            &&& r.layer == 100
            &&& r.handler == Handler::PromotedFailure
            &&& r.overrides.len() == 0
            &&& !r.runs_while_terminating
            &&& r.machine is None
            &&& applies(r, c, ctx) <==> {
                &&& ctx.event is Response
                &&& ctx.event->response.method == MethodView::Invite
                &&& ctx.direction == Direction::FromB
                &&& guard_holds(Guard::PromotedFailure, ctx)
                &&& ctx.call.state == CallModelState::Active
            }
        }),
{
    reveal(promote_rules);
    a_list_of_one::<MethodView>();
    a_list_of_two::<MethodView>();
    a_list_of_one::<LegState>();
    a_list_of_two::<LegState>();
    a_list_of_one::<LegDisposition>();
    a_list_of_one::<CallModelState>();
    a_list_of_two::<CallModelState>();
    a_list_of_one::<TimerKind>();
}

/// What meets a REFER before a transfer is under way.
pub proof fn what_meets_a_refer(c: CallView, ctx: RuleContextView)
    ensures
        seed_rules().len() == 4,
        ({
            let r = seed_rules()[0];
            &&& r.id == "transfer-reject-replaces"@
            &&& r.layer == 0
            &&& r.handler == Handler::RefuseUnimplemented
            &&& r.overrides == seq!["transfer-reject-second-refer"@]
            &&& !r.runs_while_terminating
            &&& r.machine is None
            &&& applies(r, c, ctx) <==> {
                &&& ctx.event is Request
                &&& ctx.event->request.method == MethodView::Refer
                &&& ctx.direction == Direction::FromB
                &&& guard_holds(Guard::LocalAttended, ctx)
            }
        }),
        ({
            let r = seed_rules()[1];
            &&& r.id == "transfer-reject-a-leg-refer"@
            &&& r.layer == 0
            &&& r.handler == Handler::RefuseUnimplemented
            &&& r.overrides.len() == 0
            &&& !r.runs_while_terminating
            &&& r.machine is None
            &&& applies(r, c, ctx) <==> {
                &&& ctx.event is Request
                &&& ctx.event->request.method == MethodView::Refer
                &&& ctx.direction == Direction::FromA
                &&& guard_holds(Guard::LocalRefer, ctx)
            }
        }),
        ({
            let r = seed_rules()[2];
            &&& r.id == "transfer-refuse-unreadable-refer-to"@
            &&& r.layer == 0
            &&& r.handler == Handler::RefuseBadRequest
            &&& r.overrides.len() == 0
            &&& !r.runs_while_terminating
            &&& r.machine is None
            &&& applies(r, c, ctx) <==> {
                &&& ctx.event is Request
                &&& ctx.event->request.method == MethodView::Refer
                &&& ctx.direction == Direction::FromB
                &&& ctx.call.leg(ctx.source_leg_id) is Some
                &&& ctx.call.leg(ctx.source_leg_id)->0.state == LegState::Confirmed
                &&& ctx.call.leg(ctx.source_leg_id)->0.disposition == LegDisposition::Bridged
                &&& guard_holds(Guard::LocalUnreadable, ctx)
            }
        }),
        ({
            let r = seed_rules()[3];
            &&& r.id == "transfer-intercept-refer"@
            &&& r.layer == 0
            &&& r.handler == Handler::InterceptRefer
            &&& r.overrides.len() == 0
            &&& !r.runs_while_terminating
            &&& r.machine is None
            &&& applies(r, c, ctx) <==> {
                &&& ctx.event is Request
                &&& ctx.event->request.method == MethodView::Refer
                &&& ctx.direction == Direction::FromB
                &&& ctx.call.leg(ctx.source_leg_id) is Some
                &&& ctx.call.leg(ctx.source_leg_id)->0.state == LegState::Confirmed
                &&& ctx.call.leg(ctx.source_leg_id)->0.disposition == LegDisposition::Bridged
                &&& guard_holds(Guard::LocalTransfer, ctx)
            }
        }),
{
    reveal(seed_rules);
    a_list_of_one::<MethodView>();
    a_list_of_two::<MethodView>();
    a_list_of_one::<LegState>();
    a_list_of_two::<LegState>();
    a_list_of_one::<LegDisposition>();
    a_list_of_one::<CallModelState>();
    a_list_of_two::<CallModelState>();
    a_list_of_one::<TimerKind>();
}

/// What meets a transfer up to the answer of its target.
pub proof fn what_meets_a_transfer_that_rings(c: CallView, ctx: RuleContextView)
    ensures
        ({
            let r = machine_rules()[0];
            &&& r.id == "transfer-reject-second-refer"@
            &&& r.layer == 100
            &&& r.handler == Handler::RefusePending
            &&& r.overrides.len() == 0
            &&& !r.runs_while_terminating
            &&& applies(r, c, ctx) <==> {
                &&& ctx.event is Request
                &&& ctx.event->request.method == MethodView::Refer
                &&& ctx.direction == Direction::FromB
                &&& c.cursor("transfer"@) is Some
                &&& {
                    ||| c.cursor("transfer"@)->0 == "ReferAuthorizing"@
                    ||| c.cursor("transfer"@)->0 == "CRinging"@
                    ||| c.cursor("transfer"@)->0 == "CRealigning"@
                    ||| c.cursor("transfer"@)->0 == "ARealigning"@
                }
            }
        }),
        ({
            let r = machine_rules()[1];
            &&& r.id == "transfer-http-reject"@
            &&& r.layer == 100
            &&& r.handler == Handler::ReferDenied
            &&& r.overrides.len() == 0
            &&& !r.runs_while_terminating
            &&& applies(r, c, ctx) <==> {
                &&& ctx.event is Internal
                &&& ctx.event->topic == "refer-http-result"@
                &&& guard_holds(Guard::ReferDenied, ctx)
                &&& c.cursor("transfer"@) is Some
                &&& c.cursor("transfer"@)->0 == "ReferAuthorizing"@
            }
        }),
        ({
            let r = machine_rules()[2];
            &&& r.id == "transfer-http-allow"@
            &&& r.layer == 100
            &&& r.handler == Handler::ReferAllowed
            &&& r.overrides.len() == 0
            &&& !r.runs_while_terminating
            &&& applies(r, c, ctx) <==> {
                &&& ctx.event is Internal
                &&& ctx.event->topic == "refer-http-result"@
                &&& ctx.event->outcome == "allow"@
                &&& c.cursor("transfer"@) is Some
                &&& c.cursor("transfer"@)->0 == "ReferAuthorizing"@
            }
        }),
        ({
            let r = machine_rules()[3];
            &&& r.id == "transfer-http-timeout"@
            &&& r.layer == 100
            &&& r.handler == Handler::ReferTimeout
            &&& r.overrides.len() == 0
            &&& !r.runs_while_terminating
            &&& applies(r, c, ctx) <==> {
                &&& ctx.event is Timer
                &&& ctx.event->timer_type is ReferSubscriptionExpiry
                &&& c.cursor("transfer"@) is Some
                &&& c.cursor("transfer"@)->0 == "ReferAuthorizing"@
            }
        }),
        ({
            let r = machine_rules()[4];
            &&& r.id == "transfer-c-1xx-to-notify"@
            &&& r.layer == 100
            &&& r.handler == Handler::TargetProgress
            &&& r.overrides.len() == 0
            &&& !r.runs_while_terminating
            &&& applies(r, c, ctx) <==> {
                &&& ctx.event is Response
                &&& ctx.event->response.method == MethodView::Invite
                &&& 100 <= ctx.event->response.status < 200
                &&& ctx.direction == Direction::FromB
                &&& guard_holds(Guard::FromTarget, ctx)
                &&& c.cursor("transfer"@) is Some
                &&& c.cursor("transfer"@)->0 == "CRinging"@
            }
        }),
        ({
            let r = machine_rules()[5];
            &&& r.id == "transfer-c-200-initial"@
            &&& r.layer == 100
            &&& r.handler == Handler::TargetAnswer
            &&& r.overrides.len() == 0
            &&& !r.runs_while_terminating
            &&& applies(r, c, ctx) <==> {
                &&& ctx.event is Response
                &&& ctx.event->response.method == MethodView::Invite
                &&& 200 <= ctx.event->response.status < 300
                &&& ctx.direction == Direction::FromB
                &&& ctx.call.leg(ctx.source_leg_id) is Some
                &&& {
                    ||| ctx.call.leg(ctx.source_leg_id)->0.state == LegState::Trying
                    ||| ctx.call.leg(ctx.source_leg_id)->0.state == LegState::Early
                }
                &&& guard_holds(Guard::FromTarget, ctx)
                &&& c.cursor("transfer"@) is Some
                &&& c.cursor("transfer"@)->0 == "CRinging"@
            }
        }),
        ({
            let r = machine_rules()[6];
            &&& r.id == "transfer-c-fail-initial"@
            &&& r.layer == 100
            &&& r.handler == Handler::TargetFailure
            &&& r.overrides.len() == 0
            &&& !r.runs_while_terminating
            &&& applies(r, c, ctx) <==> {
                &&& ctx.event is Response
                &&& ctx.event->response.method == MethodView::Invite
                &&& ctx.direction == Direction::FromB
                &&& ctx.call.leg(ctx.source_leg_id) is Some
                &&& {
                    ||| ctx.call.leg(ctx.source_leg_id)->0.state == LegState::Trying
                    ||| ctx.call.leg(ctx.source_leg_id)->0.state == LegState::Early
                }
                &&& guard_holds(Guard::TargetFailure, ctx)
                &&& c.cursor("transfer"@) is Some
                &&& c.cursor("transfer"@)->0 == "CRinging"@
            }
        }),
        ({
            let r = machine_rules()[7];
            &&& r.id == "transfer-c-no-answer"@
            &&& r.layer == 100
            &&& r.handler == Handler::TargetNoAnswer
            &&& r.overrides.len() == 0
            &&& !r.runs_while_terminating
            &&& applies(r, c, ctx) <==> {
                &&& ctx.event is Timer
                &&& ctx.event->timer_type is NoAnswer
                &&& guard_holds(Guard::TargetTimer, ctx)
                &&& c.cursor("transfer"@) is Some
                &&& c.cursor("transfer"@)->0 == "CRinging"@
            }
        }),
{
    reveal(machine_rules);
    reveal(reject_second_refer_rule);
    reveal(http_reject_rule);
    reveal(http_allow_rule);
    reveal(http_timeout_rule);
    reveal(c_1xx_to_notify_rule);
    reveal(c_200_initial_rule);
    reveal(c_fail_initial_rule);
    reveal(c_no_answer_rule);
    a_list_of_one::<MethodView>();
    a_list_of_two::<MethodView>();
    a_list_of_one::<LegState>();
    a_list_of_two::<LegState>();
    a_list_of_one::<LegDisposition>();
    a_list_of_one::<CallModelState>();
    a_list_of_two::<CallModelState>();
    a_list_of_one::<TimerKind>();
    a_list_of_one::<Seq<char>>();
    a_list_of_two::<Seq<char>>();
    a_list_of_four::<Seq<char>>();
}

/// What meets a transfer whose ends are brought in line, and one that takes too long.
pub proof fn what_meets_a_transfer_that_realigns(c: CallView, ctx: RuleContextView)
    ensures
        ({
            let r = machine_rules()[8];
            &&& r.id == "transfer-c-realign-200"@
            &&& r.layer == 100
            &&& r.handler == Handler::TargetRealigned
            &&& r.overrides.len() == 0
            &&& !r.runs_while_terminating
            &&& applies(r, c, ctx) <==> {
                &&& ctx.event is Response
                &&& ctx.event->response.method == MethodView::Invite
                &&& 200 <= ctx.event->response.status < 300
                &&& ctx.direction == Direction::FromB
                &&& ctx.call.leg(ctx.source_leg_id) is Some
                &&& ctx.call.leg(ctx.source_leg_id)->0.state == LegState::Confirmed
                &&& guard_holds(Guard::FromTarget, ctx)
                &&& c.cursor("transfer"@) is Some
                &&& c.cursor("transfer"@)->0 == "CRealigning"@
            }
        }),
        ({
            let r = machine_rules()[9];
            &&& r.id == "transfer-c-realign-fail"@
            &&& r.layer == 100
            &&& r.handler == Handler::TargetRealignFailed
            &&& r.overrides.len() == 0
            &&& !r.runs_while_terminating
            &&& applies(r, c, ctx) <==> {
                &&& ctx.event is Response
                &&& ctx.event->response.method == MethodView::Invite
                &&& ctx.direction == Direction::FromB
                &&& ctx.call.leg(ctx.source_leg_id) is Some
                &&& ctx.call.leg(ctx.source_leg_id)->0.state == LegState::Confirmed
                &&& guard_holds(Guard::TargetFailure, ctx)
                &&& c.cursor("transfer"@) is Some
                &&& c.cursor("transfer"@)->0 == "CRealigning"@
            }
        }),
        ({
            let r = machine_rules()[10];
            &&& r.id == "transfer-c-realign-timeout"@
            &&& r.layer == 100
            &&& r.handler == Handler::TargetRealignTimeout
            &&& r.overrides.len() == 0
            &&& !r.runs_while_terminating
            &&& applies(r, c, ctx) <==> {
                &&& ctx.event is Timer
                &&& ctx.event->timer_type is ReferReinviteAnswer
                &&& c.cursor("transfer"@) is Some
                &&& c.cursor("transfer"@)->0 == "CRealigning"@
            }
        }),
        ({
            let r = machine_rules()[11];
            &&& r.id == "transfer-c-glare-reinvite"@
            &&& r.layer == 100
            &&& r.handler == Handler::RefusePending
            &&& r.overrides.len() == 0
            &&& !r.runs_while_terminating
            &&& applies(r, c, ctx) <==> {
                &&& ctx.event is Request
                &&& ctx.event->request.method == MethodView::Invite
                &&& ctx.direction == Direction::FromB
                &&& guard_holds(Guard::FromTarget, ctx)
                &&& c.cursor("transfer"@) is Some
                &&& {
                    ||| c.cursor("transfer"@)->0 == "CRealigning"@
                    ||| c.cursor("transfer"@)->0 == "ARealigning"@
                }
            }
        }),
        ({
            let r = machine_rules()[12];
            &&& r.id == "transfer-a-realign-200"@
            &&& r.layer == 100
            &&& r.handler == Handler::CallerRealigned
            &&& r.overrides.len() == 0
            &&& !r.runs_while_terminating
            &&& applies(r, c, ctx) <==> {
                &&& ctx.event is Response
                &&& ctx.event->response.method == MethodView::Invite
                &&& 200 <= ctx.event->response.status < 300
                &&& ctx.direction == Direction::FromA
                &&& guard_holds(Guard::FromCaller, ctx)
                &&& c.cursor("transfer"@) is Some
                &&& c.cursor("transfer"@)->0 == "ARealigning"@
            }
        }),
        ({
            let r = machine_rules()[13];
            &&& r.id == "transfer-a-realign-fail"@
            &&& r.layer == 100
            &&& r.handler == Handler::CallerRealignFailed
            &&& r.overrides.len() == 0
            &&& !r.runs_while_terminating
            &&& applies(r, c, ctx) <==> {
                &&& ctx.event is Response
                &&& ctx.event->response.method == MethodView::Invite
                &&& ctx.direction == Direction::FromA
                &&& guard_holds(Guard::CallerFailure, ctx)
                &&& c.cursor("transfer"@) is Some
                &&& c.cursor("transfer"@)->0 == "ARealigning"@
            }
        }),
        ({
            let r = machine_rules()[14];
            &&& r.id == "transfer-a-realign-timeout"@
            &&& r.layer == 100
            &&& r.handler == Handler::CallerRealignTimeout
            &&& r.overrides.len() == 0
            &&& !r.runs_while_terminating
            &&& applies(r, c, ctx) <==> {
                &&& ctx.event is Timer
                &&& ctx.event->timer_type is ReferReinviteAnswer
                &&& guard_holds(Guard::CallerTimer, ctx)
                &&& c.cursor("transfer"@) is Some
                &&& c.cursor("transfer"@)->0 == "ARealigning"@
            }
        }),
        ({
            let r = machine_rules()[15];
            &&& r.id == "transfer-a-glare-reinvite"@
            &&& r.layer == 100
            &&& r.handler == Handler::RefusePending
            &&& r.overrides.len() == 0
            &&& !r.runs_while_terminating
            &&& applies(r, c, ctx) <==> {
                &&& ctx.event is Request
                &&& ctx.event->request.method == MethodView::Invite
                &&& ctx.direction == Direction::FromA
                &&& c.cursor("transfer"@) is Some
                &&& {
                    ||| c.cursor("transfer"@)->0 == "CRealigning"@
                    ||| c.cursor("transfer"@)->0 == "ARealigning"@
                }
            }
        }),
        ({
            let r = machine_rules()[16];
            &&& r.id == "transfer-overall-timeout"@
            &&& r.layer == 100
            &&& r.handler == Handler::TransferTimeout
            &&& r.overrides.len() == 0
            &&& !r.runs_while_terminating
            &&& applies(r, c, ctx) <==> {
                &&& ctx.event is Timer
                &&& ctx.event->timer_type is ReferOverallSafety
                &&& c.cursor("transfer"@) is Some
                &&& {
                    ||| c.cursor("transfer"@)->0 == "ReferAuthorizing"@
                    ||| c.cursor("transfer"@)->0 == "CRinging"@
                    ||| c.cursor("transfer"@)->0 == "CRealigning"@
                    ||| c.cursor("transfer"@)->0 == "ARealigning"@
                }
            }
        }),
        ({
            let r = machine_rules()[17];
            &&& r.id == "transfer-notify-481"@
            &&& r.layer == 100
            &&& r.handler == Handler::NotifyDenied
            &&& r.overrides.len() == 0
            &&& !r.runs_while_terminating
            &&& applies(r, c, ctx) <==> {
                &&& ctx.event is Response
                &&& ctx.event->response.method == MethodView::Notify
                &&& ctx.event->response.status == 481
                &&& ctx.direction == Direction::FromB
                &&& guard_holds(Guard::ReferrerDenies, ctx)
                &&& c.cursor("transfer"@) is Some
                &&& {
                    ||| c.cursor("transfer"@)->0 == "ReferAuthorizing"@
                    ||| c.cursor("transfer"@)->0 == "CRinging"@
                    ||| c.cursor("transfer"@)->0 == "CRealigning"@
                    ||| c.cursor("transfer"@)->0 == "ARealigning"@
                }
            }
        }),
        ({
            let r = machine_rules()[18];
            &&& r.id == "transfer-b-in-cre-are-reject"@
            &&& r.layer == 100
            &&& r.handler == Handler::RefuseUnknown
            &&& r.overrides.len() == 0
            &&& !r.runs_while_terminating
            &&& applies(r, c, ctx) <==> {
                &&& ctx.event is Request
                &&& ctx.direction == Direction::FromB
                &&& guard_holds(Guard::ReferrerRequest, ctx)
                &&& c.cursor("transfer"@) is Some
                &&& {
                    ||| c.cursor("transfer"@)->0 == "CRealigning"@
                    ||| c.cursor("transfer"@)->0 == "ARealigning"@
                }
            }
        }),
{
    reveal(machine_rules);
    reveal(c_realign_200_rule);
    reveal(c_realign_fail_rule);
    reveal(c_realign_timeout_rule);
    reveal(c_glare_reinvite_rule);
    reveal(a_realign_200_rule);
    reveal(a_realign_fail_rule);
    reveal(a_realign_timeout_rule);
    reveal(a_glare_reinvite_rule);
    reveal(overall_timeout_rule);
    reveal(referrer_notify_481_rule);
    reveal(b_in_realign_reject_rule);
    a_list_of_one::<MethodView>();
    a_list_of_two::<MethodView>();
    a_list_of_one::<LegState>();
    a_list_of_two::<LegState>();
    a_list_of_one::<LegDisposition>();
    a_list_of_one::<CallModelState>();
    a_list_of_two::<CallModelState>();
    a_list_of_one::<TimerKind>();
    a_list_of_one::<Seq<char>>();
    a_list_of_two::<Seq<char>>();
    a_list_of_four::<Seq<char>>();
}

/// The condition of a rule on an event: what each of the core's says.
pub proof fn what_a_condition_says(ctx: RuleContextView, leg: LegView)
    requires
        ctx.call.leg(ctx.source_leg_id) == Some(leg),
    ensures
        ({
            let failed = ctx.event is Response && ctx.event->response.status >= 300;
            let asked = if ctx.event is Response && leg.dialogs.len() > 0 {
                leg.dialogs[0].pending(ctx.event->response.cseq)
            } else {
                None
            };
            let gave_up = ctx.event is Timer && ctx.event->timer_type is RepeatGiveUp;
            let owed = ctx.event->timer_type->RepeatGiveUp_obligation;
            &&& guard_holds(Guard::FailureFinal, ctx) <==> failed
            &&& guard_holds(Guard::CancelledReinviteAnswer, ctx) <==> asked is Some
                && asked->0.cancelled
            &&& guard_holds(Guard::RelayedReinviteAnswer, ctx) <==> asked is Some
                && !asked->0.cancelled
            &&& guard_holds(Guard::RelayedFailure, ctx) <==> failed && asked is Some
            &&& guard_holds(Guard::OwnRequestFailure, ctx) <==> failed && asked is None
            &&& guard_holds(Guard::OwnRequestAnswer, ctx) <==> asked is None
            &&& guard_holds(Guard::DialogDenied, ctx) <==> {
                &&& ctx.event is Response
                &&& ctx.event->response.method != MethodView::Prack
                &&& ctx.event->response.method != MethodView::Cancel
                &&& ctx.event->response.method != MethodView::Notify
            }
            &&& guard_holds(Guard::ByeAwaited, ctx) <==> leg.bye_disposition == Some(
                ByeDisposition::ByeSent,
            )
            &&& guard_holds(Guard::InDialogCancel, ctx) <==> ctx.event is Cancelled
                && ctx.event->in_dialog
            &&& guard_holds(Guard::ProvisionalGaveUp, ctx) <==> gave_up && owed is PrackOf
            &&& guard_holds(Guard::InitialAnswerGaveUp, ctx) || guard_holds(
                Guard::ReinviteAnswerGaveUp,
                ctx,
            ) <==> gave_up && owed is AckOf2xx
            &&& !(guard_holds(Guard::InitialAnswerGaveUp, ctx) && guard_holds(
                Guard::ReinviteAnswerGaveUp,
                ctx,
            ))
            &&& guard_holds(Guard::InitialAnswerGaveUp, ctx) ==> {
                let l = ctx.call.leg(owed->leg);
                &&& l is Some
                &&& l->0.dialogs.len() > 0
                &&& l->0.dialogs[0].ext.answered_2xx is Some
                &&& l->0.dialogs[0].ext.answered_2xx->0.dialog_tag == owed->dialog_tag
                &&& l->0.dialogs[0].ext.answered_2xx->0.cseq == owed->cseq
            }
            &&& guard_holds(Guard::Repeated2xx, ctx) <==> {
                let d = leg.dialogs[0];
                let resp = ctx.event->response;
                let tag = if resp.to_tag is Some {
                    resp.to_tag->0
                } else {
                    Seq::empty()
                };
                &&& leg.dialogs.len() > 0
                &&& ctx.event is Response
                &&& d.ext.ack_branch is Some
                &&& tag == d.sip.remote_tag
                &&& resp.cseq == if d.ext.pending_invite_txn is Some {
                    d.ext.pending_invite_txn->0.cseq
                } else {
                    d.sip.local_cseq
                }
                &&& asked is None
            }
        }),
{
}

/// An INVITE transaction is open on a dialog: a relayed INVITE waits there, or a 2xx
/// waits there for its ACK.
pub open spec fn has_an_open_invite(d: DialogView) -> bool {
    ||| exists|i: int|
        0 <= i < d.ext.inbound_pending_requests.len() && (
        #[trigger] d.ext.inbound_pending_requests[i]).method == MethodView::Invite
    ||| d.ext.pending_reinvite_2xx is Some
    ||| d.ext.answered_2xx is Some
}

/// The dialog the event of a bridged leg would be relayed on: its peer's first.
pub proof fn when_a_peer_can_be_asked(
    ctx: RuleContextView,
    leg: LegView,
    peer: LegView,
    bridge: PeerPairView,
)
    requires
        ctx.call.leg(ctx.source_leg_id) == Some(leg),
        ctx.call.active_peer == Some(bridge),
        bridge.leg_a == ctx.source_leg_id || bridge.leg_b == ctx.source_leg_id,
        ctx.call.leg(
            if bridge.leg_a == ctx.source_leg_id {
                bridge.leg_b
            } else {
                bridge.leg_a
            },
        ) == Some(peer),
    ensures
        guard_holds(Guard::PeerNotReady, ctx) <==> !{
            &&& peer.dialogs.len() > 0
            &&& peer.state != LegState::Terminated
            &&& peer.dialogs[0].sip.remote_tag.len() > 0
        },
        guard_holds(Guard::InviteGlare, ctx) <==> {
            ||| leg.dialogs.len() > 0 && has_an_open_invite(leg.dialogs[0])
            ||| peer.dialogs.len() > 0 && has_an_open_invite(peer.dialogs[0])
        },
{
    if leg.dialogs.len() > 0 {
        an_invite_is_open(leg.dialogs[0]);
    }
    if peer.dialogs.len() > 0 {
        an_invite_is_open(peer.dialogs[0]);
    }
}

proof fn an_invite_is_open(d: DialogView)
    ensures
        invite_open(d) == has_an_open_invite(d),
{
    let ps = d.ext.inbound_pending_requests;
    if any_where(ps, invite_pending()) {
        let i = choose|i: int| 0 <= i < ps.len() && invite_pending()(#[trigger] ps[i]);
        assert(ps[i].method == MethodView::Invite);
    }
    if exists|i: int| 0 <= i < ps.len() && (#[trigger] ps[i]).method == MethodView::Invite {
        let i = choose|i: int| 0 <= i < ps.len() && (#[trigger] ps[i]).method == MethodView::Invite;
        assert(invite_pending()(ps[i]));
    }
}

/// What the conditions of a promotion say: it is switched on for the call, and has or
/// has not happened yet.
pub proof fn what_a_promotion_depends_on(ctx: RuleContextView)
    ensures
        ({
            let on = ctx.call.features is Some && ctx.call.features->0.relay_first_18x_to_180
                == Some(RelayFirst18xStrategy::PromotePemTo200);
            let p = ctx.call.promote_pem;
            let done = p is Some && p->0.promoted;
            &&& guard_holds(Guard::Promotable, ctx) <==> {
                &&& on
                &&& !done
                &&& ctx.event is Response
                &&& ctx.event->response.body.len() > 0
                &&& exists|i: int|
                    0 <= i < ctx.event->response.headers.len() && same_ignoring_case(
                        (#[trigger] ctx.event->response.headers[i]).name,
                        "P-Early-Media"@,
                    )
            }
            &&& guard_holds(Guard::Promoted, ctx) <==> on && done
            &&& guard_holds(Guard::ResyncAnswer, ctx) <==> {
                &&& on
                &&& ctx.event is Response
                &&& p is Some
                &&& p->0.resync_reinvite_cseq == Some(ctx.event->response.cseq)
            }
            &&& guard_holds(Guard::PromotionWindow, ctx) <==> on && p is Some && p->0.window_open
            &&& guard_holds(Guard::PromotedUnbridged, ctx) <==> on && done
                && ctx.call.active_peer is None
            &&& guard_holds(Guard::PromotedFailure, ctx) <==> on && done && ctx.event is Response
                && ctx.event->response.status >= 300
        }),
{
    if ctx.event is Response {
        let hs = ctx.event->response.headers;
        let name = "P-Early-Media"@;
        if any_where(hs, header_named(name)) {
            let i = choose|i: int| 0 <= i < hs.len() && header_named(name)(#[trigger] hs[i]);
            assert(same_ignoring_case(hs[i].name, name));
        }
        if exists|i: int| 0 <= i < hs.len() && same_ignoring_case((#[trigger] hs[i]).name, name) {
            let i = choose|i: int|
                0 <= i < hs.len() && same_ignoring_case((#[trigger] hs[i]).name, name);
            assert(header_named(name)(hs[i]));
        }
    }
}

/// What the conditions of a transfer say: that it is done here, whom the event comes
/// from, and whether the target can be read.
pub proof fn what_a_transfer_depends_on(ctx: RuleContextView)
    ensures
        ({
            let here = ctx.call.features is Some && ctx.call.features->0.refer;
            let t = ctx.call.transfer;
            let to = if ctx.event is Request {
                header_value(ctx.event->request.headers, "Refer-To"@)
            } else {
                None
            };
            let reads = to is Some && bare_uri(to->0) is Some;
            let replaces = reads && uri_has_replaces(to->0);
            let failed = ctx.event is Response && ctx.event->response.status >= 300;
            let of_target = t is Some && t->0.c_leg_id == Some(ctx.source_leg_id);
            &&& guard_holds(Guard::LocalRefer, ctx) <==> here
            &&& guard_holds(Guard::LocalAttended, ctx) <==> here && replaces
            &&& guard_holds(Guard::LocalUnreadable, ctx) <==> here && !reads && t is None
            &&& guard_holds(Guard::LocalTransfer, ctx) <==> here && reads && !replaces && t is None
            &&& guard_holds(Guard::ReferDenied, ctx) <==> ctx.event is Internal && (
            ctx.event->outcome == "reject"@ || ctx.event->outcome == "error"@)
            &&& guard_holds(Guard::FromTarget, ctx) <==> of_target
            &&& guard_holds(Guard::TargetFailure, ctx) <==> failed && of_target
            &&& guard_holds(Guard::TargetTimer, ctx) <==> {
                &&& t is Some
                &&& t->0.c_leg_id is Some
                &&& ctx.event is Timer
                &&& ctx.event->leg_id == t->0.c_leg_id
            }
            &&& guard_holds(Guard::FromCaller, ctx) <==> ctx.source_leg_id == "a"@
            &&& guard_holds(Guard::CallerFailure, ctx) <==> failed && ctx.source_leg_id == "a"@
            &&& guard_holds(Guard::CallerTimer, ctx) <==> ctx.event is Timer && ctx.event->leg_id
                == Some("a"@)
            &&& guard_holds(Guard::ReferrerRequest, ctx) <==> {
                &&& ctx.event is Request
                &&& ctx.event->request.method != MethodView::Bye
                &&& t is Some
                &&& t->0.referrer_leg_id == ctx.source_leg_id
            }
            &&& guard_holds(Guard::ReferrerDenies, ctx) <==> {
                &&& t is Some
                &&& t->0.referrer_leg_id == ctx.source_leg_id
                &&& guard_holds(Guard::OwnRequestAnswer, ctx)
            }
        }),
{
}

/// A column of a matcher accepts what it says and no more: with it the matcher accepts
/// the events it accepts without, and of those only the ones the column is for.
pub proof fn a_column_accepts_what_it_says(m: MatchView, ctx: RuleContextView)
    ensures
        ({
            let leg = ctx.call.leg(ctx.source_leg_id);
            let method = if ctx.event is Request {
                Some(ctx.event->request.method)
            } else if ctx.event is Response {
                Some(ctx.event->response.method)
            } else if ctx.event is Timeout {
                ctx.event->method
            } else {
                None
            };
            &&& m.methods is Some ==> (columns_accept(m, ctx) <==> columns_accept(
                MatchView { methods: None, ..m },
                ctx,
            ) && method is Some && m.methods->0.contains(method->0))
            &&& m.direction is Some ==> (columns_accept(m, ctx) <==> columns_accept(
                MatchView { direction: None, ..m },
                ctx,
            ) && ctx.direction == m.direction->0)
            &&& m.leg_state is Some ==> (columns_accept(m, ctx) <==> columns_accept(
                MatchView { leg_state: None, ..m },
                ctx,
            ) && leg is Some && m.leg_state->0.contains(leg->0.state))
            &&& m.leg_disposition is Some ==> (columns_accept(m, ctx) <==> columns_accept(
                MatchView { leg_disposition: None, ..m },
                ctx,
            ) && leg is Some && m.leg_disposition->0.contains(leg->0.disposition))
            &&& m.call_state is Some ==> (columns_accept(m, ctx) <==> columns_accept(
                MatchView { call_state: None, ..m },
                ctx,
            ) && m.call_state->0.contains(ctx.call.state))
            &&& m.topic is Some ==> (columns_accept(m, ctx) <==> columns_accept(
                MatchView { topic: None, ..m },
                ctx,
            ) && ctx.event is Internal && ctx.event->topic == m.topic->0)
            &&& m.outcome is Some ==> (columns_accept(m, ctx) <==> columns_accept(
                MatchView { outcome: None, ..m },
                ctx,
            ) && ctx.event is Internal && ctx.event->outcome == m.outcome->0)
            &&& m.status is Code ==> (columns_accept(m, ctx) <==> columns_accept(
                MatchView { status: StatusMatchView::Any, ..m },
                ctx,
            ) && ctx.event is Response && ctx.event->response.status == m.status->code)
            &&& m.status is Class ==> (columns_accept(m, ctx) <==> columns_accept(
                MatchView { status: StatusMatchView::Any, ..m },
                ctx,
            ) && ctx.event is Response && ctx.event->response.status / 100 == m.status->class)
        }),
{
}

} // verus!
