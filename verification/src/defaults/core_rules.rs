//! The rules every call has, in the order in which they are tried: the corner
//! cases first, the relays of whole methods last. A rule displaces those it
//! overrides wherever both apply.
use vstd::prelude::*;

use crate::call::{CallModelState, Direction, LegDisposition, LegState, TimerKind};
use crate::model::{
    Guard, Handler, Match, MatchView, RuleDefinition, RuleDefinitionView, CORE_LAYER,
};
use crate::seqs::views;
use crate::wire::{Method, MethodView};

verus! {

/// A rule every call has.
pub open spec fn every_call(
    id: Seq<char>,
    overrides: Seq<Seq<char>>,
    matcher: MatchView,
    handler: Handler,
) -> RuleDefinitionView {
    RuleDefinitionView::core_rule(id, CORE_LAYER, overrides, matcher, handler)
}

fn rule(id: &str, overrides: Vec<&str>, matcher: Match, handler: Handler) -> (r: RuleDefinition)
    ensures
        r@ == every_call(id@, views(overrides@), matcher@, handler),
{
    RuleDefinition::core_rule(id, CORE_LAYER, overrides, matcher, handler)
}

fn plain(id: &str, matcher: Match, handler: Handler) -> (r: RuleDefinition)
    ensures
        r@ == every_call(id@, Seq::empty(), matcher@, handler),
{
    let none: Vec<&str> = Vec::new();
    assert(views(none@) =~= Seq::<Seq<char>>::empty());
    rule(id, none, matcher, handler)
}

/// A callee's response crosses the CANCEL of its INVITE, or comes after its leg's end.
#[verifier::opaque]
pub open spec fn crossings() -> Seq<RuleDefinitionView> {
    seq![
        every_call(
            "cancel-200-crossing"@,
            Seq::empty(),
            MatchView::response()
                .method(MethodView::Invite)
                .status_class(2)
                .disposed(LegDisposition::Cancelling)
                .from(Direction::FromB),
            Handler::CancelCrossed,
        ),
        every_call(
            "absorb-1xx-crossing-cancel"@,
            seq!["relay-provisional"@],
            MatchView::response()
                .method(MethodView::Invite)
                .status_class(1)
                .disposed(LegDisposition::Cancelling)
                .from(Direction::FromB),
            Handler::Absorb,
        ),
        every_call(
            "resolve-cancel-response"@,
            seq!["route-failure"@, "absorb-stale-failure"@],
            MatchView::response()
                .method(MethodView::Invite)
                .disposed(LegDisposition::Cancelling)
                .from(Direction::FromB)
                .when(Guard::FailureFinal),
            Handler::CancelResolved,
        ),
        every_call(
            "absorb-stale-failure"@,
            Seq::empty(),
            MatchView::response()
                .method(MethodView::Invite)
                .leg_states(seq![LegState::Terminated])
                .from(Direction::FromB)
                .when(Guard::FailureFinal),
            Handler::Absorb,
        ),
    ]
}

fn crossings_rules() -> (r: Vec<RuleDefinition>)
    ensures
        views(r@) == crossings(),
{
    proof {
        reveal(crossings);
    }
    let over_1: Vec<&str> = vec!["relay-provisional"];
    assert(views(over_1@) =~= seq!["relay-provisional"@]);
    let over_2: Vec<&str> = vec!["route-failure", "absorb-stale-failure"];
    assert(views(over_2@) =~= seq!["route-failure"@, "absorb-stale-failure"@]);
    let states_3: Vec<LegState> = vec![LegState::Terminated];
    assert(states_3@ =~= seq![LegState::Terminated]);
    let r = vec![
        plain(
            "cancel-200-crossing",
            Match::response()
                .method(Method::Invite)
                .status_class(2)
                .leg_disposition(LegDisposition::Cancelling)
                .direction(Direction::FromB),
            Handler::CancelCrossed,
        ),
        rule(
            "absorb-1xx-crossing-cancel",
            over_1,
            Match::response()
                .method(Method::Invite)
                .status_class(1)
                .leg_disposition(LegDisposition::Cancelling)
                .direction(Direction::FromB),
            Handler::Absorb,
        ),
        rule(
            "resolve-cancel-response",
            over_2,
            Match::response()
                .method(Method::Invite)
                .leg_disposition(LegDisposition::Cancelling)
                .direction(Direction::FromB)
                .filter(Guard::FailureFinal),
            Handler::CancelResolved,
        ),
        plain(
            "absorb-stale-failure",
            Match::response()
                .method(Method::Invite)
                .leg_states(states_3)
                .direction(Direction::FromB)
                .filter(Guard::FailureFinal),
            Handler::Absorb,
        ),
    ];
    assert(views(r@) =~= crossings());
    r
}

/// An INVITE within the dialog, the UPDATE that cannot be relayed, and what answers
/// them.
#[verifier::opaque]
pub open spec fn renegotiations() -> Seq<RuleDefinitionView> {
    seq![
        every_call(
            "reinvite-glare"@,
            seq!["relay-reinvite"@],
            MatchView::request().method(MethodView::Invite).when(Guard::InviteGlare),
            Handler::RefusePending,
        ),
        every_call(
            "update-peer-unavailable"@,
            seq!["relay-update"@],
            MatchView::request().method(MethodView::Update).when(Guard::PeerNotReady),
            Handler::RefusePending,
        ),
        every_call(
            "resolve-cancelled-reinvite-response"@,
            seq![
                "relay-reinvite-response"@,
                "relay-provisional"@,
                "confirm-dialog"@,
                "route-failure"@,
            ],
            MatchView::response().method(MethodView::Invite).when(Guard::CancelledReinviteAnswer),
            Handler::CancelledReinviteAnswered,
        ),
        every_call(
            "relay-reinvite-response"@,
            seq!["relay-provisional"@, "confirm-dialog"@, "route-failure"@],
            MatchView::response().method(MethodView::Invite).when(Guard::RelayedReinviteAnswer),
            Handler::Relay,
        ),
        every_call(
            "re-ack-retransmitted-2xx"@,
            Seq::empty(),
            MatchView::response()
                .method(MethodView::Invite)
                .status_class(2)
                .leg_states(seq![LegState::Confirmed, LegState::Terminated])
                .when(Guard::Repeated2xx),
            Handler::ReAck,
        ),
    ]
}

fn renegotiations_rules() -> (r: Vec<RuleDefinition>)
    ensures
        views(r@) == renegotiations(),
{
    proof {
        reveal(renegotiations);
    }
    let over_1: Vec<&str> = vec!["relay-reinvite"];
    assert(views(over_1@) =~= seq!["relay-reinvite"@]);
    let over_2: Vec<&str> = vec!["relay-update"];
    assert(views(over_2@) =~= seq!["relay-update"@]);
    let over_3: Vec<&str> = vec![
        "relay-reinvite-response",
        "relay-provisional",
        "confirm-dialog",
        "route-failure",
    ];
    assert(
        views(over_3@) =~= seq![
            "relay-reinvite-response"@,
            "relay-provisional"@,
            "confirm-dialog"@,
            "route-failure"@,
        ]
    );
    let over_4: Vec<&str> = vec!["relay-provisional", "confirm-dialog", "route-failure"];
    assert(views(over_4@) =~= seq!["relay-provisional"@, "confirm-dialog"@, "route-failure"@]);
    let states_5: Vec<LegState> = vec![LegState::Confirmed, LegState::Terminated];
    assert(states_5@ =~= seq![LegState::Confirmed, LegState::Terminated]);
    let r = vec![
        rule(
            "reinvite-glare",
            over_1,
            Match::request().method(Method::Invite).filter(Guard::InviteGlare),
            Handler::RefusePending,
        ),
        rule(
            "update-peer-unavailable",
            over_2,
            Match::request().method(Method::Update).filter(Guard::PeerNotReady),
            Handler::RefusePending,
        ),
        rule(
            "resolve-cancelled-reinvite-response",
            over_3,
            Match::response().method(Method::Invite).filter(Guard::CancelledReinviteAnswer),
            Handler::CancelledReinviteAnswered,
        ),
        rule(
            "relay-reinvite-response",
            over_4,
            Match::response().method(Method::Invite).filter(Guard::RelayedReinviteAnswer),
            Handler::Relay,
        ),
        plain(
            "re-ack-retransmitted-2xx",
            Match::response()
                .method(Method::Invite)
                .status_class(2)
                .leg_states(states_5)
                .filter(Guard::Repeated2xx),
            Handler::ReAck,
        ),
    ];
    assert(views(r@) =~= renegotiations());
    r
}

/// The callee rings, answers or fails, and what answers a relayed request.
#[verifier::opaque]
pub open spec fn answers() -> Seq<RuleDefinitionView> {
    seq![
        every_call(
            "relay-provisional"@,
            Seq::empty(),
            MatchView::response().method(MethodView::Invite).status_class(1).from(Direction::FromB),
            Handler::RelayProvisional,
        ),
        every_call(
            "confirm-dialog"@,
            Seq::empty(),
            MatchView::response()
                .method(MethodView::Invite)
                .status_class(2)
                .leg_states(seq![LegState::Trying, LegState::Early])
                .from(Direction::FromB),
            Handler::ConfirmDialog,
        ),
        every_call(
            "relay-non-invite-200"@,
            Seq::empty(),
            MatchView::response()
                .any_method(
                    seq![
                        MethodView::Options,
                        MethodView::Info,
                        MethodView::Prack,
                        MethodView::Update,
                        MethodView::Refer,
                        MethodView::Message,
                        MethodView::Subscribe,
                        MethodView::Notify,
                    ],
                )
                .status_class(2),
            Handler::Relay,
        ),
        every_call(
            "relay-non-invite-failure"@,
            seq!["handle-481"@],
            MatchView::response()
                .any_method(
                    seq![
                        MethodView::Options,
                        MethodView::Info,
                        MethodView::Prack,
                        MethodView::Update,
                        MethodView::Refer,
                        MethodView::Message,
                        MethodView::Subscribe,
                        MethodView::Notify,
                    ],
                )
                .when(Guard::RelayedFailure),
            Handler::Relay,
        ),
        every_call(
            "route-failure"@,
            Seq::empty(),
            MatchView::response()
                .method(MethodView::Invite)
                .from(Direction::FromB)
                .when(Guard::FailureFinal),
            Handler::RouteFailure,
        ),
    ]
}

fn answers_rules() -> (r: Vec<RuleDefinition>)
    ensures
        views(r@) == answers(),
{
    proof {
        reveal(answers);
    }
    let states_1: Vec<LegState> = vec![LegState::Trying, LegState::Early];
    assert(states_1@ =~= seq![LegState::Trying, LegState::Early]);
    let methods_2: Vec<Method> = vec![
        Method::Options,
        Method::Info,
        Method::Prack,
        Method::Update,
        Method::Refer,
        Method::Message,
        Method::Subscribe,
        Method::Notify,
    ];
    assert(
        views(methods_2@) =~= seq![
            MethodView::Options,
            MethodView::Info,
            MethodView::Prack,
            MethodView::Update,
            MethodView::Refer,
            MethodView::Message,
            MethodView::Subscribe,
            MethodView::Notify,
        ]
    );
    let methods_3: Vec<Method> = vec![
        Method::Options,
        Method::Info,
        Method::Prack,
        Method::Update,
        Method::Refer,
        Method::Message,
        Method::Subscribe,
        Method::Notify,
    ];
    assert(
        views(methods_3@) =~= seq![
            MethodView::Options,
            MethodView::Info,
            MethodView::Prack,
            MethodView::Update,
            MethodView::Refer,
            MethodView::Message,
            MethodView::Subscribe,
            MethodView::Notify,
        ]
    );
    let over_4: Vec<&str> = vec!["handle-481"];
    assert(views(over_4@) =~= seq!["handle-481"@]);
    let r = vec![
        plain(
            "relay-provisional",
            Match::response().method(Method::Invite).status_class(1).direction(Direction::FromB),
            Handler::RelayProvisional,
        ),
        plain(
            "confirm-dialog",
            Match::response()
                .method(Method::Invite)
                .status_class(2)
                .leg_states(states_1)
                .direction(Direction::FromB),
            Handler::ConfirmDialog,
        ),
        plain(
            "relay-non-invite-200",
            Match::response().methods(methods_2).status_class(2),
            Handler::Relay,
        ),
        rule(
            "relay-non-invite-failure",
            over_4,
            Match::response().methods(methods_3).filter(Guard::RelayedFailure),
            Handler::Relay,
        ),
        plain(
            "route-failure",
            Match::response()
                .method(Method::Invite)
                .direction(Direction::FromB)
                .filter(Guard::FailureFinal),
            Handler::RouteFailure,
        ),
    ];
    assert(views(r@) =~= answers());
    r
}

/// The decision layer answers for a failed callee.
#[verifier::opaque]
pub open spec fn failovers() -> Seq<RuleDefinitionView> {
    seq![
        every_call(
            "failover-create-leg"@,
            Seq::empty(),
            MatchView::internal_event().about("call-failure-result"@).ending("failover"@),
            Handler::FailoverCreateLeg,
        ),
        every_call(
            "failover-terminate"@,
            Seq::empty(),
            MatchView::internal_event().about("call-failure-result"@).ending("terminate"@),
            Handler::FailoverTerminate,
        ),
        every_call(
            "failover-reject"@,
            Seq::empty(),
            MatchView::internal_event().about("call-failure-result"@).ending("reject"@),
            Handler::FailoverReject,
        ),
        every_call(
            "failover-redirect"@,
            Seq::empty(),
            MatchView::internal_event().about("call-failure-result"@).ending("redirect"@),
            Handler::FailoverRedirect,
        ),
    ]
}

fn failovers_rules() -> (r: Vec<RuleDefinition>)
    ensures
        views(r@) == failovers(),
{
    proof {
        reveal(failovers);
    }
    let r = vec![
        plain(
            "failover-create-leg",
            Match::internal_event().topic("call-failure-result").outcome("failover"),
            Handler::FailoverCreateLeg,
        ),
        plain(
            "failover-terminate",
            Match::internal_event().topic("call-failure-result").outcome("terminate"),
            Handler::FailoverTerminate,
        ),
        plain(
            "failover-reject",
            Match::internal_event().topic("call-failure-result").outcome("reject"),
            Handler::FailoverReject,
        ),
        plain(
            "failover-redirect",
            Match::internal_event().topic("call-failure-result").outcome("redirect"),
            Handler::FailoverRedirect,
        ),
    ];
    assert(views(r@) =~= failovers());
    r
}

/// A dialog denied, and the answers to requests of this stack's own.
#[verifier::opaque]
pub open spec fn absorptions() -> Seq<RuleDefinitionView> {
    seq![
        every_call(
            "handle-481"@,
            Seq::empty(),
            MatchView::response()
                .status_code(481)
                .in_call_state(CallModelState::Active)
                .when(Guard::DialogDenied),
            Handler::DialogDenied,
        ),
        every_call(
            "absorb-own-request-failure"@,
            Seq::empty(),
            MatchView::response()
                .any_method(seq![MethodView::Prack, MethodView::Notify])
                .when(Guard::OwnRequestFailure),
            Handler::Absorb,
        ),
        every_call(
            "absorb-bye-200"@,
            Seq::empty(),
            MatchView::response().any_method(seq![MethodView::Bye, MethodView::Cancel]).status_class(2),
            Handler::Absorb,
        ),
        every_call(
            "absorb-options-200"@,
            seq!["relay-non-invite-200"@],
            MatchView::response()
                .method(MethodView::Options)
                .status_class(2)
                .when(Guard::OwnRequestAnswer),
            Handler::KeepaliveAnswered,
        ),
        every_call(
            "absorb-notify-200"@,
            seq!["relay-non-invite-200"@],
            MatchView::response()
                .method(MethodView::Notify)
                .status_class(2)
                .when(Guard::OwnRequestAnswer),
            Handler::Absorb,
        ),
        every_call(
            "resolve-bye-response"@,
            seq!["absorb-bye-200"@],
            MatchView::response().method(MethodView::Bye).when(Guard::ByeAwaited),
            Handler::ByeAnswered,
        ),
    ]
}

fn absorptions_rules() -> (r: Vec<RuleDefinition>)
    ensures
        views(r@) == absorptions(),
{
    proof {
        reveal(absorptions);
    }
    let methods_1: Vec<Method> = vec![Method::Prack, Method::Notify];
    assert(views(methods_1@) =~= seq![MethodView::Prack, MethodView::Notify]);
    let methods_2: Vec<Method> = vec![Method::Bye, Method::Cancel];
    assert(views(methods_2@) =~= seq![MethodView::Bye, MethodView::Cancel]);
    let over_3: Vec<&str> = vec!["relay-non-invite-200"];
    assert(views(over_3@) =~= seq!["relay-non-invite-200"@]);
    let over_4: Vec<&str> = vec!["relay-non-invite-200"];
    assert(views(over_4@) =~= seq!["relay-non-invite-200"@]);
    let over_5: Vec<&str> = vec!["absorb-bye-200"];
    assert(views(over_5@) =~= seq!["absorb-bye-200"@]);
    let r = vec![
        plain(
            "handle-481",
            Match::response()
                .status_code(481)
                .call_state(CallModelState::Active)
                .filter(Guard::DialogDenied),
            Handler::DialogDenied,
        ),
        plain(
            "absorb-own-request-failure",
            Match::response().methods(methods_1).filter(Guard::OwnRequestFailure),
            Handler::Absorb,
        ),
        plain(
            "absorb-bye-200",
            Match::response().methods(methods_2).status_class(2),
            Handler::Absorb,
        ),
        rule(
            "absorb-options-200",
            over_3,
            Match::response()
                .method(Method::Options)
                .status_class(2)
                .filter(Guard::OwnRequestAnswer),
            Handler::KeepaliveAnswered,
        ),
        rule(
            "absorb-notify-200",
            over_4,
            Match::response()
                .method(Method::Notify)
                .status_class(2)
                .filter(Guard::OwnRequestAnswer),
            Handler::Absorb,
        ),
        rule(
            "resolve-bye-response",
            over_5,
            Match::response().method(Method::Bye).filter(Guard::ByeAwaited),
            Handler::ByeAnswered,
        ),
    ];
    assert(views(r@) =~= absorptions());
    r
}

/// A BYE, and what comes after it.
#[verifier::opaque]
pub open spec fn endings() -> Seq<RuleDefinitionView> {
    seq![
        every_call(
            "resolve-cross-bye"@,
            Seq::empty(),
            MatchView::request().method(MethodView::Bye).in_call_state(CallModelState::Terminating),
            Handler::CrossBye,
        ),
        every_call(
            "post-bye-481"@,
            seq!["reinvite-glare"@, "update-peer-unavailable"@],
            MatchView::request()
                .any_method(
                    seq![
                        MethodView::Invite,
                        MethodView::Update,
                        MethodView::Prack,
                        MethodView::Info,
                        MethodView::Message,
                        MethodView::Refer,
                        MethodView::Notify,
                    ],
                )
                .in_call_state(CallModelState::Terminating)
                .in_call_state(CallModelState::Terminated),
            Handler::RefuseUnknown,
        ),
        every_call(
            "relay-ack"@,
            Seq::empty(),
            MatchView::request().method(MethodView::Ack),
            Handler::Relay,
        ),
        every_call(
            "relay-bye"@,
            Seq::empty(),
            MatchView::request().method(MethodView::Bye).in_call_state(CallModelState::Active),
            Handler::RelayBye,
        ),
    ]
}

fn endings_rules() -> (r: Vec<RuleDefinition>)
    ensures
        views(r@) == endings(),
{
    proof {
        reveal(endings);
    }
    let methods_1: Vec<Method> = vec![
        Method::Invite,
        Method::Update,
        Method::Prack,
        Method::Info,
        Method::Message,
        Method::Refer,
        Method::Notify,
    ];
    assert(
        views(methods_1@) =~= seq![
            MethodView::Invite,
            MethodView::Update,
            MethodView::Prack,
            MethodView::Info,
            MethodView::Message,
            MethodView::Refer,
            MethodView::Notify,
        ]
    );
    let over_2: Vec<&str> = vec!["reinvite-glare", "update-peer-unavailable"];
    assert(views(over_2@) =~= seq!["reinvite-glare"@, "update-peer-unavailable"@]);
    let r = vec![
        plain(
            "resolve-cross-bye",
            Match::request().method(Method::Bye).call_state(CallModelState::Terminating),
            Handler::CrossBye,
        ),
        rule(
            "post-bye-481",
            over_2,
            Match::request()
                .methods(methods_1)
                .call_state(CallModelState::Terminating)
                .call_state(CallModelState::Terminated),
            Handler::RefuseUnknown,
        ),
        plain(
            "relay-ack",
            Match::request().method(Method::Ack),
            Handler::Relay,
        ),
        plain(
            "relay-bye",
            Match::request().method(Method::Bye).call_state(CallModelState::Active),
            Handler::RelayBye,
        ),
    ];
    assert(views(r@) =~= endings());
    r
}

/// Requests relayed to the peer.
#[verifier::opaque]
pub open spec fn relays() -> Seq<RuleDefinitionView> {
    seq![
        every_call(
            "relay-reinvite"@,
            Seq::empty(),
            MatchView::request().method(MethodView::Invite),
            Handler::Relay,
        ),
        every_call(
            "relay-prack"@,
            Seq::empty(),
            MatchView::request().method(MethodView::Prack),
            Handler::RelayPrack,
        ),
        every_call(
            "relay-options"@,
            Seq::empty(),
            MatchView::request().method(MethodView::Options),
            Handler::Relay,
        ),
        every_call(
            "relay-info"@,
            Seq::empty(),
            MatchView::request().method(MethodView::Info),
            Handler::Relay,
        ),
        every_call(
            "relay-update"@,
            Seq::empty(),
            MatchView::request().method(MethodView::Update),
            Handler::Relay,
        ),
        every_call(
            "relay-message"@,
            Seq::empty(),
            MatchView::request().method(MethodView::Message),
            Handler::Relay,
        ),
        every_call(
            "relay-refer"@,
            Seq::empty(),
            MatchView::request().method(MethodView::Refer),
            Handler::Relay,
        ),
        every_call(
            "relay-notify"@,
            Seq::empty(),
            MatchView::request().method(MethodView::Notify),
            Handler::Relay,
        ),
    ]
}

fn relays_rules() -> (r: Vec<RuleDefinition>)
    ensures
        views(r@) == relays(),
{
    proof {
        reveal(relays);
    }
    let r = vec![
        plain(
            "relay-reinvite",
            Match::request().method(Method::Invite),
            Handler::Relay,
        ),
        plain(
            "relay-prack",
            Match::request().method(Method::Prack),
            Handler::RelayPrack,
        ),
        plain(
            "relay-options",
            Match::request().method(Method::Options),
            Handler::Relay,
        ),
        plain(
            "relay-info",
            Match::request().method(Method::Info),
            Handler::Relay,
        ),
        plain(
            "relay-update",
            Match::request().method(Method::Update),
            Handler::Relay,
        ),
        plain(
            "relay-message",
            Match::request().method(Method::Message),
            Handler::Relay,
        ),
        plain(
            "relay-refer",
            Match::request().method(Method::Refer),
            Handler::Relay,
        ),
        plain(
            "relay-notify",
            Match::request().method(Method::Notify),
            Handler::Relay,
        ),
    ];
    assert(views(r@) =~= relays());
    r
}

/// A CANCEL, and a transaction that timed out.
#[verifier::opaque]
pub open spec fn cancels() -> Seq<RuleDefinitionView> {
    seq![
        every_call(
            "handle-reinvite-cancel"@,
            seq!["handle-cancel"@],
            MatchView::cancelled().when(Guard::InDialogCancel),
            Handler::ReinviteCancel,
        ),
        every_call(
            "handle-cancel"@,
            Seq::empty(),
            MatchView::cancelled(),
            Handler::CallCancel,
        ),
        every_call(
            "handle-timeout"@,
            Seq::empty(),
            MatchView::timeout(),
            Handler::TransactionTimeout,
        ).while_terminating(),
    ]
}

fn cancels_rules() -> (r: Vec<RuleDefinition>)
    ensures
        views(r@) == cancels(),
{
    proof {
        reveal(cancels);
    }
    let over_1: Vec<&str> = vec!["handle-cancel"];
    assert(views(over_1@) =~= seq!["handle-cancel"@]);
    let r = vec![
        rule(
            "handle-reinvite-cancel",
            over_1,
            Match::cancelled().filter(Guard::InDialogCancel),
            Handler::ReinviteCancel,
        ),
        plain(
            "handle-cancel",
            Match::cancelled(),
            Handler::CallCancel,
        ),
        plain(
            "handle-timeout",
            Match::timeout(),
            Handler::TransactionTimeout,
        ).runs_while_terminating(),
    ];
    assert(views(r@) =~= cancels());
    r
}

/// The deadlines of a call.
#[verifier::opaque]
pub open spec fn timers() -> Seq<RuleDefinitionView> {
    seq![
        every_call(
            "no-answer"@,
            Seq::empty(),
            MatchView::timer().timer_type(TimerKind::NoAnswer),
            Handler::NoAnswer,
        ).while_terminating(),
        every_call(
            "setup-timeout"@,
            Seq::empty(),
            MatchView::timer().timer_type(TimerKind::SetupTimeout),
            Handler::SetupTimeout,
        ).while_terminating(),
        every_call(
            "max-duration"@,
            Seq::empty(),
            MatchView::timer().timer_type(TimerKind::GlobalDuration),
            Handler::MaxDuration,
        ).while_terminating(),
        every_call(
            "keepalive"@,
            Seq::empty(),
            MatchView::timer()
                .timer_type(TimerKind::Keepalive)
                .in_call_state(CallModelState::Active),
            Handler::Keepalive,
        ),
        every_call(
            "keepalive-timeout"@,
            Seq::empty(),
            MatchView::timer()
                .timer_type(TimerKind::KeepaliveTimeout)
                .in_call_state(CallModelState::Active),
            Handler::KeepaliveTimeout,
        ),
    ]
}

fn timers_rules() -> (r: Vec<RuleDefinition>)
    ensures
        views(r@) == timers(),
{
    proof {
        reveal(timers);
    }
    let r = vec![
        plain(
            "no-answer",
            Match::timer().timer_type(TimerKind::NoAnswer),
            Handler::NoAnswer,
        ).runs_while_terminating(),
        plain(
            "setup-timeout",
            Match::timer().timer_type(TimerKind::SetupTimeout),
            Handler::SetupTimeout,
        ).runs_while_terminating(),
        plain(
            "max-duration",
            Match::timer().timer_type(TimerKind::GlobalDuration),
            Handler::MaxDuration,
        ).runs_while_terminating(),
        plain(
            "keepalive",
            Match::timer().timer_type(TimerKind::Keepalive).call_state(CallModelState::Active),
            Handler::Keepalive,
        ),
        plain(
            "keepalive-timeout",
            Match::timer()
                .timer_type(TimerKind::KeepaliveTimeout)
                .call_state(CallModelState::Active),
            Handler::KeepaliveTimeout,
        ),
    ];
    assert(views(r@) =~= timers());
    r
}

/// What a peer owes and never gives, and the end of a call nobody ends.
#[verifier::opaque]
pub open spec fn give_ups() -> Seq<RuleDefinitionView> {
    seq![
        every_call(
            "unacked-2xx-give-up"@,
            Seq::empty(),
            MatchView::timer()
                .in_call_state(CallModelState::Active)
                .when(Guard::InitialAnswerGaveUp),
            Handler::AckGiveUp,
        ),
        every_call(
            "unacked-reinvite-2xx-give-up"@,
            Seq::empty(),
            MatchView::timer()
                .in_call_state(CallModelState::Active)
                .when(Guard::ReinviteAnswerGaveUp),
            Handler::AckGiveUp,
        ),
        every_call(
            "unacked-reliable-1xx-give-up"@,
            Seq::empty(),
            MatchView::timer().in_call_state(CallModelState::Active).when(Guard::ProvisionalGaveUp),
            Handler::PrackGiveUp,
        ),
        every_call(
            "reaper-stale"@,
            Seq::empty(),
            MatchView::internal_event().about("reaper"@).ending("stale"@),
            Handler::ReaperStale,
        ).while_terminating(),
        every_call(
            "reaper-fatal-error"@,
            Seq::empty(),
            MatchView::internal_event().about("reaper"@).ending("fatal"@),
            Handler::ReaperFatal,
        ).while_terminating(),
        every_call(
            "terminating-safety-timeout"@,
            Seq::empty(),
            MatchView::timer()
                .timer_type(TimerKind::TerminatingTimeout)
                .in_call_state(CallModelState::Terminating),
            Handler::TerminatingSafety,
        ).while_terminating(),
    ]
}

fn give_ups_rules() -> (r: Vec<RuleDefinition>)
    ensures
        views(r@) == give_ups(),
{
    proof {
        reveal(give_ups);
    }
    let r = vec![
        plain(
            "unacked-2xx-give-up",
            Match::timer().call_state(CallModelState::Active).filter(Guard::InitialAnswerGaveUp),
            Handler::AckGiveUp,
        ),
        plain(
            "unacked-reinvite-2xx-give-up",
            Match::timer().call_state(CallModelState::Active).filter(Guard::ReinviteAnswerGaveUp),
            Handler::AckGiveUp,
        ),
        plain(
            "unacked-reliable-1xx-give-up",
            Match::timer().call_state(CallModelState::Active).filter(Guard::ProvisionalGaveUp),
            Handler::PrackGiveUp,
        ),
        plain(
            "reaper-stale",
            Match::internal_event().topic("reaper").outcome("stale"),
            Handler::ReaperStale,
        ).runs_while_terminating(),
        plain(
            "reaper-fatal-error",
            Match::internal_event().topic("reaper").outcome("fatal"),
            Handler::ReaperFatal,
        ).runs_while_terminating(),
        plain(
            "terminating-safety-timeout",
            Match::timer()
                .timer_type(TimerKind::TerminatingTimeout)
                .call_state(CallModelState::Terminating),
            Handler::TerminatingSafety,
        ).runs_while_terminating(),
    ];
    assert(views(r@) =~= give_ups());
    r
}

/// Rules after others.
pub(crate) fn then_rules(
    first: Vec<RuleDefinition>,
    more: Vec<RuleDefinition>,
) -> (r: Vec<RuleDefinition>)
    ensures
        views(r@) == views(first@) + views(more@),
{
    let ghost a = first@;
    let ghost b = more@;
    let mut all = first;
    let mut rest = more;
    all.append(&mut rest);
    assert(all@ =~= a + b);
    assert(views(all@) =~= views(a) + views(b));
    all
}

/// The rules every call has, in order.
#[verifier::opaque]
pub open spec fn core_set() -> Seq<RuleDefinitionView> {
    crossings() + renegotiations() + answers() + failovers() + absorptions() + endings() + relays()
        + cancels() + timers() + give_ups()
}

/// The rules every call has, in order.
pub fn core_rules() -> (r: Vec<RuleDefinition>)
    ensures
        views(r@) == core_set(),
{
    proof {
        reveal(core_set);
    }
    let all = crossings_rules();
    let all = then_rules(all, renegotiations_rules());
    let all = then_rules(all, answers_rules());
    let all = then_rules(all, failovers_rules());
    let all = then_rules(all, absorptions_rules());
    let all = then_rules(all, endings_rules());
    let all = then_rules(all, relays_rules());
    let all = then_rules(all, cancels_rules());
    let all = then_rules(all, timers_rules());
    let all = then_rules(all, give_ups_rules());
    all
}

} // verus!
