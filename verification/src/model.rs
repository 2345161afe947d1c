//! The rule engine's vocabulary: events, the context a rule sees, matchers and
//! rule definitions.
use vstd::prelude::*;

use crate::action::{RuleAction, RuleActionView};
use crate::call::{
    Call, CallModelState, CallView, Config, ConfigView, Direction, FeatureActivations,
    FeatureActivationsView, LegDisposition, LegState, Obligation, ObligationView, ReleaseEventKind,
    TimerKind, TimerType, TimerTypeView,
};
use crate::effects::TimeoutKind;
use crate::json::{json_nodes, Node, Step};
use crate::seqs::{opt_view, opt_views, views};
use crate::wire::{
    Method, MethodView, SipHeader, SipHeaderView, SipRequest, SipRequestView, SipResponse, SipResponseView,
};

verus! {

/// The layer of the rules every call has.
pub const CORE_LAYER: u32 = 0;

/// The layer of the rules a service contributes; it outranks the core.
pub const SERVICE_LAYER: u32 = 100;

/// What happened.
#[derive(Debug, PartialEq)]
#[allow(inconsistent_fields)]
pub enum CallEvent {
    Request { request: SipRequest },
    Response { response: SipResponse },
    Timer { timer_type: TimerType, leg_id: Option<String> },
    /// A client transaction timed out.
    Timeout { method: Option<Method>, kind: Option<TimeoutKind> },
    /// The transaction layer answered a CANCEL.
    Cancelled { in_dialog: bool, invite_cseq: Option<i64>, relayable: Vec<SipHeader> },
    /// A consult's answer, or a finding of the reaper. The typed members are read from
    /// the payload where the event is made.
    Internal {
        topic: String,
        outcome: String,
        payload: serde_json::Value,
        features: Option<FeatureActivations>,
        subscriptions: Option<Vec<ReleaseEventKind>>,
    },
}

/// The mathematical value of a [`CallEvent`].
#[allow(inconsistent_fields)]
pub enum CallEventView {
    Request { request: SipRequestView },
    Response { response: SipResponseView },
    Timer { timer_type: TimerTypeView, leg_id: Option<Seq<char>> },
    Timeout { method: Option<MethodView>, kind: Option<TimeoutKind> },
    Cancelled { in_dialog: bool, invite_cseq: Option<i64>, relayable: Seq<SipHeaderView> },
    Internal {
        topic: Seq<char>,
        outcome: Seq<char>,
        payload: Map<Seq<Step>, Node>,
        features: Option<FeatureActivationsView>,
        subscriptions: Option<Seq<ReleaseEventKind>>,
    },
}

impl View for CallEvent {
    type V = CallEventView;

    open spec fn view(&self) -> CallEventView {
        match self {
            CallEvent::Request { request } => CallEventView::Request { request: request@ },
            CallEvent::Response { response } => CallEventView::Response { response: response@ },
            CallEvent::Timer { timer_type, leg_id } => CallEventView::Timer {
                timer_type: timer_type@,
                leg_id: opt_view(*leg_id),
            },
            CallEvent::Timeout { method, kind } => CallEventView::Timeout {
                method: opt_view(*method),
                kind: *kind,
            },
            CallEvent::Cancelled { in_dialog, invite_cseq, relayable } => CallEventView::Cancelled {
                in_dialog: *in_dialog,
                invite_cseq: *invite_cseq,
                relayable: views(relayable@),
            },
            CallEvent::Internal {
                topic,
                outcome,
                payload,
                features,
                subscriptions,
            } => CallEventView::Internal {
                topic: topic@,
                outcome: outcome@,
                payload: json_nodes(*payload),
                features: opt_view(*features),
                subscriptions: opt_view(*subscriptions),
            },
        }
    }
}

/// The kind of event a rule is for.
#[derive(Clone, Copy, PartialEq, Eq, Debug, Structural)]
pub enum MatchKind {
    Request,
    Response,
    Timer,
    Timeout,
    Cancelled,
    InternalEvent,
}

/// The category of a side effect.
#[derive(Clone, Copy, PartialEq, Eq, Debug, Structural)]
pub enum EffectKind {
    /// A message on some leg.
    LegMessage,
    /// A command to the call as a whole.
    LifecycleCommand,
    /// A timer armed or cancelled.
    GuardTimer,
    /// A change of state that needs no declaration.
    Bookkeeping,
}

/// A condition beyond the columns of a matcher.
#[derive(Clone, Copy, PartialEq, Eq, Debug, Structural)]
pub enum Guard {
    /// A response that is a failure final.
    FailureFinal,
    /// An INVITE transaction is open on either dialog of the bridge.
    InviteGlare,
    /// The peer cannot take a relayed request.
    PeerNotReady,
    /// The response answers a relayed INVITE its originator cancelled.
    CancelledReinviteAnswer,
    /// The response answers a relayed INVITE still wanted.
    RelayedReinviteAnswer,
    /// The response repeats a 2xx that was acknowledged.
    Repeated2xx,
    /// A failure final of a relayed request.
    RelayedFailure,
    /// The response denies a dialog, not a transaction or a subscription.
    DialogDenied,
    /// A failure final of a request of this stack's own.
    OwnRequestFailure,
    /// The response answers a request of this stack's own.
    OwnRequestAnswer,
    /// The leg awaits the answer to its BYE.
    ByeAwaited,
    /// The CANCEL matched an INVITE within a dialog.
    InDialogCancel,
    /// No ACK of the answer to the caller.
    InitialAnswerGaveUp,
    /// No ACK of a relayed answer.
    ReinviteAnswerGaveUp,
    /// No PRACK of a reliable provisional.
    ProvisionalGaveUp,
    /// Early media that is to be promoted to an answer.
    Promotable,
    /// The call was answered with promoted early media.
    Promoted,
    /// The response answers the resync re-INVITE.
    ResyncAnswer,
    /// The promoted call awaits the callee's answer.
    PromotionWindow,
    /// The promoted call is not bridged yet.
    PromotedUnbridged,
    /// The callee fails a promoted call.
    PromotedFailure,
    /// A REFER processed here that asks for an attended transfer.
    LocalAttended,
    /// A REFER processed here.
    LocalRefer,
    /// A REFER processed here whose target does not read.
    LocalUnreadable,
    /// A REFER processed here that begins a blind transfer.
    LocalTransfer,
    /// The transfer was denied, or the consult failed.
    ReferDenied,
    /// The event comes from the transfer target.
    FromTarget,
    /// A failure final of the transfer target.
    TargetFailure,
    /// The timer is the transfer target's.
    TargetTimer,
    /// The event comes from the caller's leg.
    FromCaller,
    /// A failure final of the caller.
    CallerFailure,
    /// The timer is the caller's.
    CallerTimer,
    /// The referrer answers a NOTIFY of this stack's own.
    ReferrerDenies,
    /// A request of the referrer other than BYE.
    ReferrerRequest,
}

/// What a rule does when it is the one that handles an event.
#[derive(Clone, Copy, PartialEq, Eq, Debug, Structural)]
pub enum Handler {
    /// Nothing.
    Absorb,
    /// Relay the event to its peer.
    Relay,
    /// Answer 491.
    RefusePending,
    /// Answer 481.
    RefuseUnknown,
    /// Answer 501.
    RefuseUnimplemented,
    /// Answer 400.
    RefuseBadRequest,
    /// Answer 488.
    RefuseNotAcceptable,
    CancelCrossed,
    CancelResolved,
    CancelledReinviteAnswered,
    ReAck,
    RelayProvisional,
    ConfirmDialog,
    RouteFailure,
    FailoverCreateLeg,
    FailoverTerminate,
    FailoverReject,
    FailoverRedirect,
    DialogDenied,
    KeepaliveAnswered,
    ByeAnswered,
    CrossBye,
    RelayBye,
    RelayPrack,
    ReinviteCancel,
    CallCancel,
    TransactionTimeout,
    NoAnswer,
    SetupTimeout,
    MaxDuration,
    Keepalive,
    KeepaliveTimeout,
    AckGiveUp,
    PrackGiveUp,
    ReaperStale,
    ReaperFatal,
    TerminatingSafety,
    Promote183,
    SuppressProvisional,
    ConfirmPromoted,
    ResyncAnswered,
    AbsorbPromotedAck,
    PromotedFailure,
    InterceptRefer,
    ReferDenied,
    ReferAllowed,
    ReferTimeout,
    TargetProgress,
    TargetAnswer,
    TargetFailure,
    TargetNoAnswer,
    TargetRealigned,
    TargetRealignFailed,
    TargetRealignTimeout,
    CallerRealigned,
    CallerRealignFailed,
    CallerRealignTimeout,
    TransferTimeout,
    NotifyDenied,
}

/// Which response codes a rule is for.
#[derive(Debug, PartialEq)]
pub enum StatusMatch {
    Any,
    Code { code: u16 },
    /// The first digit.
    Class { class: u16 },
}

/// The mathematical value of a [`StatusMatch`].
pub enum StatusMatchView {
    Any,
    Code { code: u16 },
    Class { class: u16 },
}

impl View for StatusMatch {
    type V = StatusMatchView;

    open spec fn view(&self) -> StatusMatchView {
        match self {
            StatusMatch::Any => StatusMatchView::Any,
            StatusMatch::Code { code } => StatusMatchView::Code { code: *code },
            StatusMatch::Class { class } => StatusMatchView::Class { class: *class },
        }
    }
}

impl Clone for StatusMatch {
    fn clone(&self) -> (r: Self)
        ensures
            r@ == self@,
    {
        match self {
            StatusMatch::Any => StatusMatch::Any,
            StatusMatch::Code { code } => StatusMatch::Code { code: *code },
            StatusMatch::Class { class } => StatusMatch::Class { class: *class },
        }
    }
}

/// A side effect a rule declares.
#[derive(Debug, PartialEq)]
pub enum Effect {
    Respond { status: u16, label: String },
    Originate { method: Method, label: String },
    GuardTimer { timer: TimerKind, label: String },
    LifecycleCommand { label: String },
}

/// The mathematical value of a [`Effect`].
pub enum EffectView {
    Respond { status: u16, label: Seq<char> },
    Originate { method: MethodView, label: Seq<char> },
    GuardTimer { timer: TimerKind, label: Seq<char> },
    LifecycleCommand { label: Seq<char> },
}

impl View for Effect {
    type V = EffectView;

    open spec fn view(&self) -> EffectView {
        match self {
            Effect::Respond { status, label } => EffectView::Respond {
                status: *status,
                label: label@,
            },
            Effect::Originate { method, label } => EffectView::Originate {
                method: method@,
                label: label@,
            },
            Effect::GuardTimer { timer, label } => EffectView::GuardTimer {
                timer: *timer,
                label: label@,
            },
            Effect::LifecycleCommand { label } => EffectView::LifecycleCommand { label: label@ },
        }
    }
}

impl Clone for Effect {
    fn clone(&self) -> (r: Self)
        ensures
            r@ == self@,
    {
        match self {
            Effect::Respond { status, label } => Effect::Respond {
                status: *status,
                label: label.clone(),
            },
            Effect::Originate { method, label } => Effect::Originate {
                method: method.clone(),
                label: label.clone(),
            },
            Effect::GuardTimer { timer, label } => Effect::GuardTimer {
                timer: *timer,
                label: label.clone(),
            },
            Effect::LifecycleCommand { label } => Effect::LifecycleCommand { label: label.clone() },
        }
    }
}

/// Which events a rule is for. An absent column accepts everything.
#[derive(Debug, PartialEq)]
pub struct Match {
    pub kind: MatchKind,
    pub methods: Option<Vec<Method>>,
    pub status: StatusMatch,
    pub direction: Option<Direction>,
    pub leg_state: Option<Vec<LegState>>,
    pub call_state: Option<Vec<CallModelState>>,
    pub leg_disposition: Option<Vec<LegDisposition>>,
    pub timer_types: Option<Vec<TimerKind>>,
    pub topic: Option<String>,
    pub outcome: Option<String>,
    pub filter: Option<Guard>,
}

/// The mathematical value of a [`Match`].
pub struct MatchView {
    pub kind: MatchKind,
    pub methods: Option<Seq<MethodView>>,
    pub status: StatusMatchView,
    pub direction: Option<Direction>,
    pub leg_state: Option<Seq<LegState>>,
    pub call_state: Option<Seq<CallModelState>>,
    pub leg_disposition: Option<Seq<LegDisposition>>,
    pub timer_types: Option<Seq<TimerKind>>,
    pub topic: Option<Seq<char>>,
    pub outcome: Option<Seq<char>>,
    pub filter: Option<Guard>,
}

impl View for Match {
    type V = MatchView;

    open spec fn view(&self) -> MatchView {
        MatchView {
            kind: self.kind,
            methods: opt_views(self.methods),
            status: self.status@,
            direction: self.direction,
            leg_state: opt_view(self.leg_state),
            call_state: opt_view(self.call_state),
            leg_disposition: opt_view(self.leg_disposition),
            timer_types: opt_view(self.timer_types),
            topic: opt_view(self.topic),
            outcome: opt_view(self.outcome),
            filter: self.filter,
        }
    }
}

/// A declared move of a machine's cursor.
#[derive(Debug, PartialEq)]
pub struct Transition {
    pub from: String,
    pub to: String,
}

/// The mathematical value of a [`Transition`].
pub struct TransitionView {
    pub from: Seq<char>,
    pub to: Seq<char>,
}

impl View for Transition {
    type V = TransitionView;

    open spec fn view(&self) -> TransitionView {
        TransitionView {
            from: self.from@,
            to: self.to@,
        }
    }
}

impl Clone for Transition {
    fn clone(&self) -> (r: Self)
        ensures
            r@ == self@,
    {
        let r = Transition {
            from: self.from.clone(),
            to: self.to.clone(),
        };
        r
    }
}

/// One rule of the engine.
#[derive(Debug, PartialEq)]
pub struct RuleDefinition {
    pub id: String,
    pub layer: u32,
    /// Rules this one displaces wherever both apply.
    pub overrides: Vec<String>,
    pub matcher: Match,
    pub handler: Handler,
    /// The machine the rule belongs to; none for a core rule.
    pub machine: Option<String>,
    /// Where the machine must stand.
    pub active_states: Vec<String>,
    pub transitions: Vec<Transition>,
    pub effects: Vec<Effect>,
    /// Whether the rule is declared for a terminating call too.
    pub runs_while_terminating: bool,
}

/// The mathematical value of a [`RuleDefinition`].
pub struct RuleDefinitionView {
    pub id: Seq<char>,
    pub layer: u32,
    pub overrides: Seq<Seq<char>>,
    pub matcher: MatchView,
    pub handler: Handler,
    pub machine: Option<Seq<char>>,
    pub active_states: Seq<Seq<char>>,
    pub transitions: Seq<TransitionView>,
    pub effects: Seq<EffectView>,
    pub runs_while_terminating: bool,
}

impl View for RuleDefinition {
    type V = RuleDefinitionView;

    open spec fn view(&self) -> RuleDefinitionView {
        RuleDefinitionView {
            id: self.id@,
            layer: self.layer,
            overrides: views(self.overrides@),
            matcher: self.matcher@,
            handler: self.handler,
            machine: opt_view(self.machine),
            active_states: views(self.active_states@),
            transitions: views(self.transitions@),
            effects: views(self.effects@),
            runs_while_terminating: self.runs_while_terminating,
        }
    }
}

/// An input a rule refused to read.
#[derive(Debug, PartialEq)]
pub struct Diagnostic {
    pub field: String,
    pub reason: String,
}

/// The mathematical value of a [`Diagnostic`].
pub struct DiagnosticView {
    pub field: Seq<char>,
    pub reason: Seq<char>,
}

impl View for Diagnostic {
    type V = DiagnosticView;

    open spec fn view(&self) -> DiagnosticView {
        DiagnosticView {
            field: self.field@,
            reason: self.reason@,
        }
    }
}

impl Clone for Diagnostic {
    fn clone(&self) -> (r: Self)
        ensures
            r@ == self@,
    {
        let r = Diagnostic {
            field: self.field.clone(),
            reason: self.reason.clone(),
        };
        r
    }
}

/// What a rule answers an event with.
#[derive(Debug, PartialEq)]
pub struct RuleHandleResult {
    pub actions: Vec<RuleAction>,
    pub diagnostics: Vec<Diagnostic>,
}

/// The mathematical value of a [`RuleHandleResult`].
pub struct RuleHandleResultView {
    pub actions: Seq<RuleActionView>,
    pub diagnostics: Seq<DiagnosticView>,
}

impl View for RuleHandleResult {
    type V = RuleHandleResultView;

    open spec fn view(&self) -> RuleHandleResultView {
        RuleHandleResultView {
            actions: views(self.actions@),
            diagnostics: views(self.diagnostics@),
        }
    }
}

impl Clone for RuleHandleResult {
    fn clone(&self) -> (r: Self)
        ensures
            r@ == self@,
    {
        let r = RuleHandleResult {
            actions: self.actions.clone(),
            diagnostics: self.diagnostics.clone(),
        };
        assert(views(r.actions@) =~= views(self.actions@));
        assert(views(r.diagnostics@) =~= views(self.diagnostics@));
        r
    }
}

/// Where the machine of a service stands on a call that begins.
#[derive(Debug, PartialEq)]
pub enum ServiceInit {
    /// Nowhere, until a rule seeds it.
    Dormant,
    /// In that state, on every call.
    Active { state: String },
}

/// The mathematical value of a [`ServiceInit`].
pub enum ServiceInitView {
    Dormant,
    Active { state: Seq<char> },
}

impl View for ServiceInit {
    type V = ServiceInitView;

    open spec fn view(&self) -> ServiceInitView {
        match self {
            ServiceInit::Dormant => ServiceInitView::Dormant,
            ServiceInit::Active { state } => ServiceInitView::Active { state: state@ },
        }
    }
}

/// A service and the rules it contributes.
#[derive(Debug, PartialEq)]
pub struct ServiceDef {
    /// The service, and its machine.
    pub id: String,
    pub init: ServiceInit,
    pub rules: Vec<RuleDefinition>,
}

/// The mathematical value of a [`ServiceDef`].
pub struct ServiceDefView {
    pub id: Seq<char>,
    pub init: ServiceInitView,
    pub rules: Seq<RuleDefinitionView>,
}

impl ServiceDefView {
    /// The state the machine of the service begins a call in.
    pub open spec fn seed(self, c: CallView) -> Option<Seq<char>> {
        match self.init {
            ServiceInitView::Dormant => None,
            ServiceInitView::Active { state } => Some(state),
        }
    }
}

impl ServiceDef {
    /// The state the machine of the service begins a call in; none where it is
    /// dormant.
    pub fn init(&self, call: &Call) -> (r: Option<String>)
        ensures
            opt_view(r) == self@.seed(call@),
    {
        match &self.init {
            ServiceInit::Dormant => None,
            ServiceInit::Active { state } => Some(state.clone()),
        }
    }
}

impl View for ServiceDef {
    type V = ServiceDefView;

    open spec fn view(&self) -> ServiceDefView {
        ServiceDefView {
            id: self.id@,
            init: self.init@,
            rules: views(self.rules@),
        }
    }
}

/// The event a rule answers, with the call as it was when the event came.
pub struct RuleContext<'a> {
    pub call: &'a Call,
    pub event: &'a CallEvent,
    pub source_leg_id: &'a String,
    pub direction: Direction,
    pub now_ms: i64,
    pub config: &'a Config,
    /// The obligation the event discharged.
    pub discharged: Option<&'a Obligation>,
}

/// The mathematical value of a [`RuleContext`].
pub struct RuleContextView {
    pub call: CallView,
    pub event: CallEventView,
    pub source_leg_id: Seq<char>,
    pub direction: Direction,
    pub now_ms: i64,
    pub config: ConfigView,
    pub discharged: Option<ObligationView>,
}

impl<'a> View for RuleContext<'a> {
    type V = RuleContextView;

    open spec fn view(&self) -> RuleContextView {
        RuleContextView {
            call: self.call@,
            event: self.event@,
            source_leg_id: self.source_leg_id@,
            direction: self.direction,
            now_ms: self.now_ms,
            config: self.config@,
            discharged: match self.discharged {
                Some(o) => Some(o@),
                None => None,
            },
        }
    }
}

} // verus!
