//! What a turn does beyond the call itself: messages to send, timers to drive,
//! consults to make.
use vstd::prelude::*;

use crate::call::{
    AckPlan, AckPlanView, Call, CallView, Destination, DestinationView, InviteTxn, InviteTxnView,
    LegKind, ReleaseEventKind, ResponsePlan, ResponsePlanView, StackDialog, StackDialogView,
    TimerEntry, TimerEntryView,
};
use crate::json::{clone_opt_json, opt_json, Node, Step};
use crate::seqs::{opt_view, views};
use crate::text::{clone_bytes, clone_opt_bytes, clone_texts};
use crate::wire::{
    CapabilitySet, CapabilitySetView, HeaderUpdate, HeaderUpdateView, Method, MethodView, SipHeader,
    SipHeaderView,
};

verus! {

/// How a message is sent.
#[derive(Clone, Copy, PartialEq, Eq, Debug, Structural)]
pub enum TxnMode {
    /// On the server transaction of the request answered.
    ServerResponse,
    /// A new INVITE client transaction.
    NewInvite,
    /// A new non-INVITE client transaction.
    NewNonInvite,
    /// Past the transaction layer.
    Raw,
}

/// Whose statement a message is.
#[derive(Clone, Copy, PartialEq, Eq, Debug, Structural)]
pub enum Provenance {
    Authored,
    Relayed,
    /// A keepalive.
    Probe,
}

/// Which transaction timeout fired.
#[derive(Clone, Copy, PartialEq, Eq, Debug, Structural)]
pub enum TimeoutKind {
    /// Nothing answered.
    Response,
    /// It rang, and fell silent.
    Transaction,
}

/// Why a failure consult is made.
#[derive(Clone, Copy, PartialEq, Eq, Debug, Structural)]
pub enum FailureOrigin {
    External,
    TransactionTimeout,
    NoAnswerTimeout,
}

/// A request to send within a dialog.
#[derive(Debug, PartialEq)]
pub struct RequestPlan {
    pub method: Method,
    pub dialog: StackDialog,
    pub branch: String,
    pub cseq: i64,
    pub rack: Option<String>,
    pub body: Vec<u8>,
    pub content_type: Option<String>,
    pub headers: Vec<SipHeader>,
    pub event: Option<String>,
    pub subscription_state: Option<String>,
    pub contact: bool,
    /// Whether the Via and Contact it states carry the emergency mark.
    pub emergency: bool,
    pub max_forwards: Option<u32>,
    pub capabilities: Option<CapabilitySet>,
}

/// The mathematical value of a [`RequestPlan`].
pub struct RequestPlanView {
    pub method: MethodView,
    pub dialog: StackDialogView,
    pub branch: Seq<char>,
    pub cseq: i64,
    pub rack: Option<Seq<char>>,
    pub body: Seq<u8>,
    pub content_type: Option<Seq<char>>,
    pub headers: Seq<SipHeaderView>,
    pub event: Option<Seq<char>>,
    pub subscription_state: Option<Seq<char>>,
    pub contact: bool,
    pub emergency: bool,
    pub max_forwards: Option<u32>,
    pub capabilities: Option<CapabilitySetView>,
}

impl View for RequestPlan {
    type V = RequestPlanView;

    open spec fn view(&self) -> RequestPlanView {
        RequestPlanView {
            method: self.method@,
            dialog: self.dialog@,
            branch: self.branch@,
            cseq: self.cseq,
            rack: opt_view(self.rack),
            body: self.body@,
            content_type: opt_view(self.content_type),
            headers: views(self.headers@),
            event: opt_view(self.event),
            subscription_state: opt_view(self.subscription_state),
            contact: self.contact,
            emergency: self.emergency,
            max_forwards: self.max_forwards,
            capabilities: opt_view(self.capabilities),
        }
    }
}

impl Clone for RequestPlan {
    fn clone(&self) -> (r: Self)
        ensures
            r@ == self@,
    {
        let r = RequestPlan {
            method: self.method.clone(),
            dialog: self.dialog.clone(),
            branch: self.branch.clone(),
            cseq: self.cseq,
            rack: self.rack.clone(),
            body: clone_bytes(&self.body),
            content_type: self.content_type.clone(),
            headers: self.headers.clone(),
            event: self.event.clone(),
            subscription_state: self.subscription_state.clone(),
            contact: self.contact,
            emergency: self.emergency,
            max_forwards: self.max_forwards,
            capabilities: self.capabilities.clone(),
        };
        assert(views(r.headers@) =~= views(self.headers@));
        r
    }
}

/// The INVITE that opens a leg.
#[derive(Debug, PartialEq)]
pub struct InvitePlan {
    pub leg_id: String,
    pub call_id: String,
    pub from_tag: String,
    pub branch: String,
    pub cseq: i64,
    pub new_ruri: Option<String>,
    pub new_from: Option<String>,
    pub new_to: Option<String>,
    pub body_override: Option<Vec<u8>>,
    pub header_updates: Vec<HeaderUpdate>,
    pub capabilities: CapabilitySet,
    /// The charging vector the decision states for the call.
    pub charging_vector: Option<serde_json::Value>,
    /// Option tags of the caller's that it leaves out.
    pub withheld_option_tags: Vec<String>,
    /// Option tags it states beside the caller's.
    pub offered_option_tags: Vec<String>,
    pub kind: Option<LegKind>,
    /// Whether the Via and Contact it states carry the emergency mark.
    pub emergency: bool,
}

/// The mathematical value of a [`InvitePlan`].
pub struct InvitePlanView {
    pub leg_id: Seq<char>,
    pub call_id: Seq<char>,
    pub from_tag: Seq<char>,
    pub branch: Seq<char>,
    pub cseq: i64,
    pub new_ruri: Option<Seq<char>>,
    pub new_from: Option<Seq<char>>,
    pub new_to: Option<Seq<char>>,
    pub body_override: Option<Seq<u8>>,
    pub header_updates: Seq<HeaderUpdateView>,
    pub capabilities: CapabilitySetView,
    pub charging_vector: Option<Map<Seq<Step>, Node>>,
    pub withheld_option_tags: Seq<Seq<char>>,
    pub offered_option_tags: Seq<Seq<char>>,
    pub kind: Option<LegKind>,
    pub emergency: bool,
}

impl View for InvitePlan {
    type V = InvitePlanView;

    open spec fn view(&self) -> InvitePlanView {
        InvitePlanView {
            leg_id: self.leg_id@,
            call_id: self.call_id@,
            from_tag: self.from_tag@,
            branch: self.branch@,
            cseq: self.cseq,
            new_ruri: opt_view(self.new_ruri),
            new_from: opt_view(self.new_from),
            new_to: opt_view(self.new_to),
            body_override: opt_view(self.body_override),
            header_updates: views(self.header_updates@),
            capabilities: self.capabilities@,
            charging_vector: opt_json(self.charging_vector),
            withheld_option_tags: views(self.withheld_option_tags@),
            offered_option_tags: views(self.offered_option_tags@),
            kind: self.kind,
            emergency: self.emergency,
        }
    }
}

impl Clone for InvitePlan {
    fn clone(&self) -> (r: Self)
        ensures
            r@ == self@,
    {
        let r = InvitePlan {
            leg_id: self.leg_id.clone(),
            call_id: self.call_id.clone(),
            from_tag: self.from_tag.clone(),
            branch: self.branch.clone(),
            cseq: self.cseq,
            new_ruri: self.new_ruri.clone(),
            new_from: self.new_from.clone(),
            new_to: self.new_to.clone(),
            body_override: clone_opt_bytes(&self.body_override),
            header_updates: self.header_updates.clone(),
            capabilities: self.capabilities.clone(),
            charging_vector: clone_opt_json(&self.charging_vector),
            withheld_option_tags: clone_texts(&self.withheld_option_tags),
            offered_option_tags: clone_texts(&self.offered_option_tags),
            kind: self.kind,
            emergency: self.emergency,
        };
        assert(views(r.header_updates@) =~= views(self.header_updates@));
        r
    }
}

/// A message to put on the wire.
#[derive(Debug, PartialEq)]
pub enum OutboundBody {
    Request { request: RequestPlan },
    Invite { invite: InvitePlan },
    Ack { ack: AckPlan },
    /// The CANCEL of an INVITE this stack sent.
    Cancel { of: InviteTxn, headers: Vec<SipHeader> },
    Response { response: ResponsePlan },
    /// A retained response, once more as it left.
    Repeat { response: ResponsePlan },
}

/// The mathematical value of a [`OutboundBody`].
pub enum OutboundBodyView {
    Request { request: RequestPlanView },
    Invite { invite: InvitePlanView },
    Ack { ack: AckPlanView },
    Cancel { of: InviteTxnView, headers: Seq<SipHeaderView> },
    Response { response: ResponsePlanView },
    Repeat { response: ResponsePlanView },
}

impl View for OutboundBody {
    type V = OutboundBodyView;

    open spec fn view(&self) -> OutboundBodyView {
        match self {
            OutboundBody::Request { request } => OutboundBodyView::Request { request: request@ },
            OutboundBody::Invite { invite } => OutboundBodyView::Invite { invite: invite@ },
            OutboundBody::Ack { ack } => OutboundBodyView::Ack { ack: ack@ },
            OutboundBody::Cancel { of, headers } => OutboundBodyView::Cancel {
                of: of@,
                headers: views(headers@),
            },
            OutboundBody::Response { response } => OutboundBodyView::Response {
                response: response@,
            },
            OutboundBody::Repeat { response } => OutboundBodyView::Repeat { response: response@ },
        }
    }
}

impl Clone for OutboundBody {
    fn clone(&self) -> (r: Self)
        ensures
            r@ == self@,
    {
        match self {
            OutboundBody::Request { request } => OutboundBody::Request { request: request.clone() },
            OutboundBody::Invite { invite } => OutboundBody::Invite { invite: invite.clone() },
            OutboundBody::Ack { ack } => OutboundBody::Ack { ack: ack.clone() },
            OutboundBody::Cancel { of, headers } => {
                let headers_copy = headers.clone();
                assert(views(headers_copy@) =~= views(headers@));
                OutboundBody::Cancel { of: of.clone(), headers: headers_copy }
            },
            OutboundBody::Response { response } => OutboundBody::Response {
                response: response.clone(),
            },
            OutboundBody::Repeat { response } => OutboundBody::Repeat {
                response: response.clone(),
            },
        }
    }
}

/// A message with how and where it goes.
#[derive(Debug, PartialEq)]
pub struct OutboundSip {
    pub body: OutboundBody,
    pub mode: TxnMode,
    pub destination: Destination,
    pub leg_id: Option<String>,
    pub provenance: Provenance,
}

/// The mathematical value of a [`OutboundSip`].
pub struct OutboundSipView {
    pub body: OutboundBodyView,
    pub mode: TxnMode,
    pub destination: DestinationView,
    pub leg_id: Option<Seq<char>>,
    pub provenance: Provenance,
}

impl View for OutboundSip {
    type V = OutboundSipView;

    open spec fn view(&self) -> OutboundSipView {
        OutboundSipView {
            body: self.body@,
            mode: self.mode,
            destination: self.destination@,
            leg_id: opt_view(self.leg_id),
            provenance: self.provenance,
        }
    }
}

impl Clone for OutboundSip {
    fn clone(&self) -> (r: Self)
        ensures
            r@ == self@,
    {
        let r = OutboundSip {
            body: self.body.clone(),
            mode: self.mode,
            destination: self.destination.clone(),
            leg_id: self.leg_id.clone(),
            provenance: self.provenance,
        };
        r
    }
}

/// An effect on the state the worker keeps for a call.
#[derive(Debug, PartialEq)]
pub enum CriticalEffect {
    ScheduleTimer { entry: TimerEntry },
    CancelTimer { id: String },
    CancelAllTimers,
    WriteCdr,
    DecrementLimiter { limiter_id: String, window: i64 },
    RemoveCall,
}

/// The mathematical value of a [`CriticalEffect`].
pub enum CriticalEffectView {
    ScheduleTimer { entry: TimerEntryView },
    CancelTimer { id: Seq<char> },
    CancelAllTimers,
    WriteCdr,
    DecrementLimiter { limiter_id: Seq<char>, window: i64 },
    RemoveCall,
}

impl View for CriticalEffect {
    type V = CriticalEffectView;

    open spec fn view(&self) -> CriticalEffectView {
        match self {
            CriticalEffect::ScheduleTimer { entry } => CriticalEffectView::ScheduleTimer {
                entry: entry@,
            },
            CriticalEffect::CancelTimer { id } => CriticalEffectView::CancelTimer { id: id@ },
            CriticalEffect::CancelAllTimers => CriticalEffectView::CancelAllTimers,
            CriticalEffect::WriteCdr => CriticalEffectView::WriteCdr,
            CriticalEffect::DecrementLimiter {
                limiter_id,
                window,
            } => CriticalEffectView::DecrementLimiter {
                limiter_id: limiter_id@,
                window: *window,
            },
            CriticalEffect::RemoveCall => CriticalEffectView::RemoveCall,
        }
    }
}

impl Clone for CriticalEffect {
    fn clone(&self) -> (r: Self)
        ensures
            r@ == self@,
    {
        match self {
            CriticalEffect::ScheduleTimer { entry } => CriticalEffect::ScheduleTimer {
                entry: entry.clone(),
            },
            CriticalEffect::CancelTimer { id } => CriticalEffect::CancelTimer { id: id.clone() },
            CriticalEffect::CancelAllTimers => CriticalEffect::CancelAllTimers,
            CriticalEffect::WriteCdr => CriticalEffect::WriteCdr,
            CriticalEffect::DecrementLimiter {
                limiter_id,
                window,
            } => CriticalEffect::DecrementLimiter {
                limiter_id: limiter_id.clone(),
                window: *window,
            },
            CriticalEffect::RemoveCall => CriticalEffect::RemoveCall,
        }
    }
}

/// The consult that authorizes a transfer.
#[derive(Debug, PartialEq)]
pub struct ReferRequest {
    pub call_id: String,
    pub dialog_id: String,
    pub refer_to: String,
    pub referred_by: Option<String>,
    pub sip_headers: Vec<SipHeader>,
}

/// The mathematical value of a [`ReferRequest`].
pub struct ReferRequestView {
    pub call_id: Seq<char>,
    pub dialog_id: Seq<char>,
    pub refer_to: Seq<char>,
    pub referred_by: Option<Seq<char>>,
    pub sip_headers: Seq<SipHeaderView>,
}

impl View for ReferRequest {
    type V = ReferRequestView;

    open spec fn view(&self) -> ReferRequestView {
        ReferRequestView {
            call_id: self.call_id@,
            dialog_id: self.dialog_id@,
            refer_to: self.refer_to@,
            referred_by: opt_view(self.referred_by),
            sip_headers: views(self.sip_headers@),
        }
    }
}

impl Clone for ReferRequest {
    fn clone(&self) -> (r: Self)
        ensures
            r@ == self@,
    {
        let r = ReferRequest {
            call_id: self.call_id.clone(),
            dialog_id: self.dialog_id.clone(),
            refer_to: self.refer_to.clone(),
            referred_by: self.referred_by.clone(),
            sip_headers: self.sip_headers.clone(),
        };
        assert(views(r.sip_headers@) =~= views(self.sip_headers@));
        r
    }
}

/// The consult on a failed leg.
#[derive(Debug, PartialEq)]
pub struct FailureRequest {
    pub callback_context: String,
    pub origin: FailureOrigin,
    pub timeout_kind: Option<TimeoutKind>,
    pub sip_code: Option<i64>,
    pub sip_reason: Option<String>,
    pub failed_leg_id: String,
    pub sip_headers: Vec<SipHeader>,
}

/// The mathematical value of a [`FailureRequest`].
pub struct FailureRequestView {
    pub callback_context: Seq<char>,
    pub origin: FailureOrigin,
    pub timeout_kind: Option<TimeoutKind>,
    pub sip_code: Option<i64>,
    pub sip_reason: Option<Seq<char>>,
    pub failed_leg_id: Seq<char>,
    pub sip_headers: Seq<SipHeaderView>,
}

impl View for FailureRequest {
    type V = FailureRequestView;

    open spec fn view(&self) -> FailureRequestView {
        FailureRequestView {
            callback_context: self.callback_context@,
            origin: self.origin,
            timeout_kind: self.timeout_kind,
            sip_code: self.sip_code,
            sip_reason: opt_view(self.sip_reason),
            failed_leg_id: self.failed_leg_id@,
            sip_headers: views(self.sip_headers@),
        }
    }
}

impl Clone for FailureRequest {
    fn clone(&self) -> (r: Self)
        ensures
            r@ == self@,
    {
        let r = FailureRequest {
            callback_context: self.callback_context.clone(),
            origin: self.origin,
            timeout_kind: self.timeout_kind,
            sip_code: self.sip_code,
            sip_reason: self.sip_reason.clone(),
            failed_leg_id: self.failed_leg_id.clone(),
            sip_headers: self.sip_headers.clone(),
        };
        assert(views(r.sip_headers@) =~= views(self.sip_headers@));
        r
    }
}

/// The consult on a release event.
#[derive(Debug, PartialEq)]
pub struct ReleaseRequest {
    pub callback_context: String,
    pub event: ReleaseEventKind,
}

/// The mathematical value of a [`ReleaseRequest`].
pub struct ReleaseRequestView {
    pub callback_context: Seq<char>,
    pub event: ReleaseEventKind,
}

impl View for ReleaseRequest {
    type V = ReleaseRequestView;

    open spec fn view(&self) -> ReleaseRequestView {
        ReleaseRequestView {
            callback_context: self.callback_context@,
            event: self.event,
        }
    }
}

impl Clone for ReleaseRequest {
    fn clone(&self) -> (r: Self)
        ensures
            r@ == self@,
    {
        let r = ReleaseRequest {
            callback_context: self.callback_context.clone(),
            event: self.event,
        };
        r
    }
}

/// A request a service makes of its own backend.
#[derive(Debug, PartialEq)]
pub struct ServiceRequest {
    pub correlation_id: String,
    pub endpoint: String,
    pub method: String,
    pub headers: Vec<SipHeader>,
    pub body: Vec<u8>,
    pub content_type: Option<String>,
    pub timeout_ms: i64,
}

/// The mathematical value of a [`ServiceRequest`].
pub struct ServiceRequestView {
    pub correlation_id: Seq<char>,
    pub endpoint: Seq<char>,
    pub method: Seq<char>,
    pub headers: Seq<SipHeaderView>,
    pub body: Seq<u8>,
    pub content_type: Option<Seq<char>>,
    pub timeout_ms: i64,
}

impl View for ServiceRequest {
    type V = ServiceRequestView;

    open spec fn view(&self) -> ServiceRequestView {
        ServiceRequestView {
            correlation_id: self.correlation_id@,
            endpoint: self.endpoint@,
            method: self.method@,
            headers: views(self.headers@),
            body: self.body@,
            content_type: opt_view(self.content_type),
            timeout_ms: self.timeout_ms,
        }
    }
}

impl Clone for ServiceRequest {
    fn clone(&self) -> (r: Self)
        ensures
            r@ == self@,
    {
        let r = ServiceRequest {
            correlation_id: self.correlation_id.clone(),
            endpoint: self.endpoint.clone(),
            method: self.method.clone(),
            headers: self.headers.clone(),
            body: clone_bytes(&self.body),
            content_type: self.content_type.clone(),
            timeout_ms: self.timeout_ms,
        };
        assert(views(r.headers@) =~= views(self.headers@));
        r
    }
}

/// A consult whose answer comes back as an event.
#[derive(Debug, PartialEq)]
#[allow(inconsistent_fields)]
pub enum FireAndForget {
    Refer { call_ref: String, request: ReferRequest },
    Failure { call_ref: String, request: FailureRequest },
    Release { call_ref: String, request: ReleaseRequest },
    Service { call_ref: String, request: ServiceRequest },
}

/// The mathematical value of a [`FireAndForget`].
#[allow(inconsistent_fields)]
pub enum FireAndForgetView {
    Refer { call_ref: Seq<char>, request: ReferRequestView },
    Failure { call_ref: Seq<char>, request: FailureRequestView },
    Release { call_ref: Seq<char>, request: ReleaseRequestView },
    Service { call_ref: Seq<char>, request: ServiceRequestView },
}

impl View for FireAndForget {
    type V = FireAndForgetView;

    open spec fn view(&self) -> FireAndForgetView {
        match self {
            FireAndForget::Refer { call_ref, request } => FireAndForgetView::Refer {
                call_ref: call_ref@,
                request: request@,
            },
            FireAndForget::Failure { call_ref, request } => FireAndForgetView::Failure {
                call_ref: call_ref@,
                request: request@,
            },
            FireAndForget::Release { call_ref, request } => FireAndForgetView::Release {
                call_ref: call_ref@,
                request: request@,
            },
            FireAndForget::Service { call_ref, request } => FireAndForgetView::Service {
                call_ref: call_ref@,
                request: request@,
            },
        }
    }
}

impl Clone for FireAndForget {
    fn clone(&self) -> (r: Self)
        ensures
            r@ == self@,
    {
        match self {
            FireAndForget::Refer { call_ref, request } => FireAndForget::Refer {
                call_ref: call_ref.clone(),
                request: request.clone(),
            },
            FireAndForget::Failure { call_ref, request } => FireAndForget::Failure {
                call_ref: call_ref.clone(),
                request: request.clone(),
            },
            FireAndForget::Release { call_ref, request } => FireAndForget::Release {
                call_ref: call_ref.clone(),
                request: request.clone(),
            },
            FireAndForget::Service { call_ref, request } => FireAndForget::Service {
                call_ref: call_ref.clone(),
                request: request.clone(),
            },
        }
    }
}

/// What a turn does to the world, in order.
#[derive(Debug, PartialEq)]
pub struct HandlerEffects {
    pub outbound: Vec<OutboundSip>,
    pub critical: Vec<CriticalEffect>,
    pub fire_and_forget: Vec<FireAndForget>,
}

/// The mathematical value of a [`HandlerEffects`].
pub struct HandlerEffectsView {
    pub outbound: Seq<OutboundSipView>,
    pub critical: Seq<CriticalEffectView>,
    pub fire_and_forget: Seq<FireAndForgetView>,
}

impl View for HandlerEffects {
    type V = HandlerEffectsView;

    open spec fn view(&self) -> HandlerEffectsView {
        HandlerEffectsView {
            outbound: views(self.outbound@),
            critical: views(self.critical@),
            fire_and_forget: views(self.fire_and_forget@),
        }
    }
}

impl Clone for HandlerEffects {
    fn clone(&self) -> (r: Self)
        ensures
            r@ == self@,
    {
        let r = HandlerEffects {
            outbound: self.outbound.clone(),
            critical: self.critical.clone(),
            fire_and_forget: self.fire_and_forget.clone(),
        };
        assert(views(r.outbound@) =~= views(self.outbound@));
        assert(views(r.critical@) =~= views(self.critical@));
        assert(views(r.fire_and_forget@) =~= views(self.fire_and_forget@));
        r
    }
}

/// The outcome of a turn.
#[derive(Debug, PartialEq)]
pub struct HandlerResult {
    pub call: Call,
    pub effects: HandlerEffects,
}

/// The mathematical value of a [`HandlerResult`].
pub struct HandlerResultView {
    pub call: CallView,
    pub effects: HandlerEffectsView,
}

impl View for HandlerResult {
    type V = HandlerResultView;

    open spec fn view(&self) -> HandlerResultView {
        HandlerResultView {
            call: self.call@,
            effects: self.effects@,
        }
    }
}

impl Clone for HandlerResult {
    fn clone(&self) -> (r: Self)
        ensures
            r@ == self@,
    {
        let r = HandlerResult {
            call: self.call.clone(),
            effects: self.effects.clone(),
        };
        r
    }
}

} // verus!
