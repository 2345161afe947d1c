//! The vocabulary of actions a rule answers an event with.
use vstd::prelude::*;

use crate::call::{
    ByeDisposition, CdrEventType, ExtEntry, ExtEntryView, FeatureActivations,
    FeatureActivationsView, LegDisposition, LegKind, LegState, LimiterHold, LimiterHoldView,
    PromotePemState, PromotePemStateView, ReleaseEventKind, TagMapping, TagMappingView, TimerType,
    TimerTypeView, TransferState, TransferStateView,
};
use crate::effects::{
    FailureRequest, FailureRequestView, ReferRequest, ReferRequestView, ReleaseRequest,
    ReleaseRequestView, ServiceRequest, ServiceRequestView,
};
use crate::seqs::{opt_view, views};
use crate::text::{clone_bytes, clone_opt_bytes, clone_texts};
use crate::wire::{
    HeaderUpdate, HeaderUpdateView, HostPort, HostPortView, Method, MethodView, RedirectContact,
    RedirectContactView, SipHeader, SipHeaderView,
};

verus! {

/// How a relayed message differs from its source.
#[derive(Debug, PartialEq)]
pub struct MessageTransform {
    pub status: Option<u16>,
    pub reason: Option<String>,
    pub drop_body: bool,
    pub remove_headers: Vec<String>,
    pub add_headers: Vec<SipHeader>,
}

/// The mathematical value of a [`MessageTransform`].
pub struct MessageTransformView {
    pub status: Option<u16>,
    pub reason: Option<Seq<char>>,
    pub drop_body: bool,
    pub remove_headers: Seq<Seq<char>>,
    pub add_headers: Seq<SipHeaderView>,
}

impl View for MessageTransform {
    type V = MessageTransformView;

    open spec fn view(&self) -> MessageTransformView {
        MessageTransformView {
            status: self.status,
            reason: opt_view(self.reason),
            drop_body: self.drop_body,
            remove_headers: views(self.remove_headers@),
            add_headers: views(self.add_headers@),
        }
    }
}

impl Clone for MessageTransform {
    fn clone(&self) -> (r: Self)
        ensures
            r@ == self@,
    {
        let r = MessageTransform {
            status: self.status,
            reason: self.reason.clone(),
            drop_body: self.drop_body,
            remove_headers: clone_texts(&self.remove_headers),
            add_headers: self.add_headers.clone(),
        };
        assert(views(r.add_headers@) =~= views(self.add_headers@));
        r
    }
}

/// A leg to create.
#[derive(Debug, PartialEq)]
pub struct NewLeg {
    pub destination: HostPort,
    pub new_ruri: Option<String>,
    pub new_from: Option<String>,
    pub new_to: Option<String>,
    pub no_answer_timeout_sec: Option<i64>,
    pub callback_context: Option<String>,
    /// A body in place of the caller's; empty drops it.
    pub body_override: Option<Vec<u8>>,
    pub header_updates: Vec<HeaderUpdate>,
    pub kind: Option<LegKind>,
}

/// The mathematical value of a [`NewLeg`].
pub struct NewLegView {
    pub destination: HostPortView,
    pub new_ruri: Option<Seq<char>>,
    pub new_from: Option<Seq<char>>,
    pub new_to: Option<Seq<char>>,
    pub no_answer_timeout_sec: Option<i64>,
    pub callback_context: Option<Seq<char>>,
    pub body_override: Option<Seq<u8>>,
    pub header_updates: Seq<HeaderUpdateView>,
    pub kind: Option<LegKind>,
}

impl View for NewLeg {
    type V = NewLegView;

    open spec fn view(&self) -> NewLegView {
        NewLegView {
            destination: self.destination@,
            new_ruri: opt_view(self.new_ruri),
            new_from: opt_view(self.new_from),
            new_to: opt_view(self.new_to),
            no_answer_timeout_sec: self.no_answer_timeout_sec,
            callback_context: opt_view(self.callback_context),
            body_override: opt_view(self.body_override),
            header_updates: views(self.header_updates@),
            kind: self.kind,
        }
    }
}

impl Clone for NewLeg {
    fn clone(&self) -> (r: Self)
        ensures
            r@ == self@,
    {
        let r = NewLeg {
            destination: self.destination.clone(),
            new_ruri: self.new_ruri.clone(),
            new_from: self.new_from.clone(),
            new_to: self.new_to.clone(),
            no_answer_timeout_sec: self.no_answer_timeout_sec,
            callback_context: self.callback_context.clone(),
            body_override: clone_opt_bytes(&self.body_override),
            header_updates: self.header_updates.clone(),
            kind: self.kind,
        };
        assert(views(r.header_updates@) =~= views(self.header_updates@));
        r
    }
}

/// The final a decision authored for the caller.
#[derive(Debug, PartialEq)]
pub struct AuthoredFinal {
    pub status: u16,
    pub reason: String,
    pub header_updates: Vec<HeaderUpdate>,
    pub contacts: Vec<RedirectContact>,
}

/// The mathematical value of a [`AuthoredFinal`].
pub struct AuthoredFinalView {
    pub status: u16,
    pub reason: Seq<char>,
    pub header_updates: Seq<HeaderUpdateView>,
    pub contacts: Seq<RedirectContactView>,
}

impl View for AuthoredFinal {
    type V = AuthoredFinalView;

    open spec fn view(&self) -> AuthoredFinalView {
        AuthoredFinalView {
            status: self.status,
            reason: self.reason@,
            header_updates: views(self.header_updates@),
            contacts: views(self.contacts@),
        }
    }
}

impl Clone for AuthoredFinal {
    fn clone(&self) -> (r: Self)
        ensures
            r@ == self@,
    {
        let r = AuthoredFinal {
            status: self.status,
            reason: self.reason.clone(),
            header_updates: self.header_updates.clone(),
            contacts: self.contacts.clone(),
        };
        assert(views(r.header_updates@) =~= views(self.header_updates@));
        assert(views(r.contacts@) =~= views(self.contacts@));
        r
    }
}

/// An answer to the caller in a dialog of its own.
#[derive(Debug, PartialEq)]
pub struct NewDialogAnswer {
    pub status: u16,
    pub reason: String,
    pub body: Vec<u8>,
    pub content_type: Option<String>,
    pub to_tag: Option<String>,
    pub header_updates: Vec<HeaderUpdate>,
    /// The lines of the callee final this answer delivers.
    pub relayed: Vec<SipHeader>,
}

/// The mathematical value of a [`NewDialogAnswer`].
pub struct NewDialogAnswerView {
    pub status: u16,
    pub reason: Seq<char>,
    pub body: Seq<u8>,
    pub content_type: Option<Seq<char>>,
    pub to_tag: Option<Seq<char>>,
    pub header_updates: Seq<HeaderUpdateView>,
    pub relayed: Seq<SipHeaderView>,
}

impl View for NewDialogAnswer {
    type V = NewDialogAnswerView;

    open spec fn view(&self) -> NewDialogAnswerView {
        NewDialogAnswerView {
            status: self.status,
            reason: self.reason@,
            body: self.body@,
            content_type: opt_view(self.content_type),
            to_tag: opt_view(self.to_tag),
            header_updates: views(self.header_updates@),
            relayed: views(self.relayed@),
        }
    }
}

impl Clone for NewDialogAnswer {
    fn clone(&self) -> (r: Self)
        ensures
            r@ == self@,
    {
        let r = NewDialogAnswer {
            status: self.status,
            reason: self.reason.clone(),
            body: clone_bytes(&self.body),
            content_type: self.content_type.clone(),
            to_tag: self.to_tag.clone(),
            header_updates: self.header_updates.clone(),
            relayed: self.relayed.clone(),
        };
        assert(views(r.header_updates@) =~= views(self.header_updates@));
        assert(views(r.relayed@) =~= views(self.relayed@));
        r
    }
}

/// A provisional to show the caller.
#[derive(Debug, PartialEq)]
pub struct Provisional {
    pub leg_id: String,
    pub status: u16,
    pub reason: String,
    pub body: Vec<u8>,
    pub content_type: Option<String>,
    pub to_tag: Option<String>,
    pub p_early_media: Option<String>,
}

/// The mathematical value of a [`Provisional`].
pub struct ProvisionalView {
    pub leg_id: Seq<char>,
    pub status: u16,
    pub reason: Seq<char>,
    pub body: Seq<u8>,
    pub content_type: Option<Seq<char>>,
    pub to_tag: Option<Seq<char>>,
    pub p_early_media: Option<Seq<char>>,
}

impl View for Provisional {
    type V = ProvisionalView;

    open spec fn view(&self) -> ProvisionalView {
        ProvisionalView {
            leg_id: self.leg_id@,
            status: self.status,
            reason: self.reason@,
            body: self.body@,
            content_type: opt_view(self.content_type),
            to_tag: opt_view(self.to_tag),
            p_early_media: opt_view(self.p_early_media),
        }
    }
}

impl Clone for Provisional {
    fn clone(&self) -> (r: Self)
        ensures
            r@ == self@,
    {
        let r = Provisional {
            leg_id: self.leg_id.clone(),
            status: self.status,
            reason: self.reason.clone(),
            body: clone_bytes(&self.body),
            content_type: self.content_type.clone(),
            to_tag: self.to_tag.clone(),
            p_early_media: self.p_early_media.clone(),
        };
        r
    }
}

/// What a rule can have done.
#[derive(Debug, PartialEq)]
#[allow(inconsistent_fields)]
pub enum RuleAction {
    /// Relay the event to the peer leg.
    RelayToPeer { transform: MessageTransform },
    /// Relay the event to that leg.
    RelayToLeg { leg_id: String, transform: MessageTransform },
    /// Answer the event's request in place.
    Respond { status: u16, reason: String, body: Vec<u8>, content_type: Option<String> },
    AckLeg { leg_id: String, body: Vec<u8>, content_type: Option<String> },
    /// Take the event's 2xx as the leg's answer.
    ConfirmDialog { leg_id: String },
    UpdateLegState { leg_id: String, state: LegState, disposition: Option<LegDisposition> },
    AddTagMapping { mapping: TagMapping },
    /// Bridge two legs.
    Merge { leg_a: String, leg_b: String },
    /// Undo a bridge.
    Split { leg_id: String },
    CreateLeg { leg: NewLeg },
    DestroyLeg { leg_id: String },
    CancelLeg { leg_id: String },
    CancelPendingReinvite { leg_id: String, outbound_cseq: i64 },
    ResolveCancelledReinvite { leg_id: String, outbound_cseq: i64 },
    RejectPendingReinvite { leg_id: String, outbound_cseq: i64, status: u16, reason: String },
    ScheduleTimer { timer_type: TimerType, delay_sec: i64, leg_id: Option<String> },
    CancelTimer { id: String },
    CancelAllTimers,
    /// End every leg at once, without a word on the wire.
    TerminateCall,
    /// Tear the call down gracefully.
    BeginTermination { reason: Option<String> },
    TerminateLeg { leg_id: String, bye_disposition: Option<ByeDisposition> },
    AddCdrEvent {
        event_type: CdrEventType,
        leg_id: String,
        status_code: Option<i64>,
        reason: Option<String>,
    },
    DeactivateRule { rule_id: String },
    /// Move a machine's cursor.
    SetState { machine: String, to: String },
    /// Deactivate a machine.
    ClearState { machine: String },
    SendRequestToLeg {
        leg_id: String,
        method: Method,
        body: Vec<u8>,
        content_type: Option<String>,
        headers: Vec<SipHeader>,
    },
    SendProvisionalToLeg { provisional: Provisional },
    SendPrackToLeg { leg_id: String, rseq: i64, invite_cseq: i64, b_tag: String },
    CacheSdpOnLegDialog { leg_id: String, b_tag: String, body: Vec<u8> },
    SetPolicyUpdateBody { body: Vec<u8> },
    RelayFirstBare180 { leg_id: String, b_tag: String },
    SendReinvite { leg_id: String, body: Vec<u8>, add_headers: Vec<SipHeader> },
    SetPromotePem { state: Option<PromotePemState> },
    SendNotify {
        leg_id: String,
        event: String,
        subscription_state: String,
        content_type: Option<String>,
        body: Vec<u8>,
    },
    ReferAsyncHttp { request: ReferRequest },
    ServiceHttpRequest { request: ServiceRequest },
    SetTransfer { state: Option<TransferState> },
    FailureAsyncHttp { request: FailureRequest },
    ReleaseAsyncHttp { request: ReleaseRequest },
    SetSubscriptions { events: Vec<ReleaseEventKind> },
    SetReroute { state: Option<String> },
    SetFeatures { features: FeatureActivations },
    /// Set the named values; a null removes one.
    MergeCallExt { ext: Vec<ExtEntry> },
    /// State what the last failed attempt said.
    SetFailureHeaders { headers: Vec<SipHeader> },
    RecordLimiterHolds { entries: Vec<LimiterHold>, window: i64 },
    RelayFailureToALeg { status: u16, reason: String },
    RespondToALeg { authored: AuthoredFinal },
    AnswerALegNewDialog { answer: NewDialogAnswer },
    /// Send the answer to the caller once more.
    RetransmitALeg2xx,
    RetransmitALegReinvite2xx,
    ClearPendingReinvite2xx,
}

/// The mathematical value of a [`RuleAction`].
#[allow(inconsistent_fields)]
pub enum RuleActionView {
    RelayToPeer { transform: MessageTransformView },
    RelayToLeg { leg_id: Seq<char>, transform: MessageTransformView },
    Respond { status: u16, reason: Seq<char>, body: Seq<u8>, content_type: Option<Seq<char>> },
    AckLeg { leg_id: Seq<char>, body: Seq<u8>, content_type: Option<Seq<char>> },
    ConfirmDialog { leg_id: Seq<char> },
    UpdateLegState { leg_id: Seq<char>, state: LegState, disposition: Option<LegDisposition> },
    AddTagMapping { mapping: TagMappingView },
    Merge { leg_a: Seq<char>, leg_b: Seq<char> },
    Split { leg_id: Seq<char> },
    CreateLeg { leg: NewLegView },
    DestroyLeg { leg_id: Seq<char> },
    CancelLeg { leg_id: Seq<char> },
    CancelPendingReinvite { leg_id: Seq<char>, outbound_cseq: i64 },
    ResolveCancelledReinvite { leg_id: Seq<char>, outbound_cseq: i64 },
    RejectPendingReinvite { leg_id: Seq<char>, outbound_cseq: i64, status: u16, reason: Seq<char> },
    ScheduleTimer { timer_type: TimerTypeView, delay_sec: i64, leg_id: Option<Seq<char>> },
    CancelTimer { id: Seq<char> },
    CancelAllTimers,
    TerminateCall,
    BeginTermination { reason: Option<Seq<char>> },
    TerminateLeg { leg_id: Seq<char>, bye_disposition: Option<ByeDisposition> },
    AddCdrEvent {
        event_type: CdrEventType,
        leg_id: Seq<char>,
        status_code: Option<i64>,
        reason: Option<Seq<char>>,
    },
    DeactivateRule { rule_id: Seq<char> },
    SetState { machine: Seq<char>, to: Seq<char> },
    ClearState { machine: Seq<char> },
    SendRequestToLeg {
        leg_id: Seq<char>,
        method: MethodView,
        body: Seq<u8>,
        content_type: Option<Seq<char>>,
        headers: Seq<SipHeaderView>,
    },
    SendProvisionalToLeg { provisional: ProvisionalView },
    SendPrackToLeg { leg_id: Seq<char>, rseq: i64, invite_cseq: i64, b_tag: Seq<char> },
    CacheSdpOnLegDialog { leg_id: Seq<char>, b_tag: Seq<char>, body: Seq<u8> },
    SetPolicyUpdateBody { body: Seq<u8> },
    RelayFirstBare180 { leg_id: Seq<char>, b_tag: Seq<char> },
    SendReinvite { leg_id: Seq<char>, body: Seq<u8>, add_headers: Seq<SipHeaderView> },
    SetPromotePem { state: Option<PromotePemStateView> },
    SendNotify {
        leg_id: Seq<char>,
        event: Seq<char>,
        subscription_state: Seq<char>,
        content_type: Option<Seq<char>>,
        body: Seq<u8>,
    },
    ReferAsyncHttp { request: ReferRequestView },
    ServiceHttpRequest { request: ServiceRequestView },
    SetTransfer { state: Option<TransferStateView> },
    FailureAsyncHttp { request: FailureRequestView },
    ReleaseAsyncHttp { request: ReleaseRequestView },
    SetSubscriptions { events: Seq<ReleaseEventKind> },
    SetReroute { state: Option<Seq<char>> },
    SetFeatures { features: FeatureActivationsView },
    MergeCallExt { ext: Seq<ExtEntryView> },
    SetFailureHeaders { headers: Seq<SipHeaderView> },
    RecordLimiterHolds { entries: Seq<LimiterHoldView>, window: i64 },
    RelayFailureToALeg { status: u16, reason: Seq<char> },
    RespondToALeg { authored: AuthoredFinalView },
    AnswerALegNewDialog { answer: NewDialogAnswerView },
    RetransmitALeg2xx,
    RetransmitALegReinvite2xx,
    ClearPendingReinvite2xx,
}

impl View for RuleAction {
    type V = RuleActionView;

    open spec fn view(&self) -> RuleActionView {
        match self {
            RuleAction::RelayToPeer { transform } => RuleActionView::RelayToPeer {
                transform: transform@,
            },
            RuleAction::RelayToLeg { leg_id, transform } => RuleActionView::RelayToLeg {
                leg_id: leg_id@,
                transform: transform@,
            },
            RuleAction::Respond { status, reason, body, content_type } => RuleActionView::Respond {
                status: *status,
                reason: reason@,
                body: body@,
                content_type: opt_view(*content_type),
            },
            RuleAction::AckLeg { leg_id, body, content_type } => RuleActionView::AckLeg {
                leg_id: leg_id@,
                body: body@,
                content_type: opt_view(*content_type),
            },
            RuleAction::ConfirmDialog { leg_id } => RuleActionView::ConfirmDialog {
                leg_id: leg_id@,
            },
            RuleAction::UpdateLegState {
                leg_id,
                state,
                disposition,
            } => RuleActionView::UpdateLegState {
                leg_id: leg_id@,
                state: *state,
                disposition: *disposition,
            },
            RuleAction::AddTagMapping { mapping } => RuleActionView::AddTagMapping {
                mapping: mapping@,
            },
            RuleAction::Merge { leg_a, leg_b } => RuleActionView::Merge {
                leg_a: leg_a@,
                leg_b: leg_b@,
            },
            RuleAction::Split { leg_id } => RuleActionView::Split { leg_id: leg_id@ },
            RuleAction::CreateLeg { leg } => RuleActionView::CreateLeg { leg: leg@ },
            RuleAction::DestroyLeg { leg_id } => RuleActionView::DestroyLeg { leg_id: leg_id@ },
            RuleAction::CancelLeg { leg_id } => RuleActionView::CancelLeg { leg_id: leg_id@ },
            RuleAction::CancelPendingReinvite {
                leg_id,
                outbound_cseq,
            } => RuleActionView::CancelPendingReinvite {
                leg_id: leg_id@,
                outbound_cseq: *outbound_cseq,
            },
            RuleAction::ResolveCancelledReinvite {
                leg_id,
                outbound_cseq,
            } => RuleActionView::ResolveCancelledReinvite {
                leg_id: leg_id@,
                outbound_cseq: *outbound_cseq,
            },
            RuleAction::RejectPendingReinvite {
                leg_id,
                outbound_cseq,
                status,
                reason,
            } => RuleActionView::RejectPendingReinvite {
                leg_id: leg_id@,
                outbound_cseq: *outbound_cseq,
                status: *status,
                reason: reason@,
            },
            RuleAction::ScheduleTimer {
                timer_type,
                delay_sec,
                leg_id,
            } => RuleActionView::ScheduleTimer {
                timer_type: timer_type@,
                delay_sec: *delay_sec,
                leg_id: opt_view(*leg_id),
            },
            RuleAction::CancelTimer { id } => RuleActionView::CancelTimer { id: id@ },
            RuleAction::CancelAllTimers => RuleActionView::CancelAllTimers,
            RuleAction::TerminateCall => RuleActionView::TerminateCall,
            RuleAction::BeginTermination { reason } => RuleActionView::BeginTermination {
                reason: opt_view(*reason),
            },
            RuleAction::TerminateLeg { leg_id, bye_disposition } => RuleActionView::TerminateLeg {
                leg_id: leg_id@,
                bye_disposition: *bye_disposition,
            },
            RuleAction::AddCdrEvent {
                event_type,
                leg_id,
                status_code,
                reason,
            } => RuleActionView::AddCdrEvent {
                event_type: *event_type,
                leg_id: leg_id@,
                status_code: *status_code,
                reason: opt_view(*reason),
            },
            RuleAction::DeactivateRule { rule_id } => RuleActionView::DeactivateRule {
                rule_id: rule_id@,
            },
            RuleAction::SetState { machine, to } => RuleActionView::SetState {
                machine: machine@,
                to: to@,
            },
            RuleAction::ClearState { machine } => RuleActionView::ClearState { machine: machine@ },
            RuleAction::SendRequestToLeg {
                leg_id,
                method,
                body,
                content_type,
                headers,
            } => RuleActionView::SendRequestToLeg {
                leg_id: leg_id@,
                method: method@,
                body: body@,
                content_type: opt_view(*content_type),
                headers: views(headers@),
            },
            RuleAction::SendProvisionalToLeg { provisional } => RuleActionView::SendProvisionalToLeg {
                provisional: provisional@,
            },
            RuleAction::SendPrackToLeg {
                leg_id,
                rseq,
                invite_cseq,
                b_tag,
            } => RuleActionView::SendPrackToLeg {
                leg_id: leg_id@,
                rseq: *rseq,
                invite_cseq: *invite_cseq,
                b_tag: b_tag@,
            },
            RuleAction::CacheSdpOnLegDialog {
                leg_id,
                b_tag,
                body,
            } => RuleActionView::CacheSdpOnLegDialog {
                leg_id: leg_id@,
                b_tag: b_tag@,
                body: body@,
            },
            RuleAction::SetPolicyUpdateBody { body } => RuleActionView::SetPolicyUpdateBody {
                body: body@,
            },
            RuleAction::RelayFirstBare180 { leg_id, b_tag } => RuleActionView::RelayFirstBare180 {
                leg_id: leg_id@,
                b_tag: b_tag@,
            },
            RuleAction::SendReinvite { leg_id, body, add_headers } => RuleActionView::SendReinvite {
                leg_id: leg_id@,
                body: body@,
                add_headers: views(add_headers@),
            },
            RuleAction::SetPromotePem { state } => RuleActionView::SetPromotePem {
                state: opt_view(*state),
            },
            RuleAction::SendNotify {
                leg_id,
                event,
                subscription_state,
                content_type,
                body,
            } => RuleActionView::SendNotify {
                leg_id: leg_id@,
                event: event@,
                subscription_state: subscription_state@,
                content_type: opt_view(*content_type),
                body: body@,
            },
            RuleAction::ReferAsyncHttp { request } => RuleActionView::ReferAsyncHttp {
                request: request@,
            },
            RuleAction::ServiceHttpRequest { request } => RuleActionView::ServiceHttpRequest {
                request: request@,
            },
            RuleAction::SetTransfer { state } => RuleActionView::SetTransfer {
                state: opt_view(*state),
            },
            RuleAction::FailureAsyncHttp { request } => RuleActionView::FailureAsyncHttp {
                request: request@,
            },
            RuleAction::ReleaseAsyncHttp { request } => RuleActionView::ReleaseAsyncHttp {
                request: request@,
            },
            RuleAction::SetSubscriptions { events } => RuleActionView::SetSubscriptions {
                events: events@,
            },
            RuleAction::SetReroute { state } => RuleActionView::SetReroute {
                state: opt_view(*state),
            },
            RuleAction::SetFeatures { features } => RuleActionView::SetFeatures {
                features: features@,
            },
            RuleAction::MergeCallExt { ext } => RuleActionView::MergeCallExt { ext: views(ext@) },
            RuleAction::SetFailureHeaders { headers } => RuleActionView::SetFailureHeaders {
                headers: views(headers@),
            },
            RuleAction::RecordLimiterHolds {
                entries,
                window,
            } => RuleActionView::RecordLimiterHolds {
                entries: views(entries@),
                window: *window,
            },
            RuleAction::RelayFailureToALeg {
                status,
                reason,
            } => RuleActionView::RelayFailureToALeg {
                status: *status,
                reason: reason@,
            },
            RuleAction::RespondToALeg { authored } => RuleActionView::RespondToALeg {
                authored: authored@,
            },
            RuleAction::AnswerALegNewDialog { answer } => RuleActionView::AnswerALegNewDialog {
                answer: answer@,
            },
            RuleAction::RetransmitALeg2xx => RuleActionView::RetransmitALeg2xx,
            RuleAction::RetransmitALegReinvite2xx => RuleActionView::RetransmitALegReinvite2xx,
            RuleAction::ClearPendingReinvite2xx => RuleActionView::ClearPendingReinvite2xx,
        }
    }
}

impl Clone for RuleAction {
    fn clone(&self) -> (r: Self)
        ensures
            r@ == self@,
    {
        match self {
            RuleAction::RelayToPeer { transform } => RuleAction::RelayToPeer {
                transform: transform.clone(),
            },
            RuleAction::RelayToLeg { leg_id, transform } => RuleAction::RelayToLeg {
                leg_id: leg_id.clone(),
                transform: transform.clone(),
            },
            RuleAction::Respond { status, reason, body, content_type } => RuleAction::Respond {
                status: *status,
                reason: reason.clone(),
                body: clone_bytes(body),
                content_type: content_type.clone(),
            },
            RuleAction::AckLeg { leg_id, body, content_type } => RuleAction::AckLeg {
                leg_id: leg_id.clone(),
                body: clone_bytes(body),
                content_type: content_type.clone(),
            },
            RuleAction::ConfirmDialog { leg_id } => RuleAction::ConfirmDialog {
                leg_id: leg_id.clone(),
            },
            RuleAction::UpdateLegState {
                leg_id,
                state,
                disposition,
            } => RuleAction::UpdateLegState {
                leg_id: leg_id.clone(),
                state: *state,
                disposition: *disposition,
            },
            RuleAction::AddTagMapping { mapping } => RuleAction::AddTagMapping {
                mapping: mapping.clone(),
            },
            RuleAction::Merge { leg_a, leg_b } => RuleAction::Merge {
                leg_a: leg_a.clone(),
                leg_b: leg_b.clone(),
            },
            RuleAction::Split { leg_id } => RuleAction::Split { leg_id: leg_id.clone() },
            RuleAction::CreateLeg { leg } => RuleAction::CreateLeg { leg: leg.clone() },
            RuleAction::DestroyLeg { leg_id } => RuleAction::DestroyLeg { leg_id: leg_id.clone() },
            RuleAction::CancelLeg { leg_id } => RuleAction::CancelLeg { leg_id: leg_id.clone() },
            RuleAction::CancelPendingReinvite {
                leg_id,
                outbound_cseq,
            } => RuleAction::CancelPendingReinvite {
                leg_id: leg_id.clone(),
                outbound_cseq: *outbound_cseq,
            },
            RuleAction::ResolveCancelledReinvite {
                leg_id,
                outbound_cseq,
            } => RuleAction::ResolveCancelledReinvite {
                leg_id: leg_id.clone(),
                outbound_cseq: *outbound_cseq,
            },
            RuleAction::RejectPendingReinvite {
                leg_id,
                outbound_cseq,
                status,
                reason,
            } => RuleAction::RejectPendingReinvite {
                leg_id: leg_id.clone(),
                outbound_cseq: *outbound_cseq,
                status: *status,
                reason: reason.clone(),
            },
            RuleAction::ScheduleTimer {
                timer_type,
                delay_sec,
                leg_id,
            } => RuleAction::ScheduleTimer {
                timer_type: timer_type.clone(),
                delay_sec: *delay_sec,
                leg_id: leg_id.clone(),
            },
            RuleAction::CancelTimer { id } => RuleAction::CancelTimer { id: id.clone() },
            RuleAction::CancelAllTimers => RuleAction::CancelAllTimers,
            RuleAction::TerminateCall => RuleAction::TerminateCall,
            RuleAction::BeginTermination { reason } => RuleAction::BeginTermination {
                reason: reason.clone(),
            },
            RuleAction::TerminateLeg { leg_id, bye_disposition } => RuleAction::TerminateLeg {
                leg_id: leg_id.clone(),
                bye_disposition: *bye_disposition,
            },
            RuleAction::AddCdrEvent {
                event_type,
                leg_id,
                status_code,
                reason,
            } => RuleAction::AddCdrEvent {
                event_type: *event_type,
                leg_id: leg_id.clone(),
                status_code: *status_code,
                reason: reason.clone(),
            },
            RuleAction::DeactivateRule { rule_id } => RuleAction::DeactivateRule {
                rule_id: rule_id.clone(),
            },
            RuleAction::SetState { machine, to } => RuleAction::SetState {
                machine: machine.clone(),
                to: to.clone(),
            },
            RuleAction::ClearState { machine } => RuleAction::ClearState {
                machine: machine.clone(),
            },
            RuleAction::SendRequestToLeg { leg_id, method, body, content_type, headers } => {
                let headers_copy = headers.clone();
                assert(views(headers_copy@) =~= views(headers@));
                RuleAction::SendRequestToLeg {
                    leg_id: leg_id.clone(),
                    method: method.clone(),
                    body: clone_bytes(body),
                    content_type: content_type.clone(),
                    headers: headers_copy,
                }
            },
            RuleAction::SendProvisionalToLeg { provisional } => RuleAction::SendProvisionalToLeg {
                provisional: provisional.clone(),
            },
            RuleAction::SendPrackToLeg {
                leg_id,
                rseq,
                invite_cseq,
                b_tag,
            } => RuleAction::SendPrackToLeg {
                leg_id: leg_id.clone(),
                rseq: *rseq,
                invite_cseq: *invite_cseq,
                b_tag: b_tag.clone(),
            },
            RuleAction::CacheSdpOnLegDialog {
                leg_id,
                b_tag,
                body,
            } => RuleAction::CacheSdpOnLegDialog {
                leg_id: leg_id.clone(),
                b_tag: b_tag.clone(),
                body: clone_bytes(body),
            },
            RuleAction::SetPolicyUpdateBody { body } => RuleAction::SetPolicyUpdateBody {
                body: clone_bytes(body),
            },
            RuleAction::RelayFirstBare180 { leg_id, b_tag } => RuleAction::RelayFirstBare180 {
                leg_id: leg_id.clone(),
                b_tag: b_tag.clone(),
            },
            RuleAction::SendReinvite { leg_id, body, add_headers } => {
                let add_headers_copy = add_headers.clone();
                assert(views(add_headers_copy@) =~= views(add_headers@));
                RuleAction::SendReinvite {
                    leg_id: leg_id.clone(),
                    body: clone_bytes(body),
                    add_headers: add_headers_copy,
                }
            },
            RuleAction::SetPromotePem { state } => RuleAction::SetPromotePem {
                state: state.clone(),
            },
            RuleAction::SendNotify {
                leg_id,
                event,
                subscription_state,
                content_type,
                body,
            } => RuleAction::SendNotify {
                leg_id: leg_id.clone(),
                event: event.clone(),
                subscription_state: subscription_state.clone(),
                content_type: content_type.clone(),
                body: clone_bytes(body),
            },
            RuleAction::ReferAsyncHttp { request } => RuleAction::ReferAsyncHttp {
                request: request.clone(),
            },
            RuleAction::ServiceHttpRequest { request } => RuleAction::ServiceHttpRequest {
                request: request.clone(),
            },
            RuleAction::SetTransfer { state } => RuleAction::SetTransfer { state: state.clone() },
            RuleAction::FailureAsyncHttp { request } => RuleAction::FailureAsyncHttp {
                request: request.clone(),
            },
            RuleAction::ReleaseAsyncHttp { request } => RuleAction::ReleaseAsyncHttp {
                request: request.clone(),
            },
            RuleAction::SetSubscriptions { events } => {
                let events_copy = events.clone();
                assert(events_copy@ =~= events@);
                RuleAction::SetSubscriptions { events: events_copy }
            },
            RuleAction::SetReroute { state } => RuleAction::SetReroute { state: state.clone() },
            RuleAction::SetFeatures { features } => RuleAction::SetFeatures {
                features: features.clone(),
            },
            RuleAction::MergeCallExt { ext } => {
                let ext_copy = ext.clone();
                assert(views(ext_copy@) =~= views(ext@));
                RuleAction::MergeCallExt { ext: ext_copy }
            },
            RuleAction::SetFailureHeaders { headers } => {
                let headers_copy = headers.clone();
                assert(views(headers_copy@) =~= views(headers@));
                RuleAction::SetFailureHeaders { headers: headers_copy }
            },
            RuleAction::RecordLimiterHolds { entries, window } => {
                let entries_copy = entries.clone();
                assert(views(entries_copy@) =~= views(entries@));
                RuleAction::RecordLimiterHolds { entries: entries_copy, window: *window }
            },
            RuleAction::RelayFailureToALeg { status, reason } => RuleAction::RelayFailureToALeg {
                status: *status,
                reason: reason.clone(),
            },
            RuleAction::RespondToALeg { authored } => RuleAction::RespondToALeg {
                authored: authored.clone(),
            },
            RuleAction::AnswerALegNewDialog { answer } => RuleAction::AnswerALegNewDialog {
                answer: answer.clone(),
            },
            RuleAction::RetransmitALeg2xx => RuleAction::RetransmitALeg2xx,
            RuleAction::RetransmitALegReinvite2xx => RuleAction::RetransmitALegReinvite2xx,
            RuleAction::ClearPendingReinvite2xx => RuleAction::ClearPendingReinvite2xx,
        }
    }
}

} // verus!
