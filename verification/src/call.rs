//! The call model: legs, dialogs, timers and the per-service slices that the
//! rules read and the actions change.
use vstd::prelude::*;

use crate::json::{clone_opt_json, json_clone, json_nodes, opt_json, Node, Step};
use crate::seqs::{opt_view, opt_views, views};
use crate::text::{clone_bytes, clone_opt_bytes, clone_opt_texts, clone_texts};
use crate::wire::{
    HostPort, HostPortView, Method, MethodView, RedirectContact, RedirectContactView, SipHeader, SipHeaderView,
};

verus! {

/// Which side an event came from.
#[derive(Clone, Copy, PartialEq, Eq, Debug, Structural)]
pub enum Direction {
    /// From the caller's leg.
    FromA,
    /// From a leg this stack originated.
    FromB,
}

/// The lifecycle of a call.
#[derive(Clone, Copy, PartialEq, Eq, Debug, Structural)]
pub enum CallModelState {
    Active,
    Terminating,
    Terminated,
}

/// The lifecycle of a leg.
#[derive(Clone, Copy, PartialEq, Eq, Debug, Structural)]
pub enum LegState {
    Trying,
    Early,
    Confirmed,
    Terminated,
}

/// How a leg relates to the call.
#[derive(Clone, Copy, PartialEq, Eq, Debug, Structural)]
pub enum LegDisposition {
    Pending,
    Bridged,
    /// A CANCEL is in flight.
    Cancelling,
    Rejected,
}

/// How a leg's teardown ended, or stands.
#[derive(Clone, Copy, PartialEq, Eq, Debug, Structural)]
pub enum ByeDisposition {
    ByeSent,
    ByeReceived,
    ByeConfirmed,
    ByeTimeout,
    Cancelled,
    Rejected,
    /// Nothing was owed.
    NotOwed,
}

/// The role of a leg that is not an ordinary destination.
#[derive(Clone, Copy, PartialEq, Eq, Debug, Structural)]
pub enum LegKind {
    Media,
    TransferTarget,
}

/// What a call-detail event records.
#[derive(Clone, Copy, PartialEq, Eq, Debug, Structural)]
pub enum CdrEventType {
    Provisional,
    Answer,
    Reject,
    Cancel,
    Timeout,
    Bye,
}

/// The phases of a blind transfer.
#[derive(Clone, Copy, PartialEq, Eq, Debug, Structural)]
pub enum TransferPhase {
    ReferAuthorizing,
    CRinging,
    CRealigning,
    ARealigning,
}

/// How provisionals toward the caller are masked.
#[derive(Clone, Copy, PartialEq, Eq, Debug, Structural)]
pub enum RelayFirst18xStrategy {
    DropSdp,
    KeepSdp,
    FakePrack,
    PromotePemTo200,
}

/// What the overall call ceiling runs from.
#[derive(Clone, Copy, PartialEq, Eq, Debug, Structural)]
pub enum MaxDurationAnchor {
    Creation,
    Answer,
}

/// The release events a decision can subscribe to.
#[derive(Clone, Copy, PartialEq, Eq, Debug, Structural)]
pub enum ReleaseEventKind {
    MaxCallDuration,
}

/// The pacing of a retransmission ladder.
#[derive(Clone, Copy, PartialEq, Eq, Debug, Structural)]
pub enum LadderClass {
    /// The 2xx awaiting its ACK: T1 doubling up to T2.
    Final2xx,
    /// The reliable provisional awaiting its PRACK: T1 doubling.
    ReliableProvisional,
}

/// What a relayed message carries where its source had a body.
#[derive(Clone, Copy, PartialEq, Eq, Debug, Structural)]
pub enum SourceBody {
    /// The source's own body.
    Verbatim,
    /// A body of the same role in its place.
    Replaced,
    /// None.
    Dropped,
}

/// The kinds of per-call timer.
#[derive(Clone, Copy, PartialEq, Eq, Debug, Structural)]
pub enum TimerKind {
    NoAnswer,
    SetupTimeout,
    GlobalDuration,
    Keepalive,
    KeepaliveTimeout,
    LimiterRefresh,
    TerminatingTimeout,
    ReferSubscriptionExpiry,
    ReferOverallSafety,
    ReferReinviteAnswer,
    Service,
    Rung,
    RepeatGiveUp,
}

/// What a peer owes and a ladder repeats for.
#[derive(Debug, PartialEq)]
pub enum Obligation {
    /// An ACK of the 2xx sent on `leg` under that tag and CSeq.
    AckOf2xx { leg: String, dialog_tag: String, cseq: i64 },
    /// A PRACK of the reliable provisional shown under that tag and number.
    PrackOf { a_tag: String, a_rseq: i64 },
}

/// The mathematical value of a [`Obligation`].
pub enum ObligationView {
    AckOf2xx { leg: Seq<char>, dialog_tag: Seq<char>, cseq: i64 },
    PrackOf { a_tag: Seq<char>, a_rseq: i64 },
}

impl View for Obligation {
    type V = ObligationView;

    open spec fn view(&self) -> ObligationView {
        match self {
            Obligation::AckOf2xx { leg, dialog_tag, cseq } => ObligationView::AckOf2xx {
                leg: leg@,
                dialog_tag: dialog_tag@,
                cseq: *cseq,
            },
            Obligation::PrackOf { a_tag, a_rseq } => ObligationView::PrackOf {
                a_tag: a_tag@,
                a_rseq: *a_rseq,
            },
        }
    }
}

impl Clone for Obligation {
    fn clone(&self) -> (r: Self)
        ensures
            r@ == self@,
    {
        match self {
            Obligation::AckOf2xx { leg, dialog_tag, cseq } => Obligation::AckOf2xx {
                leg: leg.clone(),
                dialog_tag: dialog_tag.clone(),
                cseq: *cseq,
            },
            Obligation::PrackOf { a_tag, a_rseq } => Obligation::PrackOf {
                a_tag: a_tag.clone(),
                a_rseq: *a_rseq,
            },
        }
    }
}

/// A per-call timer.
#[derive(Debug, PartialEq)]
pub enum TimerType {
    NoAnswer,
    SetupTimeout,
    GlobalDuration,
    Keepalive,
    KeepaliveTimeout,
    LimiterRefresh,
    TerminatingTimeout,
    ReferSubscriptionExpiry,
    ReferOverallSafety,
    ReferReinviteAnswer,
    /// A watchdog a service armed.
    Service { name: String },
    /// The next repeat of a ladder.
    Rung { obligation: Obligation },
    /// The end of a ladder's patience.
    RepeatGiveUp { obligation: Obligation },
}

/// The mathematical value of a [`TimerType`].
pub enum TimerTypeView {
    NoAnswer,
    SetupTimeout,
    GlobalDuration,
    Keepalive,
    KeepaliveTimeout,
    LimiterRefresh,
    TerminatingTimeout,
    ReferSubscriptionExpiry,
    ReferOverallSafety,
    ReferReinviteAnswer,
    Service { name: Seq<char> },
    Rung { obligation: ObligationView },
    RepeatGiveUp { obligation: ObligationView },
}

impl View for TimerType {
    type V = TimerTypeView;

    open spec fn view(&self) -> TimerTypeView {
        match self {
            TimerType::NoAnswer => TimerTypeView::NoAnswer,
            TimerType::SetupTimeout => TimerTypeView::SetupTimeout,
            TimerType::GlobalDuration => TimerTypeView::GlobalDuration,
            TimerType::Keepalive => TimerTypeView::Keepalive,
            TimerType::KeepaliveTimeout => TimerTypeView::KeepaliveTimeout,
            TimerType::LimiterRefresh => TimerTypeView::LimiterRefresh,
            TimerType::TerminatingTimeout => TimerTypeView::TerminatingTimeout,
            TimerType::ReferSubscriptionExpiry => TimerTypeView::ReferSubscriptionExpiry,
            TimerType::ReferOverallSafety => TimerTypeView::ReferOverallSafety,
            TimerType::ReferReinviteAnswer => TimerTypeView::ReferReinviteAnswer,
            TimerType::Service { name } => TimerTypeView::Service { name: name@ },
            TimerType::Rung { obligation } => TimerTypeView::Rung { obligation: obligation@ },
            TimerType::RepeatGiveUp { obligation } => TimerTypeView::RepeatGiveUp {
                obligation: obligation@,
            },
        }
    }
}

impl Clone for TimerType {
    fn clone(&self) -> (r: Self)
        ensures
            r@ == self@,
    {
        match self {
            TimerType::NoAnswer => TimerType::NoAnswer,
            TimerType::SetupTimeout => TimerType::SetupTimeout,
            TimerType::GlobalDuration => TimerType::GlobalDuration,
            TimerType::Keepalive => TimerType::Keepalive,
            TimerType::KeepaliveTimeout => TimerType::KeepaliveTimeout,
            TimerType::LimiterRefresh => TimerType::LimiterRefresh,
            TimerType::TerminatingTimeout => TimerType::TerminatingTimeout,
            TimerType::ReferSubscriptionExpiry => TimerType::ReferSubscriptionExpiry,
            TimerType::ReferOverallSafety => TimerType::ReferOverallSafety,
            TimerType::ReferReinviteAnswer => TimerType::ReferReinviteAnswer,
            TimerType::Service { name } => TimerType::Service { name: name.clone() },
            TimerType::Rung { obligation } => TimerType::Rung { obligation: obligation.clone() },
            TimerType::RepeatGiveUp { obligation } => TimerType::RepeatGiveUp {
                obligation: obligation.clone(),
            },
        }
    }
}

/// An armed timer.
#[derive(Debug, PartialEq)]
pub struct TimerEntry {
    pub id: String,
    pub timer_type: TimerType,
    pub fire_at: i64,
    pub leg_id: Option<String>,
}

/// The mathematical value of a [`TimerEntry`].
pub struct TimerEntryView {
    pub id: Seq<char>,
    pub timer_type: TimerTypeView,
    pub fire_at: i64,
    pub leg_id: Option<Seq<char>>,
}

impl View for TimerEntry {
    type V = TimerEntryView;

    open spec fn view(&self) -> TimerEntryView {
        TimerEntryView {
            id: self.id@,
            timer_type: self.timer_type@,
            fire_at: self.fire_at,
            leg_id: opt_view(self.leg_id),
        }
    }
}

impl Clone for TimerEntry {
    fn clone(&self) -> (r: Self)
        ensures
            r@ == self@,
    {
        let r = TimerEntry {
            id: self.id.clone(),
            timer_type: self.timer_type.clone(),
            fire_at: self.fire_at,
            leg_id: self.leg_id.clone(),
        };
        r
    }
}

/// Where a message goes.
#[derive(Debug, PartialEq)]
pub enum Destination {
    /// A stated address.
    Address { at: HostPort },
    /// The next hop of a request in a dialog: its route set, else its remote target.
    Target { uri: String, route_set: Vec<String> },
    /// The top Via of the request that the response answers.
    TopVia,
}

/// The mathematical value of a [`Destination`].
pub enum DestinationView {
    Address { at: HostPortView },
    Target { uri: Seq<char>, route_set: Seq<Seq<char>> },
    TopVia,
}

impl View for Destination {
    type V = DestinationView;

    open spec fn view(&self) -> DestinationView {
        match self {
            Destination::Address { at } => DestinationView::Address { at: at@ },
            Destination::Target { uri, route_set } => DestinationView::Target {
                uri: uri@,
                route_set: views(route_set@),
            },
            Destination::TopVia => DestinationView::TopVia,
        }
    }
}

impl Clone for Destination {
    fn clone(&self) -> (r: Self)
        ensures
            r@ == self@,
    {
        match self {
            Destination::Address { at } => Destination::Address { at: at.clone() },
            Destination::Target { uri, route_set } => Destination::Target {
                uri: uri.clone(),
                route_set: clone_texts(route_set),
            },
            Destination::TopVia => Destination::TopVia,
        }
    }
}

/// A relayed request awaiting its final, with what its responses echo.
#[derive(Debug, PartialEq)]
pub struct PendingRequest {
    pub method: Method,
    pub outbound_cseq: i64,
    pub inbound_cseq: i64,
    pub source_vias: Vec<String>,
    pub source_call_id: String,
    pub source_from: String,
    pub source_to: String,
    pub source_timestamp: Option<String>,
    /// The originator supports reliable provisionals.
    pub offers_100rel: bool,
    pub direction: Direction,
    pub cancelled: bool,
}

/// The mathematical value of a [`PendingRequest`].
pub struct PendingRequestView {
    pub method: MethodView,
    pub outbound_cseq: i64,
    pub inbound_cseq: i64,
    pub source_vias: Seq<Seq<char>>,
    pub source_call_id: Seq<char>,
    pub source_from: Seq<char>,
    pub source_to: Seq<char>,
    pub source_timestamp: Option<Seq<char>>,
    pub offers_100rel: bool,
    pub direction: Direction,
    pub cancelled: bool,
}

impl View for PendingRequest {
    type V = PendingRequestView;

    open spec fn view(&self) -> PendingRequestView {
        PendingRequestView {
            method: self.method@,
            outbound_cseq: self.outbound_cseq,
            inbound_cseq: self.inbound_cseq,
            source_vias: views(self.source_vias@),
            source_call_id: self.source_call_id@,
            source_from: self.source_from@,
            source_to: self.source_to@,
            source_timestamp: opt_view(self.source_timestamp),
            offers_100rel: self.offers_100rel,
            direction: self.direction,
            cancelled: self.cancelled,
        }
    }
}

impl Clone for PendingRequest {
    fn clone(&self) -> (r: Self)
        ensures
            r@ == self@,
    {
        let r = PendingRequest {
            method: self.method.clone(),
            outbound_cseq: self.outbound_cseq,
            inbound_cseq: self.inbound_cseq,
            source_vias: clone_texts(&self.source_vias),
            source_call_id: self.source_call_id.clone(),
            source_from: self.source_from.clone(),
            source_to: self.source_to.clone(),
            source_timestamp: self.source_timestamp.clone(),
            offers_100rel: self.offers_100rel,
            direction: self.direction,
            cancelled: self.cancelled,
        };
        r
    }
}

/// Which request a response answers.
#[derive(Debug, PartialEq)]
pub enum Answers {
    /// The request the event carries.
    CurrentRequest,
    /// The caller's INVITE.
    ALegInvite,
    /// A relayed request, echoed from its snapshot.
    Relayed { snapshot: PendingRequest },
}

/// The mathematical value of a [`Answers`].
pub enum AnswersView {
    CurrentRequest,
    ALegInvite,
    Relayed { snapshot: PendingRequestView },
}

impl View for Answers {
    type V = AnswersView;

    open spec fn view(&self) -> AnswersView {
        match self {
            Answers::CurrentRequest => AnswersView::CurrentRequest,
            Answers::ALegInvite => AnswersView::ALegInvite,
            Answers::Relayed { snapshot } => AnswersView::Relayed { snapshot: snapshot@ },
        }
    }
}

impl Clone for Answers {
    fn clone(&self) -> (r: Self)
        ensures
            r@ == self@,
    {
        match self {
            Answers::CurrentRequest => Answers::CurrentRequest,
            Answers::ALegInvite => Answers::ALegInvite,
            Answers::Relayed { snapshot } => Answers::Relayed { snapshot: snapshot.clone() },
        }
    }
}

/// A response to put on the wire.
#[derive(Debug, PartialEq)]
pub struct ResponsePlan {
    pub status: u16,
    pub reason: String,
    pub answers: Answers,
    pub cseq: i64,
    pub method: Method,
    /// The To-tag it states.
    pub to_tag: Option<String>,
    /// Whether it states this stack's Contact.
    pub contact: bool,
    /// Whether the Contact it states carries the emergency mark.
    pub emergency: bool,
    pub body: Vec<u8>,
    pub content_type: Option<String>,
    /// Further header lines.
    pub headers: Vec<SipHeader>,
    /// The targets of a redirect, each a Contact of its own.
    pub redirects: Vec<RedirectContact>,
    /// What became of the body of the response it relays.
    pub source_body: Option<SourceBody>,
}

/// The mathematical value of a [`ResponsePlan`].
pub struct ResponsePlanView {
    pub status: u16,
    pub reason: Seq<char>,
    pub answers: AnswersView,
    pub cseq: i64,
    pub method: MethodView,
    pub to_tag: Option<Seq<char>>,
    pub contact: bool,
    pub emergency: bool,
    pub body: Seq<u8>,
    pub content_type: Option<Seq<char>>,
    pub headers: Seq<SipHeaderView>,
    pub redirects: Seq<RedirectContactView>,
    pub source_body: Option<SourceBody>,
}

impl View for ResponsePlan {
    type V = ResponsePlanView;

    open spec fn view(&self) -> ResponsePlanView {
        ResponsePlanView {
            status: self.status,
            reason: self.reason@,
            answers: self.answers@,
            cseq: self.cseq,
            method: self.method@,
            to_tag: opt_view(self.to_tag),
            contact: self.contact,
            emergency: self.emergency,
            body: self.body@,
            content_type: opt_view(self.content_type),
            headers: views(self.headers@),
            redirects: views(self.redirects@),
            source_body: self.source_body,
        }
    }
}

impl Clone for ResponsePlan {
    fn clone(&self) -> (r: Self)
        ensures
            r@ == self@,
    {
        let r = ResponsePlan {
            status: self.status,
            reason: self.reason.clone(),
            answers: self.answers.clone(),
            cseq: self.cseq,
            method: self.method.clone(),
            to_tag: self.to_tag.clone(),
            contact: self.contact,
            emergency: self.emergency,
            body: clone_bytes(&self.body),
            content_type: self.content_type.clone(),
            headers: self.headers.clone(),
            redirects: self.redirects.clone(),
            source_body: self.source_body,
        };
        assert(views(r.headers@) =~= views(self.headers@));
        assert(views(r.redirects@) =~= views(self.redirects@));
        r
    }
}

/// A response retained for repetition.
#[derive(Debug, PartialEq)]
pub struct Emission {
    pub response: ResponsePlan,
    pub destination: Destination,
    pub class: LadderClass,
    /// The wait before the next repeat.
    pub interval_ms: i64,
    /// When the next repeat is due, counted from the original.
    pub elapsed_ms: i64,
}

/// The mathematical value of a [`Emission`].
pub struct EmissionView {
    pub response: ResponsePlanView,
    pub destination: DestinationView,
    pub class: LadderClass,
    pub interval_ms: i64,
    pub elapsed_ms: i64,
}

impl View for Emission {
    type V = EmissionView;

    open spec fn view(&self) -> EmissionView {
        EmissionView {
            response: self.response@,
            destination: self.destination@,
            class: self.class,
            interval_ms: self.interval_ms,
            elapsed_ms: self.elapsed_ms,
        }
    }
}

impl Clone for Emission {
    fn clone(&self) -> (r: Self)
        ensures
            r@ == self@,
    {
        let r = Emission {
            response: self.response.clone(),
            destination: self.destination.clone(),
            class: self.class,
            interval_ms: self.interval_ms,
            elapsed_ms: self.elapsed_ms,
        };
        r
    }
}

/// A 2xx awaiting its ACK.
#[derive(Debug, PartialEq)]
pub struct Unacked2xx {
    pub dialog_tag: String,
    pub cseq: i64,
    pub emission: Emission,
}

/// The mathematical value of a [`Unacked2xx`].
pub struct Unacked2xxView {
    pub dialog_tag: Seq<char>,
    pub cseq: i64,
    pub emission: EmissionView,
}

impl View for Unacked2xx {
    type V = Unacked2xxView;

    open spec fn view(&self) -> Unacked2xxView {
        Unacked2xxView {
            dialog_tag: self.dialog_tag@,
            cseq: self.cseq,
            emission: self.emission@,
        }
    }
}

impl Clone for Unacked2xx {
    fn clone(&self) -> (r: Self)
        ensures
            r@ == self@,
    {
        let r = Unacked2xx {
            dialog_tag: self.dialog_tag.clone(),
            cseq: self.cseq,
            emission: self.emission.clone(),
        };
        r
    }
}

/// The client transaction of an INVITE this stack sent.
#[derive(Debug, PartialEq)]
pub struct InviteTxn {
    pub branch: String,
    pub cseq: i64,
    pub destination: Destination,
    /// Whether its Via carries the emergency mark, and so that of its CANCEL.
    pub emergency: bool,
}

/// The mathematical value of a [`InviteTxn`].
pub struct InviteTxnView {
    pub branch: Seq<char>,
    pub cseq: i64,
    pub destination: DestinationView,
    pub emergency: bool,
}

impl View for InviteTxn {
    type V = InviteTxnView;

    open spec fn view(&self) -> InviteTxnView {
        InviteTxnView {
            branch: self.branch@,
            cseq: self.cseq,
            destination: self.destination@,
            emergency: self.emergency,
        }
    }
}

impl Clone for InviteTxn {
    fn clone(&self) -> (r: Self)
        ensures
            r@ == self@,
    {
        let r = InviteTxn {
            branch: self.branch.clone(),
            cseq: self.cseq,
            destination: self.destination.clone(),
            emergency: self.emergency,
        };
        r
    }
}

/// The SIP state of a dialog.
#[derive(Debug, PartialEq)]
pub struct StackDialog {
    pub call_id: String,
    pub local_tag: String,
    pub remote_tag: String,
    pub local_uri: String,
    pub remote_uri: String,
    pub remote_target: String,
    pub local_cseq: i64,
    pub route_set: Vec<String>,
}

/// The mathematical value of a [`StackDialog`].
pub struct StackDialogView {
    pub call_id: Seq<char>,
    pub local_tag: Seq<char>,
    pub remote_tag: Seq<char>,
    pub local_uri: Seq<char>,
    pub remote_uri: Seq<char>,
    pub remote_target: Seq<char>,
    pub local_cseq: i64,
    pub route_set: Seq<Seq<char>>,
}

impl View for StackDialog {
    type V = StackDialogView;

    open spec fn view(&self) -> StackDialogView {
        StackDialogView {
            call_id: self.call_id@,
            local_tag: self.local_tag@,
            remote_tag: self.remote_tag@,
            local_uri: self.local_uri@,
            remote_uri: self.remote_uri@,
            remote_target: self.remote_target@,
            local_cseq: self.local_cseq,
            route_set: views(self.route_set@),
        }
    }
}

impl Clone for StackDialog {
    fn clone(&self) -> (r: Self)
        ensures
            r@ == self@,
    {
        let r = StackDialog {
            call_id: self.call_id.clone(),
            local_tag: self.local_tag.clone(),
            remote_tag: self.remote_tag.clone(),
            local_uri: self.local_uri.clone(),
            remote_uri: self.remote_uri.clone(),
            remote_target: self.remote_target.clone(),
            local_cseq: self.local_cseq,
            route_set: clone_texts(&self.route_set),
        };
        r
    }
}

/// The ACK of a 2xx.
#[derive(Debug, PartialEq)]
pub struct AckPlan {
    pub dialog: StackDialog,
    pub branch: String,
    pub cseq: i64,
    pub body: Vec<u8>,
    pub content_type: Option<String>,
    /// Whether the Via it states carries the emergency mark.
    pub emergency: bool,
}

/// The mathematical value of a [`AckPlan`].
pub struct AckPlanView {
    pub dialog: StackDialogView,
    pub branch: Seq<char>,
    pub cseq: i64,
    pub body: Seq<u8>,
    pub content_type: Option<Seq<char>>,
    pub emergency: bool,
}

impl View for AckPlan {
    type V = AckPlanView;

    open spec fn view(&self) -> AckPlanView {
        AckPlanView {
            dialog: self.dialog@,
            branch: self.branch@,
            cseq: self.cseq,
            body: self.body@,
            content_type: opt_view(self.content_type),
            emergency: self.emergency,
        }
    }
}

impl Clone for AckPlan {
    fn clone(&self) -> (r: Self)
        ensures
            r@ == self@,
    {
        let r = AckPlan {
            dialog: self.dialog.clone(),
            branch: self.branch.clone(),
            cseq: self.cseq,
            body: clone_bytes(&self.body),
            content_type: self.content_type.clone(),
            emergency: self.emergency,
        };
        r
    }
}

/// What the bridge keeps beside a dialog.
#[derive(Debug, PartialEq)]
pub struct DialogExt {
    pub remote_cseq: Option<i64>,
    pub inbound_pending_requests: Vec<PendingRequest>,
    /// The branch the ACK of its last INVITE goes out on.
    pub ack_branch: Option<String>,
    /// The last ACK sent on it, for every repeat of the answer it acknowledges.
    pub emitted_ack: Option<AckPlan>,
    pub pending_invite_txn: Option<InviteTxn>,
    pub cached_sdp: Option<Vec<u8>>,
    pub answered_2xx: Option<Unacked2xx>,
    pub pending_reinvite_2xx: Option<Unacked2xx>,
    pub awaited_ack_cseq: Option<i64>,
}

/// The mathematical value of a [`DialogExt`].
pub struct DialogExtView {
    pub remote_cseq: Option<i64>,
    pub inbound_pending_requests: Seq<PendingRequestView>,
    pub ack_branch: Option<Seq<char>>,
    pub emitted_ack: Option<AckPlanView>,
    pub pending_invite_txn: Option<InviteTxnView>,
    pub cached_sdp: Option<Seq<u8>>,
    pub answered_2xx: Option<Unacked2xxView>,
    pub pending_reinvite_2xx: Option<Unacked2xxView>,
    pub awaited_ack_cseq: Option<i64>,
}

impl View for DialogExt {
    type V = DialogExtView;

    open spec fn view(&self) -> DialogExtView {
        DialogExtView {
            remote_cseq: self.remote_cseq,
            inbound_pending_requests: views(self.inbound_pending_requests@),
            ack_branch: opt_view(self.ack_branch),
            emitted_ack: opt_view(self.emitted_ack),
            pending_invite_txn: opt_view(self.pending_invite_txn),
            cached_sdp: opt_view(self.cached_sdp),
            answered_2xx: opt_view(self.answered_2xx),
            pending_reinvite_2xx: opt_view(self.pending_reinvite_2xx),
            awaited_ack_cseq: self.awaited_ack_cseq,
        }
    }
}

impl Clone for DialogExt {
    fn clone(&self) -> (r: Self)
        ensures
            r@ == self@,
    {
        let r = DialogExt {
            remote_cseq: self.remote_cseq,
            inbound_pending_requests: self.inbound_pending_requests.clone(),
            ack_branch: self.ack_branch.clone(),
            emitted_ack: self.emitted_ack.clone(),
            pending_invite_txn: self.pending_invite_txn.clone(),
            cached_sdp: clone_opt_bytes(&self.cached_sdp),
            answered_2xx: self.answered_2xx.clone(),
            pending_reinvite_2xx: self.pending_reinvite_2xx.clone(),
            awaited_ack_cseq: self.awaited_ack_cseq,
        };
        assert(views(r.inbound_pending_requests@) =~= views(self.inbound_pending_requests@));
        r
    }
}

/// A dialog on a leg.
#[derive(Debug, PartialEq)]
pub struct Dialog {
    pub sip: StackDialog,
    pub ext: DialogExt,
}

/// The mathematical value of a [`Dialog`].
pub struct DialogView {
    pub sip: StackDialogView,
    pub ext: DialogExtView,
}

impl View for Dialog {
    type V = DialogView;

    open spec fn view(&self) -> DialogView {
        DialogView {
            sip: self.sip@,
            ext: self.ext@,
        }
    }
}

impl Clone for Dialog {
    fn clone(&self) -> (r: Self)
        ensures
            r@ == self@,
    {
        let r = Dialog {
            sip: self.sip.clone(),
            ext: self.ext.clone(),
        };
        r
    }
}

/// One leg of a call.
#[derive(Debug, PartialEq)]
pub struct Leg {
    pub leg_id: String,
    pub call_id: String,
    pub from_tag: String,
    pub local_uri: Option<String>,
    pub remote_uri: Option<String>,
    pub state: LegState,
    pub disposition: LegDisposition,
    pub bye_disposition: Option<ByeDisposition>,
    pub kind: Option<LegKind>,
    /// Whether the leg is bridged to the caller by default.
    pub adopted: bool,
    /// Whether the INVITE that opened it carried an offer.
    pub offers_sdp: bool,
    /// The final this stack sent to the INVITE that opened it.
    pub invite_final_sent: Option<u16>,
    pub dialogs: Vec<Dialog>,
}

/// The mathematical value of a [`Leg`].
pub struct LegView {
    pub leg_id: Seq<char>,
    pub call_id: Seq<char>,
    pub from_tag: Seq<char>,
    pub local_uri: Option<Seq<char>>,
    pub remote_uri: Option<Seq<char>>,
    pub state: LegState,
    pub disposition: LegDisposition,
    pub bye_disposition: Option<ByeDisposition>,
    pub kind: Option<LegKind>,
    pub adopted: bool,
    pub offers_sdp: bool,
    pub invite_final_sent: Option<u16>,
    pub dialogs: Seq<DialogView>,
}

impl View for Leg {
    type V = LegView;

    open spec fn view(&self) -> LegView {
        LegView {
            leg_id: self.leg_id@,
            call_id: self.call_id@,
            from_tag: self.from_tag@,
            local_uri: opt_view(self.local_uri),
            remote_uri: opt_view(self.remote_uri),
            state: self.state,
            disposition: self.disposition,
            bye_disposition: self.bye_disposition,
            kind: self.kind,
            adopted: self.adopted,
            offers_sdp: self.offers_sdp,
            invite_final_sent: self.invite_final_sent,
            dialogs: views(self.dialogs@),
        }
    }
}

impl Clone for Leg {
    fn clone(&self) -> (r: Self)
        ensures
            r@ == self@,
    {
        let r = Leg {
            leg_id: self.leg_id.clone(),
            call_id: self.call_id.clone(),
            from_tag: self.from_tag.clone(),
            local_uri: self.local_uri.clone(),
            remote_uri: self.remote_uri.clone(),
            state: self.state,
            disposition: self.disposition,
            bye_disposition: self.bye_disposition,
            kind: self.kind,
            adopted: self.adopted,
            offers_sdp: self.offers_sdp,
            invite_final_sent: self.invite_final_sent,
            dialogs: self.dialogs.clone(),
        };
        assert(views(r.dialogs@) =~= views(self.dialogs@));
        r
    }
}

/// The tag the caller sees for a callee's dialog.
#[derive(Debug, PartialEq)]
pub struct TagMapping {
    pub a_tag: String,
    pub b_leg_id: String,
    pub b_tag: String,
}

/// The mathematical value of a [`TagMapping`].
pub struct TagMappingView {
    pub a_tag: Seq<char>,
    pub b_leg_id: Seq<char>,
    pub b_tag: Seq<char>,
}

impl View for TagMapping {
    type V = TagMappingView;

    open spec fn view(&self) -> TagMappingView {
        TagMappingView {
            a_tag: self.a_tag@,
            b_leg_id: self.b_leg_id@,
            b_tag: self.b_tag@,
        }
    }
}

impl Clone for TagMapping {
    fn clone(&self) -> (r: Self)
        ensures
            r@ == self@,
    {
        let r = TagMapping {
            a_tag: self.a_tag.clone(),
            b_leg_id: self.b_leg_id.clone(),
            b_tag: self.b_tag.clone(),
        };
        r
    }
}

/// One line of the call-detail record.
#[derive(Debug, PartialEq)]
pub struct CdrEvent {
    pub event_type: CdrEventType,
    pub timestamp: i64,
    pub leg_id: String,
    pub status_code: Option<i64>,
    pub reason: Option<String>,
    /// Which decision of the call it belongs to.
    pub decision_ordinal: i64,
}

/// The mathematical value of a [`CdrEvent`].
pub struct CdrEventView {
    pub event_type: CdrEventType,
    pub timestamp: i64,
    pub leg_id: Seq<char>,
    pub status_code: Option<i64>,
    pub reason: Option<Seq<char>>,
    pub decision_ordinal: i64,
}

impl View for CdrEvent {
    type V = CdrEventView;

    open spec fn view(&self) -> CdrEventView {
        CdrEventView {
            event_type: self.event_type,
            timestamp: self.timestamp,
            leg_id: self.leg_id@,
            status_code: self.status_code,
            reason: opt_view(self.reason),
            decision_ordinal: self.decision_ordinal,
        }
    }
}

impl Clone for CdrEvent {
    fn clone(&self) -> (r: Self)
        ensures
            r@ == self@,
    {
        let r = CdrEvent {
            event_type: self.event_type,
            timestamp: self.timestamp,
            leg_id: self.leg_id.clone(),
            status_code: self.status_code,
            reason: self.reason.clone(),
            decision_ordinal: self.decision_ordinal,
        };
        r
    }
}

/// The state of a transfer in progress.
#[derive(Debug, PartialEq)]
pub struct TransferState {
    pub phase: TransferPhase,
    pub referrer_leg_id: String,
    pub refer_to_uri: String,
    pub effective_refer_to_uri: Option<String>,
    pub callback_context: Option<String>,
    pub c_leg_id: Option<String>,
    pub refer_cseq: Option<i64>,
    pub started_at_ms: i64,
    pub last_c_leg_notified_status: Option<u16>,
    pub c_initial_sdp: Option<Vec<u8>>,
    pub subscription_terminated: bool,
}

/// The mathematical value of a [`TransferState`].
pub struct TransferStateView {
    pub phase: TransferPhase,
    pub referrer_leg_id: Seq<char>,
    pub refer_to_uri: Seq<char>,
    pub effective_refer_to_uri: Option<Seq<char>>,
    pub callback_context: Option<Seq<char>>,
    pub c_leg_id: Option<Seq<char>>,
    pub refer_cseq: Option<i64>,
    pub started_at_ms: i64,
    pub last_c_leg_notified_status: Option<u16>,
    pub c_initial_sdp: Option<Seq<u8>>,
    pub subscription_terminated: bool,
}

impl View for TransferState {
    type V = TransferStateView;

    open spec fn view(&self) -> TransferStateView {
        TransferStateView {
            phase: self.phase,
            referrer_leg_id: self.referrer_leg_id@,
            refer_to_uri: self.refer_to_uri@,
            effective_refer_to_uri: opt_view(self.effective_refer_to_uri),
            callback_context: opt_view(self.callback_context),
            c_leg_id: opt_view(self.c_leg_id),
            refer_cseq: self.refer_cseq,
            started_at_ms: self.started_at_ms,
            last_c_leg_notified_status: self.last_c_leg_notified_status,
            c_initial_sdp: opt_view(self.c_initial_sdp),
            subscription_terminated: self.subscription_terminated,
        }
    }
}

impl Clone for TransferState {
    fn clone(&self) -> (r: Self)
        ensures
            r@ == self@,
    {
        let r = TransferState {
            phase: self.phase,
            referrer_leg_id: self.referrer_leg_id.clone(),
            refer_to_uri: self.refer_to_uri.clone(),
            effective_refer_to_uri: self.effective_refer_to_uri.clone(),
            callback_context: self.callback_context.clone(),
            c_leg_id: self.c_leg_id.clone(),
            refer_cseq: self.refer_cseq,
            started_at_ms: self.started_at_ms,
            last_c_leg_notified_status: self.last_c_leg_notified_status,
            c_initial_sdp: clone_opt_bytes(&self.c_initial_sdp),
            subscription_terminated: self.subscription_terminated,
        };
        r
    }
}

/// The state of a promoted early-media answer.
#[derive(Debug, PartialEq)]
pub struct PromotePemState {
    pub promoted: bool,
    pub promoted_sdp: Vec<u8>,
    pub window_open: bool,
    pub resync_reinvite_cseq: Option<i64>,
}

/// The mathematical value of a [`PromotePemState`].
pub struct PromotePemStateView {
    pub promoted: bool,
    pub promoted_sdp: Seq<u8>,
    pub window_open: bool,
    pub resync_reinvite_cseq: Option<i64>,
}

impl View for PromotePemState {
    type V = PromotePemStateView;

    open spec fn view(&self) -> PromotePemStateView {
        PromotePemStateView {
            promoted: self.promoted,
            promoted_sdp: self.promoted_sdp@,
            window_open: self.window_open,
            resync_reinvite_cseq: self.resync_reinvite_cseq,
        }
    }
}

impl Clone for PromotePemState {
    fn clone(&self) -> (r: Self)
        ensures
            r@ == self@,
    {
        let r = PromotePemState {
            promoted: self.promoted,
            promoted_sdp: clone_bytes(&self.promoted_sdp),
            window_open: self.window_open,
            resync_reinvite_cseq: self.resync_reinvite_cseq,
        };
        r
    }
}

/// What the provisional masking has shown the caller.
#[derive(Debug, PartialEq)]
pub struct Relay18xState {
    pub a_tag: Option<String>,
    pub relayed: bool,
    pub values: Vec<u16>,
}

/// The mathematical value of a [`Relay18xState`].
pub struct Relay18xStateView {
    pub a_tag: Option<Seq<char>>,
    pub relayed: bool,
    pub values: Seq<u16>,
}

impl View for Relay18xState {
    type V = Relay18xStateView;

    open spec fn view(&self) -> Relay18xStateView {
        Relay18xStateView {
            a_tag: opt_view(self.a_tag),
            relayed: self.relayed,
            values: self.values@,
        }
    }
}

impl Clone for Relay18xState {
    fn clone(&self) -> (r: Self)
        ensures
            r@ == self@,
    {
        let r = Relay18xState {
            a_tag: self.a_tag.clone(),
            relayed: self.relayed,
            values: self.values.clone(),
        };
        assert(r.values@ =~= self.values@);
        r
    }
}

/// A reliable provisional shown under a number of this stack's own.
#[derive(Debug, PartialEq)]
pub struct ReliableProvisional {
    pub a_tag: String,
    pub a_rseq: i64,
    /// The CSeq of the INVITE it was shown on.
    pub a_cseq: i64,
    pub b_leg_id: String,
    pub b_tag: String,
    pub b_cseq: i64,
    pub b_rseq: i64,
    pub emission: Option<Emission>,
}

/// The mathematical value of a [`ReliableProvisional`].
pub struct ReliableProvisionalView {
    pub a_tag: Seq<char>,
    pub a_rseq: i64,
    pub a_cseq: i64,
    pub b_leg_id: Seq<char>,
    pub b_tag: Seq<char>,
    pub b_cseq: i64,
    pub b_rseq: i64,
    pub emission: Option<EmissionView>,
}

impl View for ReliableProvisional {
    type V = ReliableProvisionalView;

    open spec fn view(&self) -> ReliableProvisionalView {
        ReliableProvisionalView {
            a_tag: self.a_tag@,
            a_rseq: self.a_rseq,
            a_cseq: self.a_cseq,
            b_leg_id: self.b_leg_id@,
            b_tag: self.b_tag@,
            b_cseq: self.b_cseq,
            b_rseq: self.b_rseq,
            emission: opt_view(self.emission),
        }
    }
}

impl Clone for ReliableProvisional {
    fn clone(&self) -> (r: Self)
        ensures
            r@ == self@,
    {
        let r = ReliableProvisional {
            a_tag: self.a_tag.clone(),
            a_rseq: self.a_rseq,
            a_cseq: self.a_cseq,
            b_leg_id: self.b_leg_id.clone(),
            b_tag: self.b_tag.clone(),
            b_cseq: self.b_cseq,
            b_rseq: self.b_rseq,
            emission: self.emission.clone(),
        };
        r
    }
}

/// A reliable provisional this stack acknowledged itself.
#[derive(Debug, PartialEq)]
pub struct PrackedProvisional {
    pub leg_id: String,
    pub b_tag: String,
    pub invite_cseq: i64,
    pub rseq: i64,
}

/// The mathematical value of a [`PrackedProvisional`].
pub struct PrackedProvisionalView {
    pub leg_id: Seq<char>,
    pub b_tag: Seq<char>,
    pub invite_cseq: i64,
    pub rseq: i64,
}

impl View for PrackedProvisional {
    type V = PrackedProvisionalView;

    open spec fn view(&self) -> PrackedProvisionalView {
        PrackedProvisionalView {
            leg_id: self.leg_id@,
            b_tag: self.b_tag@,
            invite_cseq: self.invite_cseq,
            rseq: self.rseq,
        }
    }
}

impl Clone for PrackedProvisional {
    fn clone(&self) -> (r: Self)
        ensures
            r@ == self@,
    {
        let r = PrackedProvisional {
            leg_id: self.leg_id.clone(),
            b_tag: self.b_tag.clone(),
            invite_cseq: self.invite_cseq,
            rseq: self.rseq,
        };
        r
    }
}

/// A capacity slot the call holds.
#[derive(Debug, PartialEq)]
pub struct LimiterState {
    pub limiter_id: String,
    pub limit: i64,
    pub origin_window: i64,
    pub increment_succeeded: bool,
}

/// The mathematical value of a [`LimiterState`].
pub struct LimiterStateView {
    pub limiter_id: Seq<char>,
    pub limit: i64,
    pub origin_window: i64,
    pub increment_succeeded: bool,
}

impl View for LimiterState {
    type V = LimiterStateView;

    open spec fn view(&self) -> LimiterStateView {
        LimiterStateView {
            limiter_id: self.limiter_id@,
            limit: self.limit,
            origin_window: self.origin_window,
            increment_succeeded: self.increment_succeeded,
        }
    }
}

impl Clone for LimiterState {
    fn clone(&self) -> (r: Self)
        ensures
            r@ == self@,
    {
        let r = LimiterState {
            limiter_id: self.limiter_id.clone(),
            limit: self.limit,
            origin_window: self.origin_window,
            increment_succeeded: self.increment_succeeded,
        };
        r
    }
}

/// A capacity slot a decision admitted.
#[derive(Debug, PartialEq)]
pub struct LimiterHold {
    pub limiter_id: String,
    pub limit: i64,
}

/// The mathematical value of a [`LimiterHold`].
pub struct LimiterHoldView {
    pub limiter_id: Seq<char>,
    pub limit: i64,
}

impl View for LimiterHold {
    type V = LimiterHoldView;

    open spec fn view(&self) -> LimiterHoldView {
        LimiterHoldView {
            limiter_id: self.limiter_id@,
            limit: self.limit,
        }
    }
}

impl Clone for LimiterHold {
    fn clone(&self) -> (r: Self)
        ensures
            r@ == self@,
    {
        let r = LimiterHold {
            limiter_id: self.limiter_id.clone(),
            limit: self.limit,
        };
        r
    }
}

/// Two legs bridged to each other.
#[derive(Debug, PartialEq)]
pub struct PeerPair {
    pub leg_a: String,
    pub leg_b: String,
}

/// The mathematical value of a [`PeerPair`].
pub struct PeerPairView {
    pub leg_a: Seq<char>,
    pub leg_b: Seq<char>,
}

impl View for PeerPair {
    type V = PeerPairView;

    open spec fn view(&self) -> PeerPairView {
        PeerPairView {
            leg_a: self.leg_a@,
            leg_b: self.leg_b@,
        }
    }
}

impl Clone for PeerPair {
    fn clone(&self) -> (r: Self)
        ensures
            r@ == self@,
    {
        let r = PeerPair {
            leg_a: self.leg_a.clone(),
            leg_b: self.leg_b.clone(),
        };
        r
    }
}

/// Where a state machine stands.
#[derive(Debug, PartialEq)]
pub struct Cursor {
    pub machine: String,
    pub state: String,
}

/// The mathematical value of a [`Cursor`].
pub struct CursorView {
    pub machine: Seq<char>,
    pub state: Seq<char>,
}

impl View for Cursor {
    type V = CursorView;

    open spec fn view(&self) -> CursorView {
        CursorView {
            machine: self.machine@,
            state: self.state@,
        }
    }
}

impl Clone for Cursor {
    fn clone(&self) -> (r: Self)
        ensures
            r@ == self@,
    {
        let r = Cursor {
            machine: self.machine.clone(),
            state: self.state.clone(),
        };
        r
    }
}

/// A value a service keeps on the call.
#[derive(Debug, PartialEq)]
pub struct ExtEntry {
    pub service_id: String,
    pub value: serde_json::Value,
}

/// The mathematical value of a [`ExtEntry`].
pub struct ExtEntryView {
    pub service_id: Seq<char>,
    pub value: Map<Seq<Step>, Node>,
}

impl View for ExtEntry {
    type V = ExtEntryView;

    open spec fn view(&self) -> ExtEntryView {
        ExtEntryView {
            service_id: self.service_id@,
            value: json_nodes(self.value),
        }
    }
}

impl Clone for ExtEntry {
    fn clone(&self) -> (r: Self)
        ensures
            r@ == self@,
    {
        let r = ExtEntry {
            service_id: self.service_id.clone(),
            value: json_clone(&self.value),
        };
        r
    }
}

/// When, why and by whom a call was ended.
#[derive(Debug, PartialEq)]
pub struct Termination {
    pub at_ms: i64,
    pub cause: Option<String>,
    pub by_leg: Option<String>,
}

/// The mathematical value of a [`Termination`].
pub struct TerminationView {
    pub at_ms: i64,
    pub cause: Option<Seq<char>>,
    pub by_leg: Option<Seq<char>>,
}

impl View for Termination {
    type V = TerminationView;

    open spec fn view(&self) -> TerminationView {
        TerminationView {
            at_ms: self.at_ms,
            cause: opt_view(self.cause),
            by_leg: opt_view(self.by_leg),
        }
    }
}

impl Clone for Termination {
    fn clone(&self) -> (r: Self)
        ensures
            r@ == self@,
    {
        let r = Termination {
            at_ms: self.at_ms,
            cause: self.cause.clone(),
            by_leg: self.by_leg.clone(),
        };
        r
    }
}

/// A declared advertisement.
#[derive(Debug, PartialEq)]
pub struct AdvertisedCapabilities {
    pub allow: Option<Vec<String>>,
    pub supported: Option<Vec<String>>,
}

/// The mathematical value of a [`AdvertisedCapabilities`].
pub struct AdvertisedCapabilitiesView {
    pub allow: Option<Seq<Seq<char>>>,
    pub supported: Option<Seq<Seq<char>>>,
}

impl View for AdvertisedCapabilities {
    type V = AdvertisedCapabilitiesView;

    open spec fn view(&self) -> AdvertisedCapabilitiesView {
        AdvertisedCapabilitiesView {
            allow: opt_views(self.allow),
            supported: opt_views(self.supported),
        }
    }
}

impl Clone for AdvertisedCapabilities {
    fn clone(&self) -> (r: Self)
        ensures
            r@ == self@,
    {
        let r = AdvertisedCapabilities {
            allow: clone_opt_texts(&self.allow),
            supported: clone_opt_texts(&self.supported),
        };
        r
    }
}

/// The advertisement declared for each face.
#[derive(Debug, PartialEq)]
pub struct AdvertiseCapabilitiesFeature {
    pub toward_originator: Option<AdvertisedCapabilities>,
    pub toward_originated: Option<AdvertisedCapabilities>,
}

/// The mathematical value of a [`AdvertiseCapabilitiesFeature`].
pub struct AdvertiseCapabilitiesFeatureView {
    pub toward_originator: Option<AdvertisedCapabilitiesView>,
    pub toward_originated: Option<AdvertisedCapabilitiesView>,
}

impl View for AdvertiseCapabilitiesFeature {
    type V = AdvertiseCapabilitiesFeatureView;

    open spec fn view(&self) -> AdvertiseCapabilitiesFeatureView {
        AdvertiseCapabilitiesFeatureView {
            toward_originator: opt_view(self.toward_originator),
            toward_originated: opt_view(self.toward_originated),
        }
    }
}

impl Clone for AdvertiseCapabilitiesFeature {
    fn clone(&self) -> (r: Self)
        ensures
            r@ == self@,
    {
        let r = AdvertiseCapabilitiesFeature {
            toward_originator: self.toward_originator.clone(),
            toward_originated: self.toward_originated.clone(),
        };
        r
    }
}

/// Per-call keepalive values.
#[derive(Debug, PartialEq)]
pub struct KeepaliveActivation {
    pub interval_sec: i64,
    pub max_missed: i64,
}

/// The mathematical value of a [`KeepaliveActivation`].
pub struct KeepaliveActivationView {
    pub interval_sec: i64,
    pub max_missed: i64,
}

impl View for KeepaliveActivation {
    type V = KeepaliveActivationView;

    open spec fn view(&self) -> KeepaliveActivationView {
        KeepaliveActivationView {
            interval_sec: self.interval_sec,
            max_missed: self.max_missed,
        }
    }
}

impl Clone for KeepaliveActivation {
    fn clone(&self) -> (r: Self)
        ensures
            r@ == self@,
    {
        let r = KeepaliveActivation {
            interval_sec: self.interval_sec,
            max_missed: self.max_missed,
        };
        r
    }
}

/// Limits every call has.
#[derive(Debug, PartialEq)]
pub struct PlatformActivations {
    pub max_duration_sec: i64,
    pub max_duration_anchor: MaxDurationAnchor,
    pub keepalive: KeepaliveActivation,
}

/// The mathematical value of a [`PlatformActivations`].
pub struct PlatformActivationsView {
    pub max_duration_sec: i64,
    pub max_duration_anchor: MaxDurationAnchor,
    pub keepalive: KeepaliveActivationView,
}

impl View for PlatformActivations {
    type V = PlatformActivationsView;

    open spec fn view(&self) -> PlatformActivationsView {
        PlatformActivationsView {
            max_duration_sec: self.max_duration_sec,
            max_duration_anchor: self.max_duration_anchor,
            keepalive: self.keepalive@,
        }
    }
}

impl Clone for PlatformActivations {
    fn clone(&self) -> (r: Self)
        ensures
            r@ == self@,
    {
        let r = PlatformActivations {
            max_duration_sec: self.max_duration_sec,
            max_duration_anchor: self.max_duration_anchor,
            keepalive: self.keepalive.clone(),
        };
        r
    }
}

/// What becomes of an option tag on the INVITE that opens a leg.
#[derive(Clone, Copy, PartialEq, Eq, Debug, Structural)]
pub enum OptionTagUse {
    /// Left out where the caller states it.
    Withheld,
    /// Stated whether or not the caller does.
    Offered,
}

/// The statement of a feature about one option tag on the INVITEs that open
/// legs of one kind.
#[derive(Debug, PartialEq)]
pub struct OptionTag {
    pub tag: String,
    pub usage: OptionTagUse,
    /// The kind of leg it speaks of.
    pub kind: Option<LegKind>,
    /// Only of INVITEs with an offer, or only of those without; of all where it
    /// does not say. What is offered is offered either way.
    pub offers_sdp: Option<bool>,
}

/// The mathematical value of a [`OptionTag`].
pub struct OptionTagView {
    pub tag: Seq<char>,
    pub usage: OptionTagUse,
    pub kind: Option<LegKind>,
    pub offers_sdp: Option<bool>,
}

impl View for OptionTag {
    type V = OptionTagView;

    open spec fn view(&self) -> OptionTagView {
        OptionTagView {
            tag: self.tag@,
            usage: self.usage,
            kind: self.kind,
            offers_sdp: self.offers_sdp,
        }
    }
}

impl Clone for OptionTag {
    fn clone(&self) -> (r: Self)
        ensures
            r@ == self@,
    {
        let r = OptionTag {
            tag: self.tag.clone(),
            usage: self.usage,
            kind: self.kind,
            offers_sdp: self.offers_sdp,
        };
        r
    }
}

/// What the routing decision switched on for a call.
#[derive(Debug, PartialEq)]
pub struct FeatureActivations {
    pub platform: PlatformActivations,
    /// Whether REFER is processed here.
    pub refer: bool,
    pub relay_first_18x_to_180: Option<RelayFirst18xStrategy>,
    pub no_answer_timeout_sec: Option<i64>,
    pub advertise_capabilities: Option<AdvertiseCapabilitiesFeature>,
    /// What the INVITEs of the call state for charging.
    pub charging_vector: Option<serde_json::Value>,
    /// What the INVITEs that open legs withhold and offer.
    pub option_tags: Vec<OptionTag>,
}

/// The mathematical value of a [`FeatureActivations`].
pub struct FeatureActivationsView {
    pub platform: PlatformActivationsView,
    pub refer: bool,
    pub relay_first_18x_to_180: Option<RelayFirst18xStrategy>,
    pub no_answer_timeout_sec: Option<i64>,
    pub advertise_capabilities: Option<AdvertiseCapabilitiesFeatureView>,
    pub charging_vector: Option<Map<Seq<Step>, Node>>,
    pub option_tags: Seq<OptionTagView>,
}

impl View for FeatureActivations {
    type V = FeatureActivationsView;

    open spec fn view(&self) -> FeatureActivationsView {
        FeatureActivationsView {
            platform: self.platform@,
            refer: self.refer,
            relay_first_18x_to_180: self.relay_first_18x_to_180,
            no_answer_timeout_sec: self.no_answer_timeout_sec,
            advertise_capabilities: opt_view(self.advertise_capabilities),
            charging_vector: opt_json(self.charging_vector),
            option_tags: views(self.option_tags@),
        }
    }
}

impl Clone for FeatureActivations {
    fn clone(&self) -> (r: Self)
        ensures
            r@ == self@,
    {
        let r = FeatureActivations {
            platform: self.platform.clone(),
            refer: self.refer,
            relay_first_18x_to_180: self.relay_first_18x_to_180,
            no_answer_timeout_sec: self.no_answer_timeout_sec,
            advertise_capabilities: self.advertise_capabilities.clone(),
            charging_vector: clone_opt_json(&self.charging_vector),
            option_tags: self.option_tags.clone(),
        };
        assert(views(r.option_tags@) =~= views(self.option_tags@));
        r
    }
}

/// The caller's INVITE.
#[derive(Debug, PartialEq)]
pub struct InviteSnapshot {
    pub cseq: i64,
    pub from_uri: String,
    pub to_uri: String,
    pub headers: Vec<SipHeader>,
    pub body: Vec<u8>,
    /// The description it carries with the media on hold: the same codecs, nothing
    /// sent or received.
    pub held_sdp: Option<Vec<u8>>,
}

/// The mathematical value of a [`InviteSnapshot`].
pub struct InviteSnapshotView {
    pub cseq: i64,
    pub from_uri: Seq<char>,
    pub to_uri: Seq<char>,
    pub headers: Seq<SipHeaderView>,
    pub body: Seq<u8>,
    pub held_sdp: Option<Seq<u8>>,
}

impl View for InviteSnapshot {
    type V = InviteSnapshotView;

    open spec fn view(&self) -> InviteSnapshotView {
        InviteSnapshotView {
            cseq: self.cseq,
            from_uri: self.from_uri@,
            to_uri: self.to_uri@,
            headers: views(self.headers@),
            body: self.body@,
            held_sdp: opt_view(self.held_sdp),
        }
    }
}

impl Clone for InviteSnapshot {
    fn clone(&self) -> (r: Self)
        ensures
            r@ == self@,
    {
        let r = InviteSnapshot {
            cseq: self.cseq,
            from_uri: self.from_uri.clone(),
            to_uri: self.to_uri.clone(),
            headers: self.headers.clone(),
            body: clone_bytes(&self.body),
            held_sdp: clone_opt_bytes(&self.held_sdp),
        };
        assert(views(r.headers@) =~= views(self.headers@));
        r
    }
}

/// Everything the bridge knows of one call.
#[derive(Debug, PartialEq)]
pub struct Call {
    pub call_ref: String,
    /// Whether it is an emergency call, where that is known.
    pub emergency: Option<bool>,
    pub state: CallModelState,
    pub a_leg: Leg,
    pub b_legs: Vec<Leg>,
    pub a_leg_invite: InviteSnapshot,
    pub active_peer: Option<PeerPair>,
    pub tag_map: Vec<TagMapping>,
    pub timers: Vec<TimerEntry>,
    pub cdr_events: Vec<CdrEvent>,
    /// The position of every active machine: one entry each, in the order of the
    /// machines' names.
    pub sm_cursors: Vec<Cursor>,
    pub features: Option<FeatureActivations>,
    pub callback_context: Option<String>,
    pub policy_update_body: Option<Vec<u8>>,
    pub transfer: Option<TransferState>,
    pub promote_pem: Option<PromotePemState>,
    pub relay_first_18x: Option<Relay18xState>,
    pub reliable_provisionals: Vec<ReliableProvisional>,
    pub pracked_provisionals: Vec<PrackedProvisional>,
    pub limiter_entries: Vec<LimiterState>,
    pub ext: Vec<ExtEntry>,
    /// What the last failed attempt stated, for the final that answers its consult.
    pub failure_headers: Vec<SipHeader>,
    pub subscriptions: Vec<ReleaseEventKind>,
    /// The replacement leg of a reroute in progress.
    pub reroute: Option<String>,
    pub deactivated_rules: Vec<String>,
    pub termination: Option<Termination>,
}

/// The mathematical value of a [`Call`].
pub struct CallView {
    pub call_ref: Seq<char>,
    pub emergency: Option<bool>,
    pub state: CallModelState,
    pub a_leg: LegView,
    pub b_legs: Seq<LegView>,
    pub a_leg_invite: InviteSnapshotView,
    pub active_peer: Option<PeerPairView>,
    pub tag_map: Seq<TagMappingView>,
    pub timers: Seq<TimerEntryView>,
    pub cdr_events: Seq<CdrEventView>,
    pub sm_cursors: Seq<CursorView>,
    pub features: Option<FeatureActivationsView>,
    pub callback_context: Option<Seq<char>>,
    pub policy_update_body: Option<Seq<u8>>,
    pub transfer: Option<TransferStateView>,
    pub promote_pem: Option<PromotePemStateView>,
    pub relay_first_18x: Option<Relay18xStateView>,
    pub reliable_provisionals: Seq<ReliableProvisionalView>,
    pub pracked_provisionals: Seq<PrackedProvisionalView>,
    pub limiter_entries: Seq<LimiterStateView>,
    pub ext: Seq<ExtEntryView>,
    pub failure_headers: Seq<SipHeaderView>,
    pub subscriptions: Seq<ReleaseEventKind>,
    pub reroute: Option<Seq<char>>,
    pub deactivated_rules: Seq<Seq<char>>,
    pub termination: Option<TerminationView>,
}

impl View for Call {
    type V = CallView;

    open spec fn view(&self) -> CallView {
        CallView {
            call_ref: self.call_ref@,
            emergency: self.emergency,
            state: self.state,
            a_leg: self.a_leg@,
            b_legs: views(self.b_legs@),
            a_leg_invite: self.a_leg_invite@,
            active_peer: opt_view(self.active_peer),
            tag_map: views(self.tag_map@),
            timers: views(self.timers@),
            cdr_events: views(self.cdr_events@),
            sm_cursors: views(self.sm_cursors@),
            features: opt_view(self.features),
            callback_context: opt_view(self.callback_context),
            policy_update_body: opt_view(self.policy_update_body),
            transfer: opt_view(self.transfer),
            promote_pem: opt_view(self.promote_pem),
            relay_first_18x: opt_view(self.relay_first_18x),
            reliable_provisionals: views(self.reliable_provisionals@),
            pracked_provisionals: views(self.pracked_provisionals@),
            limiter_entries: views(self.limiter_entries@),
            ext: views(self.ext@),
            failure_headers: views(self.failure_headers@),
            subscriptions: self.subscriptions@,
            reroute: opt_view(self.reroute),
            deactivated_rules: views(self.deactivated_rules@),
            termination: opt_view(self.termination),
        }
    }
}

impl Clone for Call {
    fn clone(&self) -> (r: Self)
        ensures
            r@ == self@,
    {
        let r = Call {
            call_ref: self.call_ref.clone(),
            emergency: self.emergency,
            state: self.state,
            a_leg: self.a_leg.clone(),
            b_legs: self.b_legs.clone(),
            a_leg_invite: self.a_leg_invite.clone(),
            active_peer: self.active_peer.clone(),
            tag_map: self.tag_map.clone(),
            timers: self.timers.clone(),
            cdr_events: self.cdr_events.clone(),
            sm_cursors: self.sm_cursors.clone(),
            features: self.features.clone(),
            callback_context: self.callback_context.clone(),
            policy_update_body: clone_opt_bytes(&self.policy_update_body),
            transfer: self.transfer.clone(),
            promote_pem: self.promote_pem.clone(),
            relay_first_18x: self.relay_first_18x.clone(),
            reliable_provisionals: self.reliable_provisionals.clone(),
            pracked_provisionals: self.pracked_provisionals.clone(),
            limiter_entries: self.limiter_entries.clone(),
            ext: self.ext.clone(),
            failure_headers: self.failure_headers.clone(),
            subscriptions: self.subscriptions.clone(),
            reroute: self.reroute.clone(),
            deactivated_rules: clone_texts(&self.deactivated_rules),
            termination: self.termination.clone(),
        };
        assert(views(r.b_legs@) =~= views(self.b_legs@));
        assert(views(r.tag_map@) =~= views(self.tag_map@));
        assert(views(r.timers@) =~= views(self.timers@));
        assert(views(r.cdr_events@) =~= views(self.cdr_events@));
        assert(views(r.sm_cursors@) =~= views(self.sm_cursors@));
        assert(views(r.reliable_provisionals@) =~= views(self.reliable_provisionals@));
        assert(views(r.pracked_provisionals@) =~= views(self.pracked_provisionals@));
        assert(views(r.limiter_entries@) =~= views(self.limiter_entries@));
        assert(views(r.ext@) =~= views(self.ext@));
        assert(views(r.failure_headers@) =~= views(self.failure_headers@));
        assert(r.subscriptions@ =~= self.subscriptions@);
        r
    }
}

impl CallView {
    /// The messages of the call carry the emergency mark.
    pub open spec fn is_emergency(self) -> bool {
        self.emergency == Some(true)
    }
}

impl Call {
    /// Whether the messages of the call carry the emergency mark.
    pub fn is_emergency(&self) -> (r: bool)
        ensures
            r == self@.is_emergency(),
    {
        match self.emergency {
            Some(e) => e,
            None => false,
        }
    }
}

/// Operator settings.
#[derive(Debug, PartialEq)]
pub struct Config {
    pub keepalive_interval_sec: i64,
    pub keepalive_timeout_sec: i64,
    pub ack_timeout_ms: i64,
    pub limiter_refresh_sec: i64,
    pub refer_subscription_expiry_sec: i64,
    pub refer_overall_safety_sec: i64,
    pub refer_reinvite_answer_sec: i64,
    /// The longest ring the INVITE transaction outlives.
    pub no_answer_ceiling_sec: i64,
    pub outbound_proxy: Option<HostPort>,
    /// Host suffixes calls may be sent to; none allows every host.
    pub worker_allowed_target_suffixes: Vec<String>,
    /// Keys of the call's extension map that belong to the core; no service has
    /// one for its id, and no decision writes one.
    pub reserved_ext: Vec<String>,
    /// Fault injection: keepalives repeat the dialog's last CSeq.
    pub keepalive_cseq_reuse: bool,
}

/// The mathematical value of a [`Config`].
pub struct ConfigView {
    pub keepalive_interval_sec: i64,
    pub keepalive_timeout_sec: i64,
    pub ack_timeout_ms: i64,
    pub limiter_refresh_sec: i64,
    pub refer_subscription_expiry_sec: i64,
    pub refer_overall_safety_sec: i64,
    pub refer_reinvite_answer_sec: i64,
    pub no_answer_ceiling_sec: i64,
    pub outbound_proxy: Option<HostPortView>,
    pub worker_allowed_target_suffixes: Seq<Seq<char>>,
    pub reserved_ext: Seq<Seq<char>>,
    pub keepalive_cseq_reuse: bool,
}

impl View for Config {
    type V = ConfigView;

    open spec fn view(&self) -> ConfigView {
        ConfigView {
            keepalive_interval_sec: self.keepalive_interval_sec,
            keepalive_timeout_sec: self.keepalive_timeout_sec,
            ack_timeout_ms: self.ack_timeout_ms,
            limiter_refresh_sec: self.limiter_refresh_sec,
            refer_subscription_expiry_sec: self.refer_subscription_expiry_sec,
            refer_overall_safety_sec: self.refer_overall_safety_sec,
            refer_reinvite_answer_sec: self.refer_reinvite_answer_sec,
            no_answer_ceiling_sec: self.no_answer_ceiling_sec,
            outbound_proxy: opt_view(self.outbound_proxy),
            worker_allowed_target_suffixes: views(self.worker_allowed_target_suffixes@),
            reserved_ext: views(self.reserved_ext@),
            keepalive_cseq_reuse: self.keepalive_cseq_reuse,
        }
    }
}

impl Clone for Config {
    fn clone(&self) -> (r: Self)
        ensures
            r@ == self@,
    {
        let r = Config {
            keepalive_interval_sec: self.keepalive_interval_sec,
            keepalive_timeout_sec: self.keepalive_timeout_sec,
            ack_timeout_ms: self.ack_timeout_ms,
            limiter_refresh_sec: self.limiter_refresh_sec,
            refer_subscription_expiry_sec: self.refer_subscription_expiry_sec,
            refer_overall_safety_sec: self.refer_overall_safety_sec,
            refer_reinvite_answer_sec: self.refer_reinvite_answer_sec,
            no_answer_ceiling_sec: self.no_answer_ceiling_sec,
            outbound_proxy: self.outbound_proxy.clone(),
            worker_allowed_target_suffixes: clone_texts(&self.worker_allowed_target_suffixes),
            reserved_ext: clone_texts(&self.reserved_ext),
            keepalive_cseq_reuse: self.keepalive_cseq_reuse,
        };
        r
    }
}

} // verus!
