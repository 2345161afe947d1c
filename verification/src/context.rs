//! What a rule reads of the event it answers, and which events a matcher
//! accepts.
use vstd::prelude::*;

use crate::call::{
    CallModelState, Dialog, DialogView, Leg, LegDisposition, LegState, LegView, Obligation,
    ObligationView, PendingRequestView, TimerKind, TimerType, TimerTypeView,
};
use crate::lens::{
    dialog_toward, find_dialog_toward, find_leg, find_pending_request, is_empty, opt_dialog,
    opt_leg,
};
use crate::model::{
    CallEvent, CallEventView, Match, MatchKind, MatchView, RuleContext, RuleContextView,
    StatusMatch, StatusMatchView,
};
use crate::seqs::{first_where, opt_view, views};
use crate::state::resolve_relay_peer;
use crate::text::{signed, signed_text};
use crate::wire::{Method, MethodView, SipRequest, SipRequestView, SipResponse, SipResponseView};

verus! {

// ── timer ids ───────────────────────────────────────────────────────────
/// The name of a kind of timer.
pub open spec fn kind_name(k: TimerKind) -> Seq<char> {
    match k {
        TimerKind::NoAnswer => "NoAnswer"@,
        TimerKind::SetupTimeout => "SetupTimeout"@,
        TimerKind::GlobalDuration => "GlobalDuration"@,
        TimerKind::Keepalive => "Keepalive"@,
        TimerKind::KeepaliveTimeout => "KeepaliveTimeout"@,
        TimerKind::LimiterRefresh => "LimiterRefresh"@,
        TimerKind::TerminatingTimeout => "TerminatingTimeout"@,
        TimerKind::ReferSubscriptionExpiry => "ReferSubscriptionExpiry"@,
        TimerKind::ReferOverallSafety => "ReferOverallSafety"@,
        TimerKind::ReferReinviteAnswer => "ReferReinviteAnswer"@,
        TimerKind::Service => "Service"@,
        TimerKind::Rung => "Rung"@,
        TimerKind::RepeatGiveUp => "RepeatGiveUp"@,
    }
}

/// Name a kind of timer.
pub fn timer_kind_name(k: TimerKind) -> (r: String)
    ensures
        r@ == kind_name(k),
{
    match k {
        TimerKind::NoAnswer => "NoAnswer".to_string(),
        TimerKind::SetupTimeout => "SetupTimeout".to_string(),
        TimerKind::GlobalDuration => "GlobalDuration".to_string(),
        TimerKind::Keepalive => "Keepalive".to_string(),
        TimerKind::KeepaliveTimeout => "KeepaliveTimeout".to_string(),
        TimerKind::LimiterRefresh => "LimiterRefresh".to_string(),
        TimerKind::TerminatingTimeout => "TerminatingTimeout".to_string(),
        TimerKind::ReferSubscriptionExpiry => "ReferSubscriptionExpiry".to_string(),
        TimerKind::ReferOverallSafety => "ReferOverallSafety".to_string(),
        TimerKind::ReferReinviteAnswer => "ReferReinviteAnswer".to_string(),
        TimerKind::Service => "Service".to_string(),
        TimerKind::Rung => "Rung".to_string(),
        TimerKind::RepeatGiveUp => "RepeatGiveUp".to_string(),
    }
}

/// The kind of a timer.
pub open spec fn kind_of(t: TimerTypeView) -> TimerKind {
    match t {
        TimerTypeView::NoAnswer => TimerKind::NoAnswer,
        TimerTypeView::SetupTimeout => TimerKind::SetupTimeout,
        TimerTypeView::GlobalDuration => TimerKind::GlobalDuration,
        TimerTypeView::Keepalive => TimerKind::Keepalive,
        TimerTypeView::KeepaliveTimeout => TimerKind::KeepaliveTimeout,
        TimerTypeView::LimiterRefresh => TimerKind::LimiterRefresh,
        TimerTypeView::TerminatingTimeout => TimerKind::TerminatingTimeout,
        TimerTypeView::ReferSubscriptionExpiry => TimerKind::ReferSubscriptionExpiry,
        TimerTypeView::ReferOverallSafety => TimerKind::ReferOverallSafety,
        TimerTypeView::ReferReinviteAnswer => TimerKind::ReferReinviteAnswer,
        TimerTypeView::Service { .. } => TimerKind::Service,
        TimerTypeView::Rung { .. } => TimerKind::Rung,
        TimerTypeView::RepeatGiveUp { .. } => TimerKind::RepeatGiveUp,
    }
}

/// What tells the ladders of two obligations apart.
pub open spec fn obligation_key(o: ObligationView) -> Seq<char> {
    match o {
        ObligationView::AckOf2xx { leg, dialog_tag, cseq } => ":ack:"@ + leg + ":"@ + dialog_tag
            + ":"@ + signed_text(cseq as int),
        ObligationView::PrackOf { a_tag, a_rseq } => ":prack:"@ + a_tag + ":"@ + signed_text(
            a_rseq as int,
        ),
    }
}

/// The id of a timer: its kind, what it repeats for, and its leg.
pub open spec fn timer_key(t: TimerTypeView, leg: Option<Seq<char>>) -> Seq<char> {
    let base = kind_name(kind_of(t)) + match t {
        TimerTypeView::Service { name } => ":"@ + name,
        TimerTypeView::Rung { obligation } => obligation_key(obligation),
        TimerTypeView::RepeatGiveUp { obligation } => obligation_key(obligation),
        _ => Seq::empty(),
    };
    match leg {
        Some(l) => base + ":"@ + l,
        None => base,
    }
}

impl TimerType {
    /// The kind of this timer.
    pub fn kind(&self) -> (r: TimerKind)
        ensures
            r == kind_of(self@),
    {
        match self {
            TimerType::NoAnswer => TimerKind::NoAnswer,
            TimerType::SetupTimeout => TimerKind::SetupTimeout,
            TimerType::GlobalDuration => TimerKind::GlobalDuration,
            TimerType::Keepalive => TimerKind::Keepalive,
            TimerType::KeepaliveTimeout => TimerKind::KeepaliveTimeout,
            TimerType::LimiterRefresh => TimerKind::LimiterRefresh,
            TimerType::TerminatingTimeout => TimerKind::TerminatingTimeout,
            TimerType::ReferSubscriptionExpiry => TimerKind::ReferSubscriptionExpiry,
            TimerType::ReferOverallSafety => TimerKind::ReferOverallSafety,
            TimerType::ReferReinviteAnswer => TimerKind::ReferReinviteAnswer,
            TimerType::Service { .. } => TimerKind::Service,
            TimerType::Rung { .. } => TimerKind::Rung,
            TimerType::RepeatGiveUp { .. } => TimerKind::RepeatGiveUp,
        }
    }

    /// The one recipe for timer ids: arming and cancelling both take it.
    pub fn timer_id(&self, leg: &Option<String>) -> (r: String)
        ensures
            r@ == timer_key(self@, opt_view(*leg)),
    {
        let mut id = timer_kind_name(self.kind());
        match self {
            TimerType::Service { name } => {
                id.append(":");
                id.append(name.as_str());
                assert(id@ =~= kind_name(kind_of(self@)) + (":"@ + name@));
            },
            TimerType::Rung { obligation } => {
                let k = obligation_text(obligation);
                id.append(k.as_str());
            },
            TimerType::RepeatGiveUp { obligation } => {
                let k = obligation_text(obligation);
                id.append(k.as_str());
            },
            _ => {
                assert(id@ =~= kind_name(kind_of(self@)) + Seq::<char>::empty());
            },
        }
        if let Some(l) = leg {
            id.append(":");
            id.append(l.as_str());
        }
        id
    }
}

fn obligation_text(o: &Obligation) -> (r: String)
    ensures
        r@ == obligation_key(o@),
{
    match o {
        Obligation::AckOf2xx { leg, dialog_tag, cseq } => {
            let mut s = ":ack:".to_string();
            s.append(leg.as_str());
            s.append(":");
            s.append(dialog_tag.as_str());
            s.append(":");
            let n = signed(*cseq);
            s.append(n.as_str());
            s
        },
        Obligation::PrackOf { a_tag, a_rseq } => {
            let mut s = ":prack:".to_string();
            s.append(a_tag.as_str());
            s.append(":");
            let n = signed(*a_rseq);
            s.append(n.as_str());
            s
        },
    }
}

/// Whether `x` is one of `list`.
pub fn has_method(list: &Vec<Method>, x: &Method) -> (r: bool)
    ensures
        r == views(list@).contains(x@),
{
    for i in 0..list.len()
        invariant
            forall|j: int| 0 <= j < i ==> #[trigger] views(list@)[j] != x@,
    {
        assert(views(list@)[i as int] == list@[i as int]@);
        if list[i] == *x {
            return true;
        }
    }
    false
}

/// Whether `x` is one of `list`.
pub fn has_leg_state(list: &Vec<LegState>, x: LegState) -> (r: bool)
    ensures
        r == list@.contains(x),
{
    for i in 0..list.len()
        invariant
            forall|j: int| 0 <= j < i ==> list@[j] != x,
    {
        if list[i] == x {
            return true;
        }
    }
    false
}

/// Whether `x` is one of `list`.
pub fn has_call_state(list: &Vec<CallModelState>, x: CallModelState) -> (r: bool)
    ensures
        r == list@.contains(x),
{
    for i in 0..list.len()
        invariant
            forall|j: int| 0 <= j < i ==> list@[j] != x,
    {
        if list[i] == x {
            return true;
        }
    }
    false
}

/// Whether `x` is one of `list`.
pub fn has_disposition(list: &Vec<LegDisposition>, x: LegDisposition) -> (r: bool)
    ensures
        r == list@.contains(x),
{
    for i in 0..list.len()
        invariant
            forall|j: int| 0 <= j < i ==> list@[j] != x,
    {
        if list[i] == x {
            return true;
        }
    }
    false
}

/// Whether `x` is one of `list`.
pub fn has_timer(list: &Vec<TimerKind>, x: TimerKind) -> (r: bool)
    ensures
        r == list@.contains(x),
{
    for i in 0..list.len()
        invariant
            forall|j: int| 0 <= j < i ==> list@[j] != x,
    {
        if list[i] == x {
            return true;
        }
    }
    false
}

// ── reading the event ───────────────────────────────────────────────────
/// The dialog of a leg that a request is relayed on: the one toward the named
/// callee tag, else the first.
pub open spec fn relay_dialog(l: LegView, to_tag: Option<Seq<char>>) -> Option<DialogView> {
    let named = match to_tag {
        Some(t) => first_where(l.dialogs, dialog_toward(t)),
        None => None,
    };
    match named {
        Some(i) => Some(l.dialogs[i]),
        None => if l.dialogs.len() > 0 {
            Some(l.dialogs[0])
        } else {
            None
        },
    }
}

/// Pick the dialog of a leg that a request is relayed on.
pub fn pick_relay_dialog<'a>(l: &'a Leg, to_tag: &Option<String>) -> (r: Option<&'a Dialog>)
    ensures
        opt_dialog(r) == relay_dialog(l@, opt_view(*to_tag)),
{
    if let Some(t) = to_tag {
        if let Some(i) = find_dialog_toward(&l.dialogs, t) {
            return Some(&l.dialogs[i]);
        }
    }
    if l.dialogs.len() > 0 {
        Some(&l.dialogs[0])
    } else {
        None
    }
}

impl RuleContextView {
    pub open spec fn request(self) -> Option<SipRequestView> {
        match self.event {
            CallEventView::Request { request } => Some(request),
            _ => None,
        }
    }

    pub open spec fn response(self) -> Option<SipResponseView> {
        match self.event {
            CallEventView::Response { response } => Some(response),
            _ => None,
        }
    }

    pub open spec fn timer(self) -> Option<TimerTypeView> {
        match self.event {
            CallEventView::Timer { timer_type, .. } => Some(timer_type),
            _ => None,
        }
    }

    pub open spec fn timer_leg(self) -> Option<Seq<char>> {
        match self.event {
            CallEventView::Timer { leg_id, .. } => leg_id,
            _ => None,
        }
    }

    /// The leg the event came on.
    pub open spec fn source_leg(self) -> Option<LegView> {
        self.call.leg(self.source_leg_id)
    }

    /// The first dialog of the leg the event came on.
    pub open spec fn source_dialog(self) -> Option<DialogView> {
        match self.source_leg() {
            Some(l) => if l.dialogs.len() > 0 {
                Some(l.dialogs[0])
            } else {
                None
            },
            None => None,
        }
    }

    /// The response answers a request that was relayed on the source dialog.
    pub open spec fn answers_relayed(self) -> bool {
        self.snapshot() is Some
    }

    /// What was remembered of the request that the response answers.
    pub open spec fn snapshot(self) -> Option<PendingRequestView> {
        match (self.response(), self.source_dialog()) {
            (Some(r), Some(d)) => d.pending(r.cseq),
            _ => None,
        }
    }

    /// The dialog a relay of the event would be regenerated on, with its leg.
    pub open spec fn peer_dialog(self) -> Option<(LegView, DialogView)> {
        let to_tag = match self.request() {
            Some(r) => r.to_tag,
            None => None,
        };
        let (leg, tag) = self.call.relay_peer(self.source_leg_id, to_tag);
        match leg {
            Some(id) => match self.call.leg(id) {
                Some(l) => match relay_dialog(l, tag) {
                    Some(d) => Some((l, d)),
                    None => None,
                },
                None => None,
            },
            None => None,
        }
    }

    /// The peer can take a relayed request: its leg stands, and its tag is
    /// known.
    pub open spec fn peer_ready(self) -> bool {
        match self.peer_dialog() {
            Some((l, d)) => l.state != LegState::Terminated && d.sip.remote_tag.len() > 0,
            None => false,
        }
    }
}

impl<'a> RuleContext<'a> {
    /// The request the event carries.
    pub fn request(&self) -> (r: Option<&SipRequest>)
        ensures
            match r {
                Some(q) => self@.request() == Some(q@),
                None => self@.request() is None,
            },
    {
        match self.event {
            CallEvent::Request { request } => Some(request),
            _ => None,
        }
    }

    /// The response the event carries.
    pub fn response(&self) -> (r: Option<&SipResponse>)
        ensures
            match r {
                Some(q) => self@.response() == Some(q@),
                None => self@.response() is None,
            },
    {
        match self.event {
            CallEvent::Response { response } => Some(response),
            _ => None,
        }
    }

    /// The timer that fired.
    pub fn timer_type(&self) -> (r: Option<&TimerType>)
        ensures
            match r {
                Some(t) => self@.timer() == Some(t@),
                None => self@.timer() is None,
            },
    {
        match self.event {
            CallEvent::Timer { timer_type, .. } => Some(timer_type),
            _ => None,
        }
    }

    /// The leg the timer that fired belongs to.
    pub fn timer_leg(&self) -> (r: Option<&String>)
        ensures
            match r {
                Some(t) => self@.timer_leg() == Some(t@),
                None => self@.timer_leg() is None,
            },
    {
        match self.event {
            CallEvent::Timer { leg_id, .. } => match leg_id {
                Some(l) => Some(l),
                None => None,
            },
            _ => None,
        }
    }

    /// The leg the event came on.
    pub fn source_leg(&self) -> (r: Option<&Leg>)
        ensures
            opt_leg(r) == self@.source_leg(),
    {
        find_leg(self.call, self.source_leg_id)
    }

    /// The first dialog of the leg the event came on.
    pub fn source_dialog(&self) -> (r: Option<&Dialog>)
        ensures
            opt_dialog(r) == self@.source_dialog(),
    {
        match self.source_leg() {
            Some(l) => if l.dialogs.len() > 0 {
                Some(&l.dialogs[0])
            } else {
                None
            },
            None => None,
        }
    }

    /// Whether the response answers a relayed request.
    pub fn answers_relayed_request(&self) -> (r: bool)
        ensures
            r == self@.answers_relayed(),
    {
        match self.response() {
            Some(resp) => match self.source_dialog() {
                Some(d) => find_pending_request(d, resp.cseq).is_some(),
                None => false,
            },
            None => false,
        }
    }

    /// Whether the relayed request that the response answers was cancelled;
    /// nothing when it answers none.
    pub fn snapshot_cancelled(&self) -> (r: Option<bool>)
        ensures
            match r {
                Some(c) => self@.snapshot() matches Some(p) && p.cancelled == c,
                None => self@.snapshot() is None,
            },
    {
        match self.response() {
            Some(resp) => match self.source_dialog() {
                Some(d) => match find_pending_request(d, resp.cseq) {
                    Some(p) => Some(p.cancelled),
                    None => None,
                },
                None => None,
            },
            None => None,
        }
    }

    /// The dialog a relay of the event would be regenerated on, with its leg.
    pub fn peer_dialog(&self) -> (r: Option<(&Leg, &Dialog)>)
        ensures
            match r {
                Some((l, d)) => self@.peer_dialog() == Some((l@, d@)),
                None => self@.peer_dialog() is None,
            },
    {
        let to_tag = match self.request() {
            Some(r) => r.to_tag.clone(),
            None => None,
        };
        let (leg, tag) = resolve_relay_peer(self.call, self.source_leg_id, &to_tag);
        match leg {
            Some(id) => match find_leg(self.call, &id) {
                Some(l) => match pick_relay_dialog(l, &tag) {
                    Some(d) => Some((l, d)),
                    None => None,
                },
                None => None,
            },
            None => None,
        }
    }

    /// Whether the peer can take a relayed request.
    pub fn peer_relay_ready(&self) -> (r: bool)
        ensures
            r == self@.peer_ready(),
    {
        match self.peer_dialog() {
            Some((l, d)) => l.state != LegState::Terminated && !is_empty(&d.sip.remote_tag),
            None => false,
        }
    }
}

// ── matching ────────────────────────────────────────────────────────────
pub open spec fn event_kind(e: CallEventView) -> MatchKind {
    match e {
        CallEventView::Request { .. } => MatchKind::Request,
        CallEventView::Response { .. } => MatchKind::Response,
        CallEventView::Timer { .. } => MatchKind::Timer,
        CallEventView::Timeout { .. } => MatchKind::Timeout,
        CallEventView::Cancelled { .. } => MatchKind::Cancelled,
        CallEventView::Internal { .. } => MatchKind::InternalEvent,
    }
}

/// The method an event is about.
pub open spec fn event_method(e: CallEventView) -> Option<MethodView> {
    match e {
        CallEventView::Request { request } => Some(request.method),
        CallEventView::Response { response } => Some(response.method),
        CallEventView::Timeout { method, .. } => method,
        _ => None,
    }
}

pub open spec fn status_accepts(m: StatusMatchView, e: CallEventView) -> bool {
    match m {
        StatusMatchView::Any => true,
        StatusMatchView::Code { code } => e matches CallEventView::Response { response }
            && response.status == code,
        StatusMatchView::Class { class } => e matches CallEventView::Response { response }
            && response.status / 100 == class,
    }
}

/// Every column of the matcher accepts the event.
pub open spec fn columns_accept(m: MatchView, ctx: RuleContextView) -> bool {
    &&& m.kind == event_kind(ctx.event)
    &&& m.methods matches Some(ms) ==> (event_method(ctx.event) matches Some(x) && ms.contains(x))
    &&& status_accepts(m.status, ctx.event)
    &&& m.direction matches Some(d) ==> ctx.direction == d
    &&& m.leg_state matches Some(ls) ==> (ctx.source_leg() matches Some(l) && ls.contains(l.state))
    &&& m.leg_disposition matches Some(ds) ==> (ctx.source_leg() matches Some(l) && ds.contains(
        l.disposition,
    ))
    &&& m.call_state matches Some(cs) ==> cs.contains(ctx.call.state)
    &&& m.timer_types matches Some(ts) ==> (ctx.timer() matches Some(t) && ts.contains(kind_of(t)))
    &&& m.topic matches Some(t) ==> (ctx.event matches CallEventView::Internal { topic, .. }
        && topic == t)
    &&& m.outcome matches Some(o) ==> (ctx.event matches CallEventView::Internal { outcome, .. }
        && outcome == o)
}

fn same_kind(k: MatchKind, e: &CallEvent) -> (r: bool)
    ensures
        r == (k == event_kind(e@)),
{
    match e {
        CallEvent::Request { .. } => k == MatchKind::Request,
        CallEvent::Response { .. } => k == MatchKind::Response,
        CallEvent::Timer { .. } => k == MatchKind::Timer,
        CallEvent::Timeout { .. } => k == MatchKind::Timeout,
        CallEvent::Cancelled { .. } => k == MatchKind::Cancelled,
        CallEvent::Internal { .. } => k == MatchKind::InternalEvent,
    }
}

fn method_of<'a>(e: &'a CallEvent) -> (r: Option<&'a Method>)
    ensures
        event_method(e@) == (match r {
            Some(m) => Some(m@),
            None => None,
        }),
{
    match e {
        CallEvent::Request { request } => Some(&request.method),
        CallEvent::Response { response } => Some(&response.method),
        CallEvent::Timeout { method, .. } => method.as_ref(),
        _ => None,
    }
}

fn accepts_status(m: &StatusMatch, e: &CallEvent) -> (r: bool)
    ensures
        r == status_accepts(m@, e@),
{
    match m {
        StatusMatch::Any => true,
        StatusMatch::Code { code } => match e {
            CallEvent::Response { response } => response.status == *code,
            _ => false,
        },
        StatusMatch::Class { class } => match e {
            CallEvent::Response { response } => response.status / 100 == *class,
            _ => false,
        },
    }
}

impl Match {
    /// Whether every column accepts the event.
    pub fn accepts_columns(&self, ctx: &RuleContext) -> (r: bool)
        ensures
            r == columns_accept(self@, ctx@),
    {
        if !same_kind(self.kind, ctx.event) {
            return false;
        }
        if let Some(ms) = &self.methods {
            match method_of(ctx.event) {
                Some(m) => {
                    if !has_method(ms, m) {
                        return false;
                    }
                },
                None => {
                    return false;
                },
            }
        }
        if !accepts_status(&self.status, ctx.event) {
            return false;
        }
        if let Some(d) = self.direction {
            if ctx.direction != d {
                return false;
            }
        }
        if let Some(ls) = &self.leg_state {
            match ctx.source_leg() {
                Some(l) => {
                    if !has_leg_state(ls, l.state) {
                        return false;
                    }
                },
                None => {
                    return false;
                },
            }
        }
        if let Some(ds) = &self.leg_disposition {
            match ctx.source_leg() {
                Some(l) => {
                    if !has_disposition(ds, l.disposition) {
                        return false;
                    }
                },
                None => {
                    return false;
                },
            }
        }
        if let Some(cs) = &self.call_state {
            if !has_call_state(cs, ctx.call.state) {
                return false;
            }
        }
        if let Some(ts) = &self.timer_types {
            match ctx.timer_type() {
                Some(t) => {
                    if !has_timer(ts, t.kind()) {
                        return false;
                    }
                },
                None => {
                    return false;
                },
            }
        }
        if let Some(t) = &self.topic {
            match ctx.event {
                CallEvent::Internal { topic, .. } => {
                    if *topic != *t {
                        return false;
                    }
                },
                _ => {
                    return false;
                },
            }
        }
        if let Some(o) = &self.outcome {
            match ctx.event {
                CallEvent::Internal { outcome, .. } => {
                    if *outcome != *o {
                        return false;
                    }
                },
                _ => {
                    return false;
                },
            }
        }
        true
    }
}

} // verus!
