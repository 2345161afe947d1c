//! The actions rules are written in, and the shapes of matchers and rules.
use vstd::prelude::*;

use crate::action::{MessageTransform, MessageTransformView, RuleAction, RuleActionView};
use crate::call::{
    ByeDisposition, CallModelState, CdrEventType, Direction, LegDisposition, LegState, TimerKind,
    TimerType, TimerTypeView,
};
use crate::context::timer_key;
use crate::model::{
    Diagnostic, DiagnosticView, Effect, EffectView, Guard, Handler, Match, MatchKind, MatchView,
    RuleDefinition, RuleDefinitionView, RuleHandleResult, RuleHandleResultView, StatusMatch,
    StatusMatchView, Transition, TransitionView, SERVICE_LAYER,
};
use crate::seqs::{opt_view, views};
use crate::wire::{Method, MethodView};

verus! {

// ── texts ───────────────────────────────────────────────────────────────
/// Owned copies of texts.
pub fn texts(list: Vec<&str>) -> (r: Vec<String>)
    ensures
        views(r@) == views(list@),
{
    let mut out: Vec<String> = Vec::new();
    for i in 0..list.len()
        invariant
            views(out@) == views(list@).take(i as int),
    {
        let ghost before = out@;
        let s = list[i].to_string();
        out.push(s);
        assert(views(out@) =~= views(before).push(s@));
        assert(views(list@)[i as int] == list@[i as int]@);
        assert(views(list@).take(i + 1) =~= views(list@).take(i as int).push(s@));
    }
    assert(views(list@).take(list@.len() as int) =~= views(list@));
    out
}

// ── actions ─────────────────────────────────────────────────────────────
impl MessageTransformView {
    /// The message as it stands.
    pub open spec fn unchanged() -> MessageTransformView {
        MessageTransformView {
            status: None,
            reason: None,
            drop_body: false,
            remove_headers: Seq::empty(),
            add_headers: Seq::empty(),
        }
    }
}

/// The message as it stands.
pub fn no_transform() -> (r: MessageTransform)
    ensures
        r@ == MessageTransformView::unchanged(),
{
    let r = MessageTransform {
        status: None,
        reason: None,
        drop_body: false,
        remove_headers: Vec::new(),
        add_headers: Vec::new(),
    };
    assert(views(r.remove_headers@) =~= Seq::empty());
    assert(views(r.add_headers@) =~= Seq::empty());
    r
}

impl RuleActionView {
    /// Relay the event to its peer as it stands.
    pub open spec fn relay() -> RuleActionView {
        RuleActionView::RelayToPeer { transform: MessageTransformView::unchanged() }
    }

    /// Answer the event's request with a status line.
    pub open spec fn refuse(status: u16, reason: Seq<char>) -> RuleActionView {
        RuleActionView::Respond { status, reason, body: Seq::empty(), content_type: None }
    }

    /// Acknowledge a leg's answer, without a body.
    pub open spec fn ack(leg_id: Seq<char>) -> RuleActionView {
        RuleActionView::AckLeg { leg_id, body: Seq::empty(), content_type: None }
    }

    /// Record a call-detail event.
    pub open spec fn cdr(
        event_type: CdrEventType,
        leg_id: Seq<char>,
        status_code: Option<i64>,
        reason: Option<Seq<char>>,
    ) -> RuleActionView {
        RuleActionView::AddCdrEvent { event_type, leg_id, status_code, reason }
    }

    /// Bring a leg to its end.
    pub open spec fn end(leg_id: Seq<char>, bye: ByeDisposition) -> RuleActionView {
        RuleActionView::TerminateLeg { leg_id, bye_disposition: Some(bye) }
    }

    /// Tear the call down for a cause.
    pub open spec fn hang_up(reason: Seq<char>) -> RuleActionView {
        RuleActionView::BeginTermination { reason: Some(reason) }
    }

    /// Arm a timer.
    pub open spec fn arm(
        timer_type: TimerTypeView,
        delay_sec: i64,
        leg_id: Option<Seq<char>>,
    ) -> RuleActionView {
        RuleActionView::ScheduleTimer { timer_type, delay_sec, leg_id }
    }

    /// Cancel a timer.
    pub open spec fn cancel_timer(
        timer_type: TimerTypeView,
        leg_id: Option<Seq<char>>,
    ) -> RuleActionView {
        RuleActionView::CancelTimer { id: timer_key(timer_type, leg_id) }
    }
}

impl RuleAction {
    /// Relay the event to its peer as it stands.
    pub fn relay() -> (r: RuleAction)
        ensures
            r@ == RuleActionView::relay(),
    {
        RuleAction::RelayToPeer { transform: no_transform() }
    }

    /// Answer the event's request with a status line.
    pub fn refuse(status: u16, reason: &str) -> (r: RuleAction)
        ensures
            r@ == RuleActionView::refuse(status, reason@),
    {
        RuleAction::Respond {
            status,
            reason: reason.to_string(),
            body: Vec::new(),
            content_type: None,
        }
    }

    /// Acknowledge a leg's answer, without a body.
    pub fn ack(leg_id: &String) -> (r: RuleAction)
        ensures
            r@ == RuleActionView::ack(leg_id@),
    {
        RuleAction::AckLeg { leg_id: leg_id.clone(), body: Vec::new(), content_type: None }
    }

    /// Record a call-detail event.
    pub fn cdr(
        event_type: CdrEventType,
        leg_id: &String,
        status_code: Option<i64>,
        reason: Option<String>,
    ) -> (r: RuleAction)
        ensures
            r@ == RuleActionView::cdr(event_type, leg_id@, status_code, opt_view(reason)),
    {
        RuleAction::AddCdrEvent { event_type, leg_id: leg_id.clone(), status_code, reason }
    }

    /// Bring a leg to its end.
    pub fn end(leg_id: &String, bye: ByeDisposition) -> (r: RuleAction)
        ensures
            r@ == RuleActionView::end(leg_id@, bye),
    {
        RuleAction::TerminateLeg { leg_id: leg_id.clone(), bye_disposition: Some(bye) }
    }

    /// Tear the call down for a cause.
    pub fn hang_up(reason: &str) -> (r: RuleAction)
        ensures
            r@ == RuleActionView::hang_up(reason@),
    {
        RuleAction::BeginTermination { reason: Some(reason.to_string()) }
    }

    /// Arm a timer.
    pub fn arm(timer_type: TimerType, delay_sec: i64, leg_id: Option<String>) -> (r: RuleAction)
        ensures
            r@ == RuleActionView::arm(timer_type@, delay_sec, opt_view(leg_id)),
    {
        RuleAction::ScheduleTimer { timer_type, delay_sec, leg_id }
    }

    /// Cancel a timer, under the id it is armed by.
    pub fn cancel_timer(timer_type: &TimerType, leg_id: Option<String>) -> (r: RuleAction)
        ensures
            r@ == RuleActionView::cancel_timer(timer_type@, opt_view(leg_id)),
    {
        RuleAction::CancelTimer { id: timer_type.timer_id(&leg_id) }
    }
}

/// Actions after others.
pub fn then_do(first: Vec<RuleAction>, more: Vec<RuleAction>) -> (r: Vec<RuleAction>)
    ensures
        views(r@) == views(first@) + views(more@),
{
    let ghost a = first@;
    let ghost b = more@;
    let mut all = first;
    let mut rest = more;
    all.append(&mut rest);
    assert(all@ =~= a + b);
    assert(views(all@) =~= views(a) + views(b));
    all
}

// ── results ─────────────────────────────────────────────────────────────
impl RuleHandleResultView {
    pub open spec fn of(actions: Seq<RuleActionView>) -> RuleHandleResultView {
        RuleHandleResultView { actions, diagnostics: Seq::empty() }
    }

    /// The result with one more input refused.
    pub open spec fn refusing(self, field: Seq<char>, reason: Seq<char>) -> RuleHandleResultView {
        RuleHandleResultView {
            diagnostics: self.diagnostics.push(DiagnosticView { field, reason }),
            ..self
        }
    }
}

impl RuleHandleResult {
    /// Actions, and nothing refused.
    pub fn new(actions: Vec<RuleAction>) -> (r: RuleHandleResult)
        ensures
            r@ == RuleHandleResultView::of(views(actions@)),
    {
        let none: Vec<Diagnostic> = Vec::new();
        assert(views(none@) =~= Seq::<DiagnosticView>::empty());
        RuleHandleResult { actions, diagnostics: none }
    }

    /// The result with one more input refused.
    pub fn with_diagnostic(self, field: &str, reason: &str) -> (r: RuleHandleResult)
        ensures
            r@ == self@.refusing(field@, reason@),
    {
        let mut diagnostics = self.diagnostics;
        let d = Diagnostic { field: field.to_string(), reason: reason.to_string() };
        let ghost before = diagnostics@;
        diagnostics.push(d);
        assert(views(diagnostics@) =~= views(before).push(d@));
        RuleHandleResult { actions: self.actions, diagnostics }
    }
}

/// Handle the event with actions.
pub fn ok(actions: Vec<RuleAction>) -> (r: Option<RuleHandleResult>)
    ensures
        r is Some,
        r->0@ == RuleHandleResultView::of(views(actions@)),
{
    Some(RuleHandleResult::new(actions))
}

/// A text that is there.
pub open spec fn text(s: &str) -> Option<Seq<char>> {
    Some(s@)
}

/// A text that is there.
pub fn some(s: &str) -> (r: Option<String>)
    ensures
        opt_view(r) == Some(s@),
{
    Some(s.to_string())
}

/// One more action.
pub fn add_action(out: &mut Vec<RuleAction>, a: RuleAction)
    ensures
        views(final(out)@) == views(old(out)@).push(a@),
{
    let ghost before = out@;
    out.push(a);
    assert(views(out@) =~= views(before).push(a@));
}

/// No action.
pub fn nothing() -> (r: Vec<RuleAction>)
    ensures
        views(r@) == Seq::<RuleActionView>::empty(),
{
    let r: Vec<RuleAction> = Vec::new();
    assert(views(r@) =~= Seq::<RuleActionView>::empty());
    r
}

// ── matchers ────────────────────────────────────────────────────────────
impl MatchView {
    /// Every event of a kind.
    pub open spec fn of(kind: MatchKind) -> MatchView {
        MatchView {
            kind,
            methods: None,
            status: StatusMatchView::Any,
            direction: None,
            leg_state: None,
            call_state: None,
            leg_disposition: None,
            timer_types: None,
            topic: None,
            outcome: None,
            filter: None,
        }
    }

    pub open spec fn request() -> MatchView {
        MatchView::of(MatchKind::Request)
    }

    pub open spec fn response() -> MatchView {
        MatchView::of(MatchKind::Response)
    }

    pub open spec fn timer() -> MatchView {
        MatchView::of(MatchKind::Timer)
    }

    pub open spec fn timeout() -> MatchView {
        MatchView::of(MatchKind::Timeout)
    }

    pub open spec fn cancelled() -> MatchView {
        MatchView::of(MatchKind::Cancelled)
    }

    pub open spec fn internal_event() -> MatchView {
        MatchView::of(MatchKind::InternalEvent)
    }

    pub open spec fn method(self, m: MethodView) -> MatchView {
        MatchView { methods: Some(seq![m]), ..self }
    }

    pub open spec fn any_method(self, ms: Seq<MethodView>) -> MatchView {
        MatchView { methods: Some(ms), ..self }
    }

    pub open spec fn status_class(self, class: u16) -> MatchView {
        MatchView { status: StatusMatchView::Class { class }, ..self }
    }

    pub open spec fn status_code(self, code: u16) -> MatchView {
        MatchView { status: StatusMatchView::Code { code }, ..self }
    }

    pub open spec fn from(self, d: Direction) -> MatchView {
        MatchView { direction: Some(d), ..self }
    }

    pub open spec fn leg_states(self, ss: Seq<LegState>) -> MatchView {
        MatchView { leg_state: Some(ss), ..self }
    }

    pub open spec fn disposed(self, d: LegDisposition) -> MatchView {
        MatchView { leg_disposition: Some(seq![d]), ..self }
    }

    /// One more state of the call that is accepted.
    pub open spec fn in_call_state(self, s: CallModelState) -> MatchView {
        MatchView {
            call_state: match self.call_state {
                Some(ss) => Some(ss.push(s)),
                None => Some(seq![s]),
            },
            ..self
        }
    }

    pub open spec fn timer_type(self, k: TimerKind) -> MatchView {
        MatchView { timer_types: Some(seq![k]), ..self }
    }

    pub open spec fn about(self, topic: Seq<char>) -> MatchView {
        MatchView { topic: Some(topic), ..self }
    }

    pub open spec fn ending(self, outcome: Seq<char>) -> MatchView {
        MatchView { outcome: Some(outcome), ..self }
    }

    pub open spec fn when(self, g: Guard) -> MatchView {
        MatchView { filter: Some(g), ..self }
    }
}

impl Match {
    fn of(kind: MatchKind) -> (r: Match)
        ensures
            r@ == MatchView::of(kind),
    {
        Match {
            kind,
            methods: None,
            status: StatusMatch::Any,
            direction: None,
            leg_state: None,
            call_state: None,
            leg_disposition: None,
            timer_types: None,
            topic: None,
            outcome: None,
            filter: None,
        }
    }

    /// A matcher of requests.
    pub fn request() -> (r: Match)
        ensures
            r@ == MatchView::request(),
    {
        Match::of(MatchKind::Request)
    }

    /// A matcher of responses.
    pub fn response() -> (r: Match)
        ensures
            r@ == MatchView::response(),
    {
        Match::of(MatchKind::Response)
    }

    /// A matcher of timers.
    pub fn timer() -> (r: Match)
        ensures
            r@ == MatchView::timer(),
    {
        Match::of(MatchKind::Timer)
    }

    /// A matcher of transaction timeouts.
    pub fn timeout() -> (r: Match)
        ensures
            r@ == MatchView::timeout(),
    {
        Match::of(MatchKind::Timeout)
    }

    /// A matcher of CANCELs the transaction layer answered.
    pub fn cancelled() -> (r: Match)
        ensures
            r@ == MatchView::cancelled(),
    {
        Match::of(MatchKind::Cancelled)
    }

    /// A matcher of internal events.
    pub fn internal_event() -> (r: Match)
        ensures
            r@ == MatchView::internal_event(),
    {
        Match::of(MatchKind::InternalEvent)
    }

    /// Only that method.
    pub fn method(self, m: Method) -> (r: Match)
        ensures
            r@ == self@.method(m@),
    {
        let ghost mv = m@;
        let ms: Vec<Method> = vec![m];
        assert(views(ms@) =~= seq![mv]);
        Match { methods: Some(ms), ..self }
    }

    /// Only those methods.
    pub fn methods(self, ms: Vec<Method>) -> (r: Match)
        ensures
            r@ == self@.any_method(views(ms@)),
    {
        Match { methods: Some(ms), ..self }
    }

    /// Only that class of status.
    pub fn status_class(self, class: u16) -> (r: Match)
        ensures
            r@ == self@.status_class(class),
    {
        Match { status: StatusMatch::Class { class }, ..self }
    }

    /// Only that status.
    pub fn status_code(self, code: u16) -> (r: Match)
        ensures
            r@ == self@.status_code(code),
    {
        Match { status: StatusMatch::Code { code }, ..self }
    }

    /// Only from that side.
    pub fn direction(self, d: Direction) -> (r: Match)
        ensures
            r@ == self@.from(d),
    {
        Match { direction: Some(d), ..self }
    }

    /// Only on a leg in one of those states.
    pub fn leg_states(self, ss: Vec<LegState>) -> (r: Match)
        ensures
            r@ == self@.leg_states(ss@),
    {
        Match { leg_state: Some(ss), ..self }
    }

    /// Only on a leg in that relation to the call.
    pub fn leg_disposition(self, d: LegDisposition) -> (r: Match)
        ensures
            r@ == self@.disposed(d),
    {
        let ds: Vec<LegDisposition> = vec![d];
        assert(ds@ =~= seq![d]);
        Match { leg_disposition: Some(ds), ..self }
    }

    /// Also on a call in that state.
    pub fn call_state(self, s: CallModelState) -> (r: Match)
        ensures
            r@ == self@.in_call_state(s),
    {
        let mut m = self;
        let mut ss: Vec<CallModelState> = Vec::new();
        if let Some(known) = &m.call_state {
            for i in 0..known.len()
                invariant
                    ss@ == known@.take(i as int),
            {
                ss.push(known[i]);
                assert(known@.take(i + 1) =~= known@.take(i as int).push(known@[i as int]));
            }
            assert(known@.take(known@.len() as int) =~= known@);
            ss.push(s);
        } else {
            ss.push(s);
            assert(ss@ =~= seq![s]);
        }
        m.call_state = Some(ss);
        m
    }

    /// Only that kind of timer.
    pub fn timer_type(self, k: TimerKind) -> (r: Match)
        ensures
            r@ == self@.timer_type(k),
    {
        let ks: Vec<TimerKind> = vec![k];
        assert(ks@ =~= seq![k]);
        Match { timer_types: Some(ks), ..self }
    }

    /// Only that topic.
    pub fn topic(self, topic: &str) -> (r: Match)
        ensures
            r@ == self@.about(topic@),
    {
        Match { topic: Some(topic.to_string()), ..self }
    }

    /// Only that outcome.
    pub fn outcome(self, outcome: &str) -> (r: Match)
        ensures
            r@ == self@.ending(outcome@),
    {
        Match { outcome: Some(outcome.to_string()), ..self }
    }

    /// Only where the guard holds.
    pub fn filter(self, g: Guard) -> (r: Match)
        ensures
            r@ == self@.when(g),
    {
        Match { filter: Some(g), ..self }
    }
}

// ── rules ───────────────────────────────────────────────────────────────
impl RuleDefinitionView {
    /// A rule of no machine.
    pub open spec fn core_rule(
        id: Seq<char>,
        layer: u32,
        overrides: Seq<Seq<char>>,
        matcher: MatchView,
        handler: Handler,
    ) -> RuleDefinitionView {
        RuleDefinitionView {
            id,
            layer,
            overrides,
            matcher,
            handler,
            machine: None,
            active_states: Seq::empty(),
            transitions: Seq::empty(),
            effects: Seq::empty(),
            runs_while_terminating: false,
        }
    }

    pub open spec fn while_terminating(self) -> RuleDefinitionView {
        RuleDefinitionView { runs_while_terminating: true, ..self }
    }

    /// A rule of a machine, for where it stands, with the moves and side effects
    /// it declares.
    pub open spec fn of_machine(
        machine: Seq<char>,
        id: Seq<char>,
        states: Seq<Seq<char>>,
        matcher: MatchView,
        handler: Handler,
        transitions: Seq<TransitionView>,
        effects: Seq<EffectView>,
    ) -> RuleDefinitionView {
        RuleDefinitionView {
            id,
            layer: SERVICE_LAYER,
            overrides: Seq::empty(),
            matcher,
            handler,
            machine: Some(machine),
            active_states: states,
            transitions,
            effects,
            runs_while_terminating: false,
        }
    }
}

impl RuleDefinition {
    /// A rule of no machine.
    pub fn core_rule(
        id: &str,
        layer: u32,
        overrides: Vec<&str>,
        matcher: Match,
        handler: Handler,
    ) -> (r: RuleDefinition)
        ensures
            r@ == RuleDefinitionView::core_rule(id@, layer, views(overrides@), matcher@, handler),
    {
        let r = RuleDefinition {
            id: id.to_string(),
            layer,
            overrides: texts(overrides),
            matcher,
            handler,
            machine: None,
            active_states: Vec::new(),
            transitions: Vec::new(),
            effects: Vec::new(),
            runs_while_terminating: false,
        };
        assert(views(r.active_states@) =~= Seq::empty());
        assert(views(r.transitions@) =~= Seq::empty());
        assert(views(r.effects@) =~= Seq::empty());
        r
    }

    /// The rule declared for a terminating call too.
    pub fn runs_while_terminating(self) -> (r: RuleDefinition)
        ensures
            r@ == self@.while_terminating(),
    {
        RuleDefinition { runs_while_terminating: true, ..self }
    }

    /// A rule of a machine.
    pub fn of_machine(
        machine: &str,
        id: &str,
        states: Vec<&str>,
        matcher: Match,
        handler: Handler,
        transitions: Vec<Transition>,
        effects: Vec<Effect>,
    ) -> (r: RuleDefinition)
        ensures
            r@ == RuleDefinitionView::of_machine(
                machine@,
                id@,
                views(states@),
                matcher@,
                handler,
                views(transitions@),
                views(effects@),
            ),
    {
        let r = RuleDefinition {
            id: id.to_string(),
            layer: SERVICE_LAYER,
            overrides: Vec::new(),
            matcher,
            handler,
            machine: Some(machine.to_string()),
            active_states: texts(states),
            transitions,
            effects,
            runs_while_terminating: false,
        };
        assert(views(r.overrides@) =~= Seq::empty());
        r
    }
}

} // verus!
