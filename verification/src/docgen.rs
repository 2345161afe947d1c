//! Diagrams of the machines of services, drawn from nothing but what their rules
//! declare: where they are active, how they move, what they do, and what they
//! match.
use vstd::prelude::*;

use crate::call::{CallModelState, Direction, LegDisposition, LegState, TimerKind};
use crate::context::{kind_name, timer_kind_name};
use crate::executor::terminal;
use crate::model::{
    Effect, EffectView, Match, MatchKind, MatchView, RuleDefinition, RuleDefinitionView, ServiceDef,
    ServiceDefView, StatusMatch, StatusMatchView, TransitionView,
};
use crate::seqs::{any_where, keep, keep_complete, keep_sound, keep_step, opt_view, views};
use crate::sorted::{
    ascending, put_sorted, put_sorted_at, sort_texts, sorted_set, sorted_set_is_sorted,
    strict_order, text_before, texts_are_ordered,
};
use crate::text::{
    chars_of, decimal, decimal_text, join, join_text, less, same, text_less,
    text_less_irreflexive, text_less_total, text_less_transitive,
};
use crate::wire::{Method, MethodView};

verus! {

/// A labelled move of a machine. The label reads "input ⇒ output": what the rule
/// is for, then what it does.
#[derive(Debug, PartialEq, Eq)]
pub struct Edge {
    pub from: String,
    pub to: String,
    pub label: String,
}

/// The mathematical value of an [`Edge`].
pub struct EdgeView {
    pub from: Seq<char>,
    pub to: Seq<char>,
    pub label: Seq<char>,
}

impl View for Edge {
    type V = EdgeView;

    open spec fn view(&self) -> EdgeView {
        EdgeView { from: self.from@, to: self.to@, label: self.label@ }
    }
}

impl Clone for Edge {
    fn clone(&self) -> (r: Self)
        ensures
            r@ == self@,
    {
        Edge { from: self.from.clone(), to: self.to.clone(), label: self.label.clone() }
    }
}

/// The states and moves of a machine, each once, in order.
#[derive(Debug, PartialEq, Eq)]
pub struct MachineGraph {
    pub id: String,
    pub states: Vec<String>,
    pub edges: Vec<Edge>,
}

/// The mathematical value of a [`MachineGraph`].
pub struct MachineGraphView {
    pub id: Seq<char>,
    pub states: Seq<Seq<char>>,
    pub edges: Seq<EdgeView>,
}

impl View for MachineGraph {
    type V = MachineGraphView;

    open spec fn view(&self) -> MachineGraphView {
        MachineGraphView { id: self.id@, states: views(self.states@), edges: views(self.edges@) }
    }
}

// ── names ───────────────────────────────────────────────────────────────
/// The name of a method.
pub open spec fn method_text(x: MethodView) -> Seq<char> {
    match x {
        MethodView::Invite => "INVITE"@,
        MethodView::Ack => "ACK"@,
        MethodView::Bye => "BYE"@,
        MethodView::Cancel => "CANCEL"@,
        MethodView::Options => "OPTIONS"@,
        MethodView::Info => "INFO"@,
        MethodView::Prack => "PRACK"@,
        MethodView::Update => "UPDATE"@,
        MethodView::Refer => "REFER"@,
        MethodView::Message => "MESSAGE"@,
        MethodView::Subscribe => "SUBSCRIBE"@,
        MethodView::Notify => "NOTIFY"@,
        MethodView::Other { name } => name,
    }
}

fn method_name(x: &Method) -> (r: String)
    ensures
        r@ == method_text(x@),
{
    match x {
        Method::Invite => "INVITE".to_string(),
        Method::Ack => "ACK".to_string(),
        Method::Bye => "BYE".to_string(),
        Method::Cancel => "CANCEL".to_string(),
        Method::Options => "OPTIONS".to_string(),
        Method::Info => "INFO".to_string(),
        Method::Prack => "PRACK".to_string(),
        Method::Update => "UPDATE".to_string(),
        Method::Refer => "REFER".to_string(),
        Method::Message => "MESSAGE".to_string(),
        Method::Subscribe => "SUBSCRIBE".to_string(),
        Method::Notify => "NOTIFY".to_string(),
        Method::Other { name } => name.clone(),
    }
}

/// The name of a leg's state.
pub open spec fn leg_state_text(x: LegState) -> Seq<char> {
    match x {
        LegState::Trying => "Trying"@,
        LegState::Early => "Early"@,
        LegState::Confirmed => "Confirmed"@,
        LegState::Terminated => "Terminated"@,
    }
}

fn leg_state_name(x: LegState) -> (r: String)
    ensures
        r@ == leg_state_text(x),
{
    match x {
        LegState::Trying => "Trying".to_string(),
        LegState::Early => "Early".to_string(),
        LegState::Confirmed => "Confirmed".to_string(),
        LegState::Terminated => "Terminated".to_string(),
    }
}

/// The name of a call's state.
pub open spec fn call_state_text(x: CallModelState) -> Seq<char> {
    match x {
        CallModelState::Active => "Active"@,
        CallModelState::Terminating => "Terminating"@,
        CallModelState::Terminated => "Terminated"@,
    }
}

fn call_state_name(x: CallModelState) -> (r: String)
    ensures
        r@ == call_state_text(x),
{
    match x {
        CallModelState::Active => "Active".to_string(),
        CallModelState::Terminating => "Terminating".to_string(),
        CallModelState::Terminated => "Terminated".to_string(),
    }
}

/// The name of a leg's disposition.
pub open spec fn disposition_text(x: LegDisposition) -> Seq<char> {
    match x {
        LegDisposition::Pending => "Pending"@,
        LegDisposition::Bridged => "Bridged"@,
        LegDisposition::Cancelling => "Cancelling"@,
        LegDisposition::Rejected => "Rejected"@,
    }
}

fn disposition_name(x: LegDisposition) -> (r: String)
    ensures
        r@ == disposition_text(x),
{
    match x {
        LegDisposition::Pending => "Pending".to_string(),
        LegDisposition::Bridged => "Bridged".to_string(),
        LegDisposition::Cancelling => "Cancelling".to_string(),
        LegDisposition::Rejected => "Rejected".to_string(),
    }
}

/// Methods, with a slash between each two.
pub open spec fn methods_text(list: Seq<MethodView>) -> Seq<char> {
    join_text(list.map_values(|x: MethodView| method_text(x)), "/"@)
}

fn method_names(list: &Vec<Method>) -> (r: String)
    ensures
        r@ == methods_text(views(list@)),
{
    let ghost all = views(list@).map_values(|x: MethodView| method_text(x));
    let mut parts: Vec<String> = Vec::new();
    assert(views(parts@) =~= all.take(0));
    for i in 0..list.len()
        invariant
            all == views(list@).map_values(|x: MethodView| method_text(x)),
            views(parts@) == all.take(i as int),
    {
        assert(views(list@)[i as int] == list@[i as int]@);
        let s = method_name(&list[i]);
        let ghost before = views(parts@);
        parts.push(s);
        assert(views(parts@) =~= before.push(s@));
        assert(all.take(i + 1) =~= all.take(i as int).push(s@));
    }
    assert(all.take(list@.len() as int) =~= all);
    join(&parts, "/")
}

/// States of a leg, with a slash between each two.
pub open spec fn leg_states_text(list: Seq<LegState>) -> Seq<char> {
    join_text(list.map_values(|x: LegState| leg_state_text(x)), "/"@)
}

fn leg_state_names(list: &Vec<LegState>) -> (r: String)
    ensures
        r@ == leg_states_text(list@),
{
    let ghost all = list@.map_values(|x: LegState| leg_state_text(x));
    let mut parts: Vec<String> = Vec::new();
    assert(views(parts@) =~= all.take(0));
    for i in 0..list.len()
        invariant
            all == list@.map_values(|x: LegState| leg_state_text(x)),
            views(parts@) == all.take(i as int),
    {
        let s = leg_state_name(list[i]);
        let ghost before = views(parts@);
        parts.push(s);
        assert(views(parts@) =~= before.push(s@));
        assert(all.take(i + 1) =~= all.take(i as int).push(s@));
    }
    assert(all.take(list@.len() as int) =~= all);
    join(&parts, "/")
}

/// States of a call, with a slash between each two.
pub open spec fn call_states_text(list: Seq<CallModelState>) -> Seq<char> {
    join_text(list.map_values(|x: CallModelState| call_state_text(x)), "/"@)
}

fn call_state_names(list: &Vec<CallModelState>) -> (r: String)
    ensures
        r@ == call_states_text(list@),
{
    let ghost all = list@.map_values(|x: CallModelState| call_state_text(x));
    let mut parts: Vec<String> = Vec::new();
    assert(views(parts@) =~= all.take(0));
    for i in 0..list.len()
        invariant
            all == list@.map_values(|x: CallModelState| call_state_text(x)),
            views(parts@) == all.take(i as int),
    {
        let s = call_state_name(list[i]);
        let ghost before = views(parts@);
        parts.push(s);
        assert(views(parts@) =~= before.push(s@));
        assert(all.take(i + 1) =~= all.take(i as int).push(s@));
    }
    assert(all.take(list@.len() as int) =~= all);
    join(&parts, "/")
}

/// Dispositions, with a slash between each two.
pub open spec fn dispositions_text(list: Seq<LegDisposition>) -> Seq<char> {
    join_text(list.map_values(|x: LegDisposition| disposition_text(x)), "/"@)
}

fn disposition_names(list: &Vec<LegDisposition>) -> (r: String)
    ensures
        r@ == dispositions_text(list@),
{
    let ghost all = list@.map_values(|x: LegDisposition| disposition_text(x));
    let mut parts: Vec<String> = Vec::new();
    assert(views(parts@) =~= all.take(0));
    for i in 0..list.len()
        invariant
            all == list@.map_values(|x: LegDisposition| disposition_text(x)),
            views(parts@) == all.take(i as int),
    {
        let s = disposition_name(list[i]);
        let ghost before = views(parts@);
        parts.push(s);
        assert(views(parts@) =~= before.push(s@));
        assert(all.take(i + 1) =~= all.take(i as int).push(s@));
    }
    assert(all.take(list@.len() as int) =~= all);
    join(&parts, "/")
}

/// Kinds of timer, with a slash between each two.
pub open spec fn timers_text(list: Seq<TimerKind>) -> Seq<char> {
    join_text(list.map_values(|x: TimerKind| kind_name(x)), "/"@)
}

fn timer_names(list: &Vec<TimerKind>) -> (r: String)
    ensures
        r@ == timers_text(list@),
{
    let ghost all = list@.map_values(|x: TimerKind| kind_name(x));
    let mut parts: Vec<String> = Vec::new();
    assert(views(parts@) =~= all.take(0));
    for i in 0..list.len()
        invariant
            all == list@.map_values(|x: TimerKind| kind_name(x)),
            views(parts@) == all.take(i as int),
    {
        let s = timer_kind_name(list[i]);
        let ghost before = views(parts@);
        parts.push(s);
        assert(views(parts@) =~= before.push(s@));
        assert(all.take(i + 1) =~= all.take(i as int).push(s@));
    }
    assert(all.take(list@.len() as int) =~= all);
    join(&parts, "/")
}

// ── labels ──────────────────────────────────────────────────────────────
pub open spec fn side(d: Option<Direction>) -> Seq<char> {
    match d {
        Some(Direction::FromA) => " (A)"@,
        Some(Direction::FromB) => " (B)"@,
        None => ""@,
    }
}

fn side_of(d: Option<Direction>) -> (r: &'static str)
    ensures
        r@ == side(d),
{
    match d {
        Some(Direction::FromA) => " (A)",
        Some(Direction::FromB) => " (B)",
        None => "",
    }
}

/// The methods a matcher is for, or what stands for all of them.
pub open spec fn subject(m: MatchView, any: Seq<char>) -> Seq<char> {
    match m.methods {
        Some(ms) => methods_text(ms),
        None => any,
    }
}

fn subject_of(m: &Match, any: &str) -> (r: String)
    ensures
        r@ == subject(m@, any@),
{
    match &m.methods {
        Some(ms) => method_names(ms),
        None => any.to_string(),
    }
}

pub open spec fn status_text(s: StatusMatchView) -> Seq<char> {
    match s {
        StatusMatchView::Any => Seq::empty(),
        StatusMatchView::Code { code } => " "@ + decimal_text(code as nat),
        StatusMatchView::Class { class } => " "@ + decimal_text(class as nat) + "xx"@,
    }
}

fn append_status(out: &mut String, s: &StatusMatch)
    ensures
        final(out)@ == old(out)@ + status_text(s@),
{
    let ghost start = out@;
    match s {
        StatusMatch::Any => {},
        StatusMatch::Code { code } => {
            out.append(" ");
            let n = decimal(*code as u64);
            out.append(n.as_str());
        },
        StatusMatch::Class { class } => {
            out.append(" ");
            let n = decimal(*class as u64);
            out.append(n.as_str());
            out.append("xx");
        },
    }
    assert(out@ =~= start + status_text(s@));
}

/// What triggers a rule.
pub open spec fn trigger_text(m: MatchView) -> Seq<char> {
    match m.kind {
        MatchKind::Request => subject(m, "request"@) + side(m.direction),
        MatchKind::Response => subject(m, "response"@) + status_text(m.status) + side(m.direction),
        MatchKind::Timer => "timer "@ + (match m.timer_types {
            Some(ts) => timers_text(ts),
            None => Seq::empty(),
        }),
        MatchKind::Timeout => "timeout "@ + subject(m, ""@),
        MatchKind::Cancelled => "CANCEL"@,
        MatchKind::InternalEvent => match (m.topic, m.outcome) {
            (Some(t), Some(o)) => t + "/"@ + o,
            (Some(t), None) => t,
            _ => "event"@,
        },
    }
}

fn summarize_trigger(m: &Match) -> (r: String)
    ensures
        r@ == trigger_text(m@),
{
    match m.kind {
        MatchKind::Request => {
            let mut s = subject_of(m, "request");
            s.append(side_of(m.direction));
            s
        },
        MatchKind::Response => {
            let mut s = subject_of(m, "response");
            append_status(&mut s, &m.status);
            s.append(side_of(m.direction));
            s
        },
        MatchKind::Timer => {
            let mut s = "timer ".to_string();
            if let Some(ts) = &m.timer_types {
                let names = timer_names(ts);
                s.append(names.as_str());
            } else {
                assert(s@ =~= s@ + Seq::<char>::empty());
            }
            s
        },
        MatchKind::Timeout => {
            let mut s = "timeout ".to_string();
            let names = subject_of(m, "");
            s.append(names.as_str());
            s
        },
        MatchKind::Cancelled => "CANCEL".to_string(),
        MatchKind::InternalEvent => match (&m.topic, &m.outcome) {
            (Some(t), Some(o)) => {
                let mut s = t.clone();
                s.append("/");
                s.append(o.as_str());
                s
            },
            (Some(t), None) => t.clone(),
            _ => "event".to_string(),
        },
    }
}

/// One condition of a rule, in brackets; nothing where the rule has none.
pub open spec fn bracketed(what: Seq<char>, names: Option<Seq<char>>) -> Seq<char> {
    match names {
        Some(n) => " ["@ + what + n + "]"@,
        None => Seq::empty(),
    }
}

fn append_bracketed(out: &mut String, what: &str, names: &Option<String>)
    ensures
        final(out)@ == old(out)@ + bracketed(what@, opt_view(*names)),
{
    let ghost start = out@;
    if let Some(n) = names {
        out.append(" [");
        out.append(what);
        out.append(n.as_str());
        out.append("]");
    }
    assert(out@ =~= start + bracketed(what@, opt_view(*names)));
}

/// What a rule further asks of the leg and the call. Its own condition shows only
/// as a flag.
pub open spec fn conditions(m: MatchView) -> Seq<char> {
    bracketed(
        "leg "@,
        match m.leg_state {
            Some(v) => Some(leg_states_text(v)),
            None => None,
        },
    ) + bracketed(
        "call "@,
        match m.call_state {
            Some(v) => Some(call_states_text(v)),
            None => None,
        },
    ) + bracketed(
        "disp "@,
        match m.leg_disposition {
            Some(v) => Some(dispositions_text(v)),
            None => None,
        },
    ) + (if m.filter is Some {
        " [guard]"@
    } else {
        Seq::empty()
    })
}

/// The input half of a label.
pub open spec fn input_text(m: MatchView) -> Seq<char> {
    trigger_text(m) + conditions(m)
}

fn summarize_matcher(m: &Match) -> (r: String)
    ensures
        r@ == input_text(m@),
{
    let mut s = summarize_trigger(m);
    let legs = match &m.leg_state {
        Some(v) => Some(leg_state_names(v)),
        None => None,
    };
    append_bracketed(&mut s, "leg ", &legs);
    let calls = match &m.call_state {
        Some(v) => Some(call_state_names(v)),
        None => None,
    };
    append_bracketed(&mut s, "call ", &calls);
    let disps = match &m.leg_disposition {
        Some(v) => Some(disposition_names(v)),
        None => None,
    };
    append_bracketed(&mut s, "disp ", &disps);
    if m.filter.is_some() {
        s.append(" [guard]");
    }
    assert(s@ =~= input_text(m@));
    s
}

/// The label of a declared effect.
pub open spec fn effect_text(e: EffectView) -> Seq<char> {
    match e {
        EffectView::Respond { label, .. } => label,
        EffectView::Originate { label, .. } => label,
        EffectView::GuardTimer { label, .. } => label,
        EffectView::LifecycleCommand { label } => label,
    }
}

impl Effect {
    /// The label of a declared effect.
    pub fn label(&self) -> (r: &String)
        ensures
            r@ == effect_text(self@),
    {
        match self {
            Effect::Respond { label, .. } => label,
            Effect::Originate { label, .. } => label,
            Effect::GuardTimer { label, .. } => label,
            Effect::LifecycleCommand { label } => label,
        }
    }
}

/// The output half of a label.
pub open spec fn output_text(effects: Seq<EffectView>) -> Seq<char> {
    join_text(effects.map_values(|e: EffectView| effect_text(e)), " · "@)
}

fn summarize_effects(effects: &Vec<Effect>) -> (r: String)
    ensures
        r@ == output_text(views(effects@)),
{
    let ghost all = views(effects@).map_values(|e: EffectView| effect_text(e));
    let mut parts: Vec<String> = Vec::new();
    assert(views(parts@) =~= all.take(0));
    for i in 0..effects.len()
        invariant
            all == views(effects@).map_values(|e: EffectView| effect_text(e)),
            views(parts@) == all.take(i as int),
    {
        let s = effects[i].label().clone();
        assert(views(effects@)[i as int] == effects@[i as int]@);
        let ghost before = views(parts@);
        parts.push(s);
        assert(views(parts@) =~= before.push(s@));
        assert(all.take(i + 1) =~= all.take(i as int).push(s@));
    }
    assert(all.take(effects@.len() as int) =~= all);
    join(&parts, " · ")
}

pub open spec fn harmless(c: char) -> char {
    if c == '\n' || c == '\r' {
        ' '
    } else if c == ';' {
        ','
    } else {
        c
    }
}

/// A label without what would end its statement.
pub open spec fn sanitized(s: Seq<char>) -> Seq<char> {
    s.map_values(|c: char| harmless(c))
}

/// Neutralise the characters of a label that would end its statement.
pub fn sanitize_label(s: &str) -> (r: String)
    ensures
        r@ == sanitized(s@),
{
    let cs = chars_of(s);
    let mut out = String::new();
    assert(out@ =~= sanitized(s@).take(0));
    for i in 0..cs.len()
        invariant
            cs@ == s@,
            out@ == sanitized(s@).take(i as int),
    {
        let c = cs[i];
        let d = if c == '\n' || c == '\r' {
            ' '
        } else if c == ';' {
            ','
        } else {
            c
        };
        out.push(d);
        assert(sanitized(s@).take(i + 1) =~= sanitized(s@).take(i as int).push(d));
    }
    assert(sanitized(s@).take(cs@.len() as int) =~= sanitized(s@));
    out
}

/// The label of a rule's moves.
pub open spec fn label_text(r: RuleDefinitionView) -> Seq<char> {
    let output = output_text(r.effects);
    if output.len() == 0 {
        input_text(r.matcher)
    } else {
        input_text(r.matcher) + " ⇒ "@ + output
    }
}

fn edge_label(r: &RuleDefinition) -> (s: String)
    ensures
        s@ == label_text(r@),
{
    let mut input = summarize_matcher(&r.matcher);
    let output = summarize_effects(&r.effects);
    if output.as_str().unicode_len() == 0 {
        return input;
    }
    input.append(" ⇒ ");
    input.append(output.as_str());
    input
}

// ── graphs ──────────────────────────────────────────────────────────────
/// A rule that moves nowhere stays in each of its states; one that moves makes
/// each of its moves.
pub open spec fn rule_edges(r: RuleDefinitionView) -> Seq<EdgeView> {
    if r.transitions.len() == 0 {
        r.active_states.map_values(
            |s: Seq<char>| EdgeView { from: s, to: s, label: label_text(r) },
        )
    } else {
        r.transitions.map_values(
            |t: TransitionView| EdgeView { from: t.from, to: t.to, label: label_text(r) },
        )
    }
}

/// The ends of moves.
pub open spec fn ends_of(edges: Seq<EdgeView>) -> Seq<Seq<char>>
    decreases edges.len(),
{
    if edges.len() == 0 {
        Seq::empty()
    } else {
        ends_of(edges.drop_last()).push(edges.last().from).push(edges.last().to)
    }
}

pub open spec fn rule_of(machine: Seq<char>) -> spec_fn(RuleDefinitionView) -> bool {
    |r: RuleDefinitionView| r.machine == Some(machine)
}

/// The states rules are active in.
pub open spec fn states_of(rules: Seq<RuleDefinitionView>) -> Seq<Seq<char>>
    decreases rules.len(),
{
    if rules.len() == 0 {
        Seq::empty()
    } else {
        states_of(rules.drop_last()) + rules.last().active_states
    }
}

/// The moves rules declare.
pub open spec fn edges_of(rules: Seq<RuleDefinitionView>) -> Seq<EdgeView>
    decreases rules.len(),
{
    if rules.len() == 0 {
        Seq::empty()
    } else {
        edges_of(rules.drop_last()) + rule_edges(rules.last())
    }
}

pub open spec fn enters(s: Seq<char>) -> spec_fn(EdgeView) -> bool {
    |e: EdgeView| e.from != e.to && e.to == s
}

/// A state nothing moves to from another is where the machine starts.
pub open spec fn is_entry(edges: Seq<EdgeView>) -> spec_fn(Seq<char>) -> bool {
    |s: Seq<char>| s != terminal() && !any_where(edges, enters(s))
}

pub open spec fn start_edge(s: Seq<char>) -> EdgeView {
    EdgeView { from: terminal(), to: s, label: Seq::empty() }
}

/// Moves, with those into the states where the machine starts.
pub open spec fn with_starts(states: Seq<Seq<char>>, edges: Seq<EdgeView>) -> Seq<EdgeView> {
    edges + keep(states, is_entry(edges)).map_values(|s: Seq<char>| start_edge(s))
}

/// Moves stand in the order of where they start, then of where they lead, then
/// of their labels.
pub open spec fn edge_less(a: EdgeView, b: EdgeView) -> bool {
    if a.from != b.from {
        text_less(a.from, b.from)
    } else if a.to != b.to {
        text_less(a.to, b.to)
    } else {
        text_less(a.label, b.label)
    }
}

pub open spec fn edge_before() -> spec_fn(EdgeView, EdgeView) -> bool {
    |a: EdgeView, b: EdgeView| edge_less(a, b)
}

pub open spec fn not_terminal() -> spec_fn(Seq<char>) -> bool {
    |s: Seq<char>| s != terminal()
}

/// The graph of states and moves. The label of a machine's end is no state.
pub open spec fn graph_of(
    id: Seq<char>,
    states: Seq<Seq<char>>,
    edges: Seq<EdgeView>,
) -> MachineGraphView {
    MachineGraphView {
        id,
        states: keep(sorted_set(states + ends_of(edges), text_before()), not_terminal()),
        edges: sorted_set(edges, edge_before()),
    }
}

/// The graph of a service's machine.
#[verifier::opaque]
pub open spec fn machine_graph(d: ServiceDefView) -> MachineGraphView {
    let rules = keep(d.rules, rule_of(d.id));
    let states = states_of(rules) + ends_of(edges_of(rules));
    graph_of(d.id, states, with_starts(states, edges_of(rules)))
}

fn edges_less(a: &Edge, b: &Edge) -> (r: bool)
    ensures
        r == edge_less(a@, b@),
{
    if a.from != b.from {
        less(a.from.as_str(), b.from.as_str())
    } else if a.to != b.to {
        less(a.to.as_str(), b.to.as_str())
    } else {
        less(a.label.as_str(), b.label.as_str())
    }
}

fn same_edge(a: &Edge, b: &Edge) -> (r: bool)
    ensures
        r == (a@ == b@),
{
    a.from == b.from && a.to == b.to && a.label == b.label
}

fn put_edge(out: &mut Vec<Edge>, x: &Edge)
    ensures
        views(final(out)@) == put_sorted(views(old(out)@), x@, edge_before()),
{
    let ghost s = views(out@);
    let ghost f = edge_before();
    let mut k: usize = out.len();
    while k > 0 && !same_edge(&out[k - 1], x) && !edges_less(&out[k - 1], x)
        invariant
            0 <= k <= out@.len(),
            s == views(out@),
            f == edge_before(),
            forall|j: int| k <= j < s.len() ==> #[trigger] s[j] != x@ && !f(s[j], x@),
        decreases k,
    {
        assert(s[k - 1] == out@[k - 1]@);
        k -= 1;
    }
    proof {
        if k > 0 {
            assert(s[k - 1] == out@[k - 1]@);
        }
        put_sorted_at(s, x@, f, k as int);
    }
    if k > 0 && same_edge(&out[k - 1], x) {
        return;
    }
    out.insert(k, x.clone());
    assert(views(out@) =~= s.take(k as int).push(x@) + s.skip(k as int));
}

fn sort_edges(list: &Vec<Edge>) -> (r: Vec<Edge>)
    ensures
        views(r@) == sorted_set(views(list@), edge_before()),
{
    let ghost all = views(list@);
    let mut out: Vec<Edge> = Vec::new();
    assert(all.take(0).len() == 0);
    assert(views(out@) =~= sorted_set(all.take(0), edge_before()));
    for i in 0..list.len()
        invariant
            all == views(list@),
            views(out@) == sorted_set(all.take(i as int), edge_before()),
    {
        assert(all.take(i + 1).drop_last() =~= all.take(i as int));
        assert(all.take(i + 1).last() == list@[i as int]@);
        put_edge(&mut out, &list[i]);
    }
    assert(all.take(list@.len() as int) =~= all);
    out
}

fn push_text(out: &mut Vec<String>, s: &String)
    ensures
        views(final(out)@) == views(old(out)@).push(s@),
{
    let ghost before = out@;
    out.push(s.clone());
    assert(views(out@) =~= views(before).push(s@));
}

fn push_edge(out: &mut Vec<Edge>, e: Edge)
    ensures
        views(final(out)@) == views(old(out)@).push(e@),
{
    let ghost before = out@;
    out.push(e);
    assert(views(out@) =~= views(before).push(e@));
}

fn push_ends(out: &mut Vec<String>, edges: &Vec<Edge>)
    ensures
        views(final(out)@) == views(old(out)@) + ends_of(views(edges@)),
{
    let ghost start = views(out@);
    let ghost all = views(edges@);
    assert(all.take(0).len() == 0);
    assert(start =~= start + ends_of(all.take(0)));
    for i in 0..edges.len()
        invariant
            all == views(edges@),
            views(out@) == start + ends_of(all.take(i as int)),
    {
        assert(all.take(i + 1).drop_last() =~= all.take(i as int));
        assert(all.take(i + 1).last() == edges@[i as int]@);
        push_text(out, &edges[i].from);
        push_text(out, &edges[i].to);
        assert(views(out@) =~= start + ends_of(all.take(i + 1)));
    }
    assert(all.take(edges@.len() as int) =~= all);
}

fn push_rule_edges(out: &mut Vec<Edge>, r: &RuleDefinition)
    ensures
        views(final(out)@) == views(old(out)@) + rule_edges(r@),
{
    let ghost start = views(out@);
    let ghost all = rule_edges(r@);
    let label = edge_label(r);
    assert(start =~= start + all.take(0));
    if r.transitions.len() == 0 {
        for i in 0..r.active_states.len()
            invariant
                all == rule_edges(r@),
                r@.transitions.len() == 0,
                label@ == label_text(r@),
                views(out@) == start + all.take(i as int),
        {
            assert(r@.active_states[i as int] == r.active_states@[i as int]@);
            let e = Edge {
                from: r.active_states[i].clone(),
                to: r.active_states[i].clone(),
                label: label.clone(),
            };
            assert(all[i as int] == e@);
            assert(start + all.take(i + 1) =~= (start + all.take(i as int)).push(e@));
            push_edge(out, e);
        }
        assert(all.take(r.active_states@.len() as int) =~= all);
    } else {
        for i in 0..r.transitions.len()
            invariant
                all == rule_edges(r@),
                r@.transitions.len() > 0,
                label@ == label_text(r@),
                views(out@) == start + all.take(i as int),
        {
            assert(r@.transitions[i as int] == r.transitions@[i as int]@);
            let e = Edge {
                from: r.transitions[i].from.clone(),
                to: r.transitions[i].to.clone(),
                label: label.clone(),
            };
            assert(all[i as int] == e@);
            assert(start + all.take(i + 1) =~= (start + all.take(i as int)).push(e@));
            push_edge(out, e);
        }
        assert(all.take(r.transitions@.len() as int) =~= all);
    }
}

fn is_entered(edges: &Vec<Edge>, s: &String) -> (r: bool)
    ensures
        r == any_where(views(edges@), enters(s@)),
{
    let ghost p = enters(s@);
    for i in 0..edges.len()
        invariant
            p == enters(s@),
            forall|j: int| 0 <= j < i ==> !p(#[trigger] views(edges@)[j]),
    {
        assert(views(edges@)[i as int] == edges@[i as int]@);
        if edges[i].from != edges[i].to && edges[i].to == *s {
            assert(p(views(edges@)[i as int]));
            return true;
        }
    }
    false
}

fn is_end(s: &String) -> (r: bool)
    ensures
        r == (s@ == terminal()),
{
    same(s.as_str(), "[*]")
}

fn with_start_edges(states: &Vec<String>, edges: Vec<Edge>) -> (r: Vec<Edge>)
    ensures
        views(r@) == with_starts(views(states@), views(edges@)),
{
    let ghost given = views(edges@);
    let ghost all = views(states@);
    let ghost p = is_entry(given);
    let ghost f = |s: Seq<char>| start_edge(s);
    let mut starts: Vec<Edge> = Vec::new();
    assert(all.take(0).len() == 0);
    assert(views(starts@) =~= keep(all.take(0), p).map_values(f));
    for i in 0..states.len()
        invariant
            given == views(edges@),
            all == views(states@),
            p == is_entry(given),
            f == (|s: Seq<char>| start_edge(s)),
            views(starts@) == keep(all.take(i as int), p).map_values(f),
    {
        proof {
            keep_step(all, p, i as int);
        }
        assert(all[i as int] == states@[i as int]@);
        if !is_end(&states[i]) && !is_entered(&edges, &states[i]) {
            let none = String::new();
            assert(none@ =~= Seq::<char>::empty());
            let e = Edge { from: "[*]".to_string(), to: states[i].clone(), label: none };
            assert(keep(all.take(i as int), p).push(all[i as int]).map_values(f) =~= keep(
                all.take(i as int),
                p,
            ).map_values(f).push(e@));
            push_edge(&mut starts, e);
        }
    }
    assert(all.take(states@.len() as int) =~= all);
    let mut out = edges;
    let ghost a = out@;
    let ghost b = starts@;
    out.append(&mut starts);
    assert(out@ =~= a + b);
    assert(views(out@) =~= views(a) + views(b));
    out
}

fn graph_from(id: &String, states: Vec<String>, edges: &Vec<Edge>) -> (r: MachineGraph)
    ensures
        r@ == graph_of(id@, views(states@), views(edges@)),
{
    let mut all = states;
    push_ends(&mut all, edges);
    let sorted = sort_texts(&all);
    let ghost s = views(sorted@);
    let ghost p = not_terminal();
    let mut kept: Vec<String> = Vec::new();
    assert(s.take(0).len() == 0);
    assert(views(kept@) =~= keep(s.take(0), p));
    for i in 0..sorted.len()
        invariant
            s == views(sorted@),
            p == not_terminal(),
            views(kept@) == keep(s.take(i as int), p),
    {
        proof {
            keep_step(s, p, i as int);
        }
        assert(s[i as int] == sorted@[i as int]@);
        if !is_end(&sorted[i]) {
            push_text(&mut kept, &sorted[i]);
        }
    }
    assert(s.take(sorted@.len() as int) =~= s);
    MachineGraph { id: id.clone(), states: kept, edges: sort_edges(edges) }
}

fn is_of_machine(r: &RuleDefinition, id: &String) -> (b: bool)
    ensures
        b == rule_of(id@)(r@),
{
    match &r.machine {
        Some(m) => *m == *id,
        None => false,
    }
}

/// Draw the graph of a service's machine from its rules.
pub fn service_graph(def: &ServiceDef) -> (r: MachineGraph)
    ensures
        r@ == machine_graph(def@),
{
    proof {
        reveal(machine_graph);
    }
    let ghost all = views(def.rules@);
    let ghost p = rule_of(def.id@);
    let mut states: Vec<String> = Vec::new();
    let mut edges: Vec<Edge> = Vec::new();
    assert(all.take(0).len() == 0);
    assert(views(states@) =~= states_of(keep(all.take(0), p)));
    assert(views(edges@) =~= edges_of(keep(all.take(0), p)));
    for i in 0..def.rules.len()
        invariant
            all == views(def.rules@),
            p == rule_of(def.id@),
            views(states@) == states_of(keep(all.take(i as int), p)),
            views(edges@) == edges_of(keep(all.take(i as int), p)),
    {
        let r = &def.rules[i];
        proof {
            keep_step(all, p, i as int);
        }
        assert(all[i as int] == r@);
        if is_of_machine(r, &def.id) {
            let ghost before = keep(all.take(i as int), p);
            assert(before.push(r@).drop_last() =~= before);
            append_states(&mut states, &r.active_states);
            push_rule_edges(&mut edges, r);
        }
    }
    assert(all.take(def.rules@.len() as int) =~= all);
    push_ends(&mut states, &edges);
    let edges = with_start_edges(&states, edges);
    graph_from(&def.id, states, &edges)
}

fn append_states(out: &mut Vec<String>, more: &Vec<String>)
    ensures
        views(final(out)@) == views(old(out)@) + views(more@),
{
    let ghost start = views(out@);
    let ghost all = views(more@);
    assert(start =~= start + all.take(0));
    for i in 0..more.len()
        invariant
            all == views(more@),
            views(out@) == start + all.take(i as int),
    {
        assert(all[i as int] == more@[i as int]@);
        assert(start + all.take(i + 1) =~= (start + all.take(i as int)).push(all[i as int]));
        push_text(out, &more[i]);
    }
    assert(all.take(more@.len() as int) =~= all);
}

// ── documents ───────────────────────────────────────────────────────────
/// The line of a state.
pub open spec fn state_line(s: Seq<char>) -> Seq<char> {
    "    "@ + s + "\n"@
}

/// The line of a move.
pub open spec fn edge_line(e: EdgeView) -> Seq<char> {
    if e.label.len() == 0 {
        "    "@ + e.from + " --> "@ + e.to + "\n"@
    } else {
        "    "@ + e.from + " --> "@ + e.to + " : "@ + sanitized(e.label) + "\n"@
    }
}

pub open spec fn state_lines(states: Seq<Seq<char>>) -> Seq<char>
    decreases states.len(),
{
    if states.len() == 0 {
        Seq::empty()
    } else {
        state_lines(states.drop_last()) + state_line(states.last())
    }
}

pub open spec fn edge_lines(edges: Seq<EdgeView>) -> Seq<char>
    decreases edges.len(),
{
    if edges.len() == 0 {
        Seq::empty()
    } else {
        edge_lines(edges.drop_last()) + edge_line(edges.last())
    }
}

/// The source of a diagram.
pub open spec fn diagram(g: MachineGraphView) -> Seq<char> {
    "stateDiagram-v2\n"@ + state_lines(g.states) + edge_lines(g.edges)
}

fn append_edge_line(out: &mut String, e: &Edge)
    ensures
        final(out)@ == old(out)@ + edge_line(e@),
{
    let ghost start = out@;
    out.append("    ");
    out.append(e.from.as_str());
    out.append(" --> ");
    out.append(e.to.as_str());
    if e.label.as_str().unicode_len() > 0 {
        out.append(" : ");
        let label = sanitize_label(e.label.as_str());
        out.append(label.as_str());
    }
    out.append("\n");
    assert(out@ =~= start + edge_line(e@));
}

fn diagram_body(g: &MachineGraph) -> (r: String)
    ensures
        r@ == diagram(g@),
{
    let mut out = "stateDiagram-v2\n".to_string();
    let ghost start = out@;
    let ghost states = g@.states;
    assert(states.take(0).len() == 0);
    assert(start =~= start + state_lines(states.take(0)));
    for i in 0..g.states.len()
        invariant
            states == g@.states,
            out@ == start + state_lines(states.take(i as int)),
    {
        assert(states.take(i + 1).drop_last() =~= states.take(i as int));
        assert(states.take(i + 1).last() == g.states@[i as int]@);
        out.append("    ");
        out.append(g.states[i].as_str());
        out.append("\n");
        assert(out@ =~= start + state_lines(states.take(i + 1)));
    }
    assert(states.take(g.states@.len() as int) =~= states);
    let ghost middle = out@;
    let ghost edges = g@.edges;
    assert(edges.take(0).len() == 0);
    assert(middle =~= middle + edge_lines(edges.take(0)));
    for i in 0..g.edges.len()
        invariant
            edges == g@.edges,
            out@ == middle + edge_lines(edges.take(i as int)),
    {
        assert(edges.take(i + 1).drop_last() =~= edges.take(i as int));
        assert(edges.take(i + 1).last() == g.edges@[i as int]@);
        append_edge_line(&mut out, &g.edges[i]);
        assert(out@ =~= middle + edge_lines(edges.take(i + 1)));
    }
    assert(edges.take(g.edges@.len() as int) =~= edges);
    out
}

/// What follows the machine's name in its document, up to the diagram.
pub const MARKDOWN_INTRO: &'static str = "`\n\n<!-- GENERATED by `cargo run -p xtask -- state-machine-docs` from the composed\n     service registry (ADR-0016). Do not edit by hand; regenerate instead. -->\n\n```mermaid\n";

/// The document of a machine.
pub open spec fn document(g: MachineGraphView) -> Seq<char> {
    "# State machine: `"@ + g.id + MARKDOWN_INTRO@ + diagram(g) + "```\n"@
}

/// Render the document of a machine.
pub fn render_mermaid(g: &MachineGraph) -> (r: String)
    ensures
        r@ == document(g@),
{
    let mut out = "# State machine: `".to_string();
    out.append(g.id.as_str());
    out.append(MARKDOWN_INTRO);
    let body = diagram_body(g);
    out.append(body.as_str());
    out.append("```\n");
    out
}

/// The document of a service's machine, with the machine's name.
pub open spec fn service_document(d: ServiceDefView) -> (Seq<char>, Seq<char>) {
    (d.id, document(machine_graph(d)))
}

/// Render the documents of the machines of services, in their order.
pub fn render_registry(services: &[ServiceDef]) -> (r: Vec<(String, String)>)
    ensures
        views(r@) == views(services@).map_values(|d: ServiceDefView| service_document(d)),
{
    let ghost f = |d: ServiceDefView| service_document(d);
    let ghost all = views(services@).map_values(f);
    let mut out: Vec<(String, String)> = Vec::new();
    assert(views(out@) =~= all.take(0));
    for i in 0..services.len()
        invariant
            f == (|d: ServiceDefView| service_document(d)),
            all == views(services@).map_values(f),
            views(out@) == all.take(i as int),
    {
        assert(views(services@)[i as int] == services@[i as int]@);
        let g = service_graph(&services[i]);
        proof {
            reveal(machine_graph);
        }
        let pair = (g.id.clone(), render_mermaid(&g));
        let ghost before = out@;
        out.push(pair);
        assert(views(out@) =~= views(before).push(pair@));
        assert(all.take(i + 1) =~= all.take(i as int).push(pair@));
    }
    assert(all.take(services@.len() as int) =~= all);
    out
}

/// The page up to its diagrams.
pub const PAGE_HEAD: &'static str = "<!DOCTYPE html>\n\
<html lang=\"en\">\n\
<head>\n\
<meta charset=\"utf-8\">\n\
<title>Callflow state machines (ADR-0016)</title>\n\
<!-- GENERATED by `cargo run -p xtask -- state-machine-docs`. Do not edit by hand. -->\n\
<style>\n\
body{font-family:system-ui,sans-serif;max-width:1200px;margin:2rem auto;padding:0 1rem;color:#222}\n\
h1{margin-bottom:.25rem}\n\
section{margin:2.5rem 0}\n\
h2{border-bottom:1px solid #ddd;padding-bottom:.3rem}\n\
.mermaid{overflow-x:auto;border:1px solid #eee;padding:.5rem}\n\
.mermaid svg{height:auto}\n\
p.sub{color:#666;margin-top:0}\n\
</style>\n\
</head>\n\
<body>\n\
<h1>Callflow state machines</h1>\n\
<p class=\"sub\">ADR-0016 \u{2014} generated from the composed service registry. Edge labels read <em>input message [guards] \u{21d2} output side effects</em>; <code>[*]</code> is machine activation / deactivation.</p>\n";

/// The page after its diagrams.
pub const PAGE_TAIL: &'static str = "<script type=\"module\">\n\
import mermaid from 'https://cdn.jsdelivr.net/npm/mermaid@10/dist/mermaid.esm.min.mjs';\n\
// useMaxWidth:false renders each diagram at its natural size (the wide\n\
// transfer machine then scrolls in its box instead of being shrunk to fit).\n\
mermaid.initialize({ startOnLoad: true, theme: 'neutral', state: { useMaxWidth: false } });\n\
</script>\n\
</body>\n\
</html>\n";

/// What opens a diagram on the page.
pub const DIAGRAM_MARK: &'static str = "<pre class=\"mermaid\">";

/// The section of a machine on the page.
pub open spec fn section(g: MachineGraphView) -> Seq<char> {
    "  <section>\n    <h2><code>"@ + g.id + "</code></h2>\n    "@ + DIAGRAM_MARK@ + "\n"@ + diagram(g)
        + "    </pre>\n  </section>\n"@
}

pub open spec fn sections(ds: Seq<ServiceDefView>) -> Seq<char>
    decreases ds.len(),
{
    if ds.len() == 0 {
        Seq::empty()
    } else {
        sections(ds.drop_last()) + section(machine_graph(ds.last()))
    }
}

/// The page of the machines of services, in their order.
pub open spec fn page(ds: Seq<ServiceDefView>) -> Seq<char> {
    PAGE_HEAD@ + sections(ds) + PAGE_TAIL@
}

/// Render a page that draws the machines of services.
pub fn render_registry_html(services: &[ServiceDef]) -> (r: String)
    ensures
        r@ == page(views(services@)),
{
    let ghost all = views(services@);
    let mut out = PAGE_HEAD.to_string();
    let ghost start = out@;
    assert(all.take(0).len() == 0);
    assert(start =~= start + sections(all.take(0)));
    for i in 0..services.len()
        invariant
            all == views(services@),
            out@ == start + sections(all.take(i as int)),
    {
        assert(all.take(i + 1).drop_last() =~= all.take(i as int));
        assert(all.take(i + 1).last() == services@[i as int]@);
        let g = service_graph(&services[i]);
        out.append("  <section>\n    <h2><code>");
        out.append(g.id.as_str());
        out.append("</code></h2>\n    ");
        out.append(DIAGRAM_MARK);
        out.append("\n");
        let body = diagram_body(&g);
        out.append(body.as_str());
        out.append("    </pre>\n  </section>\n");
        assert(out@ =~= start + sections(all.take(i + 1)));
    }
    assert(all.take(services@.len() as int) =~= all);
    out.append(PAGE_TAIL);
    out
}

// ── validation ──────────────────────────────────────────────────────────
/// What is wrong with a rule that a service contributes: it has to belong to the
/// service's own machine.
pub open spec fn violation(service: Seq<char>, r: RuleDefinitionView) -> Option<Seq<char>> {
    match r.machine {
        Some(m) => if m == service {
            None
        } else {
            Some(
                "service '"@ + service + "' contributes rule '"@ + r.id
                    + "' bound to a foreign machine '"@ + m + "'"@,
            )
        },
        None => Some(
            "service '"@ + service + "' contributes machine-less rule '"@ + r.id
                + "' (use a core rule instead)"@,
        ),
    }
}

pub open spec fn rule_violations(
    service: Seq<char>,
    rules: Seq<RuleDefinitionView>,
) -> Seq<Seq<char>>
    decreases rules.len(),
{
    if rules.len() == 0 {
        Seq::empty()
    } else {
        let before = rule_violations(service, rules.drop_last());
        match violation(service, rules.last()) {
            Some(v) => before.push(v),
            None => before,
        }
    }
}

/// What is wrong with the rules of services, in order.
pub open spec fn violations(ds: Seq<ServiceDefView>) -> Seq<Seq<char>>
    decreases ds.len(),
{
    if ds.len() == 0 {
        Seq::empty()
    } else {
        violations(ds.drop_last()) + rule_violations(ds.last().id, ds.last().rules)
    }
}

fn find_violation(service: &String, r: &RuleDefinition) -> (v: Option<String>)
    ensures
        opt_view(v) == violation(service@, r@),
{
    let mut s = "service '".to_string();
    s.append(service.as_str());
    match &r.machine {
        Some(m) => {
            if *m == *service {
                return None;
            }
            s.append("' contributes rule '");
            s.append(r.id.as_str());
            s.append("' bound to a foreign machine '");
            s.append(m.as_str());
            s.append("'");
            Some(s)
        },
        None => {
            s.append("' contributes machine-less rule '");
            s.append(r.id.as_str());
            s.append("' (use a core rule instead)");
            Some(s)
        },
    }
}

fn push_violations(out: &mut Vec<String>, d: &ServiceDef)
    ensures
        views(final(out)@) == views(old(out)@) + rule_violations(d@.id, d@.rules),
{
    let ghost start = views(out@);
    let ghost all = views(d.rules@);
    assert(all.take(0).len() == 0);
    assert(start =~= start + rule_violations(d@.id, all.take(0)));
    for i in 0..d.rules.len()
        invariant
            all == views(d.rules@),
            views(out@) == start + rule_violations(d@.id, all.take(i as int)),
    {
        assert(all.take(i + 1).drop_last() =~= all.take(i as int));
        assert(all.take(i + 1).last() == d.rules@[i as int]@);
        if let Some(v) = find_violation(&d.id, &d.rules[i]) {
            push_text(out, &v);
        }
        assert(views(out@) =~= start + rule_violations(d@.id, all.take(i + 1)));
    }
    assert(all.take(d.rules@.len() as int) =~= all);
}

/// List what is wrong with the rules of services; nothing where every one belongs
/// to its service's own machine.
pub fn check_registry(services: &[ServiceDef]) -> (r: Vec<String>)
    ensures
        views(r@) == violations(views(services@)),
{
    let ghost all = views(services@);
    let mut out: Vec<String> = Vec::new();
    assert(all.take(0).len() == 0);
    assert(views(out@) =~= violations(all.take(0)));
    for i in 0..services.len()
        invariant
            all == views(services@),
            views(out@) == violations(all.take(i as int)),
    {
        assert(all.take(i + 1).drop_last() =~= all.take(i as int));
        assert(all.take(i + 1).last() == services@[i as int]@);
        push_violations(&mut out, &services[i]);
    }
    assert(all.take(services@.len() as int) =~= all);
    out
}

// ── laws ────────────────────────────────────────────────────────────────
/// A label ends no statement, whatever it says: no line break and no semicolon is
/// left in it. It keeps its length, and a clean label stays as it is.
pub proof fn labels_end_no_statement(s: Seq<char>)
    ensures
        sanitized(s).len() == s.len(),
        forall|i: int|
            0 <= i < s.len() ==> (#[trigger] sanitized(s)[i]) != '\n' && sanitized(s)[i] != '\r'
                && sanitized(s)[i] != ';',
        sanitized(sanitized(s)) == sanitized(s),
{
    assert(sanitized(sanitized(s)) =~= sanitized(s));
}

/// Moves stand in a strict order.
pub proof fn edges_are_ordered()
    ensures
        strict_order(edge_before()),
{
    let f = edge_before();
    assert forall|a: EdgeView| !(#[trigger] f(a, a)) by {
        text_less_irreflexive(a.label);
    }
    assert forall|a: EdgeView, b: EdgeView, c: EdgeView|
        #[trigger] f(a, b) && #[trigger] f(b, c) implies f(a, c) by {
        edge_less_transitive(a, b, c);
    }
    assert forall|a: EdgeView, b: EdgeView| #[trigger] f(a, b) || f(b, a) || a == b by {
        text_less_total(a.from, b.from);
        text_less_total(a.to, b.to);
        text_less_total(a.label, b.label);
    }
}

proof fn edge_less_transitive(a: EdgeView, b: EdgeView, c: EdgeView)
    requires
        edge_less(a, b),
        edge_less(b, c),
    ensures
        edge_less(a, c),
{
    if a.from != b.from && b.from != c.from {
        text_less_transitive(a.from, b.from, c.from);
        if a.from == c.from {
            text_less_irreflexive(a.from);
        }
    } else if a.from == b.from && b.from == c.from {
        if a.to != b.to && b.to != c.to {
            text_less_transitive(a.to, b.to, c.to);
            if a.to == c.to {
                text_less_irreflexive(a.to);
            }
        } else if a.to == b.to && b.to == c.to {
            text_less_transitive(a.label, b.label, c.label);
        }
    }
}

proof fn ends_are_there(edges: Seq<EdgeView>, i: int)
    requires
        0 <= i < edges.len(),
    ensures
        ends_of(edges).contains(edges[i].from),
        ends_of(edges).contains(edges[i].to),
    decreases edges.len(),
{
    let rest = ends_of(edges.drop_last());
    let all = ends_of(edges);
    if i == edges.len() - 1 {
        assert(all[rest.len() as int] == edges[i].from);
        assert(all[rest.len() as int + 1] == edges[i].to);
    } else {
        ends_are_there(edges.drop_last(), i);
        let j = choose|j: int| 0 <= j < rest.len() && rest[j] == edges[i].from;
        assert(all[j] == edges[i].from);
        let k = choose|k: int| 0 <= k < rest.len() && rest[k] == edges[i].to;
        assert(all[k] == edges[i].to);
    }
}

proof fn keep_ascends(s: Seq<Seq<char>>, p: spec_fn(Seq<char>) -> bool)
    requires
        ascending(s, text_before()),
    ensures
        ascending(keep(s, p), text_before()),
    decreases s.len(),
{
    if s.len() > 0 {
        let t = s.drop_last();
        let f = text_before();
        assert forall|i: int, j: int| 0 <= i < j < t.len() implies f(
            #[trigger] t[i],
            #[trigger] t[j],
        ) by {
            assert(f(s[i], s[j]));
        }
        keep_ascends(t, p);
        keep_sound(t, p);
        let r = keep(s, p);
        assert forall|i: int, j: int| 0 <= i < j < r.len() implies f(
            #[trigger] r[i],
            #[trigger] r[j],
        ) by {
            let u = keep(t, p);
            if j < u.len() {
                assert(f(u[i], u[j]));
            } else {
                assert(t.contains(u[i]));
                let k = choose|k: int| 0 <= k < t.len() && t[k] == u[i];
                assert(f(s[k], s[s.len() - 1]));
            }
        }
    }
}

/// A graph lists its states and its moves once each, in order, whatever the order
/// of the rules. The label of the machine's end is none of its states, and every
/// move starts and leads somewhere: to a state of the graph, or to the end.
pub proof fn graphs_are_closed_and_ordered(d: ServiceDefView, i: int)
    ensures
        ({
            let g = machine_graph(d);
            &&& g.id == d.id
            &&& ascending(g.states, text_before())
            &&& ascending(g.edges, edge_before())
            &&& !g.states.contains(terminal())
            &&& 0 <= i < g.edges.len() ==> {
                &&& g.edges[i].from == terminal() || g.states.contains(g.edges[i].from)
                &&& g.edges[i].to == terminal() || g.states.contains(g.edges[i].to)
            }
        }),
{
    reveal(machine_graph);
    let rules = keep(d.rules, rule_of(d.id));
    let states = states_of(rules) + ends_of(edges_of(rules));
    let edges = with_starts(states, edges_of(rules));
    let names = states + ends_of(edges);
    let g = machine_graph(d);
    texts_are_ordered();
    edges_are_ordered();
    sorted_set_is_sorted(names, text_before());
    sorted_set_is_sorted(edges, edge_before());
    let listed = sorted_set(names, text_before());
    keep_ascends(listed, not_terminal());
    keep_sound(listed, not_terminal());
    if 0 <= i < g.edges.len() {
        assert(g.edges.contains(g.edges[i]));
        let k = choose|k: int| 0 <= k < edges.len() && edges[k] == g.edges[i];
        ends_are_there(edges, k);
        a_name_is_listed(states, ends_of(edges), g.edges[i].from);
        a_name_is_listed(states, ends_of(edges), g.edges[i].to);
    }
}

proof fn a_name_is_listed(a: Seq<Seq<char>>, b: Seq<Seq<char>>, x: Seq<char>)
    requires
        b.contains(x),
    ensures
        x != terminal() ==> keep(sorted_set(a + b, text_before()), not_terminal()).contains(x),
{
    let names = a + b;
    let j = choose|j: int| 0 <= j < b.len() && b[j] == x;
    assert(names[a.len() + j] == x);
    texts_are_ordered();
    sorted_set_is_sorted(names, text_before());
    let listed = sorted_set(names, text_before());
    assert(listed.contains(x));
    let k = choose|k: int| 0 <= k < listed.len() && listed[k] == x;
    if x != terminal() {
        keep_complete(listed, not_terminal(), k);
    }
}

/// Every rule belongs to the machine of the service that contributes it.
pub open spec fn well_formed(ds: Seq<ServiceDefView>) -> bool {
    forall|i: int, j: int|
        0 <= i < ds.len() && 0 <= j < ds[i].rules.len() ==> (#[trigger] ds[i].rules[j]).machine
            == Some(ds[i].id)
}

proof fn clean_rules(service: Seq<char>, rules: Seq<RuleDefinitionView>)
    ensures
        rule_violations(service, rules).len() == 0 <==> forall|j: int|
            0 <= j < rules.len() ==> (#[trigger] rules[j]).machine == Some(service),
    decreases rules.len(),
{
    if rules.len() > 0 {
        let t = rules.drop_last();
        clean_rules(service, t);
        if forall|j: int| 0 <= j < rules.len() ==> (#[trigger] rules[j]).machine == Some(service) {
            assert forall|j: int| 0 <= j < t.len() implies (#[trigger] t[j]).machine == Some(
                service,
            ) by {
                assert(rules[j].machine == Some(service));
            }
            assert(rules[rules.len() - 1].machine == Some(service));
        }
        if rule_violations(service, rules).len() == 0 {
            assert forall|j: int| 0 <= j < rules.len() implies (#[trigger] rules[j]).machine == Some(
                service,
            ) by {
                if j < t.len() {
                    assert(t[j].machine == Some(service));
                }
            }
        }
    }
}

/// A registry is without fault if and only if every rule belongs to the machine
/// of the service that contributes it.
pub proof fn a_clean_registry_is_well_formed(ds: Seq<ServiceDefView>)
    ensures
        violations(ds).len() == 0 <==> well_formed(ds),
    decreases ds.len(),
{
    if ds.len() > 0 {
        let t = ds.drop_last();
        a_clean_registry_is_well_formed(t);
        clean_rules(ds.last().id, ds.last().rules);
        let n = ds.len() - 1;
        if well_formed(ds) {
            assert(well_formed(t)) by {
                assert forall|i: int, j: int|
                    0 <= i < t.len() && 0 <= j < t[i].rules.len() implies (
                #[trigger] t[i].rules[j]).machine == Some(t[i].id) by {
                    assert(ds[i].rules[j].machine == Some(ds[i].id));
                }
            }
            assert forall|j: int| 0 <= j < ds.last().rules.len() implies (
            #[trigger] ds.last().rules[j]).machine == Some(ds.last().id) by {
                assert(ds[n].rules[j].machine == Some(ds[n].id));
            }
        }
        if violations(ds).len() == 0 {
            assert forall|i: int, j: int|
                0 <= i < ds.len() && 0 <= j < ds[i].rules.len() implies (
            #[trigger] ds[i].rules[j]).machine == Some(ds[i].id) by {
                if i < n {
                    assert(t[i].rules[j].machine == Some(t[i].id));
                } else {
                    assert(ds.last().rules[j].machine == Some(ds.last().id));
                }
            }
        }
    }
}

} // verus!
