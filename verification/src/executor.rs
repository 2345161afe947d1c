//! Selecting the rule that handles an event, and running it.
//!
//! Of the rules that apply, those that another one overrides are out. The rest
//! are tried by layer, the highest first, and in the order of their registration
//! within one. The first that answers handles the event.
use vstd::prelude::*;

use crate::action::{RuleAction, RuleActionView};
use crate::actions::constant::{actions_keep_the_order, same_call};
use crate::actions::dispatch::fresh_work;
use crate::actions::{ActionExecutor, ExecView, WorkView};
use crate::call::{Call, CallModelState, CallView, Cursor, CursorView};
use crate::context::columns_accept;
use crate::cursors::in_order;
use crate::effects::{HandlerEffects, HandlerEffectsView, HandlerResult, HandlerResultView};
use crate::guards::guard_holds;
use crate::handling::handled;
use crate::ids::{IdGen, IdGenView};
use crate::invariants::{enforce, enforced, finalize, finalized, finalizing_keeps_the_order};
use crate::model::{
    Diagnostic, DiagnosticView, Effect, EffectKind, EffectView, RuleContext, RuleContextView,
    RuleDefinition, RuleDefinitionView, RuleHandleResult, TransitionView,
};
use crate::seqs::{
    find_where, first_where, first_where_found, first_where_is, first_where_none, keep,
    keep_complete, keep_push, keep_sound, keep_step, opt_view, views,
};
use crate::state::cursor_of;
use crate::text::{contains_text, same};

verus! {

// ── which rules apply ───────────────────────────────────────────────────
/// A rule of a machine is for where the machine stands; a rule of none is always
/// a candidate.
pub open spec fn machine_active(r: RuleDefinitionView, c: CallView) -> bool {
    match r.machine {
        Some(m) => c.cursor(m) is Some && r.active_states.contains(c.cursor(m)->0),
        None => true,
    }
}

fn is_machine_active(r: &RuleDefinition, call: &Call) -> (b: bool)
    ensures
        b == machine_active(r@, call@),
{
    match &r.machine {
        Some(m) => match cursor_of(call, m) {
            Some(s) => contains_text(&r.active_states, s),
            None => false,
        },
        None => true,
    }
}

/// A rule applies to an event.
pub open spec fn applies(r: RuleDefinitionView, c: CallView, ctx: RuleContextView) -> bool {
    &&& columns_accept(r.matcher, ctx)
    &&& machine_active(r, c)
    &&& match r.matcher.filter {
        Some(g) => guard_holds(g, ctx),
        None => true,
    }
}

fn rule_applies(r: &RuleDefinition, call: &Call, ctx: &RuleContext) -> (b: bool)
    ensures
        b == applies(r@, call@, ctx@),
{
    if !r.matcher.accepts_columns(ctx) || !is_machine_active(r, call) {
        return false;
    }
    match r.matcher.filter {
        Some(g) => g.holds(ctx),
        None => true,
    }
}

pub open spec fn applying(
    c: CallView,
    ctx: RuleContextView,
) -> spec_fn(RuleDefinitionView) -> bool {
    |r: RuleDefinitionView| applies(r, c, ctx)
}

/// One of the rules overrides the rule of that id.
pub open spec fn displaced(rules: Seq<RuleDefinitionView>, id: Seq<char>) -> bool {
    exists|i: int| 0 <= i < rules.len() && (#[trigger] rules[i]).overrides.contains(id)
}

pub open spec fn standing(rules: Seq<RuleDefinitionView>) -> spec_fn(RuleDefinitionView) -> bool {
    |r: RuleDefinitionView| !displaced(rules, r.id)
}

/// The rules that apply and that none of them overrides.
pub open spec fn candidates(
    rules: Seq<RuleDefinitionView>,
    c: CallView,
    ctx: RuleContextView,
) -> Seq<
    RuleDefinitionView,
> {
    let all = keep(rules, applying(c, ctx));
    keep(all, standing(all))
}

// ── their rank ──────────────────────────────────────────────────────────
/// A rule placed among ranked ones: behind every one of its layer or a higher.
pub open spec fn place(s: Seq<RuleDefinitionView>, r: RuleDefinitionView) -> Seq<RuleDefinitionView>
    decreases s.len(),
{
    if s.len() == 0 || s.last().layer >= r.layer {
        s.push(r)
    } else {
        place(s.drop_last(), r).push(s.last())
    }
}

/// Rules by layer, the highest first; within a layer as they came.
pub open spec fn by_rank(s: Seq<RuleDefinitionView>) -> Seq<RuleDefinitionView>
    decreases s.len(),
{
    if s.len() == 0 {
        s
    } else {
        place(by_rank(s.drop_last()), s.last())
    }
}

/// The rules to try on an event, in order.
#[verifier::opaque]
pub open spec fn ranked(rules: Seq<RuleDefinitionView>, c: CallView, ctx: RuleContextView) -> Seq<
    RuleDefinitionView,
> {
    by_rank(candidates(rules, c, ctx))
}

proof fn place_at(s: Seq<RuleDefinitionView>, r: RuleDefinitionView, k: int)
    requires
        0 <= k <= s.len(),
        k == 0 || s[k - 1].layer >= r.layer,
        forall|j: int| k <= j < s.len() ==> (#[trigger] s[j]).layer < r.layer,
    ensures
        place(s, r) == s.take(k).push(r) + s.skip(k),
    decreases s.len(),
{
    if k == s.len() {
        assert(s.take(k).push(r) + s.skip(k) =~= s.push(r));
    } else {
        assert(s.last() == s[s.len() - 1]);
        let t = s.drop_last();
        assert forall|j: int| k <= j < t.len() implies (#[trigger] t[j]).layer < r.layer by {
            assert(s[j].layer < r.layer);
        }
        place_at(t, r, k);
        assert(t.take(k) =~= s.take(k));
        assert(t.skip(k).push(s.last()) =~= s.skip(k));
        assert(place(s, r) =~= s.take(k).push(r) + s.skip(k));
    }
}

fn insert_ranked<'a>(out: &mut Vec<&'a RuleDefinition>, r: &'a RuleDefinition)
    ensures
        views(final(out)@) == place(views(old(out)@), r@),
{
    let ghost s = views(out@);
    let mut k: usize = out.len();
    while k > 0 && out[k - 1].layer < r.layer
        invariant
            0 <= k <= out@.len(),
            s == views(out@),
            forall|j: int| k <= j < s.len() ==> (#[trigger] s[j]).layer < r@.layer,
        decreases k,
    {
        assert(s[k - 1] == out@[k - 1]@);
        k -= 1;
    }
    proof {
        if k > 0 {
            assert(s[k - 1] == out@[k - 1]@);
        }
        place_at(s, r@, k as int);
    }
    let ghost before = out@;
    out.insert(k, r);
    assert(views(out@) =~= s.take(k as int).push(r@) + s.skip(k as int));
}

fn is_displaced(rules: &Vec<&RuleDefinition>, id: &String) -> (b: bool)
    ensures
        b == displaced(views(rules@), id@),
{
    for i in 0..rules.len()
        invariant
            forall|j: int|
                0 <= j < i ==> !(#[trigger] views(rules@)[j]).overrides.contains(id@),
    {
        assert(views(rules@)[i as int] == rules@[i as int]@);
        if contains_text(&rules[i].overrides, id) {
            return true;
        }
    }
    false
}

fn those_that_apply<'a>(rules: &'a [RuleDefinition], call: &Call, ctx: &RuleContext) -> (r: Vec<
    &'a RuleDefinition,
>)
    ensures
        views(r@) == keep(views(rules@), applying(call@, ctx@)),
{
    let ghost p = applying(call@, ctx@);
    let mut out: Vec<&'a RuleDefinition> = Vec::new();
    assert(views(rules@).take(0).len() == 0);
    assert(views(out@) =~= Seq::<RuleDefinitionView>::empty());
    for i in 0..rules.len()
        invariant
            p == applying(call@, ctx@),
            views(out@) == keep(views(rules@).take(i as int), p),
    {
        proof {
            keep_step(views(rules@), p, i as int);
        }
        assert(views(rules@)[i as int] == rules@[i as int]@);
        if rule_applies(&rules[i], call, ctx) {
            let ghost before = views(out@);
            out.push(&rules[i]);
            assert(views(out@) =~= before.push(rules@[i as int]@));
        }
    }
    assert(views(rules@).take(rules@.len() as int) =~= views(rules@));
    out
}

/// The rules to try on an event, in order.
pub fn pick_ranked<'a>(rules: &'a [RuleDefinition], call: &Call, ctx: &RuleContext) -> (r: Vec<
    &'a RuleDefinition,
>)
    ensures
        views(r@) == ranked(views(rules@), call@, ctx@),
{
    proof {
        reveal(ranked);
    }
    let all = those_that_apply(rules, call, ctx);
    let ghost s = views(all@);
    let ghost p = standing(s);
    let mut out: Vec<&'a RuleDefinition> = Vec::new();
    assert(s.take(0).len() == 0);
    assert(views(out@) =~= Seq::<RuleDefinitionView>::empty());
    for i in 0..all.len()
        invariant
            s == views(all@),
            p == standing(s),
            views(out@) == by_rank(keep(s.take(i as int), p)),
    {
        proof {
            keep_step(s, p, i as int);
        }
        assert(s[i as int] == all@[i as int]@);
        if !is_displaced(&all, &all[i].id) {
            let ghost kept = keep(s.take(i as int), p);
            assert(kept.push(s[i as int]).drop_last() =~= kept);
            insert_ranked(&mut out, all[i]);
        }
    }
    assert(s.take(all@.len() as int) =~= s);
    out
}

// ── what a rule may do ──────────────────────────────────────────────────
/// The category of an action.
pub open spec fn kind_of_action(a: RuleActionView) -> EffectKind {
    if a is RelayToPeer || a is RelayToLeg || a is Respond || a is AckLeg || a is CreateLeg
        || a is DestroyLeg || a is CancelLeg || a is CancelPendingReinvite
        || a is RejectPendingReinvite || a is TerminateLeg || a is SendRequestToLeg
        || a is SendProvisionalToLeg || a is SendPrackToLeg || a is RelayFirstBare180
        || a is SendReinvite || a is SendNotify || a is RelayFailureToALeg || a is RespondToALeg
        || a is AnswerALegNewDialog || a is RetransmitALeg2xx || a is RetransmitALegReinvite2xx {
        EffectKind::LegMessage
    } else if a is Merge || a is Split || a is TerminateCall || a is BeginTermination {
        EffectKind::LifecycleCommand
    } else if a is ScheduleTimer || a is CancelTimer || a is CancelAllTimers {
        EffectKind::GuardTimer
    } else {
        EffectKind::Bookkeeping
    }
}

impl RuleAction {
    /// The category of an action.
    pub fn effect_kind(&self) -> (r: EffectKind)
        ensures
            r == kind_of_action(self@),
    {
        match self {
            RuleAction::RelayToPeer { .. }
            | RuleAction::RelayToLeg { .. }
            | RuleAction::Respond { .. }
            | RuleAction::AckLeg { .. }
            | RuleAction::CreateLeg { .. }
            | RuleAction::DestroyLeg { .. }
            | RuleAction::CancelLeg { .. }
            | RuleAction::CancelPendingReinvite { .. }
            | RuleAction::RejectPendingReinvite { .. }
            | RuleAction::TerminateLeg { .. }
            | RuleAction::SendRequestToLeg { .. }
            | RuleAction::SendProvisionalToLeg { .. }
            | RuleAction::SendPrackToLeg { .. }
            | RuleAction::RelayFirstBare180 { .. }
            | RuleAction::SendReinvite { .. }
            | RuleAction::SendNotify { .. }
            | RuleAction::RelayFailureToALeg { .. }
            | RuleAction::RespondToALeg { .. }
            | RuleAction::AnswerALegNewDialog { .. }
            | RuleAction::RetransmitALeg2xx
            | RuleAction::RetransmitALegReinvite2xx => EffectKind::LegMessage,
            RuleAction::Merge { .. }
            | RuleAction::Split { .. }
            | RuleAction::TerminateCall
            | RuleAction::BeginTermination { .. } => EffectKind::LifecycleCommand,
            RuleAction::ScheduleTimer { .. }
            | RuleAction::CancelTimer { .. }
            | RuleAction::CancelAllTimers => EffectKind::GuardTimer,
            _ => EffectKind::Bookkeeping,
        }
    }
}

/// The category of a declared effect.
pub open spec fn kind_of_effect(e: EffectView) -> EffectKind {
    match e {
        EffectView::Respond { .. } => EffectKind::LegMessage,
        EffectView::Originate { .. } => EffectKind::LegMessage,
        EffectView::GuardTimer { .. } => EffectKind::GuardTimer,
        EffectView::LifecycleCommand { .. } => EffectKind::LifecycleCommand,
    }
}

impl Effect {
    /// The category of a declared effect.
    pub fn kind(&self) -> (r: EffectKind)
        ensures
            r == kind_of_effect(self@),
    {
        match self {
            Effect::Respond { .. } => EffectKind::LegMessage,
            Effect::Originate { .. } => EffectKind::LegMessage,
            Effect::GuardTimer { .. } => EffectKind::GuardTimer,
            Effect::LifecycleCommand { .. } => EffectKind::LifecycleCommand,
        }
    }
}

/// The rule declares effects of that category.
pub open spec fn declares(r: RuleDefinitionView, k: EffectKind) -> bool {
    exists|i: int| 0 <= i < r.effects.len() && kind_of_effect(#[trigger] r.effects[i]) == k
}

fn is_declared(r: &RuleDefinition, k: EffectKind) -> (b: bool)
    ensures
        b == declares(r@, k),
{
    for i in 0..r.effects.len()
        invariant
            forall|j: int| 0 <= j < i ==> kind_of_effect(#[trigger] r@.effects[j]) != k,
    {
        assert(r@.effects[i as int] == r.effects@[i as int]@);
        if r.effects[i].kind() == k {
            return true;
        }
    }
    false
}

/// An action whose category the rule, one of a machine, had to declare and did
/// not.
pub open spec fn undeclared(r: RuleDefinitionView, a: RuleActionView) -> bool {
    r.machine is Some && kind_of_action(a) != EffectKind::Bookkeeping && !declares(
        r,
        kind_of_action(a),
    )
}

/// The categories of the actions a rule did not declare, in order.
pub open spec fn undeclared_kinds(r: RuleDefinitionView, actions: Seq<RuleActionView>) -> Seq<
    EffectKind,
>
    decreases actions.len(),
{
    if actions.len() == 0 {
        Seq::empty()
    } else {
        let before = undeclared_kinds(r, actions.drop_last());
        if undeclared(r, actions.last()) {
            before.push(kind_of_action(actions.last()))
        } else {
            before
        }
    }
}

/// The categories of the actions a rule did not declare.
pub fn check_declared_effects(r: &RuleDefinition, actions: &[RuleAction]) -> (v: Vec<EffectKind>)
    ensures
        v@ == undeclared_kinds(r@, views(actions@)),
{
    let ghost all = views(actions@);
    let mut out: Vec<EffectKind> = Vec::new();
    assert(all.take(0).len() == 0);
    assert(out@ =~= Seq::<EffectKind>::empty());
    for i in 0..actions.len()
        invariant
            all == views(actions@),
            out@ == undeclared_kinds(r@, all.take(i as int)),
    {
        assert(all.take(i + 1).drop_last() =~= all.take(i as int));
        assert(all.take(i + 1).last() == actions@[i as int]@);
        let k = actions[i].effect_kind();
        if r.machine.is_some() && k != EffectKind::Bookkeeping && !is_declared(r, k) {
            out.push(k);
        }
    }
    assert(all.take(actions@.len() as int) =~= all);
    out
}

/// The label of a machine's end.
pub open spec fn terminal() -> Seq<char> {
    "[*]"@
}

/// The rule declares that move of its machine; a machine deactivated moves to
/// its end.
pub open spec fn declares_move(
    r: RuleDefinitionView,
    from: Seq<char>,
    to: Option<Seq<char>>,
) -> bool {
    r.transitions.contains(
        TransitionView {
            from,
            to: match to {
                Some(t) => t,
                None => terminal(),
            },
        },
    )
}

/// A move the rule made on its own machine without declaring it.
pub open spec fn undeclared_move(r: RuleDefinitionView, before: CallView, after: CallView) -> bool {
    match r.machine {
        Some(m) => before.cursor(m) != after.cursor(m) && !(before.cursor(m) is Some && declares_move(
            r,
            before.cursor(m)->0,
            after.cursor(m),
        )),
        None => false,
    }
}

fn is_move_declared(r: &RuleDefinition, from: &String, to: &str) -> (b: bool)
    ensures
        b == r@.transitions.contains(TransitionView { from: from@, to: to@ }),
{
    let ghost t = TransitionView { from: from@, to: to@ };
    for i in 0..r.transitions.len()
        invariant
            t == (TransitionView { from: from@, to: to@ }),
            forall|j: int| 0 <= j < i ==> #[trigger] r@.transitions[j] != t,
    {
        assert(r@.transitions[i as int] == r.transitions@[i as int]@);
        if r.transitions[i].from == *from && same(r.transitions[i].to.as_str(), to) {
            assert(r@.transitions[i as int] == t);
            return true;
        }
    }
    false
}

/// Whether the rule moved its own machine without declaring it.
pub fn check_declared_transition(r: &RuleDefinition, before: &Call, after: &Call) -> (b: bool)
    ensures
        b == undeclared_move(r@, before@, after@),
{
    let m = match &r.machine {
        Some(m) => m,
        None => {
            return false;
        },
    };
    let from = cursor_of(before, m);
    let to = cursor_of(after, m);
    match (from, to) {
        (Some(f), Some(t)) => *f != *t && !is_move_declared(r, f, t.as_str()),
        (Some(f), None) => !is_move_declared(r, f, "[*]"),
        (None, Some(_)) => true,
        (None, None) => false,
    }
}

// ── what a turn is recorded as ──────────────────────────────────────────
/// A machine moved.
#[derive(Debug, PartialEq)]
pub struct CursorMove {
    pub machine: String,
    /// Empty where the machine was not active.
    pub from: String,
    pub to: String,
}

/// The mathematical value of a [`CursorMove`].
pub struct CursorMoveView {
    pub machine: Seq<char>,
    pub from: Seq<char>,
    pub to: Seq<char>,
}

impl View for CursorMove {
    type V = CursorMoveView;

    open spec fn view(&self) -> CursorMoveView {
        CursorMoveView { machine: self.machine@, from: self.from@, to: self.to@ }
    }
}

/// The machines that stand elsewhere than before.
pub open spec fn moved(before: CallView, cursors: Seq<CursorView>) -> Seq<CursorMoveView>
    decreases cursors.len(),
{
    if cursors.len() == 0 {
        Seq::empty()
    } else {
        let rest = moved(before, cursors.drop_last());
        let x = cursors.last();
        if before.cursor(x.machine) != Some(x.state) {
            rest.push(
                CursorMoveView {
                    machine: x.machine,
                    from: match before.cursor(x.machine) {
                        Some(s) => s,
                        None => Seq::empty(),
                    },
                    to: x.state,
                },
            )
        } else {
            rest
        }
    }
}

/// The machines that stand nowhere any more.
pub open spec fn deactivated(after: CallView, cursors: Seq<CursorView>) -> Seq<CursorMoveView>
    decreases cursors.len(),
{
    if cursors.len() == 0 {
        Seq::empty()
    } else {
        let rest = deactivated(after, cursors.drop_last());
        let x = cursors.last();
        if after.cursor(x.machine) is None {
            rest.push(CursorMoveView { machine: x.machine, from: x.state, to: "terminal"@ })
        } else {
            rest
        }
    }
}

/// How a turn moved the machines of its call.
pub open spec fn moves_between(before: CallView, after: CallView) -> Seq<CursorMoveView> {
    moved(before, after.sm_cursors) + deactivated(after, before.sm_cursors)
}

fn moved_machines(before: &Call, cursors: &Vec<Cursor>) -> (r: Vec<CursorMove>)
    ensures
        views(r@) == moved(before@, views(cursors@)),
{
    let ghost all = views(cursors@);
    let mut out: Vec<CursorMove> = Vec::new();
    assert(all.take(0).len() == 0);
    assert(views(out@) =~= Seq::<CursorMoveView>::empty());
    for i in 0..cursors.len()
        invariant
            all == views(cursors@),
            views(out@) == moved(before@, all.take(i as int)),
    {
        assert(all.take(i + 1).drop_last() =~= all.take(i as int));
        assert(all.take(i + 1).last() == cursors@[i as int]@);
        let x = &cursors[i];
        let was = cursor_of(before, &x.machine);
        let stays = match was {
            Some(s) => *s == x.state,
            None => false,
        };
        if !stays {
            let from = match was {
                Some(s) => s.clone(),
                None => {
                    let none = String::new();
                    assert(none@ =~= Seq::<char>::empty());
                    none
                },
            };
            let m = CursorMove { machine: x.machine.clone(), from, to: x.state.clone() };
            let ghost rest = views(out@);
            out.push(m);
            assert(views(out@) =~= rest.push(m@));
        }
    }
    assert(all.take(cursors@.len() as int) =~= all);
    out
}

fn deactivated_machines(after: &Call, cursors: &Vec<Cursor>) -> (r: Vec<CursorMove>)
    ensures
        views(r@) == deactivated(after@, views(cursors@)),
{
    let ghost all = views(cursors@);
    let mut out: Vec<CursorMove> = Vec::new();
    assert(all.take(0).len() == 0);
    assert(views(out@) =~= Seq::<CursorMoveView>::empty());
    for i in 0..cursors.len()
        invariant
            all == views(cursors@),
            views(out@) == deactivated(after@, all.take(i as int)),
    {
        assert(all.take(i + 1).drop_last() =~= all.take(i as int));
        assert(all.take(i + 1).last() == cursors@[i as int]@);
        let x = &cursors[i];
        if cursor_of(after, &x.machine).is_none() {
            let m = CursorMove {
                machine: x.machine.clone(),
                from: x.state.clone(),
                to: "terminal".to_string(),
            };
            let ghost rest = views(out@);
            out.push(m);
            assert(views(out@) =~= rest.push(m@));
        }
    }
    assert(all.take(cursors@.len() as int) =~= all);
    out
}

/// How a turn moved the machines of its call.
pub fn cursor_moves(before: &Call, after: &Call) -> (r: Vec<CursorMove>)
    ensures
        views(r@) == moves_between(before@, after@),
{
    let mut out = moved_machines(before, &after.sm_cursors);
    let mut gone = deactivated_machines(after, &before.sm_cursors);
    let ghost a = out@;
    let ghost b = gone@;
    out.append(&mut gone);
    assert(out@ =~= a + b);
    assert(views(out@) =~= views(a) + views(b));
    out
}

/// What is to be said of a turn that a rule took.
#[derive(Debug, PartialEq)]
pub struct TurnReport {
    /// The rule that took it.
    pub rule_id: String,
    /// The inputs the rule refused to read.
    pub diagnostics: Vec<Diagnostic>,
    /// The categories of what the rule did without declaring it.
    pub undeclared_effects: Vec<EffectKind>,
    /// Whether the rule moved its machine without declaring it.
    pub undeclared_move: bool,
    pub moves: Vec<CursorMove>,
    pub state_before: CallModelState,
    pub state_after: CallModelState,
}

/// The mathematical value of a [`TurnReport`].
pub struct TurnReportView {
    pub rule_id: Seq<char>,
    pub diagnostics: Seq<DiagnosticView>,
    pub undeclared_effects: Seq<EffectKind>,
    pub undeclared_move: bool,
    pub moves: Seq<CursorMoveView>,
    pub state_before: CallModelState,
    pub state_after: CallModelState,
}

impl View for TurnReport {
    type V = TurnReportView;

    open spec fn view(&self) -> TurnReportView {
        TurnReportView {
            rule_id: self.rule_id@,
            diagnostics: views(self.diagnostics@),
            undeclared_effects: self.undeclared_effects@,
            undeclared_move: self.undeclared_move,
            moves: views(self.moves@),
            state_before: self.state_before,
            state_after: self.state_after,
        }
    }
}

/// What a turn comes to; no report where no rule took it.
#[derive(Debug, PartialEq)]
pub struct Turn {
    pub result: HandlerResult,
    pub report: Option<TurnReport>,
}

// ── the turn ────────────────────────────────────────────────────────────
pub open spec fn answering(ctx: RuleContextView) -> spec_fn(RuleDefinitionView) -> bool {
    |r: RuleDefinitionView| handled(r.handler, ctx) is Some
}

/// The rule that handles an event.
pub open spec fn winner(
    rules: Seq<RuleDefinitionView>,
    c: CallView,
    ctx: RuleContextView,
) -> Option<RuleDefinitionView> {
    find_where(ranked(rules, c, ctx), answering(ctx))
}

/// What a rule's actions do to the call, before anything else is seen to.
pub open spec fn acted(
    x: ExecView,
    r: RuleDefinitionView,
    c: CallView,
    ctx: RuleContextView,
    ids: IdGenView,
) -> WorkView {
    x.apply_all(fresh_work(c, ids), handled(r.handler, ctx)->0.actions, ctx)
}

/// The turn of the rule that handles an event.
#[verifier::opaque]
pub open spec fn taken(
    x: ExecView,
    r: RuleDefinitionView,
    c: CallView,
    ctx: RuleContextView,
    ids: IdGenView,
) -> HandlerResultView {
    let w = acted(x, r, c, ctx, ids);
    enforced(c, finalized(HandlerResultView { call: w.call, effects: w.fx }), x.now_ms, true)
}

/// What is said of the turn of the rule that handles an event.
#[verifier::opaque]
pub open spec fn told(
    x: ExecView,
    r: RuleDefinitionView,
    c: CallView,
    ctx: RuleContextView,
    ids: IdGenView,
) -> TurnReportView {
    let after = taken(x, r, c, ctx, ids).call;
    TurnReportView {
        rule_id: r.id,
        diagnostics: handled(r.handler, ctx)->0.diagnostics,
        undeclared_effects: undeclared_kinds(r, handled(r.handler, ctx)->0.actions),
        undeclared_move: undeclared_move(r, c, acted(x, r, c, ctx, ids).call),
        moves: moves_between(c, after),
        state_before: c.state,
        state_after: after.state,
    }
}

/// What an event comes to: the turn of the rule that handles it, and nothing
/// where none does.
pub open spec fn outcome(
    x: ExecView,
    rules: Seq<RuleDefinitionView>,
    c: CallView,
    ctx: RuleContextView,
    ids: IdGenView,
) -> HandlerResultView {
    match winner(rules, c, ctx) {
        Some(r) => taken(x, r, c, ctx, ids),
        None => HandlerResultView { call: c, effects: HandlerEffectsView::none() },
    }
}

/// The identifiers left after an event.
pub open spec fn ids_left(
    x: ExecView,
    rules: Seq<RuleDefinitionView>,
    c: CallView,
    ctx: RuleContextView,
    ids: IdGenView,
) -> IdGenView {
    match winner(rules, c, ctx) {
        Some(r) => acted(x, r, c, ctx, ids).ids,
        None => ids,
    }
}

fn take_turn(
    rule: &RuleDefinition,
    outcome: RuleHandleResult,
    call: &Call,
    ctx: &RuleContext,
    exec: &ActionExecutor,
    ids: &mut IdGen,
) -> (r: Turn)
    requires
        handled(rule@.handler, ctx@) == Some(outcome@),
    ensures
        r.result@ == taken(exec@, rule@, call@, ctx@, old(ids)@),
        opt_view(r.report) == Some(told(exec@, rule@, call@, ctx@, old(ids)@)),
        final(ids)@ == acted(exec@, rule@, call@, ctx@, old(ids)@).ids,
{
    proof {
        reveal(taken);
        reveal(told);
    }
    let undeclared_effects = check_declared_effects(rule, &outcome.actions);
    let acted = exec.execute(&outcome.actions, call, ctx, ids);
    let undeclared_move = check_declared_transition(rule, call, &acted.call);
    let result = enforce(call, finalize(acted), exec.now_ms, true);
    let report = TurnReport {
        rule_id: rule.id.clone(),
        diagnostics: outcome.diagnostics,
        undeclared_effects,
        undeclared_move,
        moves: cursor_moves(call, &result.call),
        state_before: call.state,
        state_after: result.call.state,
    };
    Turn { result, report: Some(report) }
}

/// Handle an event by the rules, and say what is to be said of it. Fresh
/// identifiers come from `ids`.
pub fn run_turn(
    rules: &[RuleDefinition],
    call: &Call,
    ctx: &RuleContext,
    exec: &ActionExecutor,
    ids: &mut IdGen,
) -> (r: Turn)
    ensures
        r.result@ == outcome(exec@, views(rules@), call@, ctx@, old(ids)@),
        final(ids)@ == ids_left(exec@, views(rules@), call@, ctx@, old(ids)@),
        opt_view(r.report) == (match winner(views(rules@), call@, ctx@) {
            Some(w) => Some(told(exec@, w, call@, ctx@, old(ids)@)),
            None => None,
        }),
{
    let list = pick_ranked(rules, call, ctx);
    let ghost s = ranked(views(rules@), call@, ctx@);
    let ghost p = answering(ctx@);
    let ghost ids0 = ids@;
    for i in 0..list.len()
        invariant
            s == ranked(views(rules@), call@, ctx@),
            s == views(list@),
            p == answering(ctx@),
            ids@ == ids0,
            ids0 == old(ids)@,
            forall|j: int| 0 <= j < i ==> !p(#[trigger] s[j]),
    {
        let rule = list[i];
        assert(s[i as int] == rule@);
        if let Some(found) = rule.handler.handle(ctx) {
            proof {
                first_where_is(s, p, i as int);
            }
            return take_turn(rule, found, call, ctx, exec, ids);
        }
    }
    proof {
        first_where_none(s, p);
    }
    Turn {
        result: HandlerResult { call: call.clone(), effects: HandlerEffects::new() },
        report: None,
    }
}

/// Handle an event by the rules.
pub fn execute_rules(
    rules: &[RuleDefinition],
    call: &Call,
    ctx: &RuleContext,
    exec: &ActionExecutor,
    ids: &mut IdGen,
) -> (r: HandlerResult)
    ensures
        r@ == outcome(exec@, views(rules@), call@, ctx@, old(ids)@),
        final(ids)@ == ids_left(exec@, views(rules@), call@, ctx@, old(ids)@),
{
    run_turn(rules, call, ctx, exec, ids).result
}

// ── laws ────────────────────────────────────────────────────────────────
pub open spec fn of_layer(layer: u32) -> spec_fn(RuleDefinitionView) -> bool {
    |r: RuleDefinitionView| r.layer == layer
}

/// The highest layer comes first.
pub open spec fn descending(s: Seq<RuleDefinitionView>) -> bool {
    forall|i: int, j: int| 0 <= i < j < s.len() ==> (#[trigger] s[i]).layer >= (#[trigger] s[j]).layer
}

proof fn place_descends(s: Seq<RuleDefinitionView>, r: RuleDefinitionView)
    requires
        descending(s),
    ensures
        descending(place(s, r)),
        forall|i: int|
            0 <= i < place(s, r).len() ==> #[trigger] place(s, r)[i] == r || s.contains(
                place(s, r)[i],
            ),
    decreases s.len(),
{
    if s.len() == 0 || s.last().layer >= r.layer {
        assert(s.len() > 0 ==> s.last() == s[s.len() - 1]);
        assert forall|i: int| 0 <= i < place(s, r).len() implies #[trigger] place(s, r)[i] == r
            || s.contains(place(s, r)[i]) by {
            if i < s.len() {
                assert(place(s, r)[i] == s[i]);
            }
        }
    } else {
        let t = s.drop_last();
        assert(descending(t)) by {
            assert forall|i: int, j: int| 0 <= i < j < t.len() implies (#[trigger] t[i]).layer >= (
            #[trigger] t[j]).layer by {
                assert(s[i].layer >= s[j].layer);
            }
        }
        place_descends(t, r);
        let u = place(t, r);
        assert forall|i: int| 0 <= i < u.len() implies (#[trigger] u[i]).layer >= s.last().layer by {
            if u[i] != r {
                let k = choose|k: int| 0 <= k < t.len() && t[k] == u[i];
                assert(s[k].layer >= s[s.len() - 1].layer);
            }
        }
        assert forall|i: int| 0 <= i < place(s, r).len() implies #[trigger] place(s, r)[i] == r
            || s.contains(place(s, r)[i]) by {
            if i < u.len() {
                assert(place(s, r)[i] == u[i]);
                if u[i] != r {
                    let k = choose|k: int| 0 <= k < t.len() && t[k] == u[i];
                    assert(s[k] == u[i]);
                }
            } else {
                assert(s[s.len() - 1] == place(s, r)[i]);
            }
        }
    }
}

proof fn place_keeps_layer(s: Seq<RuleDefinitionView>, r: RuleDefinitionView, layer: u32)
    ensures
        keep(place(s, r), of_layer(layer)) == keep(s.push(r), of_layer(layer)),
    decreases s.len(),
{
    let q = of_layer(layer);
    if s.len() > 0 && s.last().layer < r.layer {
        let t = s.drop_last();
        place_keeps_layer(t, r, layer);
        keep_push(place(t, r), s.last(), q);
        keep_push(t, r, q);
        keep_push(s, r, q);
    }
}

proof fn by_rank_is_stable(s: Seq<RuleDefinitionView>, layer: u32)
    ensures
        descending(by_rank(s)),
        keep(by_rank(s), of_layer(layer)) == keep(s, of_layer(layer)),
    decreases s.len(),
{
    if s.len() > 0 {
        let t = s.drop_last();
        by_rank_is_stable(t, layer);
        place_descends(by_rank(t), s.last());
        place_keeps_layer(by_rank(t), s.last(), layer);
        keep_push(by_rank(t), s.last(), of_layer(layer));
    }
}

/// Rules are tried by layer, the highest first: what a service contributes
/// outranks the core.
pub proof fn higher_layers_come_first(
    rules: Seq<RuleDefinitionView>,
    c: CallView,
    ctx: RuleContextView,
    i: int,
    j: int,
)
    requires
        0 <= i < j < ranked(rules, c, ctx).len(),
    ensures
        ranked(rules, c, ctx)[i].layer >= ranked(rules, c, ctx)[j].layer,
{
    reveal(ranked);
    by_rank_is_stable(candidates(rules, c, ctx), 0);
}

/// Within a layer rules are tried in the order of their registration.
pub proof fn registration_breaks_ties(
    rules: Seq<RuleDefinitionView>,
    c: CallView,
    ctx: RuleContextView,
    layer: u32,
)
    ensures
        keep(ranked(rules, c, ctx), of_layer(layer)) == keep(
            candidates(rules, c, ctx),
            of_layer(layer),
        ),
{
    reveal(ranked);
    by_rank_is_stable(candidates(rules, c, ctx), layer);
}

/// A rule is tried if and only if it is registered, applies, and no rule that
/// applies overrides it.
pub proof fn exactly_the_candidates_are_tried(
    rules: Seq<RuleDefinitionView>,
    c: CallView,
    ctx: RuleContextView,
    r: RuleDefinitionView,
)
    ensures
        ranked(rules, c, ctx).contains(r) <==> rules.contains(r) && applies(r, c, ctx) && !displaced(
            keep(rules, applying(c, ctx)),
            r.id,
        ),
{
    let all = keep(rules, applying(c, ctx));
    let cands = candidates(rules, c, ctx);
    let q = of_layer(r.layer);
    registration_breaks_ties(rules, c, ctx, r.layer);
    let tried = ranked(rules, c, ctx);
    keep_sound(tried, q);
    keep_sound(cands, q);
    keep_sound(all, standing(all));
    keep_sound(rules, applying(c, ctx));
    if tried.contains(r) {
        let i = choose|i: int| 0 <= i < tried.len() && tried[i] == r;
        keep_complete(tried, q, i);
        let j = choose|j: int| 0 <= j < keep(cands, q).len() && keep(cands, q)[j] == r;
        assert(cands.contains(keep(cands, q)[j]));
        let k = choose|k: int| 0 <= k < cands.len() && cands[k] == r;
        assert(standing(all)(cands[k]));
        assert(all.contains(cands[k]));
        let l = choose|l: int| 0 <= l < all.len() && all[l] == r;
        assert(applying(c, ctx)(all[l]));
        assert(rules.contains(all[l]));
    }
    if rules.contains(r) && applies(r, c, ctx) && !displaced(all, r.id) {
        let i = choose|i: int| 0 <= i < rules.len() && rules[i] == r;
        keep_complete(rules, applying(c, ctx), i);
        let j = choose|j: int| 0 <= j < all.len() && all[j] == r;
        keep_complete(all, standing(all), j);
        let k = choose|k: int| 0 <= k < cands.len() && cands[k] == r;
        keep_complete(cands, q, k);
        let l = choose|l: int| 0 <= l < keep(tried, q).len() && keep(tried, q)[l] == r;
        assert(tried.contains(keep(tried, q)[l]));
    }
}

/// The rules of a machine that is not active are dormant.
pub proof fn an_inactive_machine_is_dormant(
    rules: Seq<RuleDefinitionView>,
    c: CallView,
    ctx: RuleContextView,
    r: RuleDefinitionView,
)
    requires
        r.machine is Some,
        c.cursor(r.machine->0) is None,
    ensures
        !ranked(rules, c, ctx).contains(r),
{
    exactly_the_candidates_are_tried(rules, c, ctx, r);
}

/// The rule that handles an event is registered, applies and answers it; every
/// rule that comes before it leaves the event to the next.
pub proof fn the_first_answer_wins(
    rules: Seq<RuleDefinitionView>,
    c: CallView,
    ctx: RuleContextView,
)
    ensures
        match winner(rules, c, ctx) {
            Some(r) => rules.contains(r) && applies(r, c, ctx) && handled(r.handler, ctx) is Some
                && exists|i: int| #![auto]
                0 <= i < ranked(
                    rules,
                    c,
                    ctx,
                ).len() && ranked(rules, c, ctx)[i] == r && forall|j: int|
                    0 <= j < i ==> handled(
                        (#[trigger] ranked(rules, c, ctx)[j]).handler,
                        ctx,
                    ) is None,
            None => forall|j: int|
                0 <= j < ranked(rules, c, ctx).len() ==> handled(
                    (#[trigger] ranked(rules, c, ctx)[j]).handler,
                    ctx,
                ) is None,
        },
{
    let s = ranked(rules, c, ctx);
    let p = answering(ctx);
    first_where_found(s, p);
    match first_where(s, p) {
        Some(i) => {
            assert(p(s[i]));
            assert(s.contains(s[i]));
            exactly_the_candidates_are_tried(rules, c, ctx, s[i]);
            assert forall|j: int| 0 <= j < i implies handled(
                (#[trigger] s[j]).handler,
                ctx,
            ) is None by {
                assert(!p(s[j]));
            }
        },
        None => {
            assert forall|j: int| 0 <= j < s.len() implies handled(
                (#[trigger] s[j]).handler,
                ctx,
            ) is None by {
                assert(!p(s[j]));
            }
        },
    }
}

/// An event no rule applies to changes nothing and does nothing.
pub proof fn an_event_nobody_handles_changes_nothing(
    x: ExecView,
    rules: Seq<RuleDefinitionView>,
    c: CallView,
    ctx: RuleContextView,
    ids: IdGenView,
)
    requires
        forall|i: int| 0 <= i < rules.len() ==> !applies(#[trigger] rules[i], c, ctx),
    ensures
        outcome(x, rules, c, ctx, ids) == (HandlerResultView {
            call: c,
            effects: HandlerEffectsView::none(),
        }),
        ids_left(x, rules, c, ctx, ids) == ids,
{
    the_first_answer_wins(rules, c, ctx);
    if let Some(r) = winner(rules, c, ctx) {
        let i = choose|i: int| 0 <= i < rules.len() && rules[i] == r;
        assert(!applies(rules[i], c, ctx));
    }
}

/// A turn keeps the name of its call, its emergency mark and the INVITE that
/// opened it, and leaves its machines in the order of their names, each once.
pub proof fn a_turn_keeps_the_order(
    x: ExecView,
    rules: Seq<RuleDefinitionView>,
    c: CallView,
    ctx: RuleContextView,
    ids: IdGenView,
)
    ensures
        same_call(c, outcome(x, rules, c, ctx, ids).call),
        in_order(c.sm_cursors) ==> in_order(outcome(x, rules, c, ctx, ids).call.sm_cursors),
{
    if let Some(r) = winner(rules, c, ctx) {
        reveal(taken);
        reveal(finalized);
        reveal(enforced);
        actions_keep_the_order(x, fresh_work(c, ids), handled(r.handler, ctx)->0.actions, ctx);
        let w = acted(x, r, c, ctx, ids);
        if in_order(c.sm_cursors) {
            finalizing_keeps_the_order(HandlerResultView { call: w.call, effects: w.fx });
        }
    }
}

/// A move is undeclared exactly where a rule's own machine moved and none of the
/// rule's transitions is that move: from where it stood to where it stands, or to
/// its end where it was deactivated. What other machines do plays no part.
pub proof fn undeclared_moves_are_its_own(
    r: RuleDefinitionView,
    before: CallView,
    after: CallView,
    before2: CallView,
    after2: CallView,
)
    ensures
        r.machine is None ==> !undeclared_move(r, before, after),
        r.machine matches Some(m) ==> {
            &&& undeclared_move(r, before, after) <==> before.cursor(m) != after.cursor(m)
                && !exists|i: int|
                0 <= i < r.transitions.len() && before.cursor(m) == Some(
                    (#[trigger] r.transitions[i]).from,
                ) && (after.cursor(m) == Some(r.transitions[i].to) || (after.cursor(m) is None
                    && r.transitions[i].to == terminal()))
            &&& before2.cursor(m) == before.cursor(m) && after2.cursor(m) == after.cursor(m)
                ==> undeclared_move(r, before2, after2) == undeclared_move(r, before, after)
        },
{
    if let Some(m) = r.machine {
        let found = exists|i: int|
            0 <= i < r.transitions.len() && before.cursor(m) == Some(
                (#[trigger] r.transitions[i]).from,
            ) && (after.cursor(m) == Some(r.transitions[i].to) || (after.cursor(m) is None
                && r.transitions[i].to == terminal()));
        if before.cursor(m) is Some {
            let t = TransitionView {
                from: before.cursor(m)->0,
                to: match after.cursor(m) {
                    Some(x) => x,
                    None => terminal(),
                },
            };
            if r.transitions.contains(t) {
                let i = choose|i: int| 0 <= i < r.transitions.len() && r.transitions[i] == t;
                assert(r.transitions[i] == t);
                assert(found);
            }
            if found {
                let i = choose|i: int|
                    0 <= i < r.transitions.len() && before.cursor(m) == Some(
                        (#[trigger] r.transitions[i]).from,
                    ) && (after.cursor(m) == Some(r.transitions[i].to) || (after.cursor(m) is None
                        && r.transitions[i].to == terminal()));
                assert(r.transitions[i] == t);
            }
        }
    }
}

} // verus!
