//! What holds of every turn, whatever rule took it: the cursors show where the
//! call stands, and a call that ends is cleaned up after. Its timers go first,
//! then what it still owes is settled, and it is removed last. A caller whose
//! INVITE nobody answered is answered.
use vstd::prelude::*;

use crate::actions::respond::{a_leg_response, caller_effect, plain_response, toward_caller};
use crate::actions::teardown::global_call;
use crate::call::{
    Call, CallModelState, CallView, CdrEvent, CdrEventType, CdrEventView, CursorView, LegState,
    LimiterState, LimiterStateView, ResponsePlanView,
};
use crate::cursors::{
    a_cursor_keeps_its_place, a_cursor_put_stands, a_machine_stays_off, absent, in_order,
    put_cursor, put_where_it_stands, stands,
};
use crate::effects::{
    CriticalEffect, CriticalEffectView, HandlerEffects, HandlerEffectsView, HandlerResult,
    HandlerResultView, OutboundBody, OutboundSip, OutboundSipView, Provenance,
};
use crate::lens::{cursor_not_named, is_empty};
use crate::refer_transfer::machine::{phase_shown, phase_text, project_cursor, transfer_machine};
use crate::seqs::{
    any_where, keep, keep_complete, keep_push, keep_sound, keep_step, keep_whole,
    views,
};
use crate::state::{
    add_cdr_event, clear_cursor, cursors_are_independent, cursors_stay_in_order, fully_resolved, is_fully_resolved,
    masking, relay_first_18x_strategy, set_cursor,
};

verus! {

// ── the cursors ─────────────────────────────────────────────────────────
/// The state of the lifecycle's machine.
pub open spec fn lifecycle_text(s: CallModelState) -> Seq<char> {
    match s {
        CallModelState::Active => "Active"@,
        CallModelState::Terminating => "Terminating"@,
        CallModelState::Terminated => "Terminated"@,
    }
}

fn global_call_label(s: CallModelState) -> (r: String)
    ensures
        r@ == lifecycle_text(s),
{
    match s {
        CallModelState::Active => "Active".to_string(),
        CallModelState::Terminating => "Terminating".to_string(),
        CallModelState::Terminated => "Terminated".to_string(),
    }
}

/// The machine of masked provisionals.
pub open spec fn masking_machine() -> Seq<char> {
    "relayFirst18x"@
}

/// Whether a provisional was shown to the caller under masking.
pub open spec fn first_shown(c: CallView) -> bool {
    c.relay_first_18x is Some && c.relay_first_18x->0.relayed
}

/// The cursor of masked provisionals shows whether one was relayed; without
/// masking there is none.
pub open spec fn masking_shown(c: CallView) -> CallView {
    if masking(c) is Some {
        c.with_cursor(
            masking_machine(),
            if first_shown(c) {
                "Suppressing"@
            } else {
                "Masking"@
            },
        )
    } else {
        c.without_cursor(masking_machine())
    }
}

fn project_masking(call: &mut Call)
    ensures
        final(call)@ == masking_shown(old(call)@),
{
    let machine = "relayFirst18x".to_string();
    if relay_first_18x_strategy(call).is_some() {
        let shown = match &call.relay_first_18x {
            Some(s) => s.relayed,
            None => false,
        };
        let label = if shown {
            "Suppressing".to_string()
        } else {
            "Masking".to_string()
        };
        set_cursor(call, &machine, &label);
    } else {
        clear_cursor(call, &machine);
    }
}

/// A terminating call whose legs are all resolved is terminated.
pub open spec fn resolved(c: CallView) -> CallView {
    if c.state == CallModelState::Terminating && fully_resolved(c) {
        CallView { state: CallModelState::Terminated, ..c }
    } else {
        c
    }
}

/// The cursor of the lifecycle's machine shows the state of the call.
pub open spec fn lifecycle_shown(c: CallView) -> CallView {
    c.with_cursor(global_call(), lifecycle_text(c.state))
}

/// A call at the end of a turn.
pub open spec fn call_finalized(c: CallView) -> CallView {
    masking_shown(phase_shown(lifecycle_shown(resolved(c))))
}

/// A turn's result with its call finalized.
#[verifier::opaque]
pub open spec fn finalized(r: HandlerResultView) -> HandlerResultView {
    HandlerResultView { call: call_finalized(r.call), ..r }
}

/// End a call whose legs are all resolved, and show in the cursors where the
/// call stands.
pub fn finalize(result: HandlerResult) -> (r: HandlerResult)
    ensures
        r@ == finalized(result@),
{
    proof {
        reveal(finalized);
    }
    let mut call = result.call;
    if call.state == CallModelState::Terminating && is_fully_resolved(&call) {
        call.state = CallModelState::Terminated;
    }
    assert(call@ == resolved(result@.call));
    let machine = "global-call".to_string();
    let label = global_call_label(call.state);
    set_cursor(&mut call, &machine, &label);
    project_cursor(&mut call);
    project_masking(&mut call);
    HandlerResult { call, effects: result.effects }
}

// ── the caller nobody answered ──────────────────────────────────────────
pub open spec fn is_caller_cancel(a: Seq<char>) -> spec_fn(CdrEventView) -> bool {
    |e: CdrEventView| e.event_type == CdrEventType::Cancel && e.leg_id == a
}

pub open spec fn is_final_to(a: Seq<char>) -> spec_fn(OutboundSipView) -> bool {
    |e: OutboundSipView|
        e.leg_id == Some(a) && e.body is Response && e.body->Response_response.status >= 200
}

/// The caller still waits: it came into the turn unanswered, the turn sends it
/// no final, it did not cancel, and there is an INVITE of its to answer.
pub open spec fn left_waiting(before: CallView, r: HandlerResultView) -> bool {
    let a = before.a_leg.leg_id;
    &&& before.a_leg.state == LegState::Trying || before.a_leg.state == LegState::Early
    &&& r.call.a_leg_invite.headers.len() > 0
    &&& !any_where(r.effects.outbound, is_final_to(a))
    &&& !any_where(r.call.cdr_events, is_caller_cancel(a))
}

/// The tag the caller was shown, where it was shown one.
pub open spec fn pinned_tag(c: CallView) -> Option<Seq<char>> {
    if c.a_leg.dialogs.len() > 0 && c.a_leg.dialogs[0].sip.local_tag.len() > 0 {
        Some(c.a_leg.dialogs[0].sip.local_tag)
    } else {
        None
    }
}

/// The final a forgotten caller gets.
pub open spec fn last_resort(before: CallView, c: CallView) -> OutboundSipView {
    let plan = ResponsePlanView {
        to_tag: pinned_tag(c),
        ..a_leg_response(c, 503, "Service Unavailable"@, Seq::empty())
    };
    OutboundSipView {
        leg_id: Some(before.a_leg.leg_id),
        ..toward_caller(c, plan, Provenance::Authored)
    }
}

/// A caller left waiting is answered, and the record says so.
pub open spec fn caller_answered(
    before: CallView,
    r: HandlerResultView,
    now_ms: i64,
) -> HandlerResultView {
    if left_waiting(before, r) {
        HandlerResultView {
            call: r.call.add_cdr_event(
                CdrEventView {
                    event_type: CdrEventType::Reject,
                    timestamp: now_ms,
                    leg_id: before.a_leg.leg_id,
                    status_code: Some(503),
                    reason: Some("unanswered_at_termination"@),
                    decision_ordinal: 0,
                },
            ),
            effects: HandlerEffectsView {
                outbound: r.effects.outbound.push(last_resort(before, r.call)),
                ..r.effects
            },
        }
    } else {
        r
    }
}

fn sends_final(list: &Vec<OutboundSip>, a: &String) -> (r: bool)
    ensures
        r == any_where(views(list@), is_final_to(a@)),
{
    let ghost p = is_final_to(a@);
    for i in 0..list.len()
        invariant
            p == is_final_to(a@),
            forall|j: int| 0 <= j < i ==> !p(#[trigger] views(list@)[j]),
    {
        assert(views(list@)[i as int] == list@[i as int]@);
        let on_leg = match &list[i].leg_id {
            Some(l) => *l == *a,
            None => false,
        };
        if on_leg {
            if let OutboundBody::Response { response } = &list[i].body {
                if response.status >= 200 {
                    assert(p(views(list@)[i as int]));
                    return true;
                }
            }
        }
    }
    false
}

fn caller_cancelled(list: &Vec<CdrEvent>, a: &String) -> (r: bool)
    ensures
        r == any_where(views(list@), is_caller_cancel(a@)),
{
    let ghost p = is_caller_cancel(a@);
    for i in 0..list.len()
        invariant
            p == is_caller_cancel(a@),
            forall|j: int| 0 <= j < i ==> !p(#[trigger] views(list@)[j]),
    {
        assert(views(list@)[i as int] == list@[i as int]@);
        if list[i].event_type == CdrEventType::Cancel && list[i].leg_id == *a {
            assert(p(views(list@)[i as int]));
            return true;
        }
    }
    false
}

fn is_left_waiting(before: &Call, r: &HandlerResult) -> (b: bool)
    ensures
        b == left_waiting(before@, r@),
{
    let ringing = before.a_leg.state == LegState::Trying || before.a_leg.state == LegState::Early;
    if !ringing || r.call.a_leg_invite.headers.len() == 0 {
        return false;
    }
    !sends_final(&r.effects.outbound, &before.a_leg.leg_id) && !caller_cancelled(
        &r.call.cdr_events,
        &before.a_leg.leg_id,
    )
}

fn answer_a_leg_if_unanswered(
    before: &Call,
    result: HandlerResult,
    now_ms: i64,
) -> (r: HandlerResult)
    ensures
        r@ == caller_answered(before@, result@, now_ms),
{
    if !is_left_waiting(before, &result) {
        return result;
    }
    let mut call = result.call;
    let mut effects = result.effects;
    let tag = if call.a_leg.dialogs.len() > 0 {
        assert(call@.a_leg.dialogs[0] == call.a_leg.dialogs@[0]@);
        if is_empty(&call.a_leg.dialogs[0].sip.local_tag) {
            None
        } else {
            Some(call.a_leg.dialogs[0].sip.local_tag.clone())
        }
    } else {
        None
    };
    let none = String::new();
    assert(none@ =~= Seq::<char>::empty());
    let mut plan = plain_response(&call, 503, &"Service Unavailable".to_string(), none);
    plan.to_tag = tag;
    let mut e = caller_effect(&call, plan, Provenance::Authored);
    e.leg_id = Some(before.a_leg.leg_id.clone());
    assert(e@ == last_resort(before@, call@));
    let ghost sent = effects.outbound@;
    effects.outbound.push(e);
    assert(views(effects.outbound@) =~= views(sent).push(e@));
    add_cdr_event(
        &mut call,
        CdrEvent {
            event_type: CdrEventType::Reject,
            timestamp: now_ms,
            leg_id: before.a_leg.leg_id.clone(),
            status_code: Some(503),
            reason: Some("unanswered_at_termination".to_string()),
            decision_ordinal: 0,
        },
    );
    HandlerResult { call, effects }
}

// ── what a call owes ────────────────────────────────────────────────────
/// The release of a capacity slot.
pub open spec fn release_of(l: LimiterStateView) -> CriticalEffectView {
    CriticalEffectView::DecrementLimiter { limiter_id: l.limiter_id, window: l.origin_window }
}

/// The slots that are held released, those released already not again.
pub open spec fn slots_released(held: Seq<LimiterStateView>, fx: Seq<CriticalEffectView>) -> Seq<
    CriticalEffectView,
>
    decreases held.len(),
{
    if held.len() == 0 {
        fx
    } else {
        let before = slots_released(held.drop_last(), fx);
        if held.last().increment_succeeded && !before.contains(release_of(held.last())) {
            before.push(release_of(held.last()))
        } else {
            before
        }
    }
}

/// What an ended call owes settled: its record is written, and its slots are
/// released.
pub open spec fn settled(c: CallView, fx: Seq<CriticalEffectView>) -> Seq<CriticalEffectView> {
    let recorded = if fx.contains(CriticalEffectView::WriteCdr) {
        fx
    } else {
        fx.push(CriticalEffectView::WriteCdr)
    };
    slots_released(c.limiter_entries, recorded)
}

fn writes_cdr(fx: &Vec<CriticalEffect>) -> (r: bool)
    ensures
        r == views(fx@).contains(CriticalEffectView::WriteCdr),
{
    for i in 0..fx.len()
        invariant
            forall|j: int| 0 <= j < i ==> !(#[trigger] views(fx@)[j] is WriteCdr),
    {
        assert(views(fx@)[i as int] == fx@[i as int]@);
        if let CriticalEffect::WriteCdr = &fx[i] {
            assert(views(fx@)[i as int] == CriticalEffectView::WriteCdr);
            return true;
        }
    }
    false
}

fn cancels_all(fx: &Vec<CriticalEffect>) -> (r: bool)
    ensures
        r == views(fx@).contains(CriticalEffectView::CancelAllTimers),
{
    for i in 0..fx.len()
        invariant
            forall|j: int| 0 <= j < i ==> !(#[trigger] views(fx@)[j] is CancelAllTimers),
    {
        assert(views(fx@)[i as int] == fx@[i as int]@);
        if let CriticalEffect::CancelAllTimers = &fx[i] {
            assert(views(fx@)[i as int] == CriticalEffectView::CancelAllTimers);
            return true;
        }
    }
    false
}

fn releases(fx: &Vec<CriticalEffect>, l: &LimiterState) -> (r: bool)
    ensures
        r == views(fx@).contains(release_of(l@)),
{
    let ghost e = release_of(l@);
    for i in 0..fx.len()
        invariant
            e == release_of(l@),
            forall|j: int| 0 <= j < i ==> #[trigger] views(fx@)[j] != e,
    {
        assert(views(fx@)[i as int] == fx@[i as int]@);
        if let CriticalEffect::DecrementLimiter { limiter_id, window } = &fx[i] {
            if *limiter_id == l.limiter_id && *window == l.origin_window {
                assert(views(fx@)[i as int] == e);
                return true;
            }
        }
    }
    false
}

fn push_critical(fx: &mut Vec<CriticalEffect>, e: CriticalEffect)
    ensures
        views(final(fx)@) == views(old(fx)@).push(e@),
{
    let ghost before = fx@;
    fx.push(e);
    assert(views(fx@) =~= views(before).push(e@));
}

fn settle(call: &Call, fx: &mut Vec<CriticalEffect>)
    ensures
        views(final(fx)@) == settled(call@, views(old(fx)@)),
{
    if !writes_cdr(fx) {
        push_critical(fx, CriticalEffect::WriteCdr);
    }
    let ghost start = views(fx@);
    let ghost all = call@.limiter_entries;
    assert(all.take(0).len() == 0);
    for i in 0..call.limiter_entries.len()
        invariant
            all == call@.limiter_entries,
            views(fx@) == slots_released(all.take(i as int), start),
    {
        let l = &call.limiter_entries[i];
        assert(all.take(i + 1).drop_last() =~= all.take(i as int));
        assert(all.take(i + 1).last() == l@);
        if l.increment_succeeded && !releases(fx, l) {
            push_critical(
                fx,
                CriticalEffect::DecrementLimiter {
                    limiter_id: l.limiter_id.clone(),
                    window: l.origin_window,
                },
            );
        }
    }
    assert(all.take(call.limiter_entries@.len() as int) =~= all);
}

// ── the end of a call ───────────────────────────────────────────────────
pub open spec fn not_removal() -> spec_fn(CriticalEffectView) -> bool {
    |e: CriticalEffectView| !(e is RemoveCall)
}

/// The effects of a call's end: its timers cancelled first, what it owes
/// settled, the call removed last.
pub open spec fn cleaned_up(c: CallView, fx: Seq<CriticalEffectView>) -> Seq<CriticalEffectView> {
    keep(settled(c, timers_first(fx)), not_removal()).push(CriticalEffectView::RemoveCall)
}

/// The timers cancelled, before everything else where the turn did not do it.
pub open spec fn timers_first(fx: Seq<CriticalEffectView>) -> Seq<CriticalEffectView> {
    if fx.contains(CriticalEffectView::CancelAllTimers) {
        fx
    } else {
        seq![CriticalEffectView::CancelAllTimers] + fx
    }
}

/// The turn ends the call.
pub open spec fn ends(before: CallView, r: HandlerResultView) -> bool {
    before.state != CallModelState::Terminated && r.call.state == CallModelState::Terminated
}

/// A turn that ends its call, cleaned up after; any other as it is.
#[verifier::opaque]
pub open spec fn enforced(
    before: CallView,
    r: HandlerResultView,
    now_ms: i64,
    answer_unanswered_a_leg: bool,
) -> HandlerResultView {
    if ends(before, r) {
        let r1 = if answer_unanswered_a_leg {
            caller_answered(before, r, now_ms)
        } else {
            r
        };
        let c = CallView { timers: Seq::empty(), ..r1.call };
        HandlerResultView {
            call: c,
            effects: HandlerEffectsView {
                critical: cleaned_up(c, r1.effects.critical),
                ..r1.effects
            },
        }
    } else {
        r
    }
}

fn clean_up(call: &Call, fx: Vec<CriticalEffect>) -> (r: Vec<CriticalEffect>)
    ensures
        views(r@) == cleaned_up(call@, views(fx@)),
{
    let mut all: Vec<CriticalEffect> = Vec::new();
    let ghost given = views(fx@);
    let present = cancels_all(&fx);
    let mut rest = fx;
    if !present {
        all.push(CriticalEffect::CancelAllTimers);
    }
    let ghost first = all@;
    let ghost more = rest@;
    all.append(&mut rest);
    assert(all@ =~= first + more);
    assert(views(all@) =~= timers_first(given));
    settle(call, &mut all);
    let ghost p = not_removal();
    let mut out: Vec<CriticalEffect> = Vec::new();
    assert(views(all@).take(0).len() == 0);
    assert(views(out@) =~= Seq::<CriticalEffectView>::empty());
    for i in 0..all.len()
        invariant
            p == not_removal(),
            views(out@) == keep(views(all@).take(i as int), p),
    {
        proof {
            keep_step(views(all@), p, i as int);
        }
        assert(views(all@)[i as int] == all@[i as int]@);
        let removal = if let CriticalEffect::RemoveCall = &all[i] {
            true
        } else {
            false
        };
        if !removal {
            push_critical(&mut out, all[i].clone());
        }
    }
    assert(views(all@).take(all@.len() as int) =~= views(all@));
    push_critical(&mut out, CriticalEffect::RemoveCall);
    out
}

/// Clean up after a turn that ends its call. The caller is answered where the
/// call was served here, and not where it is only taken over to be buried.
pub fn enforce(
    before: &Call,
    result: HandlerResult,
    now_ms: i64,
    answer_unanswered_a_leg: bool,
) -> (r: HandlerResult)
    ensures
        r@ == enforced(before@, result@, now_ms, answer_unanswered_a_leg),
{
    proof {
        reveal(enforced);
    }
    let ended = before.state != CallModelState::Terminated && result.call.state
        == CallModelState::Terminated;
    if !ended {
        return result;
    }
    let result = if answer_unanswered_a_leg {
        answer_a_leg_if_unanswered(before, result, now_ms)
    } else {
        result
    };
    let mut call = result.call;
    call.timers = Vec::new();
    assert(views(call.timers@) =~= Seq::empty());
    let critical = clean_up(&call, result.effects.critical);
    HandlerResult {
        call,
        effects: HandlerEffects {
            outbound: result.effects.outbound,
            critical,
            fire_and_forget: result.effects.fire_and_forget,
        },
    }
}

// ── laws ────────────────────────────────────────────────────────────────
/// At the end of a turn every cursor the engine keeps shows what it is the
/// projection of, and no other cursor was moved.
pub proof fn cursors_show_the_call(r: HandlerResultView, other: Seq<char>)
    ensures
        ({
            let c = finalized(r).call;
            &&& c.cursor(global_call()) == Some(lifecycle_text(c.state))
            &&& c.cursor(transfer_machine()) == (match c.transfer {
                Some(t) => Some(phase_text(t.phase)),
                None => None,
            })
            &&& c.cursor(masking_machine()) is Some <==> masking(c) is Some
            &&& other != global_call() && other != transfer_machine() && other != masking_machine()
                ==> c.cursor(other) == r.call.cursor(other)
            &&& finalized(r).effects == r.effects
        }),
{
    reveal(finalized);
    machines_differ();
    let c0 = resolved(r.call);
    let c1 = lifecycle_shown(c0);
    let c2 = phase_shown(c1);
    let to2 = match c1.transfer {
        Some(t) => phase_text(t.phase),
        None => Seq::empty(),
    };
    let to3 = if first_shown(c2) {
        "Suppressing"@
    } else {
        "Masking"@
    };
    cursors_are_independent(c0, global_call(), lifecycle_text(c0.state), other);
    cursors_are_independent(c1, transfer_machine(), to2, global_call());
    cursors_are_independent(c1, transfer_machine(), to2, other);
    cursors_are_independent(c2, masking_machine(), to3, global_call());
    cursors_are_independent(c2, masking_machine(), to3, transfer_machine());
    cursors_are_independent(c2, masking_machine(), to3, other);
}

proof fn machines_differ()
    ensures
        global_call() != transfer_machine(),
        global_call() != masking_machine(),
        transfer_machine() != masking_machine(),
{
    reveal_strlit("global-call");
    reveal_strlit("transfer");
    reveal_strlit("relayFirst18x");
    assert(global_call().len() == 11);
    assert(transfer_machine().len() == 8);
    assert(masking_machine().len() == 13);
}

/// Finalizing leaves the machines of a call in the order of their names, each
/// once.
pub proof fn finalizing_keeps_the_order(r: HandlerResultView)
    requires
        in_order(r.call.sm_cursors),
    ensures
        in_order(finalized(r).call.sm_cursors),
{
    reveal(finalized);
    let c0 = resolved(r.call);
    let c1 = lifecycle_shown(c0);
    let c2 = phase_shown(c1);
    let to2 = match c1.transfer {
        Some(t) => phase_text(t.phase),
        None => Seq::empty(),
    };
    let to3 = if first_shown(c2) {
        "Suppressing"@
    } else {
        "Masking"@
    };
    cursors_stay_in_order(c0, global_call(), lifecycle_text(c0.state));
    cursors_stay_in_order(c1, transfer_machine(), to2);
    cursors_stay_in_order(c2, masking_machine(), to3);
}

/// A call whose legs are all resolved does not stay terminating, and no other
/// call changes its state.
pub proof fn resolved_calls_end(r: HandlerResultView)
    ensures
        finalized(r).call.state == (if r.call.state == CallModelState::Terminating
            && fully_resolved(r.call) {
            CallModelState::Terminated
        } else {
            r.call.state
        }),
{
    reveal(finalized);
}

/// Some cursor in the place of a machine's.
spec fn put(s: Seq<CursorView>, machine: Seq<char>, x: Option<CursorView>) -> Seq<CursorView> {
    match x {
        Some(c) => put_cursor(s, c),
        None => keep(s, cursor_not_named(machine)),
    }
}

/// A machine stands as it was put.
spec fn is_put(s: Seq<CursorView>, machine: Seq<char>, x: Option<CursorView>) -> bool {
    match x {
        Some(c) => stands(s, c),
        None => absent(s, machine),
    }
}

spec fn of_machine(machine: Seq<char>, x: Option<CursorView>) -> bool {
    x is Some ==> x->0.machine == machine
}

proof fn put_is_put(s: Seq<CursorView>, machine: Seq<char>, x: Option<CursorView>)
    requires
        of_machine(machine, x),
    ensures
        is_put(put(s, machine, x), machine, x),
        is_put(s, machine, x) ==> put(s, machine, x) == s,
{
    match x {
        Some(c) => {
            a_cursor_put_stands(s, c);
            if stands(s, c) {
                put_where_it_stands(s, c);
            }
        },
        None => {
            keep_sound(s, cursor_not_named(machine));
            if absent(s, machine) {
                keep_whole(s, cursor_not_named(machine));
            }
        },
    }
}

proof fn stays_put(
    s: Seq<CursorView>,
    machine: Seq<char>,
    x: Option<CursorView>,
    other: Seq<char>,
    y: Option<CursorView>,
)
    requires
        of_machine(machine, x),
        of_machine(other, y),
        machine != other,
        is_put(s, machine, x),
    ensures
        is_put(put(s, other, y), machine, x),
{
    let c = match y {
        Some(c) => c,
        None => CursorView { machine: other, state: Seq::empty() },
    };
    match x {
        Some(d) => a_cursor_keeps_its_place(s, d, c),
        None => a_machine_stays_off(s, machine, c),
    }
}

spec fn three_put(
    s: Seq<CursorView>,
    g: CursorView,
    t: Option<CursorView>,
    m: Option<CursorView>,
) -> Seq<CursorView> {
    put(put(put(s, global_call(), Some(g)), transfer_machine(), t), masking_machine(), m)
}

proof fn three_put_again(
    s: Seq<CursorView>,
    g: CursorView,
    t: Option<CursorView>,
    m: Option<CursorView>,
)
    requires
        g.machine == global_call(),
        of_machine(transfer_machine(), t),
        of_machine(masking_machine(), m),
    ensures
        three_put(three_put(s, g, t, m), g, t, m) == three_put(s, g, t, m),
{
    machines_differ();
    let s1 = put(s, global_call(), Some(g));
    let s2 = put(s1, transfer_machine(), t);
    let s3 = put(s2, masking_machine(), m);
    put_is_put(s, global_call(), Some(g));
    put_is_put(s1, transfer_machine(), t);
    put_is_put(s2, masking_machine(), m);
    stays_put(s1, global_call(), Some(g), transfer_machine(), t);
    stays_put(s2, global_call(), Some(g), masking_machine(), m);
    stays_put(s2, transfer_machine(), t, masking_machine(), m);
    put_is_put(s3, global_call(), Some(g));
    put_is_put(s3, transfer_machine(), t);
    put_is_put(s3, masking_machine(), m);
}

/// Finalizing a finalized turn changes nothing.
pub proof fn finalizing_is_settled(r: HandlerResultView)
    ensures
        finalized(finalized(r)) == finalized(r),
{
    reveal(finalized);
    let c0 = resolved(r.call);
    let g = CursorView { machine: global_call(), state: lifecycle_text(c0.state) };
    let t = match c0.transfer {
        Some(t) => Some(CursorView { machine: transfer_machine(), state: phase_text(t.phase) }),
        None => None,
    };
    let m = if masking(c0) is Some {
        Some(
            CursorView {
                machine: masking_machine(),
                state: if first_shown(c0) {
                    "Suppressing"@
                } else {
                    "Masking"@
                },
            },
        )
    } else {
        None
    };
    three_put_again(r.call.sm_cursors, g, t, m);
    let c1 = call_finalized(r.call);
    assert(c1.sm_cursors == three_put(r.call.sm_cursors, g, t, m));
    assert(resolved(c1) == c1);
    assert(call_finalized(c1).sm_cursors == three_put(c1.sm_cursors, g, t, m));
    assert(call_finalized(c1) == c1);
}

proof fn release_is_kept(
    held: Seq<LimiterStateView>,
    fx: Seq<CriticalEffectView>,
    e: CriticalEffectView,
)
    requires
        fx.contains(e),
    ensures
        slots_released(held, fx).contains(e),
    decreases held.len(),
{
    if held.len() > 0 {
        release_is_kept(held.drop_last(), fx, e);
        let before = slots_released(held.drop_last(), fx);
        let k = choose|k: int| 0 <= k < before.len() && before[k] == e;
        assert(before.push(release_of(held.last()))[k] == e);
    }
}

proof fn slots_are_released(held: Seq<LimiterStateView>, fx: Seq<CriticalEffectView>, i: int)
    requires
        0 <= i < held.len(),
        held[i].increment_succeeded,
    ensures
        slots_released(held, fx).contains(release_of(held[i])),
    decreases held.len(),
{
    let before = slots_released(held.drop_last(), fx);
    if i == held.len() - 1 {
        if !before.contains(release_of(held.last())) {
            assert(
                before.push(release_of(held.last()))[before.len() as int] == release_of(held[i])
            );
        }
    } else {
        slots_are_released(held.drop_last(), fx, i);
        let k = choose|k: int| 0 <= k < before.len() && before[k] == release_of(held[i]);
        assert(before.push(release_of(held.last()))[k] == release_of(held[i]));
    }
}

proof fn settled_is_kept(c: CallView, fx: Seq<CriticalEffectView>, e: CriticalEffectView)
    requires
        fx.contains(e),
    ensures
        settled(c, fx).contains(e),
{
    let k = choose|k: int| 0 <= k < fx.len() && fx[k] == e;
    let w = fx.push(CriticalEffectView::WriteCdr);
    assert(w[k] == e);
    if fx.contains(CriticalEffectView::WriteCdr) {
        release_is_kept(c.limiter_entries, fx, e);
    } else {
        release_is_kept(c.limiter_entries, w, e);
    }
}

proof fn clean_up_keeps(c: CallView, fx: Seq<CriticalEffectView>, e: CriticalEffectView)
    requires
        settled(c, timers_first(fx)).contains(e),
        !(e is RemoveCall),
    ensures
        cleaned_up(c, fx).contains(e),
{
    let s = settled(c, timers_first(fx));
    let k = choose|k: int| 0 <= k < s.len() && s[k] == e;
    keep_complete(s, not_removal(), k);
    let kept = keep(s, not_removal());
    let j = choose|j: int| 0 <= j < kept.len() && kept[j] == e;
    assert(cleaned_up(c, fx)[j] == e);
}

/// A call that ends is cleaned up after, whatever the rule that ended it forgot:
/// its timers are cancelled, its record is written, every slot it holds is
/// released, and it is removed once, last.
pub proof fn an_ended_call_is_cleaned_up(
    before: CallView,
    r: HandlerResultView,
    now_ms: i64,
    answer: bool,
    slot: int,
)
    requires
        ends(before, r),
    ensures
        ({
            let e = enforced(before, r, now_ms, answer);
            let fx = e.effects.critical;
            &&& e.call.timers.len() == 0
            &&& e.call.state == CallModelState::Terminated
            &&& fx.contains(CriticalEffectView::CancelAllTimers)
            &&& fx.contains(CriticalEffectView::WriteCdr)
            &&& 0 <= slot < r.call.limiter_entries.len()
                && r.call.limiter_entries[slot].increment_succeeded ==> fx.contains(
                release_of(r.call.limiter_entries[slot]),
            )
            &&& fx.len() > 0 && fx.last() == CriticalEffectView::RemoveCall
            &&& forall|i: int| 0 <= i < fx.len() - 1 ==> !(#[trigger] fx[i] is RemoveCall)
        }),
{
    reveal(enforced);
    let r1 = if answer {
        caller_answered(before, r, now_ms)
    } else {
        r
    };
    let c = CallView { timers: Seq::empty(), ..r1.call };
    let given = r1.effects.critical;
    let timed = timers_first(given);
    if !given.contains(CriticalEffectView::CancelAllTimers) {
        assert(timed[0] == CriticalEffectView::CancelAllTimers);
    }
    settled_is_kept(c, timed, CriticalEffectView::CancelAllTimers);
    clean_up_keeps(c, given, CriticalEffectView::CancelAllTimers);
    let recorded = if timed.contains(CriticalEffectView::WriteCdr) {
        timed
    } else {
        timed.push(CriticalEffectView::WriteCdr)
    };
    if !timed.contains(CriticalEffectView::WriteCdr) {
        assert(recorded[timed.len() as int] == CriticalEffectView::WriteCdr);
    }
    release_is_kept(c.limiter_entries, recorded, CriticalEffectView::WriteCdr);
    clean_up_keeps(c, given, CriticalEffectView::WriteCdr);
    if 0 <= slot < c.limiter_entries.len() && c.limiter_entries[slot].increment_succeeded {
        slots_are_released(c.limiter_entries, recorded, slot);
        clean_up_keeps(c, given, release_of(c.limiter_entries[slot]));
    }
    keep_sound(settled(c, timed), not_removal());
}

/// A turn that does not end its call is left as it is.
pub proof fn a_living_call_is_left_alone(
    before: CallView,
    r: HandlerResultView,
    now_ms: i64,
    answer: bool,
)
    requires
        !ends(before, r),
    ensures
        enforced(before, r, now_ms, answer) == r,
{
    reveal(enforced);
}

/// A caller that waits for an answer when its call ends gets a final, unless it
/// cancelled or there is no INVITE of its to answer.
pub proof fn no_caller_is_left_waiting(before: CallView, r: HandlerResultView, now_ms: i64)
    requires
        ends(before, r),
        before.a_leg.state == LegState::Trying || before.a_leg.state == LegState::Early,
        r.call.a_leg_invite.headers.len() > 0,
        !any_where(r.call.cdr_events, is_caller_cancel(before.a_leg.leg_id)),
    ensures
        any_where(
            enforced(before, r, now_ms, true).effects.outbound,
            is_final_to(before.a_leg.leg_id),
        ),
        !any_where(r.effects.outbound, is_final_to(before.a_leg.leg_id)) ==> enforced(
            before,
            r,
            now_ms,
            true,
        ).effects.outbound == r.effects.outbound.push(last_resort(before, r.call)),
        any_where(r.effects.outbound, is_final_to(before.a_leg.leg_id)) ==> enforced(
            before,
            r,
            now_ms,
            true,
        ).effects.outbound == r.effects.outbound,
{
    reveal(enforced);
    let p = is_final_to(before.a_leg.leg_id);
    if left_waiting(before, r) {
        let out = r.effects.outbound.push(last_resort(before, r.call));
        assert(p(out[r.effects.outbound.len() as int]));
    }
}

proof fn nothing_left_to_release(held: Seq<LimiterStateView>, fx: Seq<CriticalEffectView>)
    requires
        forall|i: int|
            0 <= i < held.len() && held[i].increment_succeeded ==> fx.contains(
                release_of(#[trigger] held[i]),
            ),
    ensures
        slots_released(held, fx) == fx,
    decreases held.len(),
{
    if held.len() > 0 {
        assert forall|i: int|
            0 <= i < held.drop_last().len()
                && held.drop_last()[i].increment_succeeded implies fx.contains(
            release_of(#[trigger] held.drop_last()[i]),
        ) by {
            assert(fx.contains(release_of(held[i])));
        }
        nothing_left_to_release(held.drop_last(), fx);
        assert(held[held.len() - 1] == held.last());
    }
}

/// Cleaning up twice changes nothing.
pub proof fn clean_up_is_settled(before: CallView, r: HandlerResultView, now_ms: i64, answer: bool)
    ensures
        enforced(before, enforced(before, r, now_ms, answer), now_ms, answer) == enforced(
            before,
            r,
            now_ms,
            answer,
        ),
{
    if !ends(before, r) {
        a_living_call_is_left_alone(before, r, now_ms, answer);
    } else {
        let e = enforced(before, r, now_ms, answer);
        let fx = e.effects.critical;
        let held = e.call.limiter_entries;
        reveal(enforced);
        assert(held == r.call.limiter_entries);
        an_ended_call_is_cleaned_up(before, r, now_ms, answer, 0);
        assert forall|i: int|
            0 <= i < held.len() && held[i].increment_succeeded implies fx.contains(
            release_of(#[trigger] held[i]),
        ) by {
            an_ended_call_is_cleaned_up(before, r, now_ms, answer, i);
        }
        nothing_left_to_release(held, fx);
        assert(settled(e.call, timers_first(fx)) == fx);
        let kept = fx.drop_last();
        assert forall|i: int| 0 <= i < kept.len() implies not_removal()(#[trigger] kept[i]) by {
            assert(!(fx[i] is RemoveCall));
        }
        keep_whole(kept, not_removal());
        keep_push(kept, CriticalEffectView::RemoveCall, not_removal());
        assert(kept.push(CriticalEffectView::RemoveCall) =~= fx);
        assert(cleaned_up(e.call, fx) =~= fx);
        if answer {
            if left_waiting(before, r) {
                let p = is_final_to(before.a_leg.leg_id);
                assert(p(e.effects.outbound[r.effects.outbound.len() as int]));
            }
            assert(!left_waiting(before, e));
        }
        assert(e.call.timers =~= Seq::empty());
    }
}

} // verus!
