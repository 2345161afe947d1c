//! What a turn is: what its actions may do, what is said of it, and what a call owes
//! when it ends.
use vstd::prelude::*;

use crate::action::RuleActionView;
use crate::actions::dialog_track::{b_confirmed, early_ensured, with_early_dialog};
use crate::actions::dispatch::{
    leg_updated, reinvite_2xx_cleared, reinvite_resolved, sdp_cached, timer_cancelled,
    timers_cancelled, with_exts, with_holds,
};
use crate::actions::{ExecView, WorkView};
use crate::call::{
    AnswersView, ByeDisposition, CallModelState, CallView, CdrEventType, CursorView,
    DestinationView, ExtEntryView, LegDisposition, LegState, LegView,
};
use crate::cursors::in_order;
use crate::effects::{
    CriticalEffectView, HandlerEffectsView, HandlerResultView, Provenance, TxnMode,
};
use crate::executor::{
    acted, CursorMoveView, deactivated, declares, kind_of_action, kind_of_effect, moved,
    moves_between, taken, told, undeclared, undeclared_kinds,
};
use crate::handling::handled;
use crate::ids::IdGenView;
use crate::invariants::{
    an_ended_call_is_cleaned_up, cursors_show_the_call, enforced, finalized, is_caller_cancel,
    is_final_to,
};
use crate::lens::cursor_named;
use crate::model::{EffectKind, RuleContextView, RuleDefinitionView};
use crate::seqs::{any_where, find_where, first_where, first_where_found, first_where_is, is_first};
use crate::state::{fully_resolved, leg_resolved};
use crate::text::{text_less, text_less_irreflexive};
use crate::wire::MethodView;

verus! {

// ── what an action may do ───────────────────────────────────────────────
/// An action does what its category says, and no more: bookkeeping changes the call
/// and asks at most a service; a guard timer arms or cancels timers; a command of the
/// lifecycle or a message is the only thing that sends.
pub proof fn a_category_is_kept(
    x: ExecView,
    w: WorkView,
    a: RuleActionView,
    ctx: RuleContextView,
)
    ensures
        ({
            let r = x.apply(w, a, ctx);
            &&& kind_of_action(a) == EffectKind::Bookkeeping ==> {
                &&& r.fx.outbound == w.fx.outbound
                &&& r.fx.critical == w.fx.critical
                &&& r.call.state == w.call.state
                &&& r.call.timers == w.call.timers
                &&& r.call.active_peer == w.call.active_peer
            }
            &&& kind_of_action(a) == EffectKind::GuardTimer ==> {
                &&& r.fx.outbound == w.fx.outbound
                &&& r.fx.fire_and_forget == w.fx.fire_and_forget
                &&& w.call == CallView { timers: w.call.timers, ..r.call }
                &&& r.ids == w.ids
            }
        }),
{
    if kind_of_action(a) == EffectKind::Bookkeeping {
        bookkeeping_sends_nothing(x, w, a, ctx);
    }
    if kind_of_action(a) == EffectKind::GuardTimer {
        reveal(ExecView::apply);
        reveal(ExecView::schedule);
        reveal(timer_cancelled);
        reveal(timers_cancelled);
    }
}

#[verifier::rlimit(40)]
proof fn bookkeeping_sends_nothing(
    x: ExecView,
    w: WorkView,
    a: RuleActionView,
    ctx: RuleContextView,
)
    requires
        kind_of_action(a) == EffectKind::Bookkeeping,
    ensures
        ({
            let r = x.apply(w, a, ctx);
            &&& r.fx.outbound == w.fx.outbound
            &&& r.fx.critical == w.fx.critical
            &&& r.call.state == w.call.state
            &&& r.call.timers == w.call.timers
            &&& r.call.active_peer == w.call.active_peer
        }),
{
    reveal(ExecView::apply);
    match a {
        RuleActionView::ConfirmDialog { .. } => {
            reveal(ExecView::confirm_dialog);
            reveal(ExecView::ensure_a_dialog);
            reveal(b_confirmed);
        },
        RuleActionView::UpdateLegState { .. } => {
            reveal(leg_updated);
        },
        RuleActionView::ResolveCancelledReinvite { .. } => {
            reveal(reinvite_resolved);
        },
        RuleActionView::CacheSdpOnLegDialog { .. } => {
            reveal(early_ensured);
            reveal(with_early_dialog);
            reveal(sdp_cached);
        },
        RuleActionView::RecordLimiterHolds { .. } => {
            reveal(with_holds);
        },
        RuleActionView::ClearPendingReinvite2xx => {
            reveal(reinvite_2xx_cleared);
        },
        RuleActionView::MergeCallExt { ext } => {
            extending_is_bookkeeping(w.call, ext);
        },
        _ => {},
    }
}

proof fn extending_is_bookkeeping(c: CallView, es: Seq<ExtEntryView>)
    ensures
        ({
            let d = with_exts(c, es);
            c == CallView { ext: c.ext, ..d }
        }),
    decreases es.len(),
{
    if es.len() > 0 {
        extending_is_bookkeeping(c, es.drop_last());
    }
}

// ── what is said of a turn ──────────────────────────────────────────────
/// A machine moved between two calls, as a report states it: from where it stood, or
/// from nowhere, to where it stands, or to its end.
pub open spec fn is_move(before: CallView, after: CallView, m: CursorMoveView) -> bool {
    let was = before.cursor(m.machine);
    let is = after.cursor(m.machine);
    &&& was != is
    &&& m.from == if was is Some {
        was->0
    } else {
        Seq::empty()
    }
    &&& m.to == if is is Some {
        is->0
    } else {
        "terminal"@
    }
}

proof fn a_listed_cursor_is_the_machines(s: Seq<CursorView>, i: int)
    requires
        in_order(s),
        0 <= i < s.len(),
    ensures
        find_where(s, cursor_named(s[i].machine)) == Some(s[i]),
{
    let p = cursor_named(s[i].machine);
    assert forall|j: int| 0 <= j < i implies !p(#[trigger] s[j]) by {
        assert(text_less(s[j].machine, s[i].machine));
        text_less_irreflexive(s[i].machine);
    }
    assert(is_first(s, p, i));
    first_where_is(s, p, i);
}

proof fn moved_are_moves(before: CallView, after: CallView, n: int)
    requires
        in_order(after.sm_cursors),
        0 <= n <= after.sm_cursors.len(),
    ensures
        ({
            let ms = moved(before, after.sm_cursors.take(n));
            &&& forall|i: int| 0 <= i < ms.len() ==> is_move(before, after, #[trigger] ms[i])
            &&& forall|j: int|
                0 <= j < n && before.cursor((#[trigger] after.sm_cursors[j]).machine) != Some(
                    after.sm_cursors[j].state,
                ) ==> exists|i: int|
                    0 <= i < ms.len() && (#[trigger] ms[i]).machine == after.sm_cursors[j].machine
        }),
    decreases n,
{
    if n > 0 {
        let cs = after.sm_cursors.take(n);
        let x = cs.last();
        assert(cs.drop_last() =~= after.sm_cursors.take(n - 1));
        moved_are_moves(before, after, n - 1);
        a_listed_cursor_is_the_machines(after.sm_cursors, n - 1);
        let was = moved(before, after.sm_cursors.take(n - 1));
        let ms = moved(before, cs);
        assert forall|i: int| 0 <= i < ms.len() implies is_move(
            before,
            after,
            #[trigger] ms[i],
        ) by {
            if i < was.len() {
                assert(ms[i] == was[i]);
            }
        }
        assert forall|j: int|
            0 <= j < n && before.cursor((#[trigger] after.sm_cursors[j]).machine) != Some(
                after.sm_cursors[j].state,
            ) implies exists|i: int|
            0 <= i < ms.len() && (#[trigger] ms[i]).machine == after.sm_cursors[j].machine by {
            if j < n - 1 {
                let i = choose|i: int|
                    0 <= i < was.len() && (#[trigger] was[i]).machine
                        == after.sm_cursors[j].machine;
                assert(ms[i] == was[i]);
            } else {
                assert(ms[was.len() as int].machine == x.machine);
            }
        }
    }
}

proof fn ended_are_moves(before: CallView, after: CallView, n: int)
    requires
        in_order(before.sm_cursors),
        0 <= n <= before.sm_cursors.len(),
    ensures
        ({
            let ms = deactivated(after, before.sm_cursors.take(n));
            &&& forall|i: int| 0 <= i < ms.len() ==> is_move(before, after, #[trigger] ms[i])
            &&& forall|j: int|
                0 <= j < n && after.cursor((#[trigger] before.sm_cursors[j]).machine) is None
                    ==> exists|i: int|
                    0 <= i < ms.len() && (#[trigger] ms[i]).machine == before.sm_cursors[j].machine
        }),
    decreases n,
{
    if n > 0 {
        let cs = before.sm_cursors.take(n);
        let x = cs.last();
        assert(cs.drop_last() =~= before.sm_cursors.take(n - 1));
        ended_are_moves(before, after, n - 1);
        a_listed_cursor_is_the_machines(before.sm_cursors, n - 1);
        let was = deactivated(after, before.sm_cursors.take(n - 1));
        let ms = deactivated(after, cs);
        assert forall|i: int| 0 <= i < ms.len() implies is_move(
            before,
            after,
            #[trigger] ms[i],
        ) by {
            if i < was.len() {
                assert(ms[i] == was[i]);
            }
        }
        assert forall|j: int|
            0 <= j < n && after.cursor((#[trigger] before.sm_cursors[j]).machine) is None
            implies exists|i: int|
            0 <= i < ms.len() && (#[trigger] ms[i]).machine == before.sm_cursors[j].machine by {
            if j < n - 1 {
                let i = choose|i: int|
                    0 <= i < was.len() && (#[trigger] was[i]).machine
                        == before.sm_cursors[j].machine;
                assert(ms[i] == was[i]);
            } else {
                assert(ms[was.len() as int].machine == x.machine);
            }
        }
    }
}

/// The report of a turn lists the machines that moved, every one of them and no
/// other, each with where it stood and where it stands.
pub proof fn a_report_lists_every_move(before: CallView, after: CallView, machine: Seq<char>)
    requires
        in_order(before.sm_cursors),
        in_order(after.sm_cursors),
    ensures
        ({
            let ms = moves_between(before, after);
            &&& forall|i: int| 0 <= i < ms.len() ==> is_move(before, after, #[trigger] ms[i])
            &&& before.cursor(machine) != after.cursor(machine) ==> exists|i: int|
                0 <= i < ms.len() && (#[trigger] ms[i]).machine == machine
        }),
{
    let a = moved(before, after.sm_cursors);
    let b = deactivated(after, before.sm_cursors);
    assert(after.sm_cursors.take(after.sm_cursors.len() as int) =~= after.sm_cursors);
    assert(before.sm_cursors.take(before.sm_cursors.len() as int) =~= before.sm_cursors);
    moved_are_moves(before, after, after.sm_cursors.len() as int);
    ended_are_moves(before, after, before.sm_cursors.len() as int);
    let ms = moves_between(before, after);
    assert(ms == a + b);
    assert forall|i: int| 0 <= i < ms.len() implies is_move(before, after, #[trigger] ms[i]) by {
        if i < a.len() {
            assert(ms[i] == a[i]);
        } else {
            assert(ms[i] == b[i - a.len()]);
        }
    }
    if before.cursor(machine) != after.cursor(machine) {
        first_where_found(after.sm_cursors, cursor_named(machine));
        first_where_found(before.sm_cursors, cursor_named(machine));
        if after.cursor(machine) is Some {
            let j = first_where(after.sm_cursors, cursor_named(machine))->0;
            assert(after.sm_cursors[j].machine == machine);
            let i = choose|i: int| 0 <= i < a.len() && (#[trigger] a[i]).machine == machine;
            assert(ms[i] == a[i]);
        } else {
            let j = first_where(before.sm_cursors, cursor_named(machine))->0;
            assert(before.sm_cursors[j].machine == machine);
            let i = choose|i: int| 0 <= i < b.len() && (#[trigger] b[i]).machine == machine;
            assert(ms[a.len() + i] == b[i]);
        }
    }
}

/// The report of a turn is of the rule that took it: its name, what it had to say,
/// and the state of the call before and after.
pub proof fn a_report_is_of_its_turn(
    x: ExecView,
    r: RuleDefinitionView,
    c: CallView,
    ctx: RuleContextView,
    ids: IdGenView,
)
    requires
        handled(r.handler, ctx) is Some,
    ensures
        ({
            let report = told(x, r, c, ctx, ids);
            let after = taken(x, r, c, ctx, ids).call;
            &&& report.rule_id == r.id
            &&& report.diagnostics == handled(r.handler, ctx)->0.diagnostics
            &&& report.state_before == c.state
            &&& report.state_after == after.state
            &&& report.moves == moves_between(c, after)
        }),
{
    reveal(told);
}

proof fn kinds_are_of_actions(r: RuleDefinitionView, actions: Seq<RuleActionView>, k: EffectKind)
    ensures
        undeclared_kinds(r, actions).contains(k) <==> exists|i: int|
            0 <= i < actions.len() && undeclared(r, #[trigger] actions[i]) && kind_of_action(
                actions[i],
            ) == k,
    decreases actions.len(),
{
    if actions.len() > 0 {
        let rest = actions.drop_last();
        let n = actions.len() - 1;
        kinds_are_of_actions(r, rest, k);
        let before = undeclared_kinds(r, rest);
        let all = undeclared_kinds(r, actions);
        if before.contains(k) {
            let i = choose|i: int|
                0 <= i < rest.len() && undeclared(r, #[trigger] rest[i]) && kind_of_action(rest[i])
                    == k;
            assert(actions[i] == rest[i]);
            let j = choose|j: int| 0 <= j < before.len() && before[j] == k;
            assert(all[j] == k);
        }
        if all.contains(k) && !before.contains(k) {
            let j = choose|j: int| 0 <= j < all.len() && all[j] == k;
            assert(j < before.len() ==> before[j] == k);
            assert(undeclared(r, actions[n]));
        }
        if exists|i: int|
            0 <= i < actions.len() && undeclared(r, #[trigger] actions[i]) && kind_of_action(
                actions[i],
            ) == k {
            let i = choose|i: int|
                0 <= i < actions.len() && undeclared(r, #[trigger] actions[i]) && kind_of_action(
                    actions[i],
                ) == k;
            if i < n {
                assert(rest[i] == actions[i]);
            } else {
                assert(all[before.len() as int] == k);
            }
        }
    }
}

/// A rule of a machine that does what it did not declare is reported for it, by the
/// category, and a rule that keeps to what it declares never is.
pub proof fn a_report_lists_what_was_not_declared(
    x: ExecView,
    r: RuleDefinitionView,
    c: CallView,
    ctx: RuleContextView,
    ids: IdGenView,
    k: EffectKind,
)
    requires
        handled(r.handler, ctx) is Some,
    ensures
        told(x, r, c, ctx, ids).undeclared_effects.contains(k) <==> {
            &&& r.machine is Some
            &&& k != EffectKind::Bookkeeping
            &&& forall|j: int|
                0 <= j < r.effects.len() ==> kind_of_effect(#[trigger] r.effects[j]) != k
            &&& exists|i: int|
                0 <= i < handled(r.handler, ctx)->0.actions.len() && kind_of_action(
                    #[trigger] handled(r.handler, ctx)->0.actions[i],
                ) == k
        },
{
    reveal(told);
    let actions = handled(r.handler, ctx)->0.actions;
    kinds_are_of_actions(r, actions, k);
    if declares(r, k) {
        let j = choose|j: int| 0 <= j < r.effects.len() && kind_of_effect(#[trigger] r.effects[j]) == k;
    }
}

// ── the end of a call ───────────────────────────────────────────────────
/// A caller that a turn leaves without an answer, though the call ends with it, is
/// refused: once, under the tag it was shown, and the record says so.
pub proof fn a_forgotten_caller_is_refused(
    before: CallView,
    r: HandlerResultView,
    now_ms: i64,
)
    requires
        before.state != CallModelState::Terminated,
        r.call.state == CallModelState::Terminated,
        before.a_leg.state == LegState::Trying || before.a_leg.state == LegState::Early,
        r.call.a_leg_invite.headers.len() > 0,
        forall|i: int|
            0 <= i < r.effects.outbound.len() ==> !{
                let e = #[trigger] r.effects.outbound[i];
                &&& e.leg_id == Some(before.a_leg.leg_id)
                &&& e.body is Response
                &&& e.body->Response_response.status >= 200
            },
        forall|i: int|
            0 <= i < r.call.cdr_events.len() ==> !{
                let e = #[trigger] r.call.cdr_events[i];
                &&& e.event_type == CdrEventType::Cancel
                &&& e.leg_id == before.a_leg.leg_id
            },
    ensures
        ({
            let s = enforced(before, r, now_ms, true);
            let e = s.effects.outbound.last();
            let sent = e.body->Response_response;
            let shown = if r.call.a_leg.dialogs.len() > 0 {
                r.call.a_leg.dialogs[0].sip.local_tag
            } else {
                Seq::empty()
            };
            let noted = s.call.cdr_events.last();
            &&& s.effects.outbound == r.effects.outbound.push(e)
            &&& e.leg_id == Some(before.a_leg.leg_id)
            &&& e.mode == TxnMode::ServerResponse
            &&& e.destination == DestinationView::TopVia
            &&& e.provenance == Provenance::Authored
            &&& e.body is Response
            &&& sent.status == 503
            &&& sent.reason == "Service Unavailable"@
            &&& sent.answers == AnswersView::ALegInvite
            &&& sent.method == MethodView::Invite
            &&& sent.cseq == r.call.a_leg_invite.cseq
            &&& shown.len() > 0 ==> sent.to_tag == Some(shown)
            &&& shown.len() == 0 ==> sent.to_tag is None
            &&& sent.body.len() == 0
            &&& sent.content_type is None
            &&& sent.headers.len() == 0
            &&& sent.redirects.len() == 0
            &&& !sent.contact
            &&& sent.emergency == (r.call.emergency == Some(true))
            &&& s.call.cdr_events == r.call.cdr_events.push(noted)
            &&& noted.event_type == CdrEventType::Reject
            &&& noted.timestamp == now_ms
            &&& noted.leg_id == before.a_leg.leg_id
            &&& noted.status_code == Some(503i64)
            &&& noted.reason == Some("unanswered_at_termination"@)
        }),
{
    reveal(enforced);
    let a = before.a_leg.leg_id;
    if any_where(r.effects.outbound, is_final_to(a)) {
        let i = choose|i: int|
            0 <= i < r.effects.outbound.len() && is_final_to(a)(#[trigger] r.effects.outbound[i]);
        assert(r.effects.outbound[i].leg_id == Some(a));
    }
    if any_where(r.call.cdr_events, is_caller_cancel(a)) {
        let i = choose|i: int|
            0 <= i < r.call.cdr_events.len() && is_caller_cancel(a)(
                #[trigger] r.call.cdr_events[i],
            );
        assert(r.call.cdr_events[i].leg_id == a);
    }
}

/// A call's end gives back each slot it held, by its own name and of its own window.
pub proof fn a_slot_is_given_back(
    before: CallView,
    r: HandlerResultView,
    now_ms: i64,
    answer: bool,
    slot: int,
)
    requires
        before.state != CallModelState::Terminated,
        r.call.state == CallModelState::Terminated,
        0 <= slot < r.call.limiter_entries.len(),
        r.call.limiter_entries[slot].increment_succeeded,
    ensures
        enforced(before, r, now_ms, answer).effects.critical.contains(
            CriticalEffectView::DecrementLimiter {
                limiter_id: r.call.limiter_entries[slot].limiter_id,
                window: r.call.limiter_entries[slot].origin_window,
            },
        ),
{
    an_ended_call_is_cleaned_up(before, r, now_ms, answer, slot);
}

/// What the machines of a call show at the end of a turn.
pub proof fn a_machine_shows_its_state(r: HandlerResultView)
    ensures
        ({
            let c = finalized(r).call;
            &&& c.state == CallModelState::Active ==> c.cursor("global-call"@) == Some("Active"@)
            &&& c.state == CallModelState::Terminating ==> c.cursor("global-call"@) == Some(
                "Terminating"@,
            )
            &&& c.state == CallModelState::Terminated ==> c.cursor("global-call"@) == Some(
                "Terminated"@,
            )
        }),
{
    cursors_show_the_call(r, Seq::empty());
}

// ── a turn and its actions ──────────────────────────────────────────────
/// The actions of a turn are taken one after the other, each on what the one before
/// it left.
pub proof fn actions_are_taken_in_order(
    x: ExecView,
    w: WorkView,
    ctx: RuleContextView,
    before: Seq<RuleActionView>,
    a: RuleActionView,
)
    ensures
        x.apply_all(w, Seq::empty(), ctx) == w,
        x.apply_all(w, before.push(a), ctx) == x.apply(x.apply_all(w, before, ctx), a, ctx),
{
    assert(before.push(a).drop_last() =~= before);
}

/// A turn starts from the call as it is and sends what its actions send; only the
/// final of a caller that would else wait for ever may follow.
pub proof fn a_turn_is_what_its_actions_did(
    x: ExecView,
    r: RuleDefinitionView,
    c: CallView,
    ctx: RuleContextView,
    ids: IdGenView,
)
    requires
        handled(r.handler, ctx) is Some,
    ensures
        ({
            let none = HandlerEffectsView {
                outbound: Seq::empty(),
                critical: Seq::empty(),
                fire_and_forget: Seq::empty(),
            };
            let w = x.apply_all(
                WorkView { call: c, fx: none, ids },
                handled(r.handler, ctx)->0.actions,
                ctx,
            );
            let t = taken(x, r, c, ctx, ids);
            let n = w.fx.outbound.len() as int;
            let over = w.call.state == CallModelState::Terminated || (w.call.state
                == CallModelState::Terminating && fully_resolved(w.call));
            &&& n <= t.effects.outbound.len() <= n + 1
            &&& t.effects.outbound.take(n) == w.fx.outbound
            &&& t.effects.fire_and_forget == w.fx.fire_and_forget
            &&& t.call.a_leg == w.call.a_leg
            &&& t.call.b_legs == w.call.b_legs
            &&& t.call.tag_map == w.call.tag_map
            &&& t.call.active_peer == w.call.active_peer
            &&& t.call.transfer == w.call.transfer
            &&& t.call.features == w.call.features
            &&& over ==> t.call.state == CallModelState::Terminated
            &&& !over ==> {
                &&& t.call.state == w.call.state
                &&& t.effects.outbound == w.fx.outbound
                &&& t.effects.critical == w.fx.critical
                &&& t.call.timers == w.call.timers
                &&& t.call.cdr_events == w.call.cdr_events
            }
        }),
{
    reveal(taken);
    reveal(enforced);
    reveal(finalized);
    let t = taken(x, r, c, ctx, ids);
    let w = acted(x, r, c, ctx, ids);
    let n = w.fx.outbound.len() as int;
    assert(t.effects.outbound.take(n) =~= w.fx.outbound);
}

/// A leg holds a terminating call up until its BYE or its CANCEL is settled; one that
/// never went further than its INVITE holds nothing up.
pub proof fn a_leg_holds_its_call_up(l: LegView)
    ensures
        leg_resolved(l) <==> {
            &&& l.disposition != LegDisposition::Cancelling
            &&& l.bye_disposition != Some(ByeDisposition::ByeSent)
            &&& l.bye_disposition is None ==> l.state == LegState::Trying
        },
{
}

} // verus!
