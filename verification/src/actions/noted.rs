//! What the actions that only change the call change of it, and what they ask of
//! others.
use vstd::prelude::*;

use crate::action::RuleActionView;
use crate::actions::dialog_track::{early_ensured, tracks, with_early_dialog};
use crate::actions::dispatch::{
    answer_repeated, ext_not_named, leg_updated, reinvite_2xx_cleared, reinvite_answer_repeated,
    reinvite_resolved, sdp_cached, timer_cancelled, timers_cancelled, with_ext, with_exts,
    with_holds,
};
use crate::actions::select::pending_dialog;
use crate::actions::stated::kept_exactly;
use crate::actions::{ExecView, WorkView};
use crate::call::{
    CallView, CdrEventType, DialogExtView, DialogView, EmissionView, ExtEntryView,
    FeatureActivationsView, LegDisposition, LegState, LegView, LimiterHoldView, PendingRequestView,
    PromotePemStateView, ReleaseEventKind, TagMappingView, TimerEntryView, TimerTypeView,
    TransferStateView,
};
use crate::effects::{
    CriticalEffectView, FailureRequestView, FireAndForgetView, OutboundBodyView, OutboundSipView,
    Provenance, ReferRequestView, ReleaseRequestView, ServiceRequestView, TxnMode,
};
use crate::json::{Node, root};
use crate::lens::{
    dialog_named, dialog_of_with_dialog, dialog_toward, identity_tag, leg_of_with_leg,
    not_pending_under, other_leg_of_with_leg, timer_not_named,
};
use crate::model::RuleContextView;
use crate::seqs::{find_where_push, first_where, first_where_found, keep, keep_sound};
use crate::state::{mapping_of_a, mapping_of_b};
use crate::wire::SipHeaderView;

verus! {

/// The call changed, and nothing was sent, asked or armed for it.
pub open spec fn changes_the_call_alone(before: WorkView, after: WorkView) -> bool {
    &&& after.fx == before.fx
    &&& after.ids == before.ids
}

/// What an action notes on a call is what it is given, and nothing else of the call
/// changes.
pub proof fn a_note_holds_what_it_is_given(
    x: ExecView,
    w: WorkView,
    ctx: RuleContextView,
    transfer: Option<TransferStateView>,
    reroute: Option<Seq<char>>,
    promotion: Option<PromotePemStateView>,
    features: FeatureActivationsView,
    body: Seq<u8>,
    events: Seq<ReleaseEventKind>,
    headers: Seq<SipHeaderView>,
)
    ensures
        ({
            let r = x.apply(w, RuleActionView::SetTransfer { state: transfer }, ctx);
            &&& changes_the_call_alone(w, r)
            &&& r.call.transfer == transfer
            &&& w.call == CallView { transfer: w.call.transfer, ..r.call }
        }),
        ({
            let r = x.apply(w, RuleActionView::SetReroute { state: reroute }, ctx);
            &&& changes_the_call_alone(w, r)
            &&& r.call.reroute == reroute
            &&& w.call == CallView { reroute: w.call.reroute, ..r.call }
        }),
        ({
            let r = x.apply(w, RuleActionView::SetPromotePem { state: promotion }, ctx);
            &&& changes_the_call_alone(w, r)
            &&& r.call.promote_pem == promotion
            &&& w.call == CallView { promote_pem: w.call.promote_pem, ..r.call }
        }),
        ({
            let r = x.apply(w, RuleActionView::SetFeatures { features }, ctx);
            &&& changes_the_call_alone(w, r)
            &&& r.call.features == Some(features)
            &&& w.call == CallView { features: w.call.features, ..r.call }
        }),
        ({
            let r = x.apply(w, RuleActionView::SetPolicyUpdateBody { body }, ctx);
            &&& changes_the_call_alone(w, r)
            &&& r.call.policy_update_body == Some(body)
            &&& w.call == CallView { policy_update_body: w.call.policy_update_body, ..r.call }
        }),
        ({
            let r = x.apply(w, RuleActionView::SetSubscriptions { events }, ctx);
            &&& changes_the_call_alone(w, r)
            &&& r.call.subscriptions == events
            &&& w.call == CallView { subscriptions: w.call.subscriptions, ..r.call }
        }),
        ({
            let r = x.apply(w, RuleActionView::SetFailureHeaders { headers }, ctx);
            &&& changes_the_call_alone(w, r)
            &&& r.call.failure_headers == headers
            &&& w.call == CallView { failure_headers: w.call.failure_headers, ..r.call }
        }),
{
    reveal(ExecView::apply);
}

/// What is asked of an outside service is asked once, as the action states it, and
/// for this call.
pub proof fn a_consult_goes_out_as_given(
    x: ExecView,
    w: WorkView,
    ctx: RuleContextView,
    refer: ReferRequestView,
    service: ServiceRequestView,
    failure: FailureRequestView,
    release: ReleaseRequestView,
)
    ensures
        ({
            let r = x.apply(w, RuleActionView::ReferAsyncHttp { request: refer }, ctx);
            &&& r.call == w.call
            &&& r.ids == w.ids
            &&& r.fx.outbound == w.fx.outbound
            &&& r.fx.critical == w.fx.critical
            &&& r.fx.fire_and_forget == w.fx.fire_and_forget.push(
                FireAndForgetView::Refer { call_ref: w.call.call_ref, request: refer },
            )
        }),
        ({
            let r = x.apply(w, RuleActionView::ServiceHttpRequest { request: service }, ctx);
            &&& r.call == w.call
            &&& r.ids == w.ids
            &&& r.fx.outbound == w.fx.outbound
            &&& r.fx.critical == w.fx.critical
            &&& r.fx.fire_and_forget == w.fx.fire_and_forget.push(
                FireAndForgetView::Service { call_ref: w.call.call_ref, request: service },
            )
        }),
        ({
            let r = x.apply(w, RuleActionView::FailureAsyncHttp { request: failure }, ctx);
            &&& r.call == w.call
            &&& r.ids == w.ids
            &&& r.fx.outbound == w.fx.outbound
            &&& r.fx.critical == w.fx.critical
            &&& r.fx.fire_and_forget == w.fx.fire_and_forget.push(
                FireAndForgetView::Failure { call_ref: w.call.call_ref, request: failure },
            )
        }),
        ({
            let r = x.apply(w, RuleActionView::ReleaseAsyncHttp { request: release }, ctx);
            &&& r.call == w.call
            &&& r.ids == w.ids
            &&& r.fx.outbound == w.fx.outbound
            &&& r.fx.critical == w.fx.critical
            &&& r.fx.fire_and_forget == w.fx.fire_and_forget.push(
                FireAndForgetView::Release { call_ref: w.call.call_ref, request: release },
            )
        }),
{
    reveal(ExecView::apply);
}

/// The call's own record grows by the entry the action states, of the moment it is
/// made in.
pub proof fn the_record_states_what_happened(
    x: ExecView,
    w: WorkView,
    ctx: RuleContextView,
    event_type: CdrEventType,
    leg_id: Seq<char>,
    status_code: Option<i64>,
    reason: Option<Seq<char>>,
)
    ensures
        ({
            let r = x.apply(
                w,
                RuleActionView::AddCdrEvent { event_type, leg_id, status_code, reason },
                ctx,
            );
            let e = r.call.cdr_events.last();
            &&& changes_the_call_alone(w, r)
            &&& r.call.cdr_events == w.call.cdr_events.push(e)
            &&& w.call == CallView { cdr_events: w.call.cdr_events, ..r.call }
            &&& e.event_type == event_type
            &&& e.timestamp == x.now_ms
            &&& e.leg_id == leg_id
            &&& e.status_code == status_code
            &&& e.reason == reason
            &&& e.decision_ordinal == 0
        }),
{
    reveal(ExecView::apply);
}

/// Two legs bridged are each other's peer; a leg split from its bridge has none, and
/// a bridge it takes no part in stands.
pub proof fn a_bridge_joins_and_a_split_parts(
    x: ExecView,
    w: WorkView,
    ctx: RuleContextView,
    leg_a: Seq<char>,
    leg_b: Seq<char>,
    other: Seq<char>,
)
    requires
        leg_a != leg_b,
        other != leg_a,
        other != leg_b,
    ensures
        ({
            let r = x.apply(w, RuleActionView::Merge { leg_a, leg_b }, ctx);
            let apart = x.apply(r, RuleActionView::Split { leg_id: leg_a }, ctx);
            let parted = x.apply(r, RuleActionView::Split { leg_id: leg_b }, ctx);
            &&& changes_the_call_alone(w, r)
            &&& w.call == CallView { active_peer: w.call.active_peer, ..r.call }
            &&& r.call.peer(leg_a) == Some(leg_b)
            &&& r.call.peer(leg_b) == Some(leg_a)
            &&& r.call.peer(other) is None
            &&& changes_the_call_alone(r, apart)
            &&& changes_the_call_alone(r, parted)
            &&& apart.call == CallView { active_peer: None, ..r.call }
            &&& parted.call == CallView { active_peer: None, ..r.call }
            &&& x.apply(r, RuleActionView::Split { leg_id: other }, ctx) == r
        }),
{
    reveal(ExecView::apply);
}

/// A tag shown to the caller is found from either side, unless an earlier one stands
/// for the same.
pub proof fn a_shown_tag_is_found(
    x: ExecView,
    w: WorkView,
    ctx: RuleContextView,
    mapping: TagMappingView,
)
    ensures
        ({
            let r = x.apply(w, RuleActionView::AddTagMapping { mapping }, ctx);
            &&& changes_the_call_alone(w, r)
            &&& r.call.tag_map == w.call.tag_map.push(mapping)
            &&& w.call == CallView { tag_map: w.call.tag_map, ..r.call }
            &&& w.call.by_a_tag(mapping.a_tag) is None ==> r.call.by_a_tag(mapping.a_tag) == Some(
                mapping,
            )
            &&& w.call.by_b_tag(mapping.b_leg_id, mapping.b_tag) is None ==> r.call.by_b_tag(
                mapping.b_leg_id,
                mapping.b_tag,
            ) == Some(mapping)
        }),
{
    reveal(ExecView::apply);
    find_where_push(w.call.tag_map, mapping, mapping_of_a(mapping.a_tag));
    find_where_push(w.call.tag_map, mapping, mapping_of_b(mapping.b_leg_id, mapping.b_tag));
}

/// A rule switched off is off, and switching it off again changes nothing.
pub proof fn a_rule_is_switched_off_once(
    x: ExecView,
    w: WorkView,
    ctx: RuleContextView,
    rule_id: Seq<char>,
    other: Seq<char>,
)
    requires
        other != rule_id,
    ensures
        ({
            let off = RuleActionView::DeactivateRule { rule_id };
            let r = x.apply(w, off, ctx);
            &&& changes_the_call_alone(w, r)
            &&& w.call == CallView { deactivated_rules: w.call.deactivated_rules, ..r.call }
            &&& r.call.deactivated_rules.contains(rule_id)
            &&& r.call.deactivated_rules.contains(other) <==> w.call.deactivated_rules.contains(
                other,
            )
            &&& x.apply(r, off, ctx) == r
        }),
{
    reveal(ExecView::apply);
    let was = w.call.deactivated_rules;
    let r = x.apply(w, RuleActionView::DeactivateRule { rule_id }, ctx);
    if !was.contains(rule_id) {
        assert(r.call.deactivated_rules == was.push(rule_id));
        assert(was.push(rule_id)[was.len() as int] == rule_id);
        if was.contains(other) {
            let i = choose|i: int| 0 <= i < was.len() && was[i] == other;
            assert(was.push(rule_id)[i] == other);
        }
    }
}

/// A timer that a rule arms is of the kind it names, fires that many seconds from
/// now, and is told to the driver as it stands on the ledger.
pub proof fn a_timer_fires_when_asked(
    x: ExecView,
    w: WorkView,
    ctx: RuleContextView,
    timer_type: TimerTypeView,
    delay_sec: i64,
    leg_id: Option<Seq<char>>,
)
    ensures
        ({
            let r = x.apply(
                w,
                RuleActionView::ScheduleTimer { timer_type, delay_sec, leg_id },
                ctx,
            );
            let e = r.call.timers.last();
            let at = x.now_ms + delay_sec * 1000;
            &&& r.call.timers.len() > 0
            &&& e.timer_type == timer_type
            &&& e.leg_id == leg_id
            &&& i64::MIN <= delay_sec * 1000 <= i64::MAX && i64::MIN <= at <= i64::MAX
                && !(timer_type is Keepalive) ==> e.fire_at == at
            &&& r.fx.critical == w.fx.critical.push(CriticalEffectView::ScheduleTimer { entry: e })
            &&& r.fx.outbound == w.fx.outbound
            &&& r.fx.fire_and_forget == w.fx.fire_and_forget
            &&& r.ids == w.ids
            &&& w.call == CallView { timers: w.call.timers, ..r.call }
            &&& forall|t: TimerEntryView| #[trigger]
                w.call.timers.contains(t) && t.id != e.id ==> r.call.timers.contains(t)
            &&& forall|i: int|
                0 <= i < r.call.timers.len() - 1 ==> (#[trigger] r.call.timers[i]).id != e.id
        }),
{
    reveal(ExecView::apply);
    reveal(ExecView::schedule);
    let r = x.apply(w, RuleActionView::ScheduleTimer { timer_type, delay_sec, leg_id }, ctx);
    let e = r.call.timers.last();
    let p = timer_not_named(e.id);
    let kept = keep(w.call.timers, p);
    keep_sound(w.call.timers, p);
    assert(r.call.timers == kept.push(e));
    assert forall|t: TimerEntryView| #[trigger]
        w.call.timers.contains(t) && t.id != e.id implies r.call.timers.contains(t) by {
        kept_exactly(w.call.timers, p, t);
        let i = choose|i: int| 0 <= i < kept.len() && kept[i] == t;
        assert(kept.push(e)[i] == t);
    }
    assert forall|i: int| 0 <= i < r.call.timers.len() - 1 implies (#[trigger] r.call.timers[i]).id
        != e.id by {
        assert(r.call.timers[i] == kept[i]);
    }
}

/// A timer cancelled is off the ledger and off the driver, and no other is.
pub proof fn a_cancelled_timer_never_fires(
    x: ExecView,
    w: WorkView,
    ctx: RuleContextView,
    id: Seq<char>,
)
    ensures
        ({
            let r = x.apply(w, RuleActionView::CancelTimer { id }, ctx);
            &&& w.call == CallView { timers: w.call.timers, ..r.call }
            &&& forall|t: TimerEntryView| #[trigger]
                r.call.timers.contains(t) <==> w.call.timers.contains(t) && t.id != id
            &&& r.fx.critical == w.fx.critical.push(CriticalEffectView::CancelTimer { id })
            &&& r.fx.outbound == w.fx.outbound
            &&& r.fx.fire_and_forget == w.fx.fire_and_forget
            &&& r.ids == w.ids
        }),
        ({
            let r = x.apply(w, RuleActionView::CancelAllTimers, ctx);
            &&& w.call == CallView { timers: w.call.timers, ..r.call }
            &&& r.call.timers.len() == 0
            &&& r.fx.critical == w.fx.critical.push(CriticalEffectView::CancelAllTimers)
            &&& r.fx.outbound == w.fx.outbound
            &&& r.fx.fire_and_forget == w.fx.fire_and_forget
            &&& r.ids == w.ids
        }),
{
    reveal(ExecView::apply);
    reveal(timer_cancelled);
    reveal(timers_cancelled);
    let r = x.apply(w, RuleActionView::CancelTimer { id }, ctx);
    assert forall|t: TimerEntryView| #[trigger]
        r.call.timers.contains(t) <==> w.call.timers.contains(t) && t.id != id by {
        kept_exactly(w.call.timers, timer_not_named(id), t);
    }
}

/// A leg put in another state is in it, with the disposition that is given and its
/// own where none is; nothing else of it changes, nor any other leg.
pub proof fn a_leg_stands_as_told(
    x: ExecView,
    w: WorkView,
    ctx: RuleContextView,
    leg_id: Seq<char>,
    state: LegState,
    disposition: Option<LegDisposition>,
    l: LegView,
    other: Seq<char>,
)
    requires
        w.call.leg(leg_id) == Some(l),
        l.leg_id == leg_id,
        other != leg_id,
    ensures
        ({
            let r = x.apply(
                w,
                RuleActionView::UpdateLegState { leg_id, state, disposition },
                ctx,
            );
            &&& changes_the_call_alone(w, r)
            &&& r.call.leg(leg_id) == Some(
                LegView {
                    state,
                    disposition: if disposition is Some {
                        disposition->0
                    } else {
                        l.disposition
                    },
                    ..l
                },
            )
            &&& r.call.leg(other) == w.call.leg(other)
        }),
{
    reveal(ExecView::apply);
    reveal(leg_updated);
    let l1 = LegView { state, ..l };
    leg_of_with_leg(w.call, leg_id, l1);
    other_leg_of_with_leg(w.call, leg_id, l1, other);
    if let Some(d) = disposition {
        let c1 = w.call.with_leg(leg_id, l1);
        leg_of_with_leg(c1, leg_id, LegView { disposition: d, ..l1 });
        other_leg_of_with_leg(c1, leg_id, LegView { disposition: d, ..l1 }, other);
    }
}

/// The capacity a call holds grows by the slots it was granted, each of the window
/// they were granted in.
pub proof fn slots_are_held_as_granted(
    x: ExecView,
    w: WorkView,
    ctx: RuleContextView,
    entries: Seq<LimiterHoldView>,
    window: i64,
)
    ensures
        ({
            let r = x.apply(w, RuleActionView::RecordLimiterHolds { entries, window }, ctx);
            let n = w.call.limiter_entries.len();
            &&& changes_the_call_alone(w, r)
            &&& w.call == CallView { limiter_entries: w.call.limiter_entries, ..r.call }
            &&& r.call.limiter_entries.len() == n + entries.len()
            &&& forall|i: int|
                0 <= i < n ==> (#[trigger] r.call.limiter_entries[i]) == w.call.limiter_entries[i]
            &&& forall|i: int|
                0 <= i < entries.len() ==> {
                    let h = r.call.limiter_entries[n + i];
                    &&& h.limiter_id == (#[trigger] entries[i]).limiter_id
                    &&& h.limit == entries[i].limit
                    &&& h.origin_window == window
                    &&& h.increment_succeeded
                }
        }),
{
    reveal(ExecView::apply);
    reveal(with_holds);
}

/// What a service keeps with a call: the value it set last, and nothing once that is
/// null. What no entry names stays.
pub proof fn a_service_keeps_its_last_value(
    x: ExecView,
    w: WorkView,
    ctx: RuleContextView,
    ext: Seq<ExtEntryView>,
    e: ExtEntryView,
)
    ensures
        ({
            let r = x.apply(w, RuleActionView::MergeCallExt { ext: ext.push(e) }, ctx);
            &&& changes_the_call_alone(w, r)
            &&& w.call == CallView { ext: w.call.ext, ..r.call }
            &&& forall|f: ExtEntryView| #[trigger]
                r.call.ext.contains(f) && f.service_id == e.service_id <==> f == e && root(e.value)
                    != Node::Null
        }),
        ({
            let r = x.apply(w, RuleActionView::MergeCallExt { ext }, ctx);
            forall|f: ExtEntryView|
                (forall|i: int| 0 <= i < ext.len() ==> (#[trigger] ext[i]).service_id
                    != f.service_id) ==> (#[trigger] r.call.ext.contains(f)
                    <==> w.call.ext.contains(f))
        }),
{
    reveal(ExecView::apply);
    let all = ext.push(e);
    assert(all.drop_last() =~= ext);
    let c1 = with_exts(w.call, ext);
    unnamed_stays(w.call, ext);
    let p = ext_not_named(e.service_id);
    let rest = keep(c1.ext, p);
    let r = x.apply(w, RuleActionView::MergeCallExt { ext: all }, ctx);
    assert(r.call == with_ext(c1, e));
    assert forall|f: ExtEntryView| #[trigger]
        r.call.ext.contains(f) && f.service_id == e.service_id <==> f == e && root(e.value)
            != Node::Null by {
        kept_exactly(c1.ext, p, f);
        if root(e.value) != Node::Null {
            assert(rest.push(e)[rest.len() as int] == e);
            if rest.push(e).contains(f) && f != e {
                let i = choose|i: int| 0 <= i < rest.push(e).len() && rest.push(e)[i] == f;
                assert(rest[i] == f);
            }
        }
    }
}

proof fn unnamed_stays(c: CallView, es: Seq<ExtEntryView>)
    ensures
        c == (CallView { ext: c.ext, ..with_exts(c, es) }),
        forall|f: ExtEntryView|
            (forall|i: int| 0 <= i < es.len() ==> (#[trigger] es[i]).service_id != f.service_id)
                ==> (#[trigger] with_exts(c, es).ext.contains(f) <==> c.ext.contains(f)),
    decreases es.len(),
{
    if es.len() > 0 {
        let ds = es.drop_last();
        let e = es.last();
        unnamed_stays(c, ds);
        let was = with_exts(c, ds).ext;
        let p = ext_not_named(e.service_id);
        let rest = keep(was, p);
        let now = with_exts(c, es).ext;
        assert forall|f: ExtEntryView|
            (forall|i: int| 0 <= i < es.len() ==> (#[trigger] es[i]).service_id
                != f.service_id) implies (#[trigger] with_exts(c, es).ext.contains(f)
            <==> c.ext.contains(f)) by {
            assert forall|i: int| 0 <= i < ds.len() implies (#[trigger] ds[i]).service_id
                != f.service_id by {
                assert(ds[i] == es[i]);
            }
            assert(es[es.len() - 1] == e);
            assert(with_exts(c, ds).ext.contains(f) <==> c.ext.contains(f));
            kept_exactly(was, p, f);
            if root(e.value) != Node::Null {
                assert(now == rest.push(e));
                if rest.contains(f) {
                    let i = choose|i: int| 0 <= i < rest.len() && rest[i] == f;
                    assert(now[i] == f);
                }
                if now.contains(f) {
                    let i = choose|i: int| 0 <= i < now.len() && now[i] == f;
                    assert(rest[i] == f);
                }
            }
        }
    }
}

/// The answer this stack retains for the caller goes out again as it went out
/// first: the same response, to the same place, past any transaction.
pub proof fn a_retained_answer_goes_out_again(x: ExecView, w: WorkView, ctx: RuleContextView)
    requires
        w.call.a_leg.dialogs.len() > 0,
    ensures
        ({
            let d = w.call.a_leg.dialogs[0].ext;
            let r = x.apply(w, RuleActionView::RetransmitALeg2xx, ctx);
            let s = x.apply(w, RuleActionView::RetransmitALegReinvite2xx, ctx);
            let t = x.apply(w, RuleActionView::ClearPendingReinvite2xx, ctx);
            &&& d.answered_2xx is Some ==> {
                &&& r.fx.outbound == w.fx.outbound.push(r.fx.outbound.last())
                &&& repeats(r.fx.outbound.last(), d.answered_2xx->0.emission, w.call.a_leg.leg_id)
                &&& r.call == w.call
                &&& r.ids == w.ids
                &&& r.fx.critical == w.fx.critical
            }
            &&& d.answered_2xx is None ==> r == w
            &&& d.pending_reinvite_2xx is Some ==> {
                &&& s.fx.outbound == w.fx.outbound.push(s.fx.outbound.last())
                &&& repeats(
                    s.fx.outbound.last(),
                    d.pending_reinvite_2xx->0.emission,
                    w.call.a_leg.leg_id,
                )
                &&& s.call == w.call
                &&& s.ids == w.ids
                &&& s.fx.critical == w.fx.critical
            }
            &&& d.pending_reinvite_2xx is None ==> s == w
            &&& changes_the_call_alone(w, t)
            &&& t.call.a_leg.dialogs.len() == w.call.a_leg.dialogs.len()
            &&& t.call.a_leg.dialogs[0].sip == w.call.a_leg.dialogs[0].sip
            &&& t.call.a_leg.dialogs[0].ext == DialogExtView { pending_reinvite_2xx: None, ..d }
            &&& w.call == CallView { a_leg: w.call.a_leg, ..t.call }
            &&& w.call.a_leg == LegView { dialogs: w.call.a_leg.dialogs, ..t.call.a_leg }
        }),
{
    reveal(ExecView::apply);
    reveal(answer_repeated);
    reveal(reinvite_answer_repeated);
    reveal(reinvite_2xx_cleared);
}

/// A retained response once more, just as it is retained.
pub open spec fn repeats(e: OutboundSipView, kept: EmissionView, leg_id: Seq<char>) -> bool {
    &&& e.body == OutboundBodyView::Repeat { response: kept.response }
    &&& e.mode == TxnMode::Raw
    &&& e.destination == kept.destination
    &&& e.leg_id == Some(leg_id)
    &&& e.provenance == Provenance::Authored
}

/// A description kept for a callee is the one given, on the dialog named, and
/// nothing else of that dialog changes.
pub proof fn a_description_is_kept_as_given(
    x: ExecView,
    w: WorkView,
    ctx: RuleContextView,
    leg_id: Seq<char>,
    b_tag: Seq<char>,
    body: Seq<u8>,
    d: DialogView,
)
    requires
        leg_id != "a"@,
        leg_id != w.call.a_leg.leg_id,
        w.call.dialog(leg_id, b_tag) == Some(d),
    ensures
        ({
            let r = x.apply(w, RuleActionView::CacheSdpOnLegDialog { leg_id, b_tag, body }, ctx);
            &&& changes_the_call_alone(w, r)
            &&& r.call.dialog(leg_id, b_tag) == Some(
                DialogView { ext: DialogExtView { cached_sdp: Some(body), ..d.ext }, ..d },
            )
        }),
{
    reveal(ExecView::apply);
    reveal(early_ensured);
    reveal(with_early_dialog);
    reveal(sdp_cached);
    let l = w.call.leg(leg_id)->0;
    first_where_found(l.dialogs, dialog_named(leg_id, b_tag));
    let i = first_where(l.dialogs, dialog_named(leg_id, b_tag))->0;
    assert(dialog_toward(b_tag)(l.dialogs[i]));
    assert(tracks(w.call, leg_id, b_tag));
    dialog_of_with_dialog(w.call, leg_id, b_tag, d.with_cached_sdp(body));
}

/// A cancelled re-INVITE whose final came waits no longer; what else waits stays.
pub proof fn a_resolved_reinvite_waits_no_longer(
    x: ExecView,
    w: WorkView,
    ctx: RuleContextView,
    leg_id: Seq<char>,
    outbound_cseq: i64,
    d: DialogView,
)
    requires
        pending_dialog(w.call, leg_id, outbound_cseq) == Some(d),
        w.call.dialog(leg_id, identity_tag(leg_id, d)) == Some(d),
    ensures
        ({
            let r = x.apply(
                w,
                RuleActionView::ResolveCancelledReinvite { leg_id, outbound_cseq },
                ctx,
            );
            let after = r.call.dialog(leg_id, identity_tag(leg_id, d));
            &&& changes_the_call_alone(w, r)
            &&& after is Some
            &&& after->0.sip == d.sip
            &&& forall|p: PendingRequestView| #[trigger]
                after->0.ext.inbound_pending_requests.contains(p)
                    <==> d.ext.inbound_pending_requests.contains(p) && p.outbound_cseq
                    != outbound_cseq
        }),
{
    reveal(ExecView::apply);
    reveal(reinvite_resolved);
    dialog_of_with_dialog(
        w.call,
        leg_id,
        identity_tag(leg_id, d),
        d.without_pending(outbound_cseq),
    );
    let after = d.without_pending(outbound_cseq);
    assert forall|p: PendingRequestView| #[trigger]
        after.ext.inbound_pending_requests.contains(p)
            <==> d.ext.inbound_pending_requests.contains(p) && p.outbound_cseq != outbound_cseq by {
        kept_exactly(d.ext.inbound_pending_requests, not_pending_under(outbound_cseq), p);
    }
}

} // verus!
