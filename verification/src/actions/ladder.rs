//! The retransmission ladders this stack owns: a 2xx repeated until its ACK, a
//! reliable provisional until its PRACK. A ladder is armed under the
//! obligation that ends it; the same key repeats it, retires it, and names the
//! one give-up a rule sees.
use vstd::prelude::*;

use super::aftermath::{an_acknowledgement_discharges_once, rungs_are_keyed};
use crate::actions::{ActionExecutor, ExecView, Work, WorkView};
use crate::books::{
    advance_ladder, advanced, clear_retained, cleared, find_shown, first_ext, retained,
    retained_for, shown_as, with_first_ext, Scope, ScopeView, LADDER_BOUND_MS, T1_MS,
};
use crate::call::{
    Call, CallModelState, CallView, Destination, DestinationView, DialogExtView, Emission,
    EmissionView, LadderClass, LegState, Obligation, ObligationView, ResponsePlan, ResponsePlanView,
    TimerEntryView, TimerType, TimerTypeView, Unacked2xx, Unacked2xxView,
};
use crate::context::timer_key;
use crate::effects::{
    CriticalEffect, CriticalEffectView, OutboundBody, OutboundBodyView, OutboundSip,
    OutboundSipView, Provenance, TxnMode,
};
use crate::headers::{header, header_value};
use crate::lens::{find_leg, leg_mut, with_leg_same};
use crate::model::{CallEvent, CallEventView};
use crate::reliable::{
    face_of, face_shown, names_nothing, obligations, obligations_in, record_reliable_provisional_emission,
    recorded, tag_or_empty, tag_text, unacknowledgeable_rack,
};
use crate::routes::{rack_tokens, read_rack};
use crate::seqs::{find_where, opt_view, views};
use crate::state::remove_timer;
use crate::wire::{Method, MethodView};

verus! {

// ── keys ────────────────────────────────────────────────────────────────
/// The obligation a ladder timer carries.
pub open spec fn ladder_of(t: TimerTypeView) -> Option<ObligationView> {
    match t {
        TimerTypeView::Rung { obligation } => Some(obligation),
        TimerTypeView::RepeatGiveUp { obligation } => Some(obligation),
        _ => None,
    }
}

/// Whether two obligations are the same.
pub fn same_obligation(a: &Obligation, b: &Obligation) -> (r: bool)
    ensures
        r == (a@ == b@),
{
    match (a, b) {
        (
            Obligation::AckOf2xx { leg, dialog_tag, cseq },
            Obligation::AckOf2xx { leg: leg2, dialog_tag: tag2, cseq: cseq2 },
        ) => *leg == *leg2 && *dialog_tag == *tag2 && *cseq == *cseq2,
        (
            Obligation::PrackOf { a_tag, a_rseq },
            Obligation::PrackOf { a_tag: tag2, a_rseq: rseq2 },
        ) => *a_tag == *tag2 && *a_rseq == *rseq2,
        _ => false,
    }
}

fn among_obligations(list: &Vec<Obligation>, o: &Obligation) -> (r: bool)
    ensures
        r == views(list@).contains(o@),
{
    for i in 0..list.len()
        invariant
            forall|j: int| 0 <= j < i ==> list@[j]@ != o@,
    {
        if same_obligation(&list[i], o) {
            assert(views(list@)[i as int] == o@);
            return true;
        }
    }
    assert forall|j: int| 0 <= j < views(list@).len() implies views(list@)[j] != o@ by {
        assert(views(list@)[j] == list@[j]@);
    }
    false
}

/// `os` and every obligation that a timer still carries.
pub open spec fn with_timers(
    os: Seq<ObligationView>,
    ts: Seq<TimerEntryView>,
) -> Seq<ObligationView>
    decreases ts.len(),
{
    if ts.len() == 0 {
        os
    } else {
        let r = with_timers(os, ts.drop_last());
        match ladder_of(ts.last().timer_type) {
            Some(o) => if r.contains(o) {
                r
            } else {
                r.push(o)
            },
            None => r,
        }
    }
}

/// The ladders that ending a scope ends.
pub open spec fn ladders_in(c: CallView, s: ScopeView) -> Seq<ObligationView> {
    if s == ScopeView::Call {
        with_timers(obligations(c, s), c.timers)
    } else {
        obligations(c, s)
    }
}

// ── the turn, step by step ──────────────────────────────────────────────
/// One timer off the ledger, and off the driver where the ledger held it.
pub open spec fn scrub_timer(w: WorkView, t: TimerTypeView) -> WorkView {
    let id = timer_key(t, None);
    if w.call.has_timer(id) {
        w.on(w.call.without_timer(id)).critical(CriticalEffectView::CancelTimer { id })
    } else {
        w
    }
}

/// Both timers of a ladder gone.
pub open spec fn scrub_timers(w: WorkView, o: ObligationView) -> WorkView {
    scrub_timer(
        scrub_timer(w, TimerTypeView::Rung { obligation: o }),
        TimerTypeView::RepeatGiveUp { obligation: o },
    )
}

/// One ladder ended: its timers and what it repeated are gone.
pub open spec fn end_ladder(w: WorkView, o: ObligationView) -> WorkView {
    let s = scrub_timers(w, o);
    s.on(cleared(s.call, o))
}

/// The ladders of a list ended, in order.
pub open spec fn end_ladders(w: WorkView, os: Seq<ObligationView>) -> WorkView
    decreases os.len(),
{
    if os.len() == 0 {
        w
    } else {
        end_ladder(end_ladders(w, os.drop_last()), os.last())
    }
}

/// Every ladder of a scope ended.
#[verifier::opaque]
pub open spec fn retire(w: WorkView, s: ScopeView) -> WorkView {
    end_ladders(w, ladders_in(w.call, s))
}

/// A response on its first rung.
pub open spec fn first_emission(
    p: ResponsePlanView,
    d: DestinationView,
    class: LadderClass,
) -> EmissionView {
    EmissionView { response: p, destination: d, class, interval_ms: T1_MS, elapsed_ms: T1_MS }
}

/// The 2xx with the key its ACK carries.
pub open spec fn unacked(p: ResponsePlanView, d: DestinationView) -> Unacked2xxView {
    Unacked2xxView {
        dialog_tag: tag_or_empty(p.to_tag),
        cseq: p.cseq,
        emission: first_emission(p, d, LadderClass::Final2xx),
    }
}

/// The ACK a 2xx sent on `leg` is owed.
pub open spec fn ack_owed(p: ResponsePlanView, leg: Seq<char>) -> ObligationView {
    ObligationView::AckOf2xx { leg, dialog_tag: tag_or_empty(p.to_tag), cseq: p.cseq }
}

/// A retained response, once more.
pub open spec fn repeat_of(e: EmissionView, leg: Seq<char>) -> OutboundSipView {
    OutboundSipView {
        body: OutboundBodyView::Repeat { response: e.response },
        mode: TxnMode::Raw,
        destination: e.destination,
        leg_id: Some(leg),
        provenance: Provenance::Authored,
    }
}

/// The repeat a rung sends: nothing when nothing is retained, nor for a
/// reliable provisional whose raising leg is gone.
pub open spec fn repeat_toward(c: CallView, o: ObligationView) -> Option<OutboundSipView> {
    match retained(c, o) {
        Some(e) => match o {
            ObligationView::AckOf2xx { leg, .. } => Some(repeat_of(e, leg)),
            ObligationView::PrackOf { a_tag, a_rseq } => {
                let raised = match find_where(c.reliable_provisionals, shown_as(a_tag, a_rseq)) {
                    Some(r) => c.leg(r.b_leg_id),
                    None => None,
                };
                match raised {
                    Some(l) => if l.state != LegState::Terminated {
                        Some(repeat_of(e, face_of(c, a_tag)))
                    } else {
                        None
                    },
                    None => None,
                }
            },
        },
        None => None,
    }
}

impl ExecView {
    /// The bound of an ACK ladder: the protocol's, or the deployment's deadline
    /// where that comes sooner.
    pub open spec fn ack_bound(self) -> i64 {
        if self.config.ack_timeout_ms < LADDER_BOUND_MS {
            self.config.ack_timeout_ms
        } else {
            LADDER_BOUND_MS
        }
    }

    pub open spec fn ladder_bound(self, o: ObligationView) -> i64 {
        match o {
            ObligationView::AckOf2xx { .. } => self.ack_bound(),
            ObligationView::PrackOf { .. } => LADDER_BOUND_MS,
        }
    }

    /// An ACK ladder armed: the first rung and the give-up.
    #[verifier::opaque]
    pub open spec fn arm_ack_ladder(self, w: WorkView, o: ObligationView) -> WorkView {
        self.schedule(
            self.schedule(w, TimerTypeView::Rung { obligation: o }, T1_MS, None),
            TimerTypeView::RepeatGiveUp { obligation: o },
            self.config.ack_timeout_ms,
            None,
        )
    }

    /// The answer to the caller retained, and its ladder armed.
    #[verifier::opaque]
    pub open spec fn retain_a_leg_answer(
        self,
        w: WorkView,
        p: ResponsePlanView,
        d: DestinationView,
    ) -> WorkView {
        let leg = w.call.a_leg.leg_id;
        let call = match first_ext(w.call, leg) {
            Some(e) => with_first_ext(
                w.call,
                leg,
                DialogExtView { answered_2xx: Some(unacked(p, d)), ..e },
            ),
            None => w.call,
        };
        self.arm_ack_ladder(w.on(call), ack_owed(p, leg))
    }

    /// The answer to a relayed re-INVITE retained, and its ladder armed.
    #[verifier::opaque]
    pub open spec fn retain_reinvite_2xx(
        self,
        w: WorkView,
        p: ResponsePlanView,
        d: DestinationView,
        leg: Seq<char>,
    ) -> WorkView {
        let call = match first_ext(w.call, leg) {
            Some(e) => with_first_ext(
                w.call,
                leg,
                DialogExtView { pending_reinvite_2xx: Some(unacked(p, d)), ..e },
            ),
            None => w.call,
        };
        self.arm_ack_ladder(w.on(call), ack_owed(p, leg))
    }

    /// A reliable provisional retained, once, and its ladder armed with it.
    #[verifier::opaque]
    pub open spec fn arm_provisional(
        self,
        w: WorkView,
        p: ResponsePlanView,
        d: DestinationView,
        a_tag: Seq<char>,
        a_rseq: i64,
    ) -> WorkView {
        let (call, armed) = recorded(
            w.call,
            a_tag,
            a_rseq,
            first_emission(p, d, LadderClass::ReliableProvisional),
        );
        if armed {
            let o = ObligationView::PrackOf { a_tag, a_rseq };
            self.schedule(
                self.schedule(w.on(call), TimerTypeView::Rung { obligation: o }, T1_MS, None),
                TimerTypeView::RepeatGiveUp { obligation: o },
                LADDER_BOUND_MS,
                None,
            )
        } else {
            w.on(call)
        }
    }

    /// A rung fired: the retained response is sent again and the next rung
    /// armed, until the bound; a spent rung retires its ladder.
    #[verifier::opaque]
    pub open spec fn repeat(self, w: WorkView, o: ObligationView) -> WorkView {
        let again = if w.call.state == CallModelState::Active {
            repeat_toward(w.call, o)
        } else {
            None
        };
        match again {
            None => retire(w, ScopeView::One { obligation: o }),
            Some(e) => {
                let sent = w.send(e);
                let (call, next) = advanced(sent.call, o, self.ladder_bound(o));
                let on = sent.on(call);
                match next {
                    Some(wait) => self.schedule(
                        on,
                        TimerTypeView::Rung { obligation: o },
                        wait,
                        None,
                    ),
                    None => {
                        let quiet = scrub_timer(on, TimerTypeView::Rung { obligation: o });
                        match o {
                            ObligationView::PrackOf { .. } => quiet.on(cleared(quiet.call, o)),
                            ObligationView::AckOf2xx { .. } => quiet,
                        }
                    },
                }
            },
        }
    }
}

/// The give-up fired: both timers are gone, and a provisional is no longer
/// retained. A 2xx stays until the rules have read it.
#[verifier::opaque]
pub open spec fn give_up(w: WorkView, o: ObligationView) -> WorkView {
    let s = scrub_timers(w, o);
    match o {
        ObligationView::PrackOf { .. } => s.on(cleared(s.call, o)),
        ObligationView::AckOf2xx { .. } => s,
    }
}

/// The obligation an inbound ACK or PRACK discharges.
pub open spec fn discharged_by(
    c: CallView,
    e: CallEventView,
    leg: Seq<char>,
) -> Option<ObligationView> {
    match e {
        CallEventView::Request { request } => {
            let tag = tag_or_empty(request.to_tag);
            if request.method == MethodView::Ack {
                let o = ObligationView::AckOf2xx { leg, dialog_tag: tag, cseq: request.cseq };
                if retained(c, o) is Some {
                    Some(o)
                } else {
                    None
                }
            } else if request.method == MethodView::Prack {
                match header_value(request.headers, "RAck"@) {
                    Some(v) => match rack_tokens(v) {
                        Some(t) => {
                            let o = ObligationView::PrackOf { a_tag: tag, a_rseq: t.rseq };
                            if names_nothing(c, leg, tag, t) {
                                None
                            } else if retained(c, o) is Some || ladder_runs(c, o) {
                                Some(o)
                            } else {
                                None
                            }
                        },
                        None => None,
                    },
                    None => None,
                }
            } else {
                None
            }
        },
        _ => None,
    }
}

/// Some timer of the ladder is armed.
pub open spec fn ladder_runs(c: CallView, o: ObligationView) -> bool {
    exists|i: int|
        0 <= i < c.timers.len() && ladder_of((#[trigger] c.timers[i]).timer_type) == Some(o)
}

/// The obligation an inbound message discharges retired.
#[verifier::opaque]
pub open spec fn discharge(w: WorkView, e: CallEventView, leg: Seq<char>) -> WorkView {
    match discharged_by(w.call, e, leg) {
        Some(o) => retire(w, ScopeView::One { obligation: o }),
        None => w,
    }
}

// ── the functions ───────────────────────────────────────────────────────
fn has_timer(call: &Call, id: &String) -> (r: bool)
    ensures
        r == call@.has_timer(id@),
{
    for i in 0..call.timers.len()
        invariant
            forall|j: int| 0 <= j < i ==> (#[trigger] call@.timers[j]).id != id@,
    {
        assert(call@.timers[i as int] == call.timers@[i as int]@);
        if call.timers[i].id == *id {
            return true;
        }
    }
    false
}

fn timer_obligation<'a>(t: &'a TimerType) -> (r: Option<&'a Obligation>)
    ensures
        match r {
            Some(o) => ladder_of(t@) == Some(o@),
            None => ladder_of(t@) is None,
        },
{
    match t {
        TimerType::Rung { obligation } => Some(obligation),
        TimerType::RepeatGiveUp { obligation } => Some(obligation),
        _ => None,
    }
}

fn has_ladder_timer(call: &Call, o: &Obligation) -> (r: bool)
    ensures
        r == ladder_runs(call@, o@),
{
    for i in 0..call.timers.len()
        invariant
            forall|j: int|
                0 <= j < i ==> ladder_of((#[trigger] call@.timers[j]).timer_type) != Some(o@),
    {
        assert(call@.timers[i as int] == call.timers@[i as int]@);
        if let Some(p) = timer_obligation(&call.timers[i].timer_type) {
            if same_obligation(p, o) {
                return true;
            }
        }
    }
    false
}

fn scrub(w: &mut Work, t: &TimerType)
    ensures
        final(w)@ == scrub_timer(old(w)@, t@),
{
    let id = t.timer_id(&None);
    if has_timer(&w.call, &id) {
        remove_timer(&mut w.call, &id);
        w.critical(CriticalEffect::CancelTimer { id });
    }
}

fn scrub_both(w: &mut Work, o: &Obligation)
    ensures
        final(w)@ == scrub_timers(old(w)@, o@),
{
    let rung = TimerType::Rung { obligation: o.clone() };
    scrub(w, &rung);
    let give = TimerType::RepeatGiveUp { obligation: o.clone() };
    scrub(w, &give);
}

fn collect_ladders(call: &Call, s: &Scope) -> (r: Vec<Obligation>)
    ensures
        views(r@) == ladders_in(call@, s@),
{
    let mut out = obligations_in(call, s);
    if let Scope::Call = s {
        let ghost os = views(out@);
        let ghost ts = call@.timers;
        assert(ts.take(0).len() == 0);
        for i in 0..call.timers.len()
            invariant
                ts == call@.timers,
                views(out@) == with_timers(os, ts.take(i as int)),
        {
            assert(ts.take(i + 1).drop_last() =~= ts.take(i as int));
            assert(ts.take(i + 1).last() == call.timers@[i as int]@);
            if let Some(o) = timer_obligation(&call.timers[i].timer_type) {
                if !among_obligations(&out, o) {
                    let ghost before = out@;
                    let c = o.clone();
                    out.push(c);
                    assert(views(out@) =~= views(before).push(c@));
                }
            }
        }
        assert(ts.take(call.timers@.len() as int) =~= ts);
    }
    out
}

/// End every ladder of a scope: its timers leave the ledger and the driver,
/// and what it repeated is dropped.
pub(crate) fn retire_scope(w: &mut Work, s: &Scope)
    ensures
        final(w)@ == retire(old(w)@, s@),
{
    proof {
        reveal(retire);
    }
    let os = collect_ladders(&w.call, s);
    let ghost w0 = w@;
    let ghost all = views(os@);
    assert(all.take(0).len() == 0);
    for i in 0..os.len()
        invariant
            all == views(os@),
            w@ == end_ladders(w0, all.take(i as int)),
    {
        assert(all.take(i + 1).drop_last() =~= all.take(i as int));
        assert(all.take(i + 1).last() == os@[i as int]@);
        scrub_both(w, &os[i]);
        clear_retained(&mut w.call, &os[i]);
    }
    assert(all.take(os@.len() as int) =~= all);
}

fn emission_of(p: ResponsePlan, d: Destination, class: LadderClass) -> (r: Emission)
    ensures
        r@ == first_emission(p@, d@, class),
{
    Emission { response: p, destination: d, class, interval_ms: T1_MS, elapsed_ms: T1_MS }
}

fn unacked_2xx_of(p: &ResponsePlan, d: &Destination, leg: &String) -> (r: (Unacked2xx, Obligation))
    ensures
        r.0@ == unacked(p@, d@),
        r.1@ == ack_owed(p@, leg@),
{
    let tag = tag_text(&p.to_tag);
    let e = emission_of(p.clone(), d.clone(), LadderClass::Final2xx);
    (
        Unacked2xx { dialog_tag: tag.clone(), cseq: p.cseq, emission: e },
        Obligation::AckOf2xx { leg: leg.clone(), dialog_tag: tag, cseq: p.cseq },
    )
}

/// Build the repeat of a retained response.
pub(crate) fn raw_repeat(e: &Emission, leg: &String) -> (r: OutboundSip)
    ensures
        r@ == repeat_of(e@, leg@),
{
    OutboundSip {
        body: OutboundBody::Repeat { response: e.response.clone() },
        mode: TxnMode::Raw,
        destination: e.destination.clone(),
        leg_id: Some(leg.clone()),
        provenance: Provenance::Authored,
    }
}

fn repeat_for(call: &Call, o: &Obligation) -> (r: Option<OutboundSip>)
    ensures
        opt_view(r) == repeat_toward(call@, o@),
{
    match retained_for(call, o) {
        Some(e) => match o {
            Obligation::AckOf2xx { leg, .. } => Some(raw_repeat(e, leg)),
            Obligation::PrackOf { a_tag, a_rseq } => {
                match find_shown(&call.reliable_provisionals, a_tag, *a_rseq) {
                    Some(i) => {
                        assert(call@.reliable_provisionals[i as int]
                            == call.reliable_provisionals@[i as int]@);
                        match find_leg(call, &call.reliable_provisionals[i].b_leg_id) {
                            Some(l) => {
                                if l.state == LegState::Terminated {
                                    return None;
                                }
                                let face = face_shown(call, a_tag);
                                Some(raw_repeat(e, &face))
                            },
                            None => None,
                        }
                    },
                    None => None,
                }
            },
        },
        None => None,
    }
}

impl<'a> ActionExecutor<'a> {
    fn arm_ack_ladder(&self, w: &mut Work, o: Obligation)
        ensures
            final(w)@ == self@.arm_ack_ladder(old(w)@, o@),
    {
        proof {
            reveal(ExecView::arm_ack_ladder);
        }
        let rung = TimerType::Rung { obligation: o.clone() };
        self.schedule(w, rung, T1_MS, None);
        self.schedule(
            w,
            TimerType::RepeatGiveUp { obligation: o },
            self.config.ack_timeout_ms,
            None,
        );
    }

    /// Retain the answer to the caller and arm its ladder.
    pub(crate) fn retain_a_leg_answer(&self, w: &mut Work, p: &ResponsePlan, d: &Destination)
        ensures
            final(w)@ == self@.retain_a_leg_answer(old(w)@, p@, d@),
    {
        proof {
            reveal(ExecView::retain_a_leg_answer);
        }
        let leg = w.call.a_leg.leg_id.clone();
        let (u, o) = unacked_2xx_of(p, d, &leg);
        if w.call.a_leg.dialogs.len() > 0 {
            let ghost before = w.call.a_leg.dialogs@;
            w.call.a_leg.dialogs[0].ext.answered_2xx = Some(u);
            assert(views(w.call.a_leg.dialogs@) =~= views(before).update(
                0,
                w.call.a_leg.dialogs@[0]@,
            ));
        }
        self.arm_ack_ladder(w, o);
    }

    /// Retain the answer to a relayed re-INVITE and arm its ladder.
    pub(crate) fn retain_reinvite_2xx(
        &self,
        w: &mut Work,
        p: &ResponsePlan,
        d: &Destination,
        leg: &String,
    )
        ensures
            final(w)@ == self@.retain_reinvite_2xx(old(w)@, p@, d@, leg@),
    {
        proof {
            reveal(ExecView::retain_reinvite_2xx);
        }
        let (u, o) = unacked_2xx_of(p, d, leg);
        proof {
            with_leg_same(w.call@, leg@);
        }
        if let Some(l) = leg_mut(&mut w.call, leg) {
            if l.dialogs.len() > 0 {
                let ghost before = l.dialogs@;
                l.dialogs[0].ext.pending_reinvite_2xx = Some(u);
                assert(views(l.dialogs@) =~= views(before).update(0, l.dialogs@[0]@));
            }
        }
        self.arm_ack_ladder(w, o);
    }

    /// Retain a reliable provisional, once, and arm its ladder.
    pub(crate) fn arm_reliable_provisional_ladder(
        &self,
        w: &mut Work,
        p: &ResponsePlan,
        d: &Destination,
        a_tag: &String,
        a_rseq: i64,
    )
        ensures
            final(w)@ == self@.arm_provisional(old(w)@, p@, d@, a_tag@, a_rseq),
    {
        proof {
            reveal(ExecView::arm_provisional);
        }
        let e = emission_of(p.clone(), d.clone(), LadderClass::ReliableProvisional);
        let armed = record_reliable_provisional_emission(&mut w.call, a_tag, a_rseq, e);
        if !armed {
            return;
        }
        let o = Obligation::PrackOf { a_tag: a_tag.clone(), a_rseq };
        let rung = TimerType::Rung { obligation: o.clone() };
        self.schedule(w, rung, T1_MS, None);
        self.schedule(w, TimerType::RepeatGiveUp { obligation: o }, LADDER_BOUND_MS, None);
    }

    fn ladder_bound(&self, o: &Obligation) -> (r: i64)
        ensures
            r == self@.ladder_bound(o@),
    {
        match o {
            Obligation::AckOf2xx { .. } => if self.config.ack_timeout_ms < LADDER_BOUND_MS {
                self.config.ack_timeout_ms
            } else {
                LADDER_BOUND_MS
            },
            Obligation::PrackOf { .. } => LADDER_BOUND_MS,
        }
    }

    /// A rung fired: send the retained response again and arm the next rung, or
    /// cease at the bound. A spent rung retires its ladder.
    pub fn repeat(&self, w: &mut Work, o: &Obligation)
        ensures
            final(w)@ == self@.repeat(old(w)@, o@),
    {
        proof {
            reveal(ExecView::repeat);
        }
        let again = if w.call.state == CallModelState::Active {
            repeat_for(&w.call, o)
        } else {
            None
        };
        let effect = match again {
            Some(e) => e,
            None => {
                retire_scope(w, &Scope::One { obligation: o.clone() });
                return;
            },
        };
        w.send(effect);
        let next = advance_ladder(&mut w.call, o, self.ladder_bound(o));
        let rung = TimerType::Rung { obligation: o.clone() };
        match next {
            Some(wait) => {
                self.schedule(w, rung, wait, None);
            },
            None => {
                scrub(w, &rung);
                if let Obligation::PrackOf { .. } = o {
                    clear_retained(&mut w.call, o);
                }
            },
        }
    }

    /// The give-up fired: the ladder's timers go before the rules decide what
    /// the silence means.
    pub fn give_up(&self, w: &mut Work, o: &Obligation)
        ensures
            final(w)@ == give_up(old(w)@, o@),
    {
        proof {
            reveal(give_up);
        }
        scrub_both(w, o);
        if let Obligation::PrackOf { .. } = o {
            clear_retained(&mut w.call, o);
        }
    }

    /// Match an inbound ACK or PRACK against the ladders the call owes, and
    /// retire the one it names: it has no timer left and nothing to repeat, and
    /// the same message once more names nothing live.
    pub fn discharge(
        &self,
        w: &mut Work,
        event: &CallEvent,
        leg: &String,
    ) -> (r: Option<Obligation>)
        ensures
            opt_view(r) == discharged_by(old(w)@.call, event@, leg@),
            final(w)@ == discharge(old(w)@, event@, leg@),
            r is None ==> final(w)@ == old(w)@,
            r matches Some(o) ==> rungs_are_keyed(old(w)@.call.timers) ==> {
                &&& !ladder_runs(final(w)@.call, o@)
                &&& retained(final(w)@.call, o@) is None
                &&& discharged_by(final(w)@.call, event@, leg@) is None
            },
    {
        proof {
            reveal(discharge);
            if rungs_are_keyed(w@.call.timers) {
                an_acknowledgement_discharges_once(w@, event@, leg@);
            }
        }
        let request = match event {
            CallEvent::Request { request } => request,
            _ => {
                return None;
            },
        };
        let tag = tag_text(&request.to_tag);
        let o = if request.method == Method::Ack {
            let o = Obligation::AckOf2xx { leg: leg.clone(), dialog_tag: tag, cseq: request.cseq };
            if retained_for(&w.call, &o).is_none() {
                return None;
            }
            o
        } else if request.method == Method::Prack {
            let tokens = match header(&request.headers, "RAck") {
                Some(v) => match read_rack(v.as_str()) {
                    Some(t) => t,
                    None => {
                        return None;
                    },
                },
                None => {
                    return None;
                },
            };
            if unacknowledgeable_rack(&w.call, leg, &tag, tokens) {
                return None;
            }
            let o = Obligation::PrackOf { a_tag: tag, a_rseq: tokens.rseq };
            if retained_for(&w.call, &o).is_none() && !has_ladder_timer(&w.call, &o) {
                return None;
            }
            o
        } else {
            return None;
        };
        retire_scope(w, &Scope::One { obligation: o.clone() });
        Some(o)
    }
}

} // verus!
