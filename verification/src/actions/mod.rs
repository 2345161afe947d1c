//! The action executor: it turns a rule's actions into the changed call and
//! the effects of the turn.
//!
//! - [`dispatch`]: the table from action to function
//! - [`relay_request`], [`relay_response`]: relaying the event to a peer
//! - [`dialog_track`]: early dialogs, confirmation, the caller's dialog
//! - [`originate`]: the requests this stack sends of its own
//! - [`respond`]: the responses it authors
//! - [`ladder`]: what is repeated until it is acknowledged
//! - [`teardown`], [`settle`]: ending legs and calls
//! - [`aftermath`]: what an ending leaves
//! - [`constant`]: what no action changes
//! - [`stated`], [`advertised`]: what a relayed response says
//! - [`relayed`]: what a relay does beside it
//! - [`requested`], [`replied`]: what a request and an answer of this stack's say
//! - [`repeated`]: what is sent again, and under what number
//! - [`ended`]: what an ending says, and to whom
//! - [`known`], [`noted`]: what is kept of a peer, and of the call
use vstd::prelude::*;

use crate::call::{
    Call, CallView, Config, ConfigView, TimerEntry, TimerEntryView, TimerKind, TimerType,
    TimerTypeView,
};
use crate::context::{kind_of, timer_key};
use crate::effects::{
    CriticalEffect, CriticalEffectView, FireAndForget, FireAndForgetView, HandlerEffects,
    HandlerEffectsView, OutboundSip, OutboundSipView,
};
use crate::ids::{IdGen, IdGenView};
use crate::lens::{clamp, clamped_add, clamped_millis, timer_not_named};
use crate::seqs::{keep, keep_push, keep_sound, keep_whole, opt_view, views};
use crate::state::put_timer;

pub mod advertised;
pub mod aftermath;
pub mod constant;
pub mod dialog_track;
pub mod dispatch;
pub mod ended;
pub mod known;
pub mod ladder;
pub mod noted;
pub mod originate;
pub mod relay_request;
pub mod relay_response;
pub mod relayed;
pub mod repeated;
pub mod replied;
pub mod requested;
pub mod respond;
pub mod select;
pub mod settle;
pub mod stated;
pub mod teardown;

use dispatch::timer_cancelled;

verus! {

/// The state of a turn: the call as changed so far, the effects so far, and
/// the source of fresh identifiers.
#[derive(Debug, PartialEq)]
pub struct Work {
    pub call: Call,
    pub fx: HandlerEffects,
    pub ids: IdGen,
}

/// The mathematical value of a [`Work`].
pub struct WorkView {
    pub call: CallView,
    pub fx: HandlerEffectsView,
    pub ids: IdGenView,
}

impl View for Work {
    type V = WorkView;

    open spec fn view(&self) -> WorkView {
        WorkView { call: self.call@, fx: self.fx@, ids: self.ids@ }
    }
}

impl WorkView {
    pub open spec fn on(self, call: CallView) -> WorkView {
        WorkView { call, ..self }
    }

    pub open spec fn send(self, e: OutboundSipView) -> WorkView {
        WorkView {
            fx: HandlerEffectsView { outbound: self.fx.outbound.push(e), ..self.fx },
            ..self
        }
    }

    pub open spec fn critical(self, e: CriticalEffectView) -> WorkView {
        WorkView {
            fx: HandlerEffectsView { critical: self.fx.critical.push(e), ..self.fx },
            ..self
        }
    }

    pub open spec fn consult(self, e: FireAndForgetView) -> WorkView {
        WorkView {
            fx: HandlerEffectsView {
                fire_and_forget: self.fx.fire_and_forget.push(e),
                ..self.fx
            },
            ..self
        }
    }

    /// One identifier taken.
    pub open spec fn minted(self) -> WorkView {
        WorkView { ids: self.ids.after(), ..self }
    }
}

impl Work {
    /// Send a message.
    pub fn send(&mut self, e: OutboundSip)
        ensures
            final(self)@ == old(self)@.send(e@),
    {
        let ghost before = self.fx.outbound@;
        self.fx.outbound.push(e);
        assert(views(self.fx.outbound@) =~= views(before).push(e@));
    }

    /// Have a critical effect.
    pub fn critical(&mut self, e: CriticalEffect)
        ensures
            final(self)@ == old(self)@.critical(e@),
    {
        let ghost before = self.fx.critical@;
        self.fx.critical.push(e);
        assert(views(self.fx.critical@) =~= views(before).push(e@));
    }

    /// Make a consult.
    pub fn consult(&mut self, e: FireAndForget)
        ensures
            final(self)@ == old(self)@.consult(e@),
    {
        let ghost before = self.fx.fire_and_forget@;
        self.fx.fire_and_forget.push(e);
        assert(views(self.fx.fire_and_forget@) =~= views(before).push(e@));
    }
}

/// Executes rule actions against a working copy of the call.
pub struct ActionExecutor<'a> {
    pub config: &'a Config,
    pub now_ms: i64,
}

/// The mathematical value of an [`ActionExecutor`].
pub struct ExecView {
    pub config: ConfigView,
    pub now_ms: i64,
}

impl<'a> View for ActionExecutor<'a> {
    type V = ExecView;

    open spec fn view(&self) -> ExecView {
        ExecView { config: self.config@, now_ms: self.now_ms }
    }
}

impl ExecView {
    /// When a timer fires: a keepalive never later than one interval from now.
    pub open spec fn capped(self, t: TimerTypeView, fire_at: i64) -> i64 {
        let ceiling = clamp(self.now_ms + clamp(self.config.keepalive_interval_sec * 1000));
        if kind_of(t) == TimerKind::Keepalive && fire_at > ceiling {
            ceiling
        } else {
            fire_at
        }
    }

    /// The ledger entry of a timer armed now.
    pub open spec fn entry(
        self,
        t: TimerTypeView,
        delay_ms: i64,
        leg_id: Option<Seq<char>>,
    ) -> TimerEntryView {
        TimerEntryView {
            id: timer_key(t, leg_id),
            timer_type: t,
            fire_at: self.capped(t, clamp(self.now_ms + delay_ms)),
            leg_id,
        }
    }

    /// A timer armed, on the ledger and in the driver.
    #[verifier::opaque]
    pub open spec fn schedule(
        self,
        w: WorkView,
        t: TimerTypeView,
        delay_ms: i64,
        leg_id: Option<Seq<char>>,
    ) -> WorkView {
        let e = self.entry(t, delay_ms, leg_id);
        w.on(w.call.with_timer(e)).critical(CriticalEffectView::ScheduleTimer { entry: e })
    }
}

impl<'a> ActionExecutor<'a> {
    fn capped_fire_at(&self, t: &TimerType, fire_at: i64) -> (r: i64)
        ensures
            r == self@.capped(t@, fire_at),
    {
        if t.kind() != TimerKind::Keepalive {
            return fire_at;
        }
        let interval_ms = clamped_millis(self.config.keepalive_interval_sec);
        let ceiling = clamped_add(self.now_ms, interval_ms);
        if fire_at > ceiling {
            ceiling
        } else {
            fire_at
        }
    }

    /// Arm a timer, in the place of any of the same id.
    pub(crate) fn schedule(&self, w: &mut Work, t: TimerType, delay_ms: i64, leg_id: Option<String>)
        ensures
            final(w)@ == self@.schedule(old(w)@, t@, delay_ms, opt_view(leg_id)),
    {
        proof {
            reveal(ExecView::schedule);
        }
        let fire_at = self.capped_fire_at(&t, clamped_add(self.now_ms, delay_ms));
        let entry = TimerEntry { id: t.timer_id(&leg_id), timer_type: t, fire_at, leg_id };
        put_timer(&mut w.call, entry.clone());
        w.critical(CriticalEffect::ScheduleTimer { entry });
    }
}

// ── laws ────────────────────────────────────────────────────────────────
/// A timer that is armed stands once on the ledger, in the place of any of its
/// id, and every other stays.
pub proof fn a_timer_stands_once(
    x: ExecView,
    w: WorkView,
    t: TimerTypeView,
    delay_ms: i64,
    leg_id: Option<Seq<char>>,
    i: int,
)
    requires
        0 <= i < x.schedule(w, t, delay_ms, leg_id).call.timers.len(),
    ensures
        ({
            let ts = x.schedule(w, t, delay_ms, leg_id).call.timers;
            &&& ts.last() == x.entry(t, delay_ms, leg_id)
            &&& ts[i].id == timer_key(t, leg_id) ==> i == ts.len() - 1
            &&& i < ts.len() - 1 ==> w.call.timers.contains(ts[i])
        }),
{
    reveal(ExecView::schedule);
    keep_sound(w.call.timers, timer_not_named(timer_key(t, leg_id)));
    let kept = keep(w.call.timers, timer_not_named(timer_key(t, leg_id)));
    if i < kept.len() {
        assert(timer_not_named(timer_key(t, leg_id))(kept[i]));
        assert(w.call.timers.contains(kept[i]));
    }
}

/// Cancelling a timer undoes arming it: the call is as it was where the timer
/// was not armed before.
pub proof fn cancelling_undoes_arming(
    x: ExecView,
    w: WorkView,
    t: TimerTypeView,
    delay_ms: i64,
    leg_id: Option<Seq<char>>,
)
    requires
        !w.call.has_timer(timer_key(t, leg_id)),
    ensures
        timer_cancelled(x.schedule(w, t, delay_ms, leg_id), timer_key(t, leg_id)).call == w.call,
{
    reveal(ExecView::schedule);
    reveal(timer_cancelled);
    let p = timer_not_named(timer_key(t, leg_id));
    keep_whole(w.call.timers, p);
    keep_push(w.call.timers, x.entry(t, delay_ms, leg_id), p);
}

/// A keepalive never fires later than one interval from now, whatever delay is
/// asked for.
pub proof fn keepalives_fire_within_an_interval(
    x: ExecView,
    delay_ms: i64,
    leg_id: Option<Seq<char>>,
)
    ensures
        x.entry(TimerTypeView::Keepalive, delay_ms, leg_id).fire_at <= clamp(
            x.now_ms + clamp(x.config.keepalive_interval_sec * 1000),
        ),
{
}

} // verus!
