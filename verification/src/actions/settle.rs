//! After the rules have answered a give-up: the silence after a 2xx ends the
//! session whatever they decided. A rule chooses how the call is torn down, not
//! whether.
use vstd::prelude::*;

use crate::actions::dispatch::fresh_work;
use crate::actions::ladder::retire;
use crate::actions::teardown::{
    end_each, global_call, scrub_idle, stated_cause, teardown_headers, teardown_hops,
    termination_begun, wound_down,
};
use crate::actions::{ActionExecutor, ExecView, WorkView};
use crate::books::{clear_retained, cleared, clearing_keeps_the_state, ScopeView};
use crate::call::{CallModelState, CallView, Obligation, ObligationView, TimerTypeView};
use crate::context::timer_key;
use crate::defaults::handlers::{ack_given_up, unacked_2xx_give_up_actions};
use crate::effects::{HandlerEffects, HandlerEffectsView, HandlerResult, HandlerResultView};
use crate::ids::{IdGen, IdGenView};
use crate::lens::cursor_named;
use crate::model::{RuleContext, RuleContextView};
use crate::seqs::{first_where_found, keep_sound, views};

verus! {

impl HandlerEffectsView {
    /// Effects after others.
    pub open spec fn followed_by(self, more: HandlerEffectsView) -> HandlerEffectsView {
        HandlerEffectsView {
            outbound: self.outbound + more.outbound,
            critical: self.critical + more.critical,
            fire_and_forget: self.fire_and_forget + more.fire_and_forget,
        }
    }
}

impl HandlerEffects {
    /// Effects after others.
    pub fn extend(self, more: HandlerEffects) -> (r: HandlerEffects)
        ensures
            r@ == self@.followed_by(more@),
    {
        let mut outbound = self.outbound;
        let mut critical = self.critical;
        let mut fire_and_forget = self.fire_and_forget;
        let mut m = more;
        let ghost (o1, o2) = (outbound@, m.outbound@);
        let ghost (c1, c2) = (critical@, m.critical@);
        let ghost (f1, f2) = (fire_and_forget@, m.fire_and_forget@);
        outbound.append(&mut m.outbound);
        critical.append(&mut m.critical);
        fire_and_forget.append(&mut m.fire_and_forget);
        assert(outbound@ =~= o1 + o2);
        assert(critical@ =~= c1 + c2);
        assert(fire_and_forget@ =~= f1 + f2);
        assert(views(outbound@) =~= views(o1) + views(o2));
        assert(views(critical@) =~= views(c1) + views(c2));
        assert(views(fire_and_forget@) =~= views(f1) + views(f2));
        HandlerEffects { outbound, critical, fire_and_forget }
    }
}

/// The call as the give-up leaves it, the retained 2xx gone.
pub open spec fn without_answer(ctx: RuleContextView, c: CallView) -> RuleContextView {
    RuleContextView { call: c, ..ctx }
}

impl ExecView {
    /// A give-up settled. Where a 2xx was never acknowledged and the rules left
    /// the call up, it is torn down. The retained 2xx goes either way. The
    /// give-up of a provisional stays what the rules made of it.
    #[verifier::opaque]
    pub open spec fn settle_give_up(
        self,
        r: HandlerResultView,
        o: ObligationView,
        ctx: RuleContextView,
        ids: IdGenView,
    ) -> (HandlerResultView, IdGenView) {
        match o {
            ObligationView::AckOf2xx { .. } => {
                let c = cleared(r.call, o);
                if r.call.state == CallModelState::Active {
                    let w = self.apply_all(
                        fresh_work(c, ids),
                        ack_given_up(r.call, o),
                        without_answer(ctx, c),
                    );
                    (
                        HandlerResultView { call: w.call, effects: r.effects.followed_by(w.fx) },
                        w.ids,
                    )
                } else {
                    (HandlerResultView { call: c, effects: r.effects }, ids)
                }
            },
            ObligationView::PrackOf { .. } => (r, ids),
        }
    }
}

impl<'a> ActionExecutor<'a> {
    /// Settle a give-up after the rules have answered it. Fresh identifiers come
    /// from `ids`.
    pub fn settle_give_up(
        &self,
        result: HandlerResult,
        o: &Obligation,
        turn: &RuleContext,
        ids: &mut IdGen,
    ) -> (r: HandlerResult)
        ensures
            (r@, final(ids)@) == self@.settle_give_up(result@, o@, turn@, old(ids)@),
    {
        proof {
            reveal(ExecView::settle_give_up);
        }
        if let Obligation::PrackOf { .. } = o {
            return result;
        }
        let mut call = result.call;
        if call.state != CallModelState::Active {
            clear_retained(&mut call, o);
            return HandlerResult { call, effects: result.effects };
        }
        let actions = unacked_2xx_give_up_actions(&call, o);
        clear_retained(&mut call, o);
        let ctx = RuleContext {
            call: &call,
            event: turn.event,
            source_leg_id: turn.source_leg_id,
            direction: turn.direction,
            now_ms: turn.now_ms,
            config: turn.config,
            discharged: turn.discharged,
        };
        let forced = self.execute(&actions, &call, &ctx, ids);
        HandlerResult { call: forced.call, effects: result.effects.extend(forced.effects) }
    }
}

// ── laws ────────────────────────────────────────────────────────────────
/// A call that is being torn down is terminating, only the machine of its own
/// lifecycle is active, and the safety timer is armed.
pub proof fn teardown_leaves_the_call_terminating(
    x: ExecView,
    w: WorkView,
    ctx: RuleContextView,
    reason: Option<Seq<char>>,
    machine: Seq<char>,
)
    ensures
        ({
            let c = x.begin_termination(w, ctx, reason).call;
            &&& c.state == CallModelState::Terminating
            &&& c.has_timer(timer_key(TimerTypeView::TerminatingTimeout, None))
            &&& machine != global_call() ==> c.cursor(machine) is None
        }),
{
    reveal(ExecView::begin_termination);
    reveal(ExecView::schedule);
    reveal(wound_down);
    let c = x.begin_termination(w, ctx, reason).call;
    let last = c.timers.len() - 1;
    assert(c.timers[last].id == timer_key(TimerTypeView::TerminatingTimeout, None));
    if machine != global_call() {
        let p = cursor_named(machine);
        first_where_found(c.sm_cursors, p);
        assert forall|i: int| 0 <= i < c.sm_cursors.len() implies !p(
            #[trigger] c.sm_cursors[i],
        ) by {
            only_the_lifecycle_is_left(x, w, ctx, reason, i);
        }
    }
}

proof fn only_the_lifecycle_is_left(
    x: ExecView,
    w: WorkView,
    ctx: RuleContextView,
    reason: Option<Seq<char>>,
    i: int,
)
    requires
        0 <= i < x.begin_termination(w, ctx, reason).call.sm_cursors.len(),
    ensures
        x.begin_termination(w, ctx, reason).call.sm_cursors[i].machine == global_call(),
{
    reveal(ExecView::begin_termination);
    reveal(ExecView::schedule);
    reveal(wound_down);
    let begun = termination_begun(w, x.now_ms, ctx, reason);
    let w1 = end_each(
        begun,
        begun.call.legs(),
        stated_cause(reason),
        teardown_headers(ctx),
        teardown_hops(ctx),
    );
    let w2 = retire(
        scrub_idle(w1),
        ScopeView::Call,
    );
    keep_sound(w2.call.sm_cursors, cursor_named(global_call()));
}

/// A 2xx that is never acknowledged ends its session, whatever the rules made of
/// the silence.
pub proof fn silence_after_a_2xx_ends_the_session(
    x: ExecView,
    r: HandlerResultView,
    o: ObligationView,
    ctx: RuleContextView,
    ids: IdGenView,
)
    requires
        o is AckOf2xx,
    ensures
        x.settle_give_up(r, o, ctx, ids).0.call.state != CallModelState::Active,
        r.call.state != CallModelState::Active ==> x.settle_give_up(r, o, ctx, ids).0.call
            == cleared(r.call, o),
{
    reveal(ExecView::settle_give_up);
    let c = cleared(r.call, o);
    if r.call.state == CallModelState::Active {
        reveal(ack_given_up);
        reveal(ExecView::apply);
        let actions = ack_given_up(r.call, o);
        assert(actions.len() == 2);
        assert(actions.last() is BeginTermination);
        let w1 = x.apply_all(fresh_work(c, ids), actions.drop_last(), without_answer(ctx, c));
        teardown_leaves_the_call_terminating(
            x,
            w1,
            without_answer(ctx, c),
            actions.last()->BeginTermination_reason,
            Seq::empty(),
        );
    } else {
        clearing_keeps_the_state(r.call, o);
    }
}

/// The give-up of a provisional stays what the rules made of it.
pub proof fn a_provisionals_give_up_is_the_rules_own(
    x: ExecView,
    r: HandlerResultView,
    o: ObligationView,
    ctx: RuleContextView,
    ids: IdGenView,
)
    requires
        o is PrackOf,
    ensures
        x.settle_give_up(r, o, ctx, ids) == (r, ids),
{
    reveal(ExecView::settle_give_up);
}

} // verus!
