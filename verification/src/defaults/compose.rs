//! Which families of rules make up the default set, and in which order.
use vstd::prelude::*;

use super::core_rules::{
    absorptions, answers, cancels, core_rules, core_set, crossings, endings, failovers, give_ups,
    relays, renegotiations, then_rules, timers,
};
use crate::call::RelayFirst18xStrategy;
use crate::executor::applies;
use crate::model::{Handler, RuleContextView, RuleDefinition, RuleDefinitionView};
use crate::promote_pem::{promote_pem_rules, promote_rules};
use crate::refer_transfer::machine::{machine_rules, transfer_rules};
use crate::refer_transfer::seed::{seed_rules, transfer_seed_rules};
use crate::seqs::views;
use crate::state::masking;

verus! {

/// Which of the built-in services take part in the default set.
#[derive(Clone, Copy, Debug, PartialEq, Eq, Structural)]
pub struct ComposeOptions {
    /// Whether blind transfer takes part. Without it a REFER is relayed like any
    /// other request, whatever the route of the call directs.
    pub core_refer_transfer: bool,
}

impl Default for ComposeOptions {
    fn default() -> (r: Self)
        ensures
            r == (ComposeOptions { core_refer_transfer: true }),
    {
        ComposeOptions { core_refer_transfer: true }
    }
}

impl ComposeOptions {
    /// The options without blind transfer.
    pub fn without_core_refer_transfer(self) -> (r: Self)
        ensures
            r == (ComposeOptions { core_refer_transfer: false }),
    {
        ComposeOptions { core_refer_transfer: false }
    }
}

/// The set the options select: what a REFER meets stands before the core rules,
/// so that it comes first within their layer; the rules of the services stand
/// after them, and outrank them by theirs.
#[verifier::opaque]
pub open spec fn composed(o: ComposeOptions) -> Seq<RuleDefinitionView> {
    if o.core_refer_transfer {
        seed_rules() + core_set() + promote_rules() + machine_rules()
    } else {
        core_set() + promote_rules()
    }
}

/// The default set.
pub fn default_rules() -> (r: Vec<RuleDefinition>)
    ensures
        views(r@) == composed(ComposeOptions { core_refer_transfer: true }),
{
    let options = ComposeOptions::default();
    default_rules_with(&options)
}

/// The set the options select.
pub fn default_rules_with(options: &ComposeOptions) -> (r: Vec<RuleDefinition>)
    ensures
        views(r@) == composed(*options),
{
    proof {
        reveal(composed);
    }
    if options.core_refer_transfer {
        let rules = then_rules(transfer_seed_rules(), core_rules());
        let rules = then_rules(rules, promote_pem_rules());
        then_rules(rules, transfer_rules())
    } else {
        then_rules(core_rules(), promote_pem_rules())
    }
}

// ── laws ────────────────────────────────────────────────────────────────
/// A rule takes part in a transfer: it takes a REFER up, or belongs to the
/// machine.
pub open spec fn transfers(r: RuleDefinitionView) -> bool {
    r.machine is Some || r.handler == Handler::InterceptRefer
}

proof fn core_rules_transfer_nothing(i: int)
    requires
        0 <= i < core_set().len(),
    ensures
        !transfers(core_set()[i]),
{
    reveal(core_set);
    reveal(crossings);
    reveal(renegotiations);
    reveal(answers);
    reveal(failovers);
    reveal(absorptions);
    reveal(endings);
    reveal(relays);
    reveal(cancels);
    reveal(timers);
    reveal(give_ups);
}

/// Opted out of, no rule takes a REFER up, whatever the route of a call directs.
pub proof fn opted_out_nothing_transfers(i: int)
    requires
        0 <= i < composed(ComposeOptions { core_refer_transfer: false }).len(),
    ensures
        !transfers(composed(ComposeOptions { core_refer_transfer: false })[i]),
{
    reveal(composed);
    reveal(promote_rules);
    if i < core_set().len() {
        core_rules_transfer_nothing(i);
    }
}

/// A REFER is this stack's to answer only on a call whose route asks for it:
/// on any other no rule it would meet applies.
pub proof fn a_transfer_is_asked_for(k: int, ctx: RuleContextView)
    requires
        0 <= k < seed_rules().len(),
        ctx.call.features matches Some(f) ==> !f.refer,
    ensures
        !applies(seed_rules()[k], ctx.call, ctx),
{
    reveal(seed_rules);
}

/// Early media is promoted only on a call whose route asks for it: on any other
/// every rule of that service is dormant.
pub proof fn a_promotion_is_asked_for(k: int, ctx: RuleContextView)
    requires
        0 <= k < promote_rules().len(),
        masking(ctx.call) != Some(RelayFirst18xStrategy::PromotePemTo200),
    ensures
        !applies(promote_rules()[k], ctx.call, ctx),
{
    reveal(promote_rules);
}

} // verus!
