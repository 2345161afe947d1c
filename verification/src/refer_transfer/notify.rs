//! Progress reports toward the referrer: NOTIFYs of the subscription a REFER
//! implies, each with a status line for its body.
use vstd::prelude::*;

use crate::action::{RuleAction, RuleActionView};
use crate::call::{TransferState, TransferStateView};
use crate::seqs::views;
use crate::text::{decimal, decimal_text};
use crate::verbs::{add_action, nothing, some, text};

verus! {

/// More is to come.
pub open spec fn active_60() -> Seq<char> {
    "active;expires=60"@
}

/// The subscription ends with its outcome.
pub open spec fn ended() -> Seq<char> {
    "terminated;reason=noresource"@
}

/// The subscription ends for want of an outcome.
pub open spec fn timed_out() -> Seq<char> {
    "terminated;reason=timeout"@
}

/// The state of the subscription a report states.
#[derive(Clone, Copy, PartialEq, Eq, Debug, Structural)]
pub enum Subscription {
    Active,
    Ended,
    TimedOut,
}

/// The text of a subscription state.
pub open spec fn state_text(s: Subscription) -> Seq<char> {
    match s {
        Subscription::Active => active_60(),
        Subscription::Ended => ended(),
        Subscription::TimedOut => timed_out(),
    }
}

fn subscription_state(s: Subscription) -> (r: String)
    ensures
        r@ == state_text(s),
{
    match s {
        Subscription::Active => "active;expires=60".to_string(),
        Subscription::Ended => "terminated;reason=noresource".to_string(),
        Subscription::TimedOut => "terminated;reason=timeout".to_string(),
    }
}

/// A status line as the body of a report.
pub open spec fn sipfrag(code: u16, reason: Seq<char>) -> Seq<u8> {
    vstd::utf8::encode_utf8("SIP/2.0 "@ + decimal_text(code as nat) + " "@ + reason + "\r\n"@)
}

fn sipfrag_from_status(code: u16, reason: &str) -> (r: Vec<u8>)
    ensures
        r@ == sipfrag(code, reason@),
{
    let mut s = "SIP/2.0 ".to_string();
    let n = decimal(code as u64);
    s.append(n.as_str());
    s.append(" ");
    s.append(reason);
    s.append("\r\n");
    s.as_str().as_bytes_vec()
}

/// The report of a status, or nothing once the subscription is over.
pub open spec fn report(
    st: TransferStateView,
    s: Subscription,
    code: u16,
    reason: Seq<char>,
) -> Seq<
    RuleActionView,
> {
    if st.subscription_terminated {
        Seq::empty()
    } else {
        seq![
            RuleActionView::SendNotify {
                leg_id: st.referrer_leg_id,
                event: "refer"@,
                subscription_state: state_text(s),
                content_type: text("message/sipfrag;version=2.0"),
                body: sipfrag(code, reason),
            },
        ]
    }
}

/// Report a status to the referrer, unless the subscription is over.
pub fn notify(st: &TransferState, s: Subscription, code: u16, reason: &str) -> (r: Vec<RuleAction>)
    ensures
        views(r@) == report(st@, s, code, reason@),
{
    let mut out = nothing();
    if !st.subscription_terminated {
        let a = RuleAction::SendNotify {
            leg_id: st.referrer_leg_id.clone(),
            event: "refer".to_string(),
            subscription_state: subscription_state(s),
            content_type: some("message/sipfrag;version=2.0"),
            body: sipfrag_from_status(code, reason),
        };
        add_action(&mut out, a);
        assert(views(out@) =~= seq![a@]);
    }
    out
}

/// No report leaves on a subscription that is over; before that every status is
/// reported, once, to the referrer.
pub proof fn a_subscription_that_is_over_is_silent(
    st: TransferStateView,
    s: Subscription,
    code: u16,
    reason: Seq<char>,
)
    ensures
        st.subscription_terminated <==> report(st, s, code, reason).len() == 0,
        !st.subscription_terminated ==> report(st, s, code, reason).len() == 1 && report(
            st,
            s,
            code,
            reason,
        )[0]->SendNotify_leg_id == st.referrer_leg_id,
{
}

} // verus!
