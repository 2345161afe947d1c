//! The books the retransmission ladders are kept in: the 2xx awaiting their
//! ACK, the reliable provisionals awaiting their PRACK, and what was already
//! acknowledged.
use vstd::prelude::*;

use crate::call::{
    Call, CallView, DialogExtView, DialogView, Emission, EmissionView, LadderClass, Leg, LegView,
    Obligation, ObligationView, ReliableProvisional, ReliableProvisionalView, Unacked2xx,
    Unacked2xxView,
};
use crate::lens::{clamp, clamped_add, find_leg, leg_mut, with_leg_same};
use crate::seqs::{find_where, first_where, first_where_is, first_where_none, opt_view, views};

verus! {

/// The first wait of every ladder (T1).
pub const T1_MS: i64 = 500;

/// The longest wait of a 2xx ladder (T2).
pub const T2_MS: i64 = 4000;

/// Where the protocol ceases to repeat, whatever the class: 64·T1.
pub const LADDER_BOUND_MS: i64 = 32000;

/// Which ladders to end.
#[derive(Debug, PartialEq)]
pub enum Scope {
    /// Everything the call owes or is owed.
    Call,
    /// What one leg is owed, and what it raised.
    Leg { leg_id: String },
    /// The reliable provisionals the caller was shown.
    Provisionals,
    /// The reliable provisionals one INVITE transaction raised.
    Transaction { leg_id: String, cseq: i64 },
    /// One obligation.
    One { obligation: Obligation },
}

/// The mathematical value of a [`Scope`].
pub enum ScopeView {
    Call,
    Leg { leg_id: Seq<char> },
    Provisionals,
    Transaction { leg_id: Seq<char>, cseq: i64 },
    One { obligation: ObligationView },
}

impl View for Scope {
    type V = ScopeView;

    open spec fn view(&self) -> ScopeView {
        match self {
            Scope::Call => ScopeView::Call,
            Scope::Leg { leg_id } => ScopeView::Leg { leg_id: leg_id@ },
            Scope::Provisionals => ScopeView::Provisionals,
            Scope::Transaction { leg_id, cseq } => ScopeView::Transaction {
                leg_id: leg_id@,
                cseq: *cseq,
            },
            Scope::One { obligation } => ScopeView::One { obligation: obligation@ },
        }
    }
}

impl Clone for Scope {
    fn clone(&self) -> (r: Self)
        ensures
            r@ == self@,
    {
        match self {
            Scope::Call => Scope::Call,
            Scope::Leg { leg_id } => Scope::Leg { leg_id: leg_id.clone() },
            Scope::Provisionals => Scope::Provisionals,
            Scope::Transaction { leg_id, cseq } => Scope::Transaction {
                leg_id: leg_id.clone(),
                cseq: *cseq,
            },
            Scope::One { obligation } => Scope::One { obligation: obligation.clone() },
        }
    }
}

// ── pacing ──────────────────────────────────────────────────────────────
/// The wait that follows a wait of `interval`: twice as long, and for a 2xx at
/// most T2.
pub open spec fn next_wait(class: LadderClass, interval: i64) -> i64 {
    let twice = clamp(interval + interval);
    match class {
        LadderClass::Final2xx => if twice > T2_MS {
            T2_MS
        } else {
            twice
        },
        LadderClass::ReliableProvisional => twice,
    }
}

/// The emission after one more repeat.
pub open spec fn paced_on(e: EmissionView) -> EmissionView {
    let n = next_wait(e.class, e.interval_ms);
    EmissionView { interval_ms: n, elapsed_ms: clamp(e.elapsed_ms + n), ..e }
}

fn pace_on(e: &mut Emission)
    ensures
        final(e)@ == paced_on(old(e)@),
{
    let twice: i64 = clamped_add(e.interval_ms, e.interval_ms);
    let n: i64 = match e.class {
        LadderClass::Final2xx => if twice > T2_MS {
            T2_MS
        } else {
            twice
        },
        LadderClass::ReliableProvisional => twice,
    };
    e.interval_ms = n;
    e.elapsed_ms = clamped_add(e.elapsed_ms, n);
}

// ── what is retained ────────────────────────────────────────────────────
/// The 2xx awaits the ACK of that tag and CSeq.
pub open spec fn owed(u: Option<Unacked2xxView>, tag: Seq<char>, cseq: i64) -> bool {
    match u {
        Some(u) => u.dialog_tag == tag && u.cseq == cseq,
        None => false,
    }
}

fn is_owed(u: &Option<Unacked2xx>, tag: &String, cseq: i64) -> (r: bool)
    ensures
        r == owed(opt_view(*u), tag@, cseq),
{
    match u {
        Some(u) => u.dialog_tag == *tag && u.cseq == cseq,
        None => false,
    }
}

pub open spec fn shown_as(
    a_tag: Seq<char>,
    a_rseq: i64,
) -> spec_fn(ReliableProvisionalView) -> bool {
    |r: ReliableProvisionalView| r.a_tag == a_tag && r.a_rseq == a_rseq
}

/// The first dialog of a leg, where the 2xx it is owed an ACK for stand.
pub open spec fn first_ext(c: CallView, leg: Seq<char>) -> Option<DialogExtView> {
    match c.leg(leg) {
        Some(l) => if l.dialogs.len() > 0 {
            Some(l.dialogs[0].ext)
        } else {
            None
        },
        None => None,
    }
}

/// The call with the bridge state of a leg's first dialog replaced.
pub open spec fn with_first_ext(c: CallView, leg: Seq<char>, e: DialogExtView) -> CallView {
    match c.leg(leg) {
        Some(l) => if l.dialogs.len() > 0 {
            c.with_leg(
                leg,
                LegView {
                    dialogs: l.dialogs.update(0, DialogView { ext: e, ..l.dialogs[0] }),
                    ..l
                },
            )
        } else {
            c
        },
        None => c,
    }
}

/// The response retained for an obligation.
pub open spec fn retained(c: CallView, o: ObligationView) -> Option<EmissionView> {
    match o {
        ObligationView::AckOf2xx { leg, dialog_tag, cseq } => match first_ext(c, leg) {
            Some(e) => if owed(e.answered_2xx, dialog_tag, cseq) {
                Some(e.answered_2xx->0.emission)
            } else if owed(e.pending_reinvite_2xx, dialog_tag, cseq) {
                Some(e.pending_reinvite_2xx->0.emission)
            } else {
                None
            },
            None => None,
        },
        ObligationView::PrackOf { a_tag, a_rseq } => match find_where(
            c.reliable_provisionals,
            shown_as(a_tag, a_rseq),
        ) {
            Some(r) => r.emission,
            None => None,
        },
    }
}

/// The obligation is the ACK of the answer to the caller's own INVITE.
pub open spec fn is_initial_answer(c: CallView, o: ObligationView) -> bool {
    match o {
        ObligationView::AckOf2xx { leg, dialog_tag, cseq } => match first_ext(c, leg) {
            Some(e) => owed(e.answered_2xx, dialog_tag, cseq),
            None => false,
        },
        ObligationView::PrackOf { .. } => false,
    }
}

/// The index of a shown reliable provisional.
pub fn find_shown(
    list: &Vec<ReliableProvisional>,
    a_tag: &String,
    a_rseq: i64,
) -> (r: Option<usize>)
    ensures
        match r {
            Some(i) => i < list@.len() && first_where(views(list@), shown_as(a_tag@, a_rseq))
                == Some(i as int),
            None => first_where(views(list@), shown_as(a_tag@, a_rseq)) is None,
        },
{
    let ghost p = shown_as(a_tag@, a_rseq);
    for i in 0..list.len()
        invariant
            p == shown_as(a_tag@, a_rseq),
            forall|j: int| 0 <= j < i ==> !p(#[trigger] views(list@)[j]),
    {
        if list[i].a_tag == *a_tag && list[i].a_rseq == a_rseq {
            proof {
                first_where_is(views(list@), p, i as int);
            }
            return Some(i);
        }
    }
    proof {
        first_where_none(views(list@), p);
    }
    None
}

/// The value of an emission, if any.
pub open spec fn opt_emission(e: Option<&Emission>) -> Option<EmissionView> {
    match e {
        Some(e) => Some(e@),
        None => None,
    }
}

/// The response retained for an obligation.
pub fn retained_for<'a>(call: &'a Call, o: &Obligation) -> (r: Option<&'a Emission>)
    ensures
        opt_emission(r) == retained(call@, o@),
{
    match o {
        Obligation::AckOf2xx { leg, dialog_tag, cseq } => {
            match find_leg(call, leg) {
                Some(l) => {
                    if l.dialogs.len() == 0 {
                        return None;
                    }
                    let ext = &l.dialogs[0].ext;
                    assert(l@.dialogs[0] == l.dialogs@[0]@);
                    if is_owed(&ext.answered_2xx, dialog_tag, *cseq) {
                        match &ext.answered_2xx {
                            Some(u) => Some(&u.emission),
                            None => None,
                        }
                    } else if is_owed(&ext.pending_reinvite_2xx, dialog_tag, *cseq) {
                        match &ext.pending_reinvite_2xx {
                            Some(u) => Some(&u.emission),
                            None => None,
                        }
                    } else {
                        None
                    }
                },
                None => None,
            }
        },
        Obligation::PrackOf { a_tag, a_rseq } => {
            match find_shown(&call.reliable_provisionals, a_tag, *a_rseq) {
                Some(i) => {
                    assert(call@.reliable_provisionals[i as int]
                        == call.reliable_provisionals@[i as int]@);
                    match &call.reliable_provisionals[i].emission {
                        Some(e) => Some(e),
                        None => None,
                    }
                },
                None => None,
            }
        },
    }
}

/// Whether the obligation is the ACK of the answer to the caller's own INVITE.
pub fn answers_initial_invite(call: &Call, o: &Obligation) -> (r: bool)
    ensures
        r == is_initial_answer(call@, o@),
{
    match o {
        Obligation::AckOf2xx { leg, dialog_tag, cseq } => match find_leg(call, leg) {
            Some(l) => {
                if l.dialogs.len() == 0 {
                    return false;
                }
                assert(l@.dialogs[0] == l.dialogs@[0]@);
                is_owed(&l.dialogs[0].ext.answered_2xx, dialog_tag, *cseq)
            },
            None => false,
        },
        Obligation::PrackOf { .. } => false,
    }
}

/// The call without the response retained for an obligation.
pub open spec fn cleared(c: CallView, o: ObligationView) -> CallView {
    match o {
        ObligationView::AckOf2xx { leg, dialog_tag, cseq } => match first_ext(c, leg) {
            Some(e) => with_first_ext(
                c,
                leg,
                DialogExtView {
                    answered_2xx: if owed(e.answered_2xx, dialog_tag, cseq) {
                        None
                    } else {
                        e.answered_2xx
                    },
                    pending_reinvite_2xx: if owed(e.pending_reinvite_2xx, dialog_tag, cseq) {
                        None
                    } else {
                        e.pending_reinvite_2xx
                    },
                    ..e
                },
            ),
            None => c,
        },
        ObligationView::PrackOf { a_tag, a_rseq } => match first_where(
            c.reliable_provisionals,
            shown_as(a_tag, a_rseq),
        ) {
            Some(i) => CallView {
                reliable_provisionals: c.reliable_provisionals.update(
                    i,
                    ReliableProvisionalView { emission: None, ..c.reliable_provisionals[i] },
                ),
                ..c
            },
            None => c,
        },
    }
}

/// Drop the response retained for an obligation.
pub fn clear_retained(call: &mut Call, o: &Obligation)
    ensures
        final(call)@ == cleared(old(call)@, o@),
{
    match o {
        Obligation::AckOf2xx { leg, dialog_tag, cseq } => {
            proof {
                with_leg_same(call@, leg@);
            }
            if let Some(l) = leg_mut(call, leg) {
                if l.dialogs.len() > 0 {
                    let ghost before = l.dialogs@;
                    let a = is_owed(&l.dialogs[0].ext.answered_2xx, dialog_tag, *cseq);
                    let b = is_owed(&l.dialogs[0].ext.pending_reinvite_2xx, dialog_tag, *cseq);
                    if a {
                        l.dialogs[0].ext.answered_2xx = None;
                    }
                    if b {
                        l.dialogs[0].ext.pending_reinvite_2xx = None;
                    }
                    assert(views(l.dialogs@) =~= views(before).update(0, l.dialogs@[0]@));
                }
            }
        },
        Obligation::PrackOf { a_tag, a_rseq } => {
            if let Some(i) = find_shown(&call.reliable_provisionals, a_tag, *a_rseq) {
                let ghost before = call.reliable_provisionals@;
                call.reliable_provisionals[i].emission = None;
                assert(views(call.reliable_provisionals@) =~= views(before).update(
                    i as int,
                    ReliableProvisionalView { emission: None, ..before[i as int]@ },
                ));
            }
        },
    }
}

/// The ladder one repeat on: the emission paced on and the wait that follows;
/// nothing, and no change, where the next repeat would fall at or past the
/// bound, or nothing is retained.
pub open spec fn advanced(
    c: CallView,
    o: ObligationView,
    bound_ms: i64,
) -> (CallView, Option<i64>) {
    match retained(c, o) {
        Some(e) => {
            let n = paced_on(e);
            if n.elapsed_ms >= bound_ms {
                (c, None)
            } else {
                (with_emission(c, o, n), Some(n.interval_ms))
            }
        },
        None => (c, None),
    }
}

/// The call with the retained emission of an obligation replaced.
pub open spec fn with_emission(c: CallView, o: ObligationView, n: EmissionView) -> CallView {
    match o {
        ObligationView::AckOf2xx { leg, dialog_tag, cseq } => match first_ext(c, leg) {
            Some(e) => with_first_ext(
                c,
                leg,
                if owed(e.answered_2xx, dialog_tag, cseq) {
                    DialogExtView {
                        answered_2xx: Some(
                            Unacked2xxView { emission: n, ..e.answered_2xx->0 },
                        ),
                        ..e
                    }
                } else {
                    DialogExtView {
                        pending_reinvite_2xx: Some(
                            Unacked2xxView { emission: n, ..e.pending_reinvite_2xx->0 },
                        ),
                        ..e
                    }
                },
            ),
            None => c,
        },
        ObligationView::PrackOf { a_tag, a_rseq } => match first_where(
            c.reliable_provisionals,
            shown_as(a_tag, a_rseq),
        ) {
            Some(i) => CallView {
                reliable_provisionals: c.reliable_provisionals.update(
                    i,
                    ReliableProvisionalView {
                        emission: Some(n),
                        ..c.reliable_provisionals[i]
                    },
                ),
                ..c
            },
            None => c,
        },
    }
}

fn set_emission(call: &mut Call, o: &Obligation, n: Emission)
    requires
        retained(old(call)@, o@) is Some,
    ensures
        final(call)@ == with_emission(old(call)@, o@, n@),
{
    match o {
        Obligation::AckOf2xx { leg, dialog_tag, cseq } => {
            if let Some(l) = leg_mut(call, leg) {
                if l.dialogs.len() > 0 {
                    let ghost before = l.dialogs@;
                    if is_owed(&l.dialogs[0].ext.answered_2xx, dialog_tag, *cseq) {
                        let u = Unacked2xx {
                            dialog_tag: dialog_tag.clone(),
                            cseq: *cseq,
                            emission: n,
                        };
                        l.dialogs[0].ext.answered_2xx = Some(u);
                    } else {
                        let u = Unacked2xx {
                            dialog_tag: dialog_tag.clone(),
                            cseq: *cseq,
                            emission: n,
                        };
                        l.dialogs[0].ext.pending_reinvite_2xx = Some(u);
                    }
                    assert(views(l.dialogs@) =~= views(before).update(0, l.dialogs@[0]@));
                }
            }
        },
        Obligation::PrackOf { a_tag, a_rseq } => {
            if let Some(i) = find_shown(&call.reliable_provisionals, a_tag, *a_rseq) {
                let ghost before = call.reliable_provisionals@;
                call.reliable_provisionals[i].emission = Some(n);
                assert(views(call.reliable_provisionals@) =~= views(before).update(
                    i as int,
                    ReliableProvisionalView { emission: Some(n@), ..before[i as int]@ },
                ));
            }
        },
    }
}

/// Take a ladder one repeat on.
pub fn advance_ladder(call: &mut Call, o: &Obligation, bound_ms: i64) -> (r: Option<i64>)
    ensures
        (final(call)@, r) == advanced(old(call)@, o@, bound_ms),
{
    let mut n = match retained_for(call, o) {
        Some(e) => e.clone(),
        None => {
            return None;
        },
    };
    pace_on(&mut n);
    if n.elapsed_ms >= bound_ms {
        return None;
    }
    let wait = n.interval_ms;
    set_emission(call, o, n);
    Some(wait)
}

/// Forgetting a retained response changes no state of the call.
pub proof fn clearing_keeps_the_state(c: CallView, o: ObligationView)
    ensures
        cleared(c, o).state == c.state,
{
}

} // verus!
