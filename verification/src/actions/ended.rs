//! What an ending says, and to whom: the BYE of a session, the CANCEL of an INVITE
//! still ringing, and the final of every request whose target is gone.
use vstd::prelude::*;

use crate::action::RuleActionView;
use crate::actions::aftermath::{
    alike_reject_invites, alike_reject_non_invites, alike_retire, stand_alike, Standing,
    standing_of,
};
use crate::actions::ladder::{end_ladders, ladders_in, retire, scrub_timers};
use crate::actions::select::{
    holds_pending, origin_address, originator, pending_dialog, snapshot_response, toward_originator,
};
use crate::actions::stated::{either_holds, kept_exactly, retiring_is_quiet, scheduling_is_quiet};
use crate::actions::teardown::{
    b_dialogs, bye, bye_headers, cancel_leg, cancel_of, cancel_pending_reinvite, cancel_toward,
    commit_cancel, destroy_leg, end_each, end_leg, is_not_invite, leg_invites, non_invites,
    reason_name, reinvite_cancel, reject_each, reject_invites, reject_pending_non_invites,
    reject_pending_reinvite, scrub_idle, send_opt, stated_cause, teardown_headers, teardown_hops,
    terminate_leg, termination_begun, under, wound_down,
};
use crate::actions::{ExecView, WorkView};
use crate::books::{cleared, owed, ScopeView};
use crate::call::{
    AnswersView, ByeDisposition, CallView, DestinationView, DialogExtView, DialogView,
    InviteTxnView, Leg, LegDisposition, LegState, LegView, ObligationView, PendingRequestView,
    SourceBody, StackDialogView,
};
use crate::effects::{OutboundBodyView, OutboundSipView, Provenance, TxnMode};
use crate::headers::{goes_with, named_outside, sent_by, tag_param};
use crate::lens::{dialog_named, identity_tag, leg_named, leg_of_with_leg};
use crate::model::{CallEventView, RuleContextView};
use crate::seqs::{
    find_where, first_where, first_where_found, first_where_is, first_where_none, is_first, keep,
    keep_sound,
};
use crate::text::{same_ignoring_case, starts_with_text, trim_text};
use crate::wire::{MethodView, SipHeaderView};

verus! {

// ── what an ending reads, and leaves to be read ─────────────────────────
/// Two dialogs alike on the wire: the same numbers, tags and routes, the same
/// INVITE cached; and, where `whole`, the same requests pending.
pub open spec fn same_wire(a: DialogView, b: DialogView, whole: bool) -> bool {
    &&& a.sip == b.sip
    &&& a.ext.pending_invite_txn == b.ext.pending_invite_txn
    &&& whole ==> a.ext.inbound_pending_requests == b.ext.inbound_pending_requests
}

pub open spec fn same_face(a: LegView, b: LegView, whole: bool) -> bool {
    &&& a.leg_id == b.leg_id
    &&& a.dialogs.len() == b.dialogs.len()
    &&& forall|i: int|
        0 <= i < a.dialogs.len() ==> same_wire(#[trigger] a.dialogs[i], b.dialogs[i], whole)
}

/// Two calls whose legs are alike on the wire, one by one.
pub open spec fn same_faces(c: CallView, d: CallView, whole: bool) -> bool {
    &&& c.legs().len() == d.legs().len()
    &&& forall|i: int|
        0 <= i < c.legs().len() ==> same_face(#[trigger] c.legs()[i], d.legs()[i], whole)
    &&& c.emergency == d.emergency
    &&& c.active_peer == d.active_peer
}

pub(crate) proof fn faces_through(a: CallView, b: CallView, c: CallView, whole: bool)
    requires
        same_faces(a, b, whole),
        same_faces(b, c, whole),
    ensures
        same_faces(a, c, whole),
{
    assert forall|i: int| 0 <= i < a.legs().len() implies same_face(
        #[trigger] a.legs()[i],
        c.legs()[i],
        whole,
    ) by {
        assert(same_face(a.legs()[i], b.legs()[i], whole));
        assert(same_face(b.legs()[i], c.legs()[i], whole));
    }
}

proof fn less_is_kept(a: CallView, b: CallView)
    requires
        same_faces(a, b, true),
    ensures
        same_faces(a, b, false),
{
    assert forall|i: int| 0 <= i < a.legs().len() implies same_face(
        #[trigger] a.legs()[i],
        b.legs()[i],
        false,
    ) by {
        assert(same_face(a.legs()[i], b.legs()[i], true));
    }
}

pub(crate) proof fn faces_where_legs_are(a: CallView, b: CallView)
    requires
        a.a_leg == b.a_leg,
        a.b_legs == b.b_legs,
        a.emergency == b.emergency,
        a.active_peer == b.active_peer,
    ensures
        same_faces(a, b, true),
        same_faces(a, b, false),
{
}

pub(crate) proof fn face_replaced(c: CallView, id: Seq<char>, l: LegView, whole: bool)
    requires
        c.leg(id) is Some,
        same_face(l, c.leg(id)->0, whole),
    ensures
        same_faces(c.with_leg(id, l), c, whole),
{
    let d = c.with_leg(id, l);
    first_where_found(c.b_legs, leg_named(id));
    assert forall|i: int| 0 <= i < d.legs().len() implies same_face(
        #[trigger] d.legs()[i],
        c.legs()[i],
        whole,
    ) by {
        if c.a_leg.leg_id == id {
            assert(i > 0 ==> d.legs()[i] == c.legs()[i]);
        } else {
            let k = c.b_at(id)->0;
            assert(i != k + 1 ==> d.legs()[i] == c.legs()[i]);
        }
    }
}

proof fn dialog_replaced(c: CallView, leg: Seq<char>, tag: Seq<char>, d: DialogView, whole: bool)
    requires
        c.dialog(leg, tag) is Some,
        same_wire(d, c.dialog(leg, tag)->0, whole),
    ensures
        same_faces(c.with_dialog(leg, tag, d), c, whole),
{
    let l = c.leg(leg)->0;
    first_where_found(l.dialogs, dialog_named(leg, tag));
    let i = first_where(l.dialogs, dialog_named(leg, tag))->0;
    face_replaced(c, leg, LegView { dialogs: l.dialogs.update(i, d), ..l }, whole);
}

/// Legs alike are found alike.
pub(crate) proof fn found_alike(c: CallView, d: CallView, id: Seq<char>, whole: bool)
    requires
        same_faces(c, d, whole),
    ensures
        c.a_leg.leg_id == d.a_leg.leg_id,
        same_face(c.a_leg, d.a_leg, whole),
        c.leg(id) is Some <==> d.leg(id) is Some,
        c.leg(id) is Some ==> same_face(c.leg(id)->0, d.leg(id)->0, whole),
        find_where(c.b_legs, leg_named(id)) is Some <==> find_where(d.b_legs, leg_named(id)) is Some,
        find_where(c.b_legs, leg_named(id)) is Some ==> same_face(
            find_where(c.b_legs, leg_named(id))->0,
            find_where(d.b_legs, leg_named(id))->0,
            whole,
        ),
        c.b_at(id) == d.b_at(id),
{
    assert(same_face(c.legs()[0], d.legs()[0], whole));
    assert forall|i: int| 0 <= i < c.b_legs.len() implies same_face(
        #[trigger] c.b_legs[i],
        d.b_legs[i],
        whole,
    ) by {
        assert(same_face(c.legs()[i + 1], d.legs()[i + 1], whole));
    }
    assert(c.legs().len() == c.b_legs.len() + 1);
    assert(d.legs().len() == d.b_legs.len() + 1);
    first_where_found(c.b_legs, leg_named(id));
    match first_where(c.b_legs, leg_named(id)) {
        Some(i) => {
            assert forall|j: int| 0 <= j < i implies !leg_named(id)(#[trigger] d.b_legs[j]) by {
                assert(!leg_named(id)(c.b_legs[j]));
            }
            assert(is_first(d.b_legs, leg_named(id), i));
            first_where_is(d.b_legs, leg_named(id), i);
        },
        None => {
            assert forall|j: int| 0 <= j < d.b_legs.len() implies !leg_named(id)(
                #[trigger] d.b_legs[j],
            ) by {
                assert(!leg_named(id)(c.b_legs[j]));
            }
            first_where_none(d.b_legs, leg_named(id));
        },
    }
}

proof fn standing_keeps_faces()
    ensures
        forall|c: CallView, id: Seq<char>, s: LegState|
            same_faces((#[trigger] c.set_leg_state(id, s)), c, true),
        forall|c: CallView, id: Seq<char>, s: LegDisposition|
            same_faces((#[trigger] c.set_leg_disposition(id, s)), c, true),
        forall|c: CallView, id: Seq<char>, s: ByeDisposition|
            same_faces((#[trigger] c.set_bye_disposition(id, s)), c, true),
{
    assert forall|c: CallView, id: Seq<char>, s: LegState|
        same_faces((#[trigger] c.set_leg_state(id, s)), c, true) by {
        faces_where_legs_are(c, c);
        if c.leg(id) is Some {
            face_replaced(c, id, LegView { state: s, ..c.leg(id)->0 }, true);
        }
    }
    assert forall|c: CallView, id: Seq<char>, s: LegDisposition|
        same_faces((#[trigger] c.set_leg_disposition(id, s)), c, true) by {
        faces_where_legs_are(c, c);
        if c.leg(id) is Some {
            face_replaced(c, id, LegView { disposition: s, ..c.leg(id)->0 }, true);
        }
    }
    assert forall|c: CallView, id: Seq<char>, s: ByeDisposition|
        same_faces((#[trigger] c.set_bye_disposition(id, s)), c, true) by {
        faces_where_legs_are(c, c);
        if c.leg(id) is Some {
            face_replaced(c, id, LegView { bye_disposition: Some(s), ..c.leg(id)->0 }, true);
        }
    }
}

proof fn clearing_keeps_faces(c: CallView, o: ObligationView)
    ensures
        same_faces(cleared(c, o), c, true),
{
    faces_where_legs_are(c, c);
    match o {
        ObligationView::AckOf2xx { leg, dialog_tag, cseq } => match c.leg(leg) {
            Some(l) => if l.dialogs.len() > 0 {
                let e = l.dialogs[0].ext;
                let n = DialogExtView {
                    answered_2xx: if owed(e.answered_2xx, dialog_tag, cseq) {
                        None
                    } else {
                        e.answered_2xx
                    },
                    pending_reinvite_2xx: if owed(e.pending_reinvite_2xx, dialog_tag, cseq) {
                        None
                    } else {
                        e.pending_reinvite_2xx
                    },
                    ..e
                };
                let d = DialogView { ext: n, ..l.dialogs[0] };
                face_replaced(c, leg, LegView { dialogs: l.dialogs.update(0, d), ..l }, true);
            },
            None => {},
        },
        ObligationView::PrackOf { a_tag, a_rseq } => {
            faces_where_legs_are(cleared(c, o), c);
        },
    }
}

proof fn ladders_keep_faces(w: WorkView, os: Seq<ObligationView>)
    ensures
        same_faces(end_ladders(w, os).call, w.call, true),
        end_ladders(w, os).ids == w.ids,
    decreases os.len(),
{
    faces_where_legs_are(w.call, w.call);
    if os.len() > 0 {
        let w1 = end_ladders(w, os.drop_last());
        ladders_keep_faces(w, os.drop_last());
        let s = scrub_timers(w1, os.last());
        faces_where_legs_are(s.call, w1.call);
        clearing_keeps_faces(s.call, os.last());
        faces_through(cleared(s.call, os.last()), s.call, w1.call, true);
        faces_through(cleared(s.call, os.last()), w1.call, w.call, true);
    }
}

pub(crate) proof fn retiring_keeps_faces()
    ensures
        forall|w: WorkView, s: ScopeView|
            same_faces((#[trigger] retire(w, s)).call, w.call, true) && retire(w, s).ids == w.ids,
{
    assert forall|w: WorkView, s: ScopeView|
        same_faces((#[trigger] retire(w, s)).call, w.call, true) && retire(w, s).ids == w.ids by {
        reveal(retire);
        ladders_keep_faces(w, ladders_in(w.call, s));
    }
}

// ── what is sent ────────────────────────────────────────────────────────
/// A BYE on a dialog: under the number that follows the last, to where the
/// dialog's peer is reached, and describing nothing.
pub open spec fn says_goodbye(
    e: OutboundSipView,
    leg_id: Seq<char>,
    sip: StackDialogView,
    emergency: bool,
    hops: Option<u32>,
) -> bool {
    let q = e.body->request;
    &&& e.body is Request
    &&& e.leg_id == Some(leg_id)
    &&& e.mode == TxnMode::NewNonInvite
    &&& e.provenance == Provenance::Authored
    &&& e.destination == DestinationView::Target {
        uri: sip.remote_target,
        route_set: sip.route_set,
    }
    &&& q.method == MethodView::Bye
    &&& q.dialog == sip
    &&& sip.local_cseq < i64::MAX ==> q.cseq == sip.local_cseq + 1
    &&& q.rack is None
    &&& q.body.len() == 0
    &&& q.content_type is None
    &&& q.event is None
    &&& q.subscription_state is None
    &&& !q.contact
    &&& q.emergency == emergency
    &&& q.max_forwards == hops
    &&& q.capabilities is None
}

/// The CANCEL of an INVITE: for that INVITE, and to where it went.
pub open spec fn calls_off(
    e: OutboundSipView,
    leg_id: Seq<char>,
    txn: InviteTxnView,
    headers: Seq<SipHeaderView>,
) -> bool {
    &&& e.body == OutboundBodyView::Cancel { of: txn, headers }
    &&& e.leg_id == Some(leg_id)
    &&& e.mode == TxnMode::Raw
    &&& e.provenance == Provenance::Authored
    &&& e.destination == txn.destination
}

/// The final a relayed request is given in the place of its target's: to the one
/// that sent it, on the transaction it opened, and no more than a status line.
pub open spec fn answers_in_its_place(
    e: OutboundSipView,
    p: PendingRequestView,
    status: u16,
    reason: Seq<char>,
    to_leg: Seq<char>,
) -> bool {
    let sent = e.body->Response_response;
    &&& e.body is Response
    &&& e.leg_id == Some(to_leg)
    &&& e.mode == TxnMode::ServerResponse
    &&& e.provenance == Provenance::Authored
    &&& p.source_vias.len() > 0
    &&& sent_by(p.source_vias[0]) is Some
    &&& e.destination == DestinationView::Address { at: sent_by(p.source_vias[0])->0 }
    &&& sent.answers == AnswersView::Relayed { snapshot: p }
    &&& sent.status == status
    &&& sent.reason == reason
    &&& sent.cseq == p.inbound_cseq
    &&& sent.method == p.method
    &&& sent.to_tag == tag_param(p.source_to)
    &&& sent.body.len() == 0
    &&& sent.content_type is None
    &&& sent.source_body is None
    &&& sent.headers.len() == 0
    &&& sent.redirects.len() == 0
    &&& !sent.contact
}

/// The same where the target is gone: a PRACK is well, anything else has no
/// dialog left.
pub open spec fn answers_the_orphan(
    e: OutboundSipView,
    p: PendingRequestView,
    to_leg: Seq<char>,
) -> bool {
    &&& p.method == MethodView::Prack ==> answers_in_its_place(e, p, 200, "OK"@, to_leg)
    &&& p.method != MethodView::Prack ==> answers_in_its_place(
        e,
        p,
        481,
        "Call/Transaction Does Not Exist"@,
        to_leg,
    )
}

/// A request other than an INVITE waits on a leg for its target's final.
pub open spec fn waits_on(ds: Seq<DialogView>, p: PendingRequestView) -> bool {
    &&& p.method != MethodView::Invite
    &&& exists|j: int|
        0 <= j < ds.len() && (#[trigger] ds[j]).ext.inbound_pending_requests.contains(p)
}

/// One of the messages from there on is the final that request is owed.
pub open spec fn is_heard(
    sent: Seq<OutboundSipView>,
    from: int,
    p: PendingRequestView,
    to_leg: Seq<char>,
) -> bool {
    exists|k: int| from <= k < sent.len() && answers_the_orphan(#[trigger] sent[k], p, to_leg)
}

/// What a turn has sent stays sent.
pub open spec fn adds_to(before: WorkView, after: WorkView) -> bool {
    &&& before.fx.outbound.len() <= after.fx.outbound.len()
    &&& forall|k: int|
        0 <= k < before.fx.outbound.len() ==> (#[trigger] after.fx.outbound[k])
            == before.fx.outbound[k]
    &&& after.fx.fire_and_forget == before.fx.fire_and_forget
}

/// The leg that hears of what was relayed toward another: its peer, else the
/// caller's.
pub open spec fn the_one_that_asked(c: CallView, leg_id: Seq<char>) -> Seq<char> {
    match c.active_peer {
        Some(p) => if p.leg_a == leg_id {
            p.leg_b
        } else if p.leg_b == leg_id {
            p.leg_a
        } else {
            c.a_leg.leg_id
        },
        None => c.a_leg.leg_id,
    }
}

proof fn orphans_hear(
    w: WorkView,
    leg_id: Seq<char>,
    to_leg: Seq<char>,
    xs: Seq<(Seq<char>, PendingRequestView)>,
)
    requires
        forall|i: int| 0 <= i < xs.len() ==> (#[trigger] xs[i]).1.method != MethodView::Invite,
    ensures
        ({
            let r = reject_each(w, leg_id, to_leg, xs);
            &&& adds_to(w, r)
            &&& r.ids == w.ids
            &&& r.fx.critical == w.fx.critical
            &&& same_faces(r.call, w.call, false)
            &&& forall|k: int|
                w.fx.outbound.len() <= k < r.fx.outbound.len() ==> exists|i: int|
                    0 <= i < xs.len() && answers_the_orphan(
                        #[trigger] r.fx.outbound[k],
                        (#[trigger] xs[i]).1,
                        to_leg,
                    )
            &&& forall|i: int|
                0 <= i < xs.len() && xs[i].1.source_vias.len() > 0 && sent_by(
                    xs[i].1.source_vias[0],
                ) is Some ==> #[trigger] is_heard(
                    r.fx.outbound,
                    w.fx.outbound.len() as int,
                    xs[i].1,
                    to_leg,
                )
        }),
    decreases xs.len(),
{
    faces_where_legs_are(w.call, w.call);
    if xs.len() > 0 {
        let ys = xs.drop_last();
        let w1 = reject_each(w, leg_id, to_leg, ys);
        let r = reject_each(w, leg_id, to_leg, xs);
        let x = xs.last();
        assert forall|i: int| 0 <= i < ys.len() implies (#[trigger] ys[i]).1.method
            != MethodView::Invite by {
            assert(ys[i] == xs[i]);
        }
        orphans_hear(w, leg_id, to_leg, ys);
        assert(x == xs[xs.len() - 1]);
        faces_where_legs_are(w1.call, w1.call);
        if let Some(d) = w1.call.dialog(leg_id, x.0) {
            dialog_replaced(
                w1.call,
                leg_id,
                x.0,
                d.without_pending(x.1.outbound_cseq),
                false,
            );
        }
        faces_through(r.call, w1.call, w.call, false);
        assert forall|k: int| w.fx.outbound.len() <= k < r.fx.outbound.len() implies exists|i: int|
            0 <= i < xs.len() && answers_the_orphan(
                #[trigger] r.fx.outbound[k],
                (#[trigger] xs[i]).1,
                to_leg,
            ) by {
            if k < w1.fx.outbound.len() {
                let i = choose|i: int|
                    0 <= i < ys.len() && answers_the_orphan(
                        w1.fx.outbound[k],
                        (#[trigger] ys[i]).1,
                        to_leg,
                    );
                assert(r.fx.outbound[k] == w1.fx.outbound[k]);
                assert(xs[i] == ys[i]);
            } else {
                assert(answers_the_orphan(r.fx.outbound[k], xs[xs.len() - 1].1, to_leg));
            }
        }
        assert forall|i: int|
            0 <= i < xs.len() && xs[i].1.source_vias.len() > 0 && sent_by(
                xs[i].1.source_vias[0],
            ) is Some implies #[trigger] is_heard(
            r.fx.outbound,
            w.fx.outbound.len() as int,
            xs[i].1,
            to_leg,
        ) by {
            if i < ys.len() {
                assert(ys[i] == xs[i]);
                assert(is_heard(w1.fx.outbound, w.fx.outbound.len() as int, ys[i].1, to_leg));
                let k = choose|k: int|
                    w.fx.outbound.len() <= k < w1.fx.outbound.len() && answers_the_orphan(
                        #[trigger] w1.fx.outbound[k],
                        ys[i].1,
                        to_leg,
                    );
                assert(r.fx.outbound[k] == w1.fx.outbound[k]);
            } else {
                let k = w1.fx.outbound.len() as int;
                assert(answers_the_orphan(r.fx.outbound[k], xs[i].1, to_leg));
            }
        }
    }
}

proof fn the_waiting_ones(leg_id: Seq<char>, ds: Seq<DialogView>)
    ensures
        forall|i: int|
            0 <= i < non_invites(leg_id, ds).len() ==> waits_on(
                ds,
                (#[trigger] non_invites(leg_id, ds)[i]).1,
            ),
        forall|p: PendingRequestView|
            #[trigger] waits_on(ds, p) ==> exists|i: int|
                0 <= i < non_invites(leg_id, ds).len() && (#[trigger] non_invites(
                    leg_id,
                    ds,
                )[i]).1 == p,
    decreases ds.len(),
{
    if ds.len() > 0 {
        let es = ds.drop_last();
        let last = ds.last();
        the_waiting_ones(leg_id, es);
        let a = non_invites(leg_id, es);
        let ps = keep(last.ext.inbound_pending_requests, is_not_invite());
        let b = ps.map_values(under(identity_tag(leg_id, last)));
        let all = non_invites(leg_id, ds);
        assert(all == a + b);
        keep_sound(last.ext.inbound_pending_requests, is_not_invite());
        assert forall|i: int| 0 <= i < all.len() implies waits_on(ds, (#[trigger] all[i]).1) by {
            if i < a.len() {
                assert(all[i] == a[i]);
                assert(waits_on(es, a[i].1));
                let j = choose|j: int|
                    0 <= j < es.len() && (
                    #[trigger] es[j]).ext.inbound_pending_requests.contains(a[i].1);
                assert(ds[j] == es[j]);
            } else {
                assert(all[i].1 == ps[i - a.len()]);
                assert(last == ds[ds.len() - 1]);
                assert(last.ext.inbound_pending_requests.contains(ps[i - a.len()]));
            }
        }
        assert forall|p: PendingRequestView| #[trigger] waits_on(ds, p) implies exists|i: int|
            0 <= i < all.len() && (#[trigger] all[i]).1 == p by {
            let j = choose|j: int|
                0 <= j < ds.len() && (#[trigger] ds[j]).ext.inbound_pending_requests.contains(p);
            if j < es.len() {
                assert(es[j] == ds[j]);
                assert(waits_on(es, p));
                let i = choose|i: int| 0 <= i < a.len() && (#[trigger] a[i]).1 == p;
                assert(all[i] == a[i]);
            } else {
                kept_exactly(last.ext.inbound_pending_requests, is_not_invite(), p);
                let k = choose|k: int| 0 <= k < ps.len() && ps[k] == p;
                assert(all[a.len() + k].1 == p);
            }
        }
    }
}

/// The final of one of the requests that waited there.
pub open spec fn is_owed(ds: Seq<DialogView>, e: OutboundSipView, to_leg: Seq<char>) -> bool {
    exists|p: PendingRequestView| #[trigger] waits_on(ds, p) && answers_the_orphan(e, p, to_leg)
}

/// What a leg at its end owes to those whose requests waited on it: a final
/// each, and nothing else.
pub open spec fn the_waiting_are_answered(
    after: WorkView,
    from: int,
    ds: Seq<DialogView>,
    to_leg: Seq<char>,
) -> bool {
    &&& forall|k: int|
        from <= k < after.fx.outbound.len() ==> is_owed(ds, #[trigger] after.fx.outbound[k], to_leg)
    &&& forall|p: PendingRequestView|
        waits_on(ds, p) && p.source_vias.len() > 0 && sent_by(p.source_vias[0]) is Some
            ==> #[trigger] is_heard(after.fx.outbound, from, p, to_leg)
}

proof fn a_legs_orphans_hear(w: WorkView, leg_id: Seq<char>)
    ensures
        ({
            let r = reject_pending_non_invites(w, leg_id);
            &&& adds_to(w, r)
            &&& r.ids == w.ids
            &&& r.fx.critical == w.fx.critical
            &&& same_faces(r.call, w.call, false)
            &&& w.call.leg(leg_id) is Some ==> the_waiting_are_answered(
                r,
                w.fx.outbound.len() as int,
                w.call.leg(leg_id)->0.dialogs,
                the_one_that_asked(w.call, leg_id),
            )
            &&& w.call.leg(leg_id) is None ==> r == w
        }),
{
    reveal(reject_pending_non_invites);
    faces_where_legs_are(w.call, w.call);
    if let Some(l) = w.call.leg(leg_id) {
        let xs = non_invites(leg_id, l.dialogs);
        let to = originator(w.call, leg_id);
        let r = reject_each(w, leg_id, to, xs);
        the_waiting_ones(leg_id, l.dialogs);
        assert forall|i: int| 0 <= i < xs.len() implies (#[trigger] xs[i]).1.method
            != MethodView::Invite by {
            assert(waits_on(l.dialogs, xs[i].1));
        }
        orphans_hear(w, leg_id, to, xs);
        let n = w.fx.outbound.len() as int;
        assert forall|k: int| n <= k < r.fx.outbound.len() implies is_owed(
            l.dialogs,
            #[trigger] r.fx.outbound[k],
            to,
        ) by {
            let i = choose|i: int|
                0 <= i < xs.len() && answers_the_orphan(r.fx.outbound[k], (#[trigger] xs[i]).1, to);
            assert(waits_on(l.dialogs, xs[i].1));
        }
        assert forall|p: PendingRequestView|
            waits_on(l.dialogs, p) && p.source_vias.len() > 0 && sent_by(
                p.source_vias[0],
            ) is Some implies #[trigger] is_heard(r.fx.outbound, n, p, to) by {
            let i = choose|i: int| 0 <= i < xs.len() && (#[trigger] xs[i]).1 == p;
            assert(is_heard(r.fx.outbound, n, xs[i].1, to));
        }
    }
}

proof fn waiting_alike(
    r: WorkView,
    s: WorkView,
    from: int,
    a: Seq<DialogView>,
    b: Seq<DialogView>,
    to: Seq<char>,
)
    requires
        the_waiting_are_answered(r, from, a, to),
        r.fx.outbound == s.fx.outbound,
        a.len() == b.len(),
        forall|i: int| 0 <= i < a.len() ==> same_wire(#[trigger] a[i], b[i], true),
    ensures
        the_waiting_are_answered(s, from, b, to),
{
    assert forall|k: int| from <= k < s.fx.outbound.len() implies is_owed(
        b,
        #[trigger] s.fx.outbound[k],
        to,
    ) by {
        assert(is_owed(a, r.fx.outbound[k], to));
        let p = choose|p: PendingRequestView|
            #[trigger] waits_on(a, p) && answers_the_orphan(r.fx.outbound[k], p, to);
        let j = choose|j: int|
            0 <= j < a.len() && (#[trigger] a[j]).ext.inbound_pending_requests.contains(p);
        assert(b[j].ext.inbound_pending_requests.contains(p));
        assert(waits_on(b, p));
    }
    assert forall|p: PendingRequestView|
        waits_on(b, p) && p.source_vias.len() > 0 && sent_by(
            p.source_vias[0],
        ) is Some implies #[trigger] is_heard(s.fx.outbound, from, p, to) by {
        let j = choose|j: int|
            0 <= j < b.len() && (#[trigger] b[j]).ext.inbound_pending_requests.contains(p);
        assert(a[j].ext.inbound_pending_requests.contains(p));
        assert(waits_on(a, p));
        assert(is_heard(r.fx.outbound, from, p, to));
    }
}

/// A leg brought to its end tells its peer nothing: it answers, with a final of
/// its own each, the requests that waited on it, and ends as asked.
pub proof fn a_leg_at_its_end_answers_for_itself(
    x: ExecView,
    w: WorkView,
    ctx: RuleContextView,
    leg_id: Seq<char>,
    how: Option<ByeDisposition>,
)
    requires
        w.call.leg(leg_id) is Some,
    ensures
        ({
            let l = w.call.leg(leg_id)->0;
            let r = x.apply(
                w,
                RuleActionView::TerminateLeg { leg_id, bye_disposition: how },
                ctx,
            );
            let after = r.call.leg(leg_id)->0;
            &&& adds_to(w, r)
            &&& r.ids == w.ids
            &&& the_waiting_are_answered(
                r,
                w.fx.outbound.len() as int,
                l.dialogs,
                the_one_that_asked(w.call, leg_id),
            )
            &&& r.call.leg(leg_id) is Some
            &&& after.state == LegState::Terminated
            &&& after.bye_disposition == if how is Some {
                how
            } else {
                l.bye_disposition
            }
            &&& after.disposition == if l.disposition == LegDisposition::Cancelling {
                LegDisposition::Rejected
            } else {
                l.disposition
            }
        }),
{
    reveal(ExecView::apply);
    reveal(terminate_leg);
    let s = ScopeView::Leg { leg_id };
    let w0 = retire(w, s);
    let w1 = reject_pending_non_invites(w0, leg_id);
    retiring_is_quiet();
    retiring_keeps_faces();
    alike_retire(w, s);
    found_alike(w0.call, w.call, leg_id, true);
    a_legs_orphans_hear(w0, leg_id);
    found_alike(w1.call, w0.call, leg_id, false);
    let r = x.apply(w, RuleActionView::TerminateLeg { leg_id, bye_disposition: how }, ctx);
    waiting_alike(
        w1,
        r,
        w.fx.outbound.len() as int,
        w0.call.leg(leg_id)->0.dialogs,
        w.call.leg(leg_id)->0.dialogs,
        the_one_that_asked(w.call, leg_id),
    );
    stands_as_it_did(w0.call, w.call, leg_id);
    alike_reject_non_invites(w0, leg_id);
    stands_as_it_did(w1.call, w0.call, leg_id);
    let l1 = w1.call.leg(leg_id)->0;
    let l2 = LegView { state: LegState::Terminated, ..l1 };
    let c2 = w1.call.set_leg_state(leg_id, LegState::Terminated);
    leg_of_with_leg(w1.call, leg_id, l2);
    let c3 = match how {
        Some(b) => c2.set_bye_disposition(leg_id, b),
        None => c2,
    };
    let l3 = match how {
        Some(b) => LegView { bye_disposition: Some(b), ..l2 },
        None => l2,
    };
    leg_of_with_leg(c2, leg_id, l3);
    assert(c3.leg(leg_id) == Some(l3));
    leg_of_with_leg(c3, leg_id, LegView { disposition: LegDisposition::Rejected, ..l3 });
}

proof fn stands_as_it_did(c: CallView, d: CallView, id: Seq<char>)
    requires
        stand_alike(c, d),
        same_faces(c, d, false) || same_faces(c, d, true),
        d.leg(id) is Some,
    ensures
        c.leg(id) is Some,
        standing_of(c.leg(id)->0) == standing_of(d.leg(id)->0),
        c.a_leg.leg_id == d.a_leg.leg_id,
{
    if same_faces(c, d, true) {
        found_alike(c, d, id, true);
    } else {
        found_alike(c, d, id, false);
    }
    if d.a_leg.leg_id == id {
        assert(standing_of(c.legs()[0]) == standing_of(d.legs()[0]));
    } else {
        first_where_found(d.b_legs, leg_named(id));
        let k = d.b_at(id)->0;
        assert(standing_of(c.legs()[k + 1]) == standing_of(d.legs()[k + 1]));
    }
}

/// A callee's leg destroyed: an answered one is sent its BYE and a ringing one its
/// CANCEL, before the requests that waited on it are answered.
pub proof fn a_destroyed_leg_is_told(
    x: ExecView,
    w: WorkView,
    ctx: RuleContextView,
    l: LegView,
)
    requires
        l.leg_id != w.call.a_leg.leg_id,
        w.call.leg(l.leg_id) == Some(l),
    ensures
        ({
            let n = w.fx.outbound.len() as int;
            let r = x.apply(w, RuleActionView::DestroyLeg { leg_id: l.leg_id }, ctx);
            let e = r.fx.outbound[n];
            let asked = the_one_that_asked(w.call, l.leg_id);
            let d = l.dialogs[0];
            let bye = l.state == LegState::Confirmed && l.dialogs.len() > 0
                && d.sip.remote_tag.len() > 0;
            let cancel = (l.state == LegState::Trying || l.state == LegState::Early)
                && l.dialogs.len() > 0 && d.ext.pending_invite_txn is Some;
            let after = r.call.leg(l.leg_id)->0;
            &&& adds_to(w, r)
            &&& bye ==> {
                &&& n < r.fx.outbound.len()
                &&& says_goodbye(e, l.leg_id, d.sip, w.call.emergency == Some(true), None)
                &&& e.body->request.branch == w.ids.branch()
                &&& e.body->request.headers.len() == 0
            }
            &&& cancel ==> {
                &&& n < r.fx.outbound.len()
                &&& calls_off(e, l.leg_id, d.ext.pending_invite_txn->0, Seq::empty())
            }
            &&& the_waiting_are_answered(
                r,
                if bye || cancel {
                    n + 1
                } else {
                    n
                },
                l.dialogs,
                asked,
            )
            &&& r.call.leg(l.leg_id) is Some
            &&& after.state == LegState::Terminated
            &&& l.state == LegState::Confirmed ==> after.bye_disposition == Some(
                ByeDisposition::ByeSent,
            )
            &&& l.state == LegState::Trying || l.state == LegState::Early ==> {
                &&& after.bye_disposition == Some(ByeDisposition::Cancelled)
                &&& after.disposition == LegDisposition::Cancelling
            }
        }),
{
    reveal(ExecView::apply);
    reveal(destroy_leg);
    let id = l.leg_id;
    let s = ScopeView::Leg { leg_id: id };
    let w1 = retire(w, s);
    retiring_is_quiet();
    retiring_keeps_faces();
    alike_retire(w, s);
    found_alike(w1.call, w.call, id, true);
    stands_as_it_did(w1.call, w.call, id);
    standing_keeps_faces();
    let l1 = w1.call.leg(id)->0;
    assert(l1.state == l.state);
    assert(l1.dialogs.len() > 0 ==> same_wire(l1.dialogs[0], l.dialogs[0], true));
    assert(find_where(w1.call.b_legs, leg_named(id)) == w1.call.leg(id));
    let w3 = match l.state {
        LegState::Confirmed => {
            let t = bye(w1, id, b_dialogs(w1.call, id), Seq::empty(), None);
            t.on(t.call.set_bye_disposition(id, ByeDisposition::ByeSent))
        },
        LegState::Trying | LegState::Early => {
            let t = send_opt(w1, cancel_toward(w1.call, id, Seq::empty()));
            t.on(
                t.call.set_bye_disposition(id, ByeDisposition::Cancelled).set_leg_disposition(
                    id,
                    LegDisposition::Cancelling,
                ),
            )
        },
        _ => w1,
    };
    let l3 = match l.state {
        LegState::Confirmed => LegView { bye_disposition: Some(ByeDisposition::ByeSent), ..l1 },
        LegState::Trying | LegState::Early => LegView {
            bye_disposition: Some(ByeDisposition::Cancelled),
            disposition: LegDisposition::Cancelling,
            ..l1
        },
        _ => l1,
    };
    let lb = LegView { bye_disposition: Some(ByeDisposition::Cancelled), ..l1 };
    leg_of_with_leg(w1.call, id, LegView { bye_disposition: Some(ByeDisposition::ByeSent), ..l1 });
    leg_of_with_leg(w1.call, id, lb);
    leg_of_with_leg(
        w1.call.with_leg(id, lb),
        id,
        LegView { disposition: LegDisposition::Cancelling, ..lb },
    );
    assert(w3.call.leg(id) == Some(l3));
    assert(w3.call.active_peer == w.call.active_peer);
    assert(w3.call.a_leg.leg_id == w.call.a_leg.leg_id);
    a_legs_orphans_hear(w3, id);
    alike_reject_non_invites(w3, id);
    let w4 = reject_pending_non_invites(w3, id);
    stands_as_it_did(w4.call, w3.call, id);
    leg_of_with_leg(
        w4.call,
        id,
        LegView { state: LegState::Terminated, ..w4.call.leg(id)->0 },
    );
    let r = x.apply(w, RuleActionView::DestroyLeg { leg_id: l.leg_id }, ctx);
    assert(r.fx.outbound == w4.fx.outbound);
    waiting_alike(
        w4,
        r,
        w3.fx.outbound.len() as int,
        l3.dialogs,
        l.dialogs,
        the_one_that_asked(w.call, id),
    );
    let n = w.fx.outbound.len() as int;
    if w3.fx.outbound.len() > n {
        assert(w4.fx.outbound[n] == w3.fx.outbound[n]);
    }
}

/// The releasing peer's own message states that line, and it describes no body:
/// the BYE or CANCEL of another leg restates it.
pub open spec fn said_on_leaving(ctx: RuleContextView, h: SipHeaderView) -> bool {
    &&& match ctx.event {
        CallEventView::Request { request } => request.method == MethodView::Bye
            && request.relayable.contains(h),
        CallEventView::Cancelled { relayable, .. } => relayable.contains(h),
        _ => false,
    }
    &&& !(h.name.len() >= 8 && same_ignoring_case(h.name.take(8), "Content-"@))
    &&& !same_ignoring_case(h.name, "MIME-Version"@)
}

/// Exactly what the releasing peer said.
pub open spec fn restates(headers: Seq<SipHeaderView>, ctx: RuleContextView) -> bool {
    forall|h: SipHeaderView| #[trigger] headers.contains(h) <==> said_on_leaving(ctx, h)
}

proof fn the_release_is_restated(ctx: RuleContextView)
    ensures
        restates(teardown_headers(ctx), ctx),
{
    let p = goes_with(SourceBody::Dropped);
    let said = match ctx.event {
        CallEventView::Request { request } => if request.method == MethodView::Bye {
            request.relayable
        } else {
            Seq::empty()
        },
        CallEventView::Cancelled { relayable, .. } => relayable,
        _ => Seq::empty(),
    };
    assert forall|h: SipHeaderView| #[trigger]
        teardown_headers(ctx).contains(h) <==> said_on_leaving(ctx, h) by {
        kept_exactly(said, p, h);
    }
}

/// A leg called off is sent one CANCEL: of the INVITE that opened it, with what
/// the releasing peer said. The leg stays until its own final comes.
pub proof fn a_leg_is_called_off(x: ExecView, w: WorkView, ctx: RuleContextView, l: LegView)
    requires
        l.leg_id != w.call.a_leg.leg_id,
        w.call.leg(l.leg_id) == Some(l),
    ensures
        ({
            let r = x.apply(w, RuleActionView::CancelLeg { leg_id: l.leg_id }, ctx);
            let e = r.fx.outbound.last();
            let after = r.call.leg(l.leg_id)->0;
            &&& l.dialogs.len() > 0 && l.dialogs[0].ext.pending_invite_txn is Some ==> {
                &&& r.fx.outbound == w.fx.outbound.push(e)
                &&& e.body is Cancel
                &&& calls_off(
                    e,
                    l.leg_id,
                    l.dialogs[0].ext.pending_invite_txn->0,
                    e.body->Cancel_headers,
                )
                &&& restates(e.body->Cancel_headers, ctx)
            }
            &&& !(l.dialogs.len() > 0 && l.dialogs[0].ext.pending_invite_txn is Some)
                ==> r.fx.outbound == w.fx.outbound
            &&& r.fx.fire_and_forget == w.fx.fire_and_forget
            &&& r.ids == w.ids
            &&& r.call.leg(l.leg_id) is Some
            &&& after.state == l.state
            &&& after.disposition == LegDisposition::Cancelling
            &&& after.bye_disposition == l.bye_disposition
        }),
{
    reveal(ExecView::apply);
    reveal(cancel_leg);
    let id = l.leg_id;
    let s = ScopeView::Leg { leg_id: id };
    let w1 = retire(w, s);
    retiring_is_quiet();
    retiring_keeps_faces();
    alike_retire(w, s);
    found_alike(w1.call, w.call, id, true);
    stands_as_it_did(w1.call, w.call, id);
    let l1 = w1.call.leg(id)->0;
    assert(l1.dialogs.len() > 0 ==> same_wire(l1.dialogs[0], l.dialogs[0], true));
    assert(find_where(w1.call.b_legs, leg_named(id)) == w1.call.leg(id));
    the_release_is_restated(ctx);
    leg_of_with_leg(w1.call, id, LegView { disposition: LegDisposition::Cancelling, ..l1 });
}

// ── re-INVITEs that never end ───────────────────────────────────────────
/// A relayed re-INVITE called off is sent one CANCEL, of the INVITE that its
/// dialog caches under that number; where it caches none, nothing happens.
pub proof fn a_reinvite_is_called_off(
    x: ExecView,
    w: WorkView,
    ctx: RuleContextView,
    leg_id: Seq<char>,
    outbound_cseq: i64,
    d: DialogView,
)
    requires
        pending_dialog(w.call, leg_id, outbound_cseq) == Some(d),
    ensures
        ({
            let r = x.apply(
                w,
                RuleActionView::CancelPendingReinvite { leg_id, outbound_cseq },
                ctx,
            );
            let txn = d.ext.pending_invite_txn;
            let e = r.fx.outbound.last();
            let known = txn is Some && txn->0.cseq == outbound_cseq;
            &&& known ==> {
                &&& r.fx.outbound == w.fx.outbound.push(e)
                &&& calls_off(e, leg_id, txn->0, Seq::empty())
            }
            &&& !known ==> r == w
            &&& r.fx.fire_and_forget == w.fx.fire_and_forget
        }),
{
    reveal(ExecView::apply);
    reveal(cancel_pending_reinvite);
    reveal(commit_cancel);
    retiring_is_quiet();
}

/// A relayed re-INVITE rejected: the one that sent it hears the status and the
/// phrase, and the one it went to its CANCEL, in this order; both or neither.
pub proof fn a_rejected_reinvite_ends_on_both_sides(
    x: ExecView,
    w: WorkView,
    ctx: RuleContextView,
    leg_id: Seq<char>,
    outbound_cseq: i64,
    status: u16,
    reason: Seq<char>,
    d: DialogView,
    p: PendingRequestView,
)
    requires
        pending_dialog(w.call, leg_id, outbound_cseq) == Some(d),
        d.pending(outbound_cseq) == Some(p),
    ensures
        ({
            let r = x.apply(
                w,
                RuleActionView::RejectPendingReinvite { leg_id, outbound_cseq, status, reason },
                ctx,
            );
            let n = w.fx.outbound.len() as int;
            let txn = d.ext.pending_invite_txn;
            let known = txn is Some && txn->0.cseq == outbound_cseq;
            let heard = p.source_vias.len() > 0 && sent_by(p.source_vias[0]) is Some;
            let live = p.method == MethodView::Invite && !p.cancelled;
            &&& known && heard && live ==> {
                &&& r.fx.outbound == w.fx.outbound.push(r.fx.outbound[n]).push(
                    r.fx.outbound[n + 1],
                )
                &&& answers_in_its_place(
                    r.fx.outbound[n],
                    p,
                    status,
                    reason,
                    the_one_that_asked(w.call, leg_id),
                )
                &&& calls_off(r.fx.outbound[n + 1], leg_id, txn->0, Seq::empty())
            }
            &&& !(known && heard && live) ==> r == w
        }),
{
    reveal(ExecView::apply);
    reveal(reject_pending_reinvite);
    reveal(commit_cancel);
    retiring_is_quiet();
}

// ── the whole call ──────────────────────────────────────────────────────
/// The lines of a BYE that a teardown sends: first the cause, where it is a
/// structured one, then what the releasing peer said besides.
pub open spec fn gives_the_cause(
    headers: Seq<SipHeaderView>,
    why: Option<Seq<char>>,
    ctx: RuleContextView,
) -> bool {
    let stated = why is Some && starts_with_text(trim_text(why->0), "SIP"@);
    let cause = SipHeaderView { name: "Reason"@, value: why->0 };
    &&& stated ==> headers.len() > 0 && headers[0] == cause
    &&& forall|h: SipHeaderView| #[trigger]
        headers.contains(h) <==> {
            ||| stated && h == cause
            ||| said_on_leaving(ctx, h) && !(stated && same_ignoring_case(h.name, "Reason"@))
        }
}

/// The hops a BYE may still take: those the releasing peer's had left.
pub open spec fn hops_left(ctx: RuleContextView) -> Option<u32> {
    match ctx.event {
        CallEventView::Request { request } => if request.method == MethodView::Bye {
            Some(request.hops)
        } else {
            None
        },
        _ => None,
    }
}

/// A message of a teardown: a BYE on the first dialog of the leg it goes to, the
/// CANCEL of an INVITE that a dialog of that leg caches, or the final of a request
/// that waited.
pub open spec fn is_parting(
    c: CallView,
    e: OutboundSipView,
    why: Option<Seq<char>>,
    ctx: RuleContextView,
) -> bool {
    let id = e.leg_id->0;
    let ds = c.leg(id)->0.dialogs;
    &&& e.leg_id is Some
    &&& e.body is Request || e.body is Cancel || e.body is Response
    &&& e.body is Request ==> {
        &&& c.leg(id) is Some
        &&& ds.len() > 0
        &&& says_goodbye(e, id, ds[0].sip, c.emergency == Some(true), hops_left(ctx))
        &&& gives_the_cause(e.body->request.headers, why, ctx)
    }
    &&& e.body is Cancel ==> {
        &&& c.leg(id) is Some
        &&& exists|j: int|
            0 <= j < ds.len() && (#[trigger] ds[j]).ext.pending_invite_txn == Some(
                e.body->Cancel_of,
            )
        &&& calls_off(e, id, e.body->Cancel_of, e.body->Cancel_headers)
        &&& e.body->Cancel_headers.len() == 0 || restates(e.body->Cancel_headers, ctx)
    }
    &&& e.body is Response ==> {
        ||| exists|p: PendingRequestView| #[trigger] answers_the_orphan(e, p, id)
        ||| exists|p: PendingRequestView| #[trigger]
            answers_in_its_place(e, p, 487, "Request Terminated"@, id)
    }
}

pub open spec fn are_parting(
    c: CallView,
    before: WorkView,
    after: WorkView,
    why: Option<Seq<char>>,
    ctx: RuleContextView,
) -> bool {
    forall|k: int|
        before.fx.outbound.len() <= k < after.fx.outbound.len() ==> is_parting(
            c,
            #[trigger] after.fx.outbound[k],
            why,
            ctx,
        )
}

/// One of the messages from there on is the leg's own BYE, or its CANCEL.
pub open spec fn is_told(
    c: CallView,
    l: Standing,
    sent: Seq<OutboundSipView>,
    from: int,
    ctx: RuleContextView,
) -> bool {
    let f = c.leg(l.leg_id)->0;
    let open = l.state != LegState::Terminated && l.bye_disposition is None && l.disposition
        != LegDisposition::Cancelling;
    open && c.leg(l.leg_id) is Some && f.dialogs.len() > 0 ==> {
        &&& l.state == LegState::Confirmed && f.dialogs[0].sip.remote_tag.len() > 0 ==> exists|
            k: int,
        |
            from <= k < sent.len() && says_goodbye(
                #[trigger] sent[k],
                l.leg_id,
                f.dialogs[0].sip,
                c.emergency == Some(true),
                hops_left(ctx),
            )
        &&& l.state != LegState::Confirmed && l.leg_id != c.a_leg.leg_id
            && f.dialogs[0].ext.pending_invite_txn is Some ==> exists|k: int|
            from <= k < sent.len() && calls_off(
                #[trigger] sent[k],
                l.leg_id,
                f.dialogs[0].ext.pending_invite_txn->0,
                sent[k].body->Cancel_headers,
            )
    }
}

proof fn the_cause_is_given(ctx: RuleContextView, why: Option<Seq<char>>)
    ensures
        gives_the_cause(bye_headers(stated_cause(why), teardown_headers(ctx)), why, ctx),
{
    the_release_is_restated(ctx);
    let lines = teardown_headers(ctx);
    let p = named_outside(seq![reason_name()]);
    let headers = bye_headers(stated_cause(why), lines);
    if let Some(r) = stated_cause(why) {
        let cause = SipHeaderView { name: reason_name(), value: r };
        assert(headers == seq![cause] + keep(lines, p));
        assert forall|h: SipHeaderView| #[trigger]
            headers.contains(h) <==> {
                ||| h == cause
                ||| said_on_leaving(ctx, h) && !same_ignoring_case(h.name, reason_name())
            } by {
            either_holds(seq![cause], keep(lines, p), h);
            kept_exactly(lines, p, h);
            assert(lines.contains(h) <==> said_on_leaving(ctx, h));
            assert(seq![reason_name()][0] == reason_name());
            assert(seq![cause][0] == cause);
            assert(seq![cause].contains(h) <==> h == cause);
        }
    }
}

proof fn adds_through(a: WorkView, b: WorkView, c: WorkView)
    requires
        adds_to(a, b),
        adds_to(b, c),
    ensures
        adds_to(a, c),
{
    assert forall|k: int| 0 <= k < a.fx.outbound.len() implies (#[trigger] c.fx.outbound[k])
        == a.fx.outbound[k] by {
        assert(c.fx.outbound[k] == b.fx.outbound[k]);
    }
}

proof fn parting_through(
    x: CallView,
    a: WorkView,
    b: WorkView,
    c: WorkView,
    why: Option<Seq<char>>,
    ctx: RuleContextView,
)
    requires
        adds_to(a, b),
        adds_to(b, c),
        are_parting(x, a, b, why, ctx),
        are_parting(x, b, c, why, ctx),
    ensures
        are_parting(x, a, c, why, ctx),
{
    assert forall|k: int| a.fx.outbound.len() <= k < c.fx.outbound.len() implies is_parting(
        x,
        #[trigger] c.fx.outbound[k],
        why,
        ctx,
    ) by {
        if k < b.fx.outbound.len() {
            assert(c.fx.outbound[k] == b.fx.outbound[k]);
            assert(is_parting(x, b.fx.outbound[k], why, ctx));
        }
    }
}

proof fn a_rejection_is_parting(
    w: WorkView,
    c: CallView,
    leg_id: Seq<char>,
    cseq: i64,
    why: Option<Seq<char>>,
    ctx: RuleContextView,
)
    requires
        same_faces(w.call, c, false),
    ensures
        ({
            let r = reject_pending_reinvite(w, leg_id, cseq, 487, "Request Terminated"@);
            &&& adds_to(w, r)
            &&& same_faces(r.call, c, false)
            &&& are_parting(c, w, r, why, ctx)
        }),
{
    reveal(reject_pending_reinvite);
    reveal(commit_cancel);
    let r = reject_pending_reinvite(w, leg_id, cseq, 487, "Request Terminated"@);
    if r != w {
        let d = pending_dialog(w.call, leg_id, cseq)->0;
        let p = d.pending(cseq)->0;
        let txn = d.ext.pending_invite_txn->0;
        let to = originator(w.call, leg_id);
        let e1 = toward_originator(
            snapshot_response(p, 487, "Request Terminated"@),
            origin_address(p)->0,
            to,
            Provenance::Authored,
        );
        let e2 = cancel_of(leg_id, txn, Seq::empty());
        assert(reinvite_cancel(w.call, leg_id, cseq) == Some(e2));
        let w1 = w.send(e1);
        let tag = identity_tag(leg_id, pending_dialog(w1.call, leg_id, cseq)->0);
        let c2 = w1.call.cancel_pending_request(leg_id, tag, cseq);
        let w2 = w1.send(e2).on(c2);
        faces_where_legs_are(w1.call, w1.call);
        if let Some(f) = w1.call.dialog(leg_id, tag) {
            dialog_replaced(w1.call, leg_id, tag, f.cancel_pending(cseq), false);
        }
        retiring_is_quiet();
        retiring_keeps_faces();
        assert(r == retire(w2, ScopeView::Transaction { leg_id, cseq }));
        less_is_kept(r.call, c2);
        faces_through(r.call, c2, w.call, false);
        faces_through(r.call, w.call, c, false);
        assert(r.fx.outbound == w.fx.outbound.push(e1).push(e2));
        found_alike(w.call, c, leg_id, false);
        let l = w.call.leg(leg_id)->0;
        first_where_found(l.dialogs, holds_pending(cseq));
        let j = first_where(l.dialogs, holds_pending(cseq))->0;
        assert(l.dialogs[j] == d);
        assert(c.leg(leg_id)->0.dialogs[j].ext.pending_invite_txn == Some(txn));
        assert(answers_in_its_place(e1, p, 487, "Request Terminated"@, to));
        assert(is_parting(c, e1, why, ctx));
        assert(is_parting(c, e2, why, ctx));
        let n = w.fx.outbound.len() as int;
        assert(r.fx.outbound[n] == e1);
        assert(r.fx.outbound[n + 1] == e2);
    }
}

proof fn rejections_are_parting(
    w: WorkView,
    c: CallView,
    xs: Seq<(Seq<char>, PendingRequestView)>,
    why: Option<Seq<char>>,
    ctx: RuleContextView,
)
    requires
        same_faces(w.call, c, false),
    ensures
        ({
            let r = reject_invites(w, xs);
            &&& adds_to(w, r)
            &&& same_faces(r.call, c, false)
            &&& are_parting(c, w, r, why, ctx)
        }),
    decreases xs.len(),
{
    if xs.len() > 0 {
        let w1 = reject_invites(w, xs.drop_last());
        let r = reject_invites(w, xs);
        rejections_are_parting(w, c, xs.drop_last(), why, ctx);
        a_rejection_is_parting(w1, c, xs.last().0, xs.last().1.outbound_cseq, why, ctx);
        adds_through(w, w1, r);
        parting_through(c, w, w1, r, why, ctx);
    }
}

proof fn orphans_are_parting(
    w: WorkView,
    c: CallView,
    leg_id: Seq<char>,
    why: Option<Seq<char>>,
    ctx: RuleContextView,
)
    requires
        same_faces(w.call, c, false),
    ensures
        ({
            let r = reject_pending_non_invites(w, leg_id);
            &&& adds_to(w, r)
            &&& same_faces(r.call, c, false)
            &&& are_parting(c, w, r, why, ctx)
        }),
{
    let r = reject_pending_non_invites(w, leg_id);
    a_legs_orphans_hear(w, leg_id);
    faces_through(r.call, w.call, c, false);
    if let Some(l) = w.call.leg(leg_id) {
        let to = the_one_that_asked(w.call, leg_id);
        let n = w.fx.outbound.len() as int;
        assert forall|k: int| n <= k < r.fx.outbound.len() implies is_parting(
            c,
            #[trigger] r.fx.outbound[k],
            why,
            ctx,
        ) by {
            assert(is_owed(l.dialogs, r.fx.outbound[k], to));
            let p = choose|p: PendingRequestView|
                #[trigger] waits_on(l.dialogs, p) && answers_the_orphan(r.fx.outbound[k], p, to);
            assert(answers_the_orphan(r.fx.outbound[k], p, to));
        }
    }
}

proof fn a_leg_is_parted_from(
    w: WorkView,
    c: CallView,
    l: LegView,
    why: Option<Seq<char>>,
    ctx: RuleContextView,
)
    requires
        same_faces(w.call, c, false),
    ensures
        ({
            let r = end_leg(w, l, stated_cause(why), teardown_headers(ctx), teardown_hops(ctx));
            &&& adds_to(w, r)
            &&& same_faces(r.call, c, false)
            &&& are_parting(c, w, r, why, ctx)
            &&& is_told(c, standing_of(l), r.fx.outbound, w.fx.outbound.len() as int, ctx)
        }),
{
    reveal(end_leg);
    let id = l.leg_id;
    let n = w.fx.outbound.len() as int;
    let r = end_leg(w, l, stated_cause(why), teardown_headers(ctx), teardown_hops(ctx));
    found_alike(w.call, c, id, false);
    standing_keeps_faces();
    the_cause_is_given(ctx, why);
    the_release_is_restated(ctx);
    if l.state == LegState::Terminated || l.bye_disposition is Some || l.disposition
        == LegDisposition::Cancelling {
    } else if l.state == LegState::Confirmed {
        let ds = if id == w.call.a_leg.leg_id {
            w.call.a_leg.dialogs
        } else {
            b_dialogs(w.call, id)
        };
        let w1 = bye(
            w,
            id,
            ds,
            bye_headers(stated_cause(why), teardown_headers(ctx)),
            teardown_hops(ctx),
        );
        less_is_kept(r.call, w1.call);
        faces_through(r.call, w.call, c, false);
        if ds.len() > 0 && ds[0].sip.remote_tag.len() > 0 {
            let e = r.fx.outbound[n];
            assert(w.call.leg(id) is Some);
            assert(same_wire(ds[0], c.leg(id)->0.dialogs[0], false));
            assert(says_goodbye(
                e,
                id,
                c.leg(id)->0.dialogs[0].sip,
                c.emergency == Some(true),
                hops_left(ctx),
            ));
            assert(is_parting(c, e, why, ctx));
        }
        if c.leg(id) is Some {
            assert(w.call.leg(id)->0.dialogs == ds);
            if ds.len() > 0 {
                assert(same_wire(ds[0], c.leg(id)->0.dialogs[0], false));
            }
        }
    } else if id == w.call.a_leg.leg_id {
        let c1 = w.call.set_bye_disposition(id, ByeDisposition::NotOwed);
        let w1 = w.on(c1);
        less_is_kept(c1, w.call);
        faces_through(c1, w.call, c, false);
        if w1.call.a_leg.invite_final_sent is Some {
            orphans_are_parting(w1, c, id, why, ctx);
            let w2 = reject_pending_non_invites(w1, id);
            less_is_kept(w2.call.set_leg_state(id, LegState::Terminated), w2.call);
            faces_through(r.call, w2.call, c, false);
        }
    } else {
        let w1 = send_opt(w, cancel_toward(w.call, id, teardown_headers(ctx)));
        let ca = w1.call.set_bye_disposition(id, ByeDisposition::Cancelled);
        let cb = ca.set_leg_disposition(id, LegDisposition::Cancelling);
        less_is_kept(ca, w1.call);
        less_is_kept(cb, ca);
        faces_through(cb, ca, w.call, false);
        faces_through(cb, w.call, c, false);
        let w2 = w1.on(cb);
        orphans_are_parting(w2, c, id, why, ctx);
        let w3 = reject_pending_non_invites(w2, id);
        less_is_kept(w3.call.set_leg_state(id, LegState::Terminated), w3.call);
        faces_through(r.call, w3.call, c, false);
        let ds = b_dialogs(w.call, id);
        if ds.len() > 0 && ds[0].ext.pending_invite_txn is Some {
            let e = w1.fx.outbound[n];
            assert(same_wire(ds[0], c.leg(id)->0.dialogs[0], false));
            assert(c.leg(id)->0.dialogs[0].ext.pending_invite_txn == Some(e.body->Cancel_of));
            assert(is_parting(c, e, why, ctx));
            assert(are_parting(c, w, w1, why, ctx));
            assert(r.fx.outbound[n] == e);
        }
        if c.leg(id) is Some && c.leg(id)->0.dialogs.len() > 0 {
            assert(w.call.leg(id)->0.dialogs == ds);
            assert(same_wire(ds[0], c.leg(id)->0.dialogs[0], false));
        }
        assert(adds_to(w, w1));
        adds_through(w, w1, w3);
        parting_through(c, w, w1, w3, why, ctx);
    }
}

proof fn each_leg_is_parted_from(
    w: WorkView,
    c: CallView,
    ls: Seq<LegView>,
    why: Option<Seq<char>>,
    ctx: RuleContextView,
)
    requires
        same_faces(w.call, c, false),
    ensures
        ({
            let r = end_each(w, ls, stated_cause(why), teardown_headers(ctx), teardown_hops(ctx));
            &&& adds_to(w, r)
            &&& same_faces(r.call, c, false)
            &&& are_parting(c, w, r, why, ctx)
            &&& forall|i: int|
                0 <= i < ls.len() ==> is_told(
                    c,
                    standing_of(#[trigger] ls[i]),
                    r.fx.outbound,
                    w.fx.outbound.len() as int,
                    ctx,
                )
        }),
    decreases ls.len(),
{
    if ls.len() > 0 {
        let ks = ls.drop_last();
        let w1 = end_each(w, ks, stated_cause(why), teardown_headers(ctx), teardown_hops(ctx));
        let r = end_each(w, ls, stated_cause(why), teardown_headers(ctx), teardown_hops(ctx));
        each_leg_is_parted_from(w, c, ks, why, ctx);
        a_leg_is_parted_from(w1, c, ls.last(), why, ctx);
        adds_through(w, w1, r);
        parting_through(c, w, w1, r, why, ctx);
        let n = w.fx.outbound.len() as int;
        assert forall|i: int| 0 <= i < ls.len() implies is_told(
            c,
            standing_of(#[trigger] ls[i]),
            r.fx.outbound,
            n,
            ctx,
        ) by {
            if i < ks.len() {
                assert(ks[i] == ls[i]);
                still_told(c, standing_of(ks[i]), w1.fx.outbound, r.fx.outbound, n, n, ctx);
            } else {
                still_told(
                    c,
                    standing_of(ls[i]),
                    r.fx.outbound,
                    r.fx.outbound,
                    w1.fx.outbound.len() as int,
                    n,
                    ctx,
                );
            }
        }
    }
}

proof fn still_told(
    c: CallView,
    l: Standing,
    a: Seq<OutboundSipView>,
    b: Seq<OutboundSipView>,
    from: int,
    to: int,
    ctx: RuleContextView,
)
    requires
        is_told(c, l, a, from, ctx),
        to <= from,
        a.len() <= b.len(),
        forall|k: int| 0 <= k < a.len() ==> (#[trigger] b[k]) == a[k],
        0 <= to,
    ensures
        is_told(c, l, b, to, ctx),
{
    let f = c.leg(l.leg_id)->0;
    let sip = f.dialogs[0].sip;
    let txn = f.dialogs[0].ext.pending_invite_txn->0;
    let emergency = c.emergency == Some(true);
    if exists|k: int|
        from <= k < a.len() && says_goodbye(
            #[trigger] a[k],
            l.leg_id,
            sip,
            emergency,
            hops_left(ctx),
        ) {
        let k = choose|k: int|
            from <= k < a.len() && says_goodbye(
                #[trigger] a[k],
                l.leg_id,
                sip,
                emergency,
                hops_left(ctx),
            );
        assert(says_goodbye(b[k], l.leg_id, sip, emergency, hops_left(ctx)));
    }
    if exists|k: int|
        from <= k < a.len() && calls_off(
            #[trigger] a[k],
            l.leg_id,
            txn,
            a[k].body->Cancel_headers,
        ) {
        let k = choose|k: int|
            from <= k < a.len() && calls_off(
                #[trigger] a[k],
                l.leg_id,
                txn,
                a[k].body->Cancel_headers,
            );
        assert(calls_off(b[k], l.leg_id, txn, b[k].body->Cancel_headers));
    }
}

/// A call that ends tells every leg so, and says nothing else: an answered leg is
/// sent its BYE, a ringing one its CANCEL, and every other message is the final of
/// a request that waited.
pub proof fn an_ending_call_tells_every_leg(
    x: ExecView,
    w: WorkView,
    ctx: RuleContextView,
    reason: Option<Seq<char>>,
)
    ensures
        ({
            let r = x.apply(w, RuleActionView::BeginTermination { reason }, ctx);
            &&& adds_to(w, r)
            &&& are_parting(w.call, w, r, reason, ctx)
            &&& forall|i: int|
                0 <= i < w.call.legs().len() ==> is_told(
                    w.call,
                    standing_of(#[trigger] w.call.legs()[i]),
                    r.fx.outbound,
                    w.fx.outbound.len() as int,
                    ctx,
                )
        }),
{
    reveal(ExecView::apply);
    reveal(ExecView::begin_termination);
    reveal(termination_begun);
    reveal(wound_down);
    reveal(scrub_idle);
    let c = w.call;
    let c1 = c.record_termination(x.now_ms, reason, Some(ctx.source_leg_id));
    faces_where_legs_are(c1, c);
    let w0 = w.on(c1);
    rejections_are_parting(w0, c, leg_invites(c1.legs()), reason, ctx);
    let w1 = reject_invites(w0, leg_invites(c1.legs()));
    alike_reject_invites(w0, leg_invites(c1.legs()));
    each_leg_is_parted_from(w1, c, w1.call.legs(), reason, ctx);
    let w2 = end_each(
        w1,
        w1.call.legs(),
        stated_cause(reason),
        teardown_headers(ctx),
        teardown_hops(ctx),
    );
    retiring_is_quiet();
    scheduling_is_quiet();
    let r = x.apply(w, RuleActionView::BeginTermination { reason }, ctx);
    assert(r.fx.outbound == w2.fx.outbound);
    assert(r.fx.fire_and_forget == w2.fx.fire_and_forget);
    adds_through(w0, w1, w2);
    parting_through(c, w0, w1, w2, reason, ctx);
    let n = w.fx.outbound.len() as int;
    assert forall|i: int| 0 <= i < c.legs().len() implies is_told(
        c,
        standing_of(#[trigger] c.legs()[i]),
        r.fx.outbound,
        n,
        ctx,
    ) by {
        assert(c1.legs()[i] == c.legs()[i]);
        let l = w1.call.legs()[i];
        assert(standing_of(l) == standing_of(c1.legs()[i]));
        assert(is_told(c, standing_of(l), w2.fx.outbound, w1.fx.outbound.len() as int, ctx));
        still_told(
            c,
            standing_of(l),
            w2.fx.outbound,
            r.fx.outbound,
            w1.fx.outbound.len() as int,
            n,
            ctx,
        );
    }
}

} // verus!
