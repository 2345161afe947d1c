//! Ending legs and calls: graceful termination, the end of one leg, and the
//! BYE and CANCEL each is told with.
use vstd::prelude::*;

use super::ladder::{retire, retire_scope};
use super::select::{
    find_pending_dialog, origin_address, originator, originator_of, pending_dialog,
    plain_snapshot_response, read_origin, snapshot_response, to_originator, toward_originator,
};
use super::{ActionExecutor, ExecView, Work, WorkView};
use crate::books::{Scope, ScopeView};
use crate::call::{
    ByeDisposition, Call, CallModelState, CallView, Destination, DestinationView, Dialog,
    DialogView, InviteTxnView, Leg, LegDisposition, LegState, LegView, PendingRequest,
    PendingRequestView, ResponsePlanView, SourceBody, StackDialog, StackDialogView, TimerEntry,
    TimerEntryView, TimerKind, TimerType, TimerTypeView,
};
use crate::context::kind_of;
use crate::effects::{
    CriticalEffect, CriticalEffectView, HandlerEffectsView, OutboundBody, OutboundBodyView,
    OutboundSip, OutboundSipView, Provenance, RequestPlan, RequestPlanView, TxnMode,
};
use crate::headers::{
    append_lines, clone_lines, describes_body, goes_with, lines_beside, lines_outside, lines_with,
    named_outside,
};
use crate::lens::{
    cancel_pending_request, clamp, clamped_add, dialog_identity_tag, find_leg, find_leg_index,
    find_pending_request, identity_tag, is_empty, leg_named, remove_pending_request,
    set_bye_disposition, set_leg_disposition, set_leg_state,
};
use crate::model::{CallEvent, CallEventView, RuleContext, RuleContextView};
use crate::seqs::{find_where, keep, keep_sound, keep_step, opt_view, views};
use crate::state::{keep_only_cursor, record_termination};
use crate::text::{clone_texts, starts_with, starts_with_text, trim, trim_text};
use crate::wire::{Method, MethodView, SipHeader, SipHeaderView};

verus! {

/// How long a terminating call waits for its legs.
pub const TERMINATING_TIMEOUT_MS: i64 = 32000;

/// The machine of the call's own lifecycle.
pub open spec fn global_call() -> Seq<char> {
    "global-call"@
}

// ── what the releasing peer said ────────────────────────────────────────
/// The lines a peer's own teardown states, for the other leg's. That carries no
/// body, and so none of the lines that describe one.
pub open spec fn teardown_headers(ctx: RuleContextView) -> Seq<SipHeaderView> {
    match ctx.event {
        CallEventView::Request { request } => if request.method == MethodView::Bye {
            lines_with(request.relayable, SourceBody::Dropped)
        } else {
            Seq::empty()
        },
        CallEventView::Cancelled { relayable, .. } => lines_with(relayable, SourceBody::Dropped),
        _ => Seq::empty(),
    }
}

/// The hop count a peer's own BYE hands on; a release of this stack's starts
/// one.
pub open spec fn teardown_hops(ctx: RuleContextView) -> Option<u32> {
    match ctx.event {
        CallEventView::Request { request } => if request.method == MethodView::Bye {
            Some(request.hops)
        } else {
            None
        },
        _ => None,
    }
}

fn relayed_teardown_headers(ctx: &RuleContext) -> (r: Vec<SipHeader>)
    ensures
        views(r@) == teardown_headers(ctx@),
{
    let none: Vec<SipHeader> = Vec::new();
    assert(views(none@) =~= Seq::<SipHeaderView>::empty());
    match ctx.event {
        CallEvent::Request { request } => if request.method == Method::Bye {
            lines_beside(&request.relayable, SourceBody::Dropped)
        } else {
            none
        },
        CallEvent::Cancelled { relayable, .. } => lines_beside(relayable, SourceBody::Dropped),
        _ => none,
    }
}

fn relayed_teardown_hops(ctx: &RuleContext) -> (r: Option<u32>)
    ensures
        r == teardown_hops(ctx@),
{
    match ctx.event {
        CallEvent::Request { request } => if request.method == Method::Bye {
            Some(request.hops)
        } else {
            None
        },
        _ => None,
    }
}

// ── BYE ─────────────────────────────────────────────────────────────────
pub open spec fn reason_name() -> Seq<char> {
    "Reason"@
}

/// The lines of a BYE: the stated cause, and every line of the releasing peer's
/// that it does not name.
pub open spec fn bye_headers(reason: Option<Seq<char>>, relayed: Seq<SipHeaderView>) -> Seq<
    SipHeaderView,
> {
    match reason {
        Some(r) => seq![SipHeaderView { name: reason_name(), value: r }] + keep(
            relayed,
            named_outside(seq![reason_name()]),
        ),
        None => relayed,
    }
}

/// A BYE on a dialog, under the next number of its sequence.
pub open spec fn bye_on(
    leg_id: Seq<char>,
    emergency: bool,
    d: StackDialogView,
    branch: Seq<char>,
    headers: Seq<SipHeaderView>,
    hops: Option<u32>,
) -> OutboundSipView {
    OutboundSipView {
        body: OutboundBodyView::Request {
            request: RequestPlanView {
                method: MethodView::Bye,
                dialog: d,
                branch,
                cseq: clamp(d.local_cseq + 1),
                rack: None,
                body: Seq::empty(),
                content_type: None,
                headers,
                event: None,
                subscription_state: None,
                contact: false,
                emergency,
                max_forwards: hops,
                capabilities: None,
            },
        },
        mode: TxnMode::NewNonInvite,
        destination: DestinationView::Target { uri: d.remote_target, route_set: d.route_set },
        leg_id: Some(leg_id),
        provenance: Provenance::Authored,
    }
}

/// A BYE sent on the leg's first dialog; nothing where there is none, or its
/// peer's tag is not known.
pub open spec fn bye(
    w: WorkView,
    leg_id: Seq<char>,
    dialogs: Seq<DialogView>,
    headers: Seq<SipHeaderView>,
    hops: Option<u32>,
) -> WorkView {
    if dialogs.len() > 0 && dialogs[0].sip.remote_tag.len() > 0 {
        w.minted().send(
            bye_on(
                leg_id,
                w.call.is_emergency(),
                dialogs[0].sip,
                w.ids.branch(),
                headers,
                hops,
            ),
        )
    } else {
        w
    }
}

/// The dialogs of a leg other than the caller's.
pub open spec fn b_dialogs(c: CallView, leg_id: Seq<char>) -> Seq<DialogView> {
    match find_where(c.b_legs, leg_named(leg_id)) {
        Some(l) => l.dialogs,
        None => Seq::empty(),
    }
}

fn headers_of_bye(reason: &Option<String>, relayed: &Vec<SipHeader>) -> (r: Vec<SipHeader>)
    ensures
        views(r@) == bye_headers(opt_view(*reason), views(relayed@)),
{
    match reason {
        Some(t) => {
            let mut names: Vec<String> = Vec::new();
            names.push("Reason".to_string());
            assert(views(names@) =~= seq![reason_name()]);
            let line = SipHeader { name: "Reason".to_string(), value: t.clone() };
            let rest = lines_outside(relayed, &names);
            let mut out: Vec<SipHeader> = Vec::new();
            out.push(line);
            assert(views(out@) =~= seq![line@]);
            append_lines(&mut out, &rest);
            out
        },
        None => clone_lines(relayed),
    }
}

fn bye_effect(
    leg_id: &String,
    emergency: bool,
    d: &StackDialog,
    branch: String,
    headers: Vec<SipHeader>,
    hops: Option<u32>,
) -> (r: OutboundSip)
    ensures
        r@ == bye_on(leg_id@, emergency, d@, branch@, views(headers@), hops),
{
    let destination = Destination::Target {
        uri: d.remote_target.clone(),
        route_set: clone_texts(&d.route_set),
    };
    let request = RequestPlan {
        method: Method::Bye,
        dialog: d.clone(),
        branch,
        cseq: clamped_add(d.local_cseq, 1),
        rack: None,
        body: Vec::new(),
        content_type: None,
        headers,
        event: None,
        subscription_state: None,
        contact: false,
        emergency,
        max_forwards: hops,
        capabilities: None,
    };
    assert(request.body@ =~= Seq::empty());
    OutboundSip {
        body: OutboundBody::Request { request },
        mode: TxnMode::NewNonInvite,
        destination,
        leg_id: Some(leg_id.clone()),
        provenance: Provenance::Authored,
    }
}

fn bye_to_leg_a(w: &mut Work, headers: &Vec<SipHeader>, hops: Option<u32>)
    ensures
        final(w)@ == bye(
            old(w)@,
            old(w)@.call.a_leg.leg_id,
            old(w)@.call.a_leg.dialogs,
            views(headers@),
            hops,
        ),
{
    if w.call.a_leg.dialogs.len() > 0 {
        assert(w@.call.a_leg.dialogs[0] == w.call.a_leg.dialogs@[0]@);
        if !is_empty(&w.call.a_leg.dialogs[0].sip.remote_tag) {
            let branch = w.ids.new_branch();
            let e = bye_effect(
                &w.call.a_leg.leg_id,
                w.call.is_emergency(),
                &w.call.a_leg.dialogs[0].sip,
                branch,
                clone_lines(headers),
                hops,
            );
            w.send(e);
        }
    }
}

fn bye_to_b_leg(w: &mut Work, leg_id: &String, headers: &Vec<SipHeader>, hops: Option<u32>)
    ensures
        final(w)@ == bye(
            old(w)@,
            leg_id@,
            b_dialogs(old(w)@.call, leg_id@),
            views(headers@),
            hops,
        ),
{
    if let Some(i) = find_leg_index(&w.call.b_legs, leg_id) {
        assert(w@.call.b_legs[i as int] == w.call.b_legs@[i as int]@);
        if w.call.b_legs[i].dialogs.len() > 0 {
            assert(w.call.b_legs@[i as int]@.dialogs[0] == w.call.b_legs@[i as int].dialogs@[0]@);
            if !is_empty(&w.call.b_legs[i].dialogs[0].sip.remote_tag) {
                let branch = w.ids.new_branch();
                let e = bye_effect(
                    leg_id,
                    w.call.is_emergency(),
                    &w.call.b_legs[i].dialogs[0].sip,
                    branch,
                    clone_lines(headers),
                    hops,
                );
                w.send(e);
            }
        }
    }
}

// ── CANCEL ──────────────────────────────────────────────────────────────
/// The CANCEL of an INVITE this stack sent: to where the INVITE went, past the
/// transaction layer.
pub open spec fn cancel_of(
    leg_id: Seq<char>,
    txn: InviteTxnView,
    headers: Seq<SipHeaderView>,
) -> OutboundSipView {
    OutboundSipView {
        body: OutboundBodyView::Cancel { of: txn, headers },
        mode: TxnMode::Raw,
        destination: txn.destination,
        leg_id: Some(leg_id),
        provenance: Provenance::Authored,
    }
}

/// The CANCEL of the INVITE that opened a leg; nothing for the caller's, nor
/// where no such INVITE is known.
pub open spec fn cancel_toward(
    c: CallView,
    leg_id: Seq<char>,
    headers: Seq<SipHeaderView>,
) -> Option<OutboundSipView> {
    let ds = b_dialogs(c, leg_id);
    if ds.len() > 0 {
        match ds[0].ext.pending_invite_txn {
            Some(txn) => Some(cancel_of(leg_id, txn, headers)),
            None => None,
        }
    } else {
        None
    }
}

pub open spec fn send_opt(w: WorkView, e: Option<OutboundSipView>) -> WorkView {
    match e {
        Some(e) => w.send(e),
        None => w,
    }
}

fn cancel_to_leg(call: &Call, leg_id: &String, headers: &Vec<SipHeader>) -> (r: Option<OutboundSip>)
    ensures
        opt_view(r) == cancel_toward(call@, leg_id@, views(headers@)),
{
    if let Some(i) = find_leg_index(&call.b_legs, leg_id) {
        assert(call@.b_legs[i as int] == call.b_legs@[i as int]@);
        let l = &call.b_legs[i];
        if l.dialogs.len() > 0 {
            assert(l@.dialogs[0] == l.dialogs@[0]@);
            if let Some(txn) = &l.dialogs[0].ext.pending_invite_txn {
                return Some(
                    OutboundSip {
                        body: OutboundBody::Cancel {
                            of: txn.clone(),
                            headers: clone_lines(headers),
                        },
                        mode: TxnMode::Raw,
                        destination: txn.destination.clone(),
                        leg_id: Some(leg_id.clone()),
                        provenance: Provenance::Authored,
                    },
                );
            }
        }
    }
    None
}

/// The CANCEL of a relayed re-INVITE still pending: nothing where the dialog
/// caches no INVITE of that CSeq.
pub open spec fn reinvite_cancel(
    c: CallView,
    leg_id: Seq<char>,
    cseq: i64,
) -> Option<OutboundSipView> {
    match pending_dialog(c, leg_id, cseq) {
        Some(d) => match d.ext.pending_invite_txn {
            Some(txn) => if txn.cseq == cseq {
                Some(cancel_of(leg_id, txn, Seq::empty()))
            } else {
                None
            },
            None => None,
        },
        None => None,
    }
}

/// A relayed re-INVITE cancelled: the CANCEL sent, the snapshot marked, the
/// transaction's provisionals ended.
#[verifier::opaque]
pub open spec fn commit_cancel(
    w: WorkView,
    leg_id: Seq<char>,
    cseq: i64,
    e: OutboundSipView,
) -> WorkView {
    let tag = identity_tag(leg_id, pending_dialog(w.call, leg_id, cseq)->0);
    retire(
        w.send(e).on(w.call.cancel_pending_request(leg_id, tag, cseq)),
        ScopeView::Transaction { leg_id, cseq },
    )
}

/// A relayed re-INVITE cancelled toward its target, where it can be.
#[verifier::opaque]
pub open spec fn cancel_pending_reinvite(w: WorkView, leg_id: Seq<char>, cseq: i64) -> WorkView {
    match reinvite_cancel(w.call, leg_id, cseq) {
        Some(e) => commit_cancel(w, leg_id, cseq, e),
        None => w,
    }
}

/// A relayed re-INVITE ended on both faces: its originator answered, its
/// target cancelled. Nothing where either cannot be, or it was cancelled.
#[verifier::opaque]
pub open spec fn reject_pending_reinvite(
    w: WorkView,
    leg_id: Seq<char>,
    cseq: i64,
    status: u16,
    reason: Seq<char>,
) -> WorkView {
    match pending_dialog(w.call, leg_id, cseq) {
        Some(d) => {
            let p = d.pending(cseq)->0;
            match (origin_address(p), reinvite_cancel(w.call, leg_id, cseq)) {
                (Some(at), Some(e)) => if p.cancelled || p.method != MethodView::Invite {
                    w
                } else {
                    commit_cancel(
                        w.send(
                            toward_originator(
                                snapshot_response(p, status, reason),
                                at,
                                originator(w.call, leg_id),
                                Provenance::Authored,
                            ),
                        ),
                        leg_id,
                        cseq,
                        e,
                    )
                },
                _ => w,
            }
        },
        None => w,
    }
}

fn pending_reinvite_cancel(call: &Call, leg_id: &String, cseq: i64) -> (r: Option<OutboundSip>)
    ensures
        opt_view(r) == reinvite_cancel(call@, leg_id@, cseq),
{
    if let Some(d) = find_pending_dialog(call, leg_id, cseq) {
        if let Some(txn) = &d.ext.pending_invite_txn {
            if txn.cseq == cseq {
                let none: Vec<SipHeader> = Vec::new();
                assert(views(none@) =~= Seq::<SipHeaderView>::empty());
                return Some(
                    OutboundSip {
                        body: OutboundBody::Cancel { of: txn.clone(), headers: none },
                        mode: TxnMode::Raw,
                        destination: txn.destination.clone(),
                        leg_id: Some(leg_id.clone()),
                        provenance: Provenance::Authored,
                    },
                );
            }
        }
    }
    None
}

fn commit_pending_reinvite_cancel(w: &mut Work, leg_id: &String, cseq: i64, e: OutboundSip)
    requires
        pending_dialog(old(w)@.call, leg_id@, cseq) is Some,
    ensures
        final(w)@ == commit_cancel(old(w)@, leg_id@, cseq, e@),
{
    proof {
        reveal(commit_cancel);
    }
    let tag = match find_pending_dialog(&w.call, leg_id, cseq) {
        Some(d) => dialog_identity_tag(leg_id, d),
        None => String::new(),
    };
    w.send(e);
    cancel_pending_request(&mut w.call, leg_id, &tag, cseq);
    retire_scope(w, &Scope::Transaction { leg_id: leg_id.clone(), cseq });
}

// ── the requests relayed toward a leg that ends ─────────────────────────
pub open spec fn is_not_invite() -> spec_fn(PendingRequestView) -> bool {
    |p: PendingRequestView| p.method != MethodView::Invite
}

pub open spec fn under(tag: Seq<char>) -> spec_fn(PendingRequestView) -> (
    Seq<char>,
    PendingRequestView,
) {
    |p: PendingRequestView| (tag, p)
}

/// The relayed non-INVITE requests pending on dialogs of a leg, each with its
/// dialog's identity.
pub open spec fn non_invites(leg_id: Seq<char>, ds: Seq<DialogView>) -> Seq<
    (Seq<char>, PendingRequestView),
>
    decreases ds.len(),
{
    if ds.len() == 0 {
        Seq::empty()
    } else {
        non_invites(leg_id, ds.drop_last()) + keep(
            ds.last().ext.inbound_pending_requests,
            is_not_invite(),
        ).map_values(under(identity_tag(leg_id, ds.last())))
    }
}

/// The final a relayed request is owed where its target is gone.
pub open spec fn orphan_final(p: PendingRequestView) -> ResponsePlanView {
    if p.method == MethodView::Prack {
        snapshot_response(p, 200, "OK"@)
    } else {
        snapshot_response(p, 481, "Call/Transaction Does Not Exist"@)
    }
}

/// One relayed request answered here, and forgotten.
pub open spec fn reject_one(
    w: WorkView,
    leg_id: Seq<char>,
    to_leg: Seq<char>,
    x: (Seq<char>, PendingRequestView),
) -> WorkView {
    let w1 = w.on(w.call.remove_pending_request(leg_id, x.0, x.1.outbound_cseq));
    match origin_address(x.1) {
        Some(at) => w1.send(
            toward_originator(orphan_final(x.1), at, to_leg, Provenance::Authored),
        ),
        None => w1,
    }
}

pub open spec fn reject_each(
    w: WorkView,
    leg_id: Seq<char>,
    to_leg: Seq<char>,
    xs: Seq<(Seq<char>, PendingRequestView)>,
) -> WorkView
    decreases xs.len(),
{
    if xs.len() == 0 {
        w
    } else {
        reject_one(reject_each(w, leg_id, to_leg, xs.drop_last()), leg_id, to_leg, xs.last())
    }
}

/// Every non-INVITE request still pending toward a leg answered here: a PRACK
/// 200, any other 481.
#[verifier::opaque]
pub open spec fn reject_pending_non_invites(w: WorkView, leg_id: Seq<char>) -> WorkView {
    match w.call.leg(leg_id) {
        Some(l) => reject_each(
            w,
            leg_id,
            originator(w.call, leg_id),
            non_invites(leg_id, l.dialogs),
        ),
        None => w,
    }
}

fn push_non_invites(out: &mut Vec<(String, PendingRequest)>, leg_id: &String, d: &Dialog)
    ensures
        views(final(out)@) == views(old(out)@) + keep(
            d@.ext.inbound_pending_requests,
            is_not_invite(),
        ).map_values(under(identity_tag(leg_id@, d@))),
{
    let tag = dialog_identity_tag(leg_id, d);
    let ghost p = is_not_invite();
    let ghost f = under(tag@);
    let list = &d.ext.inbound_pending_requests;
    let ghost all = views(list@);
    let ghost start = views(out@);
    assert(all.take(0).len() == 0);
    assert(views(out@) =~= start + keep(all.take(0), p).map_values(f));
    for i in 0..list.len()
        invariant
            p == is_not_invite(),
            f == under(tag@),
            all == views(list@),
            views(out@) == start + keep(all.take(i as int), p).map_values(f),
    {
        proof {
            keep_step(all, p, i as int);
        }
        assert(all[i as int] == list@[i as int]@);
        if list[i].method != Method::Invite {
            let x = (tag.clone(), list[i].clone());
            let ghost before = out@;
            out.push(x);
            assert(views(out@) =~= views(before).push(x@));
            assert(start + keep(all.take(i + 1), p).map_values(f) =~= (start + keep(
                all.take(i as int),
                p,
            ).map_values(f)).push(x@));
        }
    }
    assert(all.take(list@.len() as int) =~= all);
}

fn collect_non_invites(leg_id: &String, ds: &Vec<Dialog>) -> (r: Vec<(String, PendingRequest)>)
    ensures
        views(r@) == non_invites(leg_id@, views(ds@)),
{
    let mut out: Vec<(String, PendingRequest)> = Vec::new();
    assert(views(ds@).take(0).len() == 0);
    assert(views(out@) =~= non_invites(leg_id@, views(ds@).take(0)));
    for i in 0..ds.len()
        invariant
            views(out@) == non_invites(leg_id@, views(ds@).take(i as int)),
    {
        assert(views(ds@).take(i + 1).drop_last() =~= views(ds@).take(i as int));
        assert(views(ds@).take(i + 1).last() == ds@[i as int]@);
        push_non_invites(&mut out, leg_id, &ds[i]);
    }
    assert(views(ds@).take(ds@.len() as int) =~= views(ds@));
    out
}

fn reject_orphan(w: &mut Work, leg_id: &String, to_leg: &String, tag: &String, p: &PendingRequest)
    ensures
        final(w)@ == reject_one(old(w)@, leg_id@, to_leg@, (tag@, p@)),
{
    remove_pending_request(&mut w.call, leg_id, tag, p.outbound_cseq);
    if let Some(at) = read_origin(p) {
        let plan = if p.method == Method::Prack {
            plain_snapshot_response(p, 200, "OK")
        } else {
            plain_snapshot_response(p, 481, "Call/Transaction Does Not Exist")
        };
        w.send(to_originator(plan, at, to_leg, Provenance::Authored));
    }
}

/// Answer every non-INVITE request still pending toward a leg.
fn reject_non_invites(w: &mut Work, leg_id: &String)
    ensures
        final(w)@ == reject_pending_non_invites(old(w)@, leg_id@),
{
    proof {
        reveal(reject_pending_non_invites);
    }
    let xs = match find_leg(&w.call, leg_id) {
        Some(l) => collect_non_invites(leg_id, &l.dialogs),
        None => {
            return;
        },
    };
    let to_leg = originator_of(&w.call, leg_id);
    let ghost w0 = w@;
    let ghost all = views(xs@);
    assert(all.take(0).len() == 0);
    for i in 0..xs.len()
        invariant
            all == views(xs@),
            w@ == reject_each(w0, leg_id@, to_leg@, all.take(i as int)),
    {
        assert(all.take(i + 1).drop_last() =~= all.take(i as int));
        assert(all.take(i + 1).last() == xs@[i as int]@);
        reject_orphan(w, leg_id, &to_leg, &xs[i].0, &xs[i].1);
    }
    assert(all.take(xs@.len() as int) =~= all);
}

/// The same for legs one after the other.
pub open spec fn reject_all_pending_non_invites(w: WorkView, ids: Seq<Seq<char>>) -> WorkView
    decreases ids.len(),
{
    if ids.len() == 0 {
        w
    } else {
        reject_pending_non_invites(
            reject_all_pending_non_invites(w, ids.drop_last()),
            ids.last(),
        )
    }
}

pub open spec fn id_of_leg() -> spec_fn(LegView) -> Seq<char> {
    |l: LegView| l.leg_id
}

/// The ids of a call's legs, the caller's first.
pub open spec fn leg_ids(c: CallView) -> Seq<Seq<char>> {
    c.legs().map_values(id_of_leg())
}

fn ids_of_legs(call: &Call) -> (r: Vec<String>)
    ensures
        views(r@) == leg_ids(call@),
{
    let mut out: Vec<String> = Vec::new();
    out.push(call.a_leg.leg_id.clone());
    assert(views(out@) =~= leg_ids(call@).take(1));
    for i in 0..call.b_legs.len()
        invariant
            views(out@) == leg_ids(call@).take(i + 1),
    {
        let ghost before = out@;
        out.push(call.b_legs[i].leg_id.clone());
        assert(views(out@) =~= views(before).push(call.b_legs@[i as int].leg_id@));
        assert(leg_ids(call@).take(i + 2) =~= leg_ids(call@).take(i + 1).push(
            call.b_legs@[i as int].leg_id@,
        ));
    }
    assert(leg_ids(call@).take(call.b_legs@.len() as int + 1) =~= leg_ids(call@));
    out
}

// ── the end, at once ────────────────────────────────────────────────────
/// Legs put in the terminated state, one after the other.
pub open spec fn end_legs(c: CallView, ids: Seq<Seq<char>>) -> CallView
    decreases ids.len(),
{
    if ids.len() == 0 {
        c
    } else {
        end_legs(c, ids.drop_last()).set_leg_state(ids.last(), LegState::Terminated)
    }
}

/// Every leg and the call ended, without a word on the wire.
#[verifier::opaque]
pub open spec fn terminate_all(
    c: CallView,
    now_ms: i64,
    cause: Option<Seq<char>>,
    by_leg: Option<Seq<char>>,
) -> CallView {
    let c1 = c.record_termination(now_ms, cause, by_leg);
    CallView { state: CallModelState::Terminated, ..end_legs(c1, leg_ids(c1)) }
}

/// End every leg and the call.
pub(crate) fn end_call(call: &mut Call, now_ms: i64, cause: Option<String>, by_leg: Option<String>)
    ensures
        final(call)@ == terminate_all(old(call)@, now_ms, opt_view(cause), opt_view(by_leg)),
{
    proof {
        reveal(terminate_all);
    }
    record_termination(call, now_ms, cause, by_leg);
    let ids = ids_of_legs(call);
    let ghost c1 = call@;
    let ghost all = views(ids@);
    assert(all.take(0).len() == 0);
    for i in 0..ids.len()
        invariant
            all == views(ids@),
            call@ == end_legs(c1, all.take(i as int)),
    {
        assert(all.take(i + 1).drop_last() =~= all.take(i as int));
        assert(all.take(i + 1).last() == ids@[i as int]@);
        set_leg_state(call, &ids[i], LegState::Terminated);
    }
    assert(all.take(ids@.len() as int) =~= all);
    call.state = CallModelState::Terminated;
}

// ── idle timers ─────────────────────────────────────────────────────────
/// The timers nothing awaits in a terminating call.
pub open spec fn is_idle() -> spec_fn(TimerEntryView) -> bool {
    |t: TimerEntryView|
        kind_of(t.timer_type) == TimerKind::NoAnswer || kind_of(t.timer_type) == TimerKind::Service
}

pub open spec fn is_not_idle() -> spec_fn(TimerEntryView) -> bool {
    |t: TimerEntryView| !is_idle()(t)
}

pub open spec fn cancel_entry() -> spec_fn(TimerEntryView) -> CriticalEffectView {
    |t: TimerEntryView| CriticalEffectView::CancelTimer { id: t.id }
}

/// The idle timers off the ledger and off the driver.
#[verifier::opaque]
pub open spec fn scrub_idle(w: WorkView) -> WorkView {
    WorkView {
        call: CallView { timers: keep(w.call.timers, is_not_idle()), ..w.call },
        fx: HandlerEffectsView {
            critical: w.fx.critical + keep(w.call.timers, is_idle()).map_values(cancel_entry()),
            ..w.fx
        },
        ..w
    }
}

fn scrub_idle_timers(w: &mut Work)
    ensures
        final(w)@ == scrub_idle(old(w)@),
{
    proof {
        reveal(scrub_idle);
    }
    let ghost p = is_idle();
    let ghost q = is_not_idle();
    let ghost f = cancel_entry();
    let ghost w0 = w@;
    let ghost all = w@.call.timers;
    let ghost start = w@.fx.critical;
    let mut kept: Vec<TimerEntry> = Vec::new();
    let n: usize = w.call.timers.len();
    assert(all.take(0).len() == 0);
    assert(views(kept@) =~= keep(all.take(0), q));
    assert(w@.fx.critical =~= start + keep(all.take(0), p).map_values(f));
    for i in 0..n
        invariant
            p == is_idle(),
            q == is_not_idle(),
            f == cancel_entry(),
            n == all.len(),
            all == w@.call.timers,
            w@.call == w0.call,
            w@.ids == w0.ids,
            w@.fx.outbound == w0.fx.outbound,
            w@.fx.fire_and_forget == w0.fx.fire_and_forget,
            views(kept@) == keep(all.take(i as int), q),
            w@.fx.critical == start + keep(all.take(i as int), p).map_values(f),
    {
        proof {
            keep_step(all, p, i as int);
            keep_step(all, q, i as int);
        }
        assert(views(w.call.timers@).len() == w.call.timers@.len());
        assert(all[i as int] == w.call.timers@[i as int]@);
        let kind = w.call.timers[i].timer_type.kind();
        if kind == TimerKind::NoAnswer || kind == TimerKind::Service {
            let id = w.call.timers[i].id.clone();
            let e = CriticalEffect::CancelTimer { id };
            assert(start + keep(all.take(i + 1), p).map_values(f) =~= (start + keep(
                all.take(i as int),
                p,
            ).map_values(f)).push(e@));
            w.critical(e);
        } else {
            let t = w.call.timers[i].clone();
            let ghost before = kept@;
            kept.push(t);
            assert(views(kept@) =~= views(before).push(t@));
        }
    }
    assert(all.take(n as int) =~= all);
    w.call.timers = kept;
}

// ── graceful termination ────────────────────────────────────────────────
pub open spec fn is_live_invite() -> spec_fn(PendingRequestView) -> bool {
    |p: PendingRequestView| p.method == MethodView::Invite && !p.cancelled
}

/// The relayed INVITEs pending on dialogs of a leg.
pub open spec fn dialog_invites(leg_id: Seq<char>, ds: Seq<DialogView>) -> Seq<
    (Seq<char>, PendingRequestView),
>
    decreases ds.len(),
{
    if ds.len() == 0 {
        Seq::empty()
    } else {
        dialog_invites(leg_id, ds.drop_last()) + keep(
            ds.last().ext.inbound_pending_requests,
            is_live_invite(),
        ).map_values(under(leg_id))
    }
}

/// The relayed INVITEs pending on legs.
pub open spec fn leg_invites(ls: Seq<LegView>) -> Seq<(Seq<char>, PendingRequestView)>
    decreases ls.len(),
{
    if ls.len() == 0 {
        Seq::empty()
    } else {
        leg_invites(ls.drop_last()) + dialog_invites(ls.last().leg_id, ls.last().dialogs)
    }
}

/// Pending INVITEs ended, one after the other.
pub open spec fn reject_invites(w: WorkView, xs: Seq<(Seq<char>, PendingRequestView)>) -> WorkView
    decreases xs.len(),
{
    if xs.len() == 0 {
        w
    } else {
        reject_pending_reinvite(
            reject_invites(w, xs.drop_last()),
            xs.last().0,
            xs.last().1.outbound_cseq,
            487,
            "Request Terminated"@,
        )
    }
}

/// The cause a BYE states: only a structured one.
pub open spec fn stated_cause(reason: Option<Seq<char>>) -> Option<Seq<char>> {
    match reason {
        Some(r) => if starts_with_text(trim_text(r), "SIP"@) {
            Some(r)
        } else {
            None
        },
        None => None,
    }
}

/// One leg told that the call ends, as it stood before any was.
#[verifier::opaque]
pub open spec fn end_leg(
    w: WorkView,
    l: LegView,
    reason: Option<Seq<char>>,
    relayed: Seq<SipHeaderView>,
    hops: Option<u32>,
) -> WorkView {
    let id = l.leg_id;
    if l.state == LegState::Terminated || l.bye_disposition is Some || l.disposition
        == LegDisposition::Cancelling {
        w
    } else if l.state == LegState::Confirmed {
        let ds = if id == w.call.a_leg.leg_id {
            w.call.a_leg.dialogs
        } else {
            b_dialogs(w.call, id)
        };
        let w1 = bye(w, id, ds, bye_headers(reason, relayed), hops);
        w1.on(w1.call.set_bye_disposition(id, ByeDisposition::ByeSent))
    } else if id == w.call.a_leg.leg_id {
        let w1 = w.on(w.call.set_bye_disposition(id, ByeDisposition::NotOwed));
        if w1.call.a_leg.invite_final_sent is Some {
            let w2 = reject_pending_non_invites(w1, id);
            w2.on(w2.call.set_leg_state(id, LegState::Terminated))
        } else {
            w1
        }
    } else {
        let w1 = send_opt(w, cancel_toward(w.call, id, relayed));
        let c2 = w1.call.set_bye_disposition(id, ByeDisposition::Cancelled).set_leg_disposition(
            id,
            LegDisposition::Cancelling,
        );
        let w3 = reject_pending_non_invites(w1.on(c2), id);
        w3.on(w3.call.set_leg_state(id, LegState::Terminated))
    }
}

pub open spec fn end_each(
    w: WorkView,
    ls: Seq<LegView>,
    reason: Option<Seq<char>>,
    relayed: Seq<SipHeaderView>,
    hops: Option<u32>,
) -> WorkView
    decreases ls.len(),
{
    if ls.len() == 0 {
        w
    } else {
        end_leg(
            end_each(w, ls.drop_last(), reason, relayed, hops),
            ls.last(),
            reason,
            relayed,
            hops,
        )
    }
}

/// The termination recorded, and every pending INVITE ended.
#[verifier::opaque]
pub open spec fn termination_begun(
    w: WorkView,
    now_ms: i64,
    ctx: RuleContextView,
    reason: Option<Seq<char>>,
) -> WorkView {
    let c1 = w.call.record_termination(now_ms, reason, Some(ctx.source_leg_id));
    reject_invites(w.on(c1), leg_invites(c1.legs()))
}

/// Every leg told, nothing left that repeats or waits, and no machine but the
/// call's own.
#[verifier::opaque]
pub open spec fn wound_down(
    w: WorkView,
    ctx: RuleContextView,
    reason: Option<Seq<char>>,
) -> WorkView {
    let w1 = end_each(
        w,
        w.call.legs(),
        stated_cause(reason),
        teardown_headers(ctx),
        teardown_hops(ctx),
    );
    let w2 = retire(scrub_idle(w1), ScopeView::Call);
    w2.on(
        CallView {
            state: CallModelState::Terminating,
            ..w2.call.only_cursor(global_call())
        },
    )
}

impl ExecView {
    /// The call terminating: every leg told, nothing left that repeats or waits,
    /// no machine but the call's own, and the safety timer armed.
    #[verifier::opaque]
    pub open spec fn begin_termination(
        self,
        w: WorkView,
        ctx: RuleContextView,
        reason: Option<Seq<char>>,
    ) -> WorkView {
        self.schedule(
            wound_down(termination_begun(w, self.now_ms, ctx, reason), ctx, reason),
            TimerTypeView::TerminatingTimeout,
            TERMINATING_TIMEOUT_MS,
            None,
        )
    }
}

fn push_invites(out: &mut Vec<(String, PendingRequest)>, leg_id: &String, d: &Dialog)
    ensures
        views(final(out)@) == views(old(out)@) + keep(
            d@.ext.inbound_pending_requests,
            is_live_invite(),
        ).map_values(under(leg_id@)),
{
    let ghost p = is_live_invite();
    let ghost f = under(leg_id@);
    let list = &d.ext.inbound_pending_requests;
    let ghost all = views(list@);
    let ghost start = views(out@);
    assert(all.take(0).len() == 0);
    assert(views(out@) =~= start + keep(all.take(0), p).map_values(f));
    for i in 0..list.len()
        invariant
            p == is_live_invite(),
            f == under(leg_id@),
            all == views(list@),
            views(out@) == start + keep(all.take(i as int), p).map_values(f),
    {
        proof {
            keep_step(all, p, i as int);
        }
        assert(all[i as int] == list@[i as int]@);
        if list[i].method == Method::Invite && !list[i].cancelled {
            let x = (leg_id.clone(), list[i].clone());
            let ghost before = out@;
            out.push(x);
            assert(views(out@) =~= views(before).push(x@));
            assert(start + keep(all.take(i + 1), p).map_values(f) =~= (start + keep(
                all.take(i as int),
                p,
            ).map_values(f)).push(x@));
        }
    }
    assert(all.take(list@.len() as int) =~= all);
}

fn push_leg_invites(out: &mut Vec<(String, PendingRequest)>, l: &Leg)
    ensures
        views(final(out)@) == views(old(out)@) + dialog_invites(l@.leg_id, l@.dialogs),
{
    let ghost start = views(out@);
    let ghost ds = l@.dialogs;
    assert(ds.take(0).len() == 0);
    assert(views(out@) =~= start + dialog_invites(l@.leg_id, ds.take(0)));
    for i in 0..l.dialogs.len()
        invariant
            ds == l@.dialogs,
            views(out@) == start + dialog_invites(l@.leg_id, ds.take(i as int)),
    {
        assert(ds.take(i + 1).drop_last() =~= ds.take(i as int));
        assert(ds.take(i + 1).last() == l.dialogs@[i as int]@);
        push_invites(out, &l.leg_id, &l.dialogs[i]);
        assert(views(out@) =~= start + dialog_invites(l@.leg_id, ds.take(i + 1)));
    }
    assert(ds.take(l.dialogs@.len() as int) =~= ds);
}

/// Copies of a call's legs, the caller's first.
pub(crate) fn clone_legs(call: &Call) -> (r: Vec<Leg>)
    ensures
        views(r@) == call@.legs(),
{
    let mut out: Vec<Leg> = Vec::new();
    let a = call.a_leg.clone();
    out.push(a);
    assert(views(out@) =~= call@.legs().take(1));
    for i in 0..call.b_legs.len()
        invariant
            views(out@) == call@.legs().take(i + 1),
    {
        let ghost before = out@;
        let l = call.b_legs[i].clone();
        out.push(l);
        assert(views(out@) =~= views(before).push(l@));
        assert(call@.legs().take(i + 2) =~= call@.legs().take(i + 1).push(l@));
    }
    assert(call@.legs().take(call.b_legs@.len() as int + 1) =~= call@.legs());
    out
}

/// The relayed INVITEs still pending on legs.
pub(crate) fn collect_invites(ls: &Vec<Leg>) -> (r: Vec<(String, PendingRequest)>)
    ensures
        views(r@) == leg_invites(views(ls@)),
{
    let mut out: Vec<(String, PendingRequest)> = Vec::new();
    assert(views(ls@).take(0).len() == 0);
    assert(views(out@) =~= leg_invites(views(ls@).take(0)));
    for i in 0..ls.len()
        invariant
            views(out@) == leg_invites(views(ls@).take(i as int)),
    {
        assert(views(ls@).take(i + 1).drop_last() =~= views(ls@).take(i as int));
        assert(views(ls@).take(i + 1).last() == ls@[i as int]@);
        push_leg_invites(&mut out, &ls[i]);
    }
    assert(views(ls@).take(ls@.len() as int) =~= views(ls@));
    out
}

fn read_cause(reason: &Option<String>) -> (r: Option<String>)
    ensures
        opt_view(r) == stated_cause(opt_view(*reason)),
{
    match reason {
        Some(t) => {
            let bare = trim(t.as_str());
            if starts_with(bare.as_str(), "SIP") {
                Some(t.clone())
            } else {
                None
            }
        },
        None => None,
    }
}

fn end_one_leg(
    w: &mut Work,
    l: &Leg,
    headers: &Vec<SipHeader>,
    relayed: &Vec<SipHeader>,
    hops: Option<u32>,
    Ghost(reason): Ghost<Option<Seq<char>>>,
)
    requires
        views(headers@) == bye_headers(reason, views(relayed@)),
    ensures
        final(w)@ == end_leg(old(w)@, l@, reason, views(relayed@), hops),
{
    proof {
        reveal(end_leg);
    }
    let id = &l.leg_id;
    if l.state == LegState::Terminated || l.bye_disposition.is_some() || l.disposition
        == LegDisposition::Cancelling {
        return;
    }
    if l.state == LegState::Confirmed {
        if *id == w.call.a_leg.leg_id {
            bye_to_leg_a(w, headers, hops);
        } else {
            bye_to_b_leg(w, id, headers, hops);
        }
        set_bye_disposition(&mut w.call, id, ByeDisposition::ByeSent);
    } else if *id == w.call.a_leg.leg_id {
        set_bye_disposition(&mut w.call, id, ByeDisposition::NotOwed);
        if w.call.a_leg.invite_final_sent.is_some() {
            reject_non_invites(w, id);
            set_leg_state(&mut w.call, id, LegState::Terminated);
        }
    } else {
        if let Some(e) = cancel_to_leg(&w.call, id, relayed) {
            w.send(e);
        }
        set_bye_disposition(&mut w.call, id, ByeDisposition::Cancelled);
        set_leg_disposition(&mut w.call, id, LegDisposition::Cancelling);
        reject_non_invites(w, id);
        set_leg_state(&mut w.call, id, LegState::Terminated);
    }
}

fn end_every_leg(w: &mut Work, reason: &Option<String>, relayed: &Vec<SipHeader>, hops: Option<u32>)
    ensures
        final(w)@ == end_each(
            old(w)@,
            old(w)@.call.legs(),
            opt_view(*reason),
            views(relayed@),
            hops,
        ),
{
    let headers = headers_of_bye(reason, relayed);
    let ls = clone_legs(&w.call);
    let ghost w0 = w@;
    let ghost all = views(ls@);
    let ghost rs = opt_view(*reason);
    assert(all.take(0).len() == 0);
    for i in 0..ls.len()
        invariant
            all == views(ls@),
            views(headers@) == bye_headers(rs, views(relayed@)),
            w@ == end_each(w0, all.take(i as int), rs, views(relayed@), hops),
    {
        assert(all.take(i + 1).drop_last() =~= all.take(i as int));
        assert(all.take(i + 1).last() == ls@[i as int]@);
        end_one_leg(w, &ls[i], &headers, relayed, hops, Ghost(rs));
    }
    assert(all.take(ls@.len() as int) =~= all);
}

fn wind_down(w: &mut Work, ctx: &RuleContext, reason: &Option<String>)
    ensures
        final(w)@ == wound_down(old(w)@, ctx@, opt_view(*reason)),
{
    proof {
        reveal(wound_down);
    }
    let relayed = relayed_teardown_headers(ctx);
    let hops = relayed_teardown_hops(ctx);
    let cause = read_cause(reason);
    end_every_leg(w, &cause, &relayed, hops);
    scrub_idle_timers(w);
    retire_scope(w, &Scope::Call);
    let machine = "global-call".to_string();
    keep_only_cursor(&mut w.call, &machine);
    w.call.state = CallModelState::Terminating;
}

// ── one leg ─────────────────────────────────────────────────────────────
/// One leg ended and its peer told.
#[verifier::opaque]
pub open spec fn destroy_leg(w: WorkView, leg_id: Seq<char>) -> WorkView {
    let w1 = retire(w, ScopeView::Leg { leg_id });
    let w2 = match find_where(w1.call.b_legs, leg_named(leg_id)) {
        Some(l) => Some(l.state),
        None => if w1.call.a_leg.leg_id == leg_id {
            Some(w1.call.a_leg.state)
        } else {
            None
        },
    };
    let w3 = match w2 {
        Some(LegState::Confirmed) => {
            let t = bye(w1, leg_id, b_dialogs(w1.call, leg_id), Seq::empty(), None);
            t.on(t.call.set_bye_disposition(leg_id, ByeDisposition::ByeSent))
        },
        Some(LegState::Trying) | Some(LegState::Early) => {
            let t = send_opt(w1, cancel_toward(w1.call, leg_id, Seq::empty()));
            t.on(
                t.call.set_bye_disposition(leg_id, ByeDisposition::Cancelled).set_leg_disposition(
                    leg_id,
                    LegDisposition::Cancelling,
                ),
            )
        },
        _ => w1,
    };
    let w4 = reject_pending_non_invites(w3, leg_id);
    w4.on(w4.call.set_leg_state(leg_id, LegState::Terminated))
}

/// A ringing leg cancelled.
#[verifier::opaque]
pub open spec fn cancel_leg(w: WorkView, ctx: RuleContextView, leg_id: Seq<char>) -> WorkView {
    let w1 = retire(w, ScopeView::Leg { leg_id });
    let w2 = send_opt(w1, cancel_toward(w1.call, leg_id, teardown_headers(ctx)));
    w2.on(w2.call.set_leg_disposition(leg_id, LegDisposition::Cancelling))
}

/// A leg brought to its end, without a word on the wire to its peer. A CANCEL in
/// flight is settled with it.
#[verifier::opaque]
pub open spec fn terminate_leg(
    w: WorkView,
    leg_id: Seq<char>,
    bd: Option<ByeDisposition>,
) -> WorkView {
    let w1 = reject_pending_non_invites(retire(w, ScopeView::Leg { leg_id }), leg_id);
    let c2 = w1.call.set_leg_state(leg_id, LegState::Terminated);
    let c3 = match bd {
        Some(b) => c2.set_bye_disposition(leg_id, b),
        None => c2,
    };
    let cancelling = match c3.leg(leg_id) {
        Some(l) => l.disposition == LegDisposition::Cancelling,
        None => false,
    };
    w1.on(
        if cancelling {
            c3.set_leg_disposition(leg_id, LegDisposition::Rejected)
        } else {
            c3
        },
    )
}

impl<'a> ActionExecutor<'a> {
    fn end_pending_invites(&self, w: &mut Work, ctx: &RuleContext, reason: &Option<String>)
        ensures
            final(w)@ == termination_begun(old(w)@, self.now_ms, ctx@, opt_view(*reason)),
    {
        proof {
            reveal(termination_begun);
        }
        record_termination(
            &mut w.call,
            self.now_ms,
            reason.clone(),
            Some(ctx.source_leg_id.clone()),
        );
        let legs = clone_legs(&w.call);
        let xs = collect_invites(&legs);
        let ghost w0 = w@;
        let ghost all = views(xs@);
        assert(all.take(0).len() == 0);
        for i in 0..xs.len()
            invariant
                all == views(xs@),
                w@ == reject_invites(w0, all.take(i as int)),
        {
            assert(all.take(i + 1).drop_last() =~= all.take(i as int));
            assert(all.take(i + 1).last() == xs@[i as int]@);
            self.reject_pending_reinvite(
                w,
                &xs[i].0,
                xs[i].1.outbound_cseq,
                487,
                "Request Terminated",
            );
        }
        assert(all.take(xs@.len() as int) =~= all);
    }

    /// Tear the call down gracefully: every pending INVITE is answered, every
    /// leg still up is told, the ladders and idle timers end, every machine but
    /// the call's own is deactivated, and the safety timer is armed.
    pub(crate) fn begin_termination(&self, w: &mut Work, ctx: &RuleContext, reason: &Option<String>)
        ensures
            final(w)@ == self@.begin_termination(old(w)@, ctx@, opt_view(*reason)),
    {
        proof {
            reveal(ExecView::begin_termination);
        }
        self.end_pending_invites(w, ctx, reason);
        wind_down(w, ctx, reason);
        self.schedule(w, TimerType::TerminatingTimeout, TERMINATING_TIMEOUT_MS, None);
    }

    /// End a relayed re-INVITE still pending on both faces.
    pub(crate) fn reject_pending_reinvite(
        &self,
        w: &mut Work,
        leg_id: &String,
        cseq: i64,
        status: u16,
        reason: &str,
    )
        ensures
            final(w)@ == reject_pending_reinvite(old(w)@, leg_id@, cseq, status, reason@),
    {
        proof {
            reveal(reject_pending_reinvite);
        }
        let p = match find_pending_dialog(&w.call, leg_id, cseq) {
            Some(d) => match find_pending_request(d, cseq) {
                Some(p) => p.clone(),
                None => {
                    return;
                },
            },
            None => {
                return;
            },
        };
        if p.cancelled || p.method != Method::Invite {
            return;
        }
        let at = match read_origin(&p) {
            Some(at) => at,
            None => {
                return;
            },
        };
        let cancel = match pending_reinvite_cancel(&w.call, leg_id, cseq) {
            Some(e) => e,
            None => {
                return;
            },
        };
        let to_leg = originator_of(&w.call, leg_id);
        let plan = plain_snapshot_response(&p, status, reason);
        w.send(to_originator(plan, at, &to_leg, Provenance::Authored));
        commit_pending_reinvite_cancel(w, leg_id, cseq, cancel);
    }

    /// Cancel a relayed re-INVITE still pending. The dialog and the call stay
    /// up; only the renegotiation ends.
    pub(crate) fn cancel_pending_reinvite(&self, w: &mut Work, leg_id: &String, cseq: i64)
        ensures
            final(w)@ == cancel_pending_reinvite(old(w)@, leg_id@, cseq),
    {
        proof {
            reveal(cancel_pending_reinvite);
        }
        if let Some(e) = pending_reinvite_cancel(&w.call, leg_id, cseq) {
            commit_pending_reinvite_cancel(w, leg_id, cseq, e);
        }
    }

    /// Answer every non-INVITE request pending toward any leg.
    pub(crate) fn reject_all_pending_non_invites(&self, w: &mut Work)
        ensures
            final(w)@ == reject_all_pending_non_invites(old(w)@, leg_ids(old(w)@.call)),
    {
        let ids = ids_of_legs(&w.call);
        let ghost w0 = w@;
        let ghost all = views(ids@);
        assert(all.take(0).len() == 0);
        for i in 0..ids.len()
            invariant
                all == views(ids@),
                w@ == reject_all_pending_non_invites(w0, all.take(i as int)),
        {
            assert(all.take(i + 1).drop_last() =~= all.take(i as int));
            assert(all.take(i + 1).last() == ids@[i as int]@);
            reject_non_invites(w, &ids[i]);
        }
        assert(all.take(ids@.len() as int) =~= all);
    }

    /// End one leg: a BYE where it is confirmed, a CANCEL where it rings.
    pub(crate) fn destroy_leg(&self, w: &mut Work, leg_id: &String)
        ensures
            final(w)@ == destroy_leg(old(w)@, leg_id@),
    {
        proof {
            reveal(destroy_leg);
        }
        retire_scope(w, &Scope::Leg { leg_id: leg_id.clone() });
        let state = match find_leg_index(&w.call.b_legs, leg_id) {
            Some(i) => {
                assert(w@.call.b_legs[i as int] == w.call.b_legs@[i as int]@);
                Some(w.call.b_legs[i].state)
            },
            None => if w.call.a_leg.leg_id == *leg_id {
                Some(w.call.a_leg.state)
            } else {
                None
            },
        };
        let none: Vec<SipHeader> = Vec::new();
        assert(views(none@) =~= Seq::<SipHeaderView>::empty());
        match state {
            Some(LegState::Confirmed) => {
                bye_to_b_leg(w, leg_id, &none, None);
                set_bye_disposition(&mut w.call, leg_id, ByeDisposition::ByeSent);
            },
            Some(LegState::Trying) | Some(LegState::Early) => {
                if let Some(e) = cancel_to_leg(&w.call, leg_id, &none) {
                    w.send(e);
                }
                set_bye_disposition(&mut w.call, leg_id, ByeDisposition::Cancelled);
                set_leg_disposition(&mut w.call, leg_id, LegDisposition::Cancelling);
            },
            _ => {},
        }
        reject_non_invites(w, leg_id);
        set_leg_state(&mut w.call, leg_id, LegState::Terminated);
    }

    /// Cancel a ringing leg.
    pub(crate) fn cancel_leg(&self, w: &mut Work, ctx: &RuleContext, leg_id: &String)
        ensures
            final(w)@ == cancel_leg(old(w)@, ctx@, leg_id@),
    {
        proof {
            reveal(cancel_leg);
        }
        retire_scope(w, &Scope::Leg { leg_id: leg_id.clone() });
        let headers = relayed_teardown_headers(ctx);
        if let Some(e) = cancel_to_leg(&w.call, leg_id, &headers) {
            w.send(e);
        }
        set_leg_disposition(&mut w.call, leg_id, LegDisposition::Cancelling);
    }

    /// Bring a leg to its end.
    pub(crate) fn terminate_leg(&self, w: &mut Work, leg_id: &String, bd: Option<ByeDisposition>)
        ensures
            final(w)@ == terminate_leg(old(w)@, leg_id@, bd),
    {
        proof {
            reveal(terminate_leg);
        }
        retire_scope(w, &Scope::Leg { leg_id: leg_id.clone() });
        reject_non_invites(w, leg_id);
        set_leg_state(&mut w.call, leg_id, LegState::Terminated);
        if let Some(b) = bd {
            set_bye_disposition(&mut w.call, leg_id, b);
        }
        let cancelling = match find_leg(&w.call, leg_id) {
            Some(l) => l.disposition == LegDisposition::Cancelling,
            None => false,
        };
        if cancelling {
            set_leg_disposition(&mut w.call, leg_id, LegDisposition::Rejected);
        }
    }
}

// ── laws ────────────────────────────────────────────────────────────────
/// What a teardown restates of the releasing peer's describes no body: the BYE
/// or CANCEL it stands in has none.
pub proof fn a_teardown_describes_no_body(ctx: RuleContextView)
    ensures
        forall|i: int|
            0 <= i < teardown_headers(ctx).len() ==> !describes_body(
                (#[trigger] teardown_headers(ctx)[i]).name,
            ),
{
    let p = goes_with(SourceBody::Dropped);
    let hs = match ctx.event {
        CallEventView::Request { request } => request.relayable,
        CallEventView::Cancelled { relayable, .. } => relayable,
        _ => Seq::empty(),
    };
    keep_sound(hs, p);
}

} // verus!
