//! Relaying a request within a dialog to the peer leg: the sequence numbers of
//! both dialogs, the acknowledgement a PRACK names, the snapshot its response is
//! correlated by, and the ACK toward a leg.
use vstd::prelude::*;

use super::originate::{bare_request, dialog_request, next_hop, next_hop_of, to_peer, toward_peer};
use super::respond::{media_type, media_type_of};
use super::select::{in_dialog, in_dialog_method, invite_cseq, invite_cseq_from_handle};
use super::{ActionExecutor, Work, WorkView};
use crate::books::{first_ext, with_first_ext};
use crate::call::{
    AckPlan, AckPlanView, Call, CallView, Dialog, DialogExt, DialogExtView, DialogView, InviteTxn,
    InviteTxnView, LegView, PendingRequest, PendingRequestView,
};
use crate::capabilities::{
    advertised, advertised_set, declared_advert_headers, declared_names, face_of_leg, features_of,
    name_text, Face, HeaderName,
};
use crate::context::{pick_relay_dialog, relay_dialog};
use crate::effects::{
    OutboundBody, OutboundBodyView, OutboundSip, OutboundSipView, Provenance, RequestPlanView,
    TxnMode,
};
use crate::headers::{
    header_lines, header_lists, header_text, header_value, header_values, lines_outside,
    lists_token, named_outside,
};
use crate::lens::{
    add_pending_request, bump_local_cseq, clamp, clamped_add, dialog_identity_tag, find_leg,
    identity_tag, is_empty, leg_mut, leg_of_with_leg, set_invite_txn, update_remote_cseq,
    with_leg_same,
};
use crate::model::{RuleContext, RuleContextView};
use crate::reliable::{b_rseq, b_rseq_for};
use crate::routes::{rack_tokens, read_rack, restate_rack, restated_rack};
use crate::seqs::{keep, opt_view, views};
use crate::text::clone_bytes;
use crate::wire::{Method, MethodView, SipHeader, SipHeaderView, SipRequest, SipRequestView};

verus! {

// ── ACK ─────────────────────────────────────────────────────────────────
/// An ACK, past the transaction layer.
pub open spec fn ack_toward(ack: AckPlanView, leg_id: Seq<char>) -> OutboundSipView {
    OutboundSipView {
        body: OutboundBodyView::Ack { ack },
        mode: TxnMode::Raw,
        destination: next_hop(ack.dialog),
        leg_id: Some(leg_id),
        provenance: Provenance::Authored,
    }
}

/// The ACK sent before that a further one of the same answer repeats: the one
/// retained on the branch of the transaction, unless a body is to go out.
pub open spec fn repeated_ack(e: DialogExtView, body: Seq<u8>) -> Option<AckPlanView> {
    match e.emitted_ack {
        Some(a) => if body.len() == 0 && e.ack_branch == Some(a.branch) {
            Some(a)
        } else {
            None
        },
        None => None,
    }
}

/// The ACK of a leg's answer, under the CSeq of the INVITE it answers: the one
/// sent before, where there is one to repeat; else one on the branch of the
/// transaction, which is retained.
#[verifier::opaque]
pub open spec fn ack_leg(
    w: WorkView,
    leg_id: Seq<char>,
    body: Seq<u8>,
    content_type: Option<Seq<char>>,
) -> WorkView {
    match w.call.leg(leg_id) {
        Some(l) => if l.dialogs.len() > 0 && l.dialogs[0].sip.remote_tag.len() > 0 {
            let d = l.dialogs[0];
            match repeated_ack(d.ext, body) {
                Some(a) => w.send(ack_toward(a, leg_id)),
                None => {
                    let (w1, branch) = match d.ext.ack_branch {
                        Some(b) => (w, b),
                        None => (w.minted(), w.ids.branch()),
                    };
                    let ack = AckPlanView {
                        dialog: d.sip,
                        branch,
                        cseq: invite_cseq(d),
                        body,
                        content_type,
                        emergency: w.call.is_emergency(),
                    };
                    w1.send(ack_toward(ack, leg_id)).on(
                        with_first_ext(w.call, leg_id, acknowledged(d.ext, ack)),
                    )
                },
            }
        } else {
            w
        },
        None => w,
    }
}

/// A dialog with the ACK just sent on it.
pub open spec fn acknowledged(e: DialogExtView, ack: AckPlanView) -> DialogExtView {
    DialogExtView {
        ack_branch: Some(ack.branch),
        emitted_ack: Some(ack),
        awaited_ack_cseq: None,
        ..e
    }
}

fn ack_effect(ack: AckPlan, leg_id: &String) -> (r: OutboundSip)
    ensures
        r@ == ack_toward(ack@, leg_id@),
{
    let destination = next_hop_of(&ack.dialog);
    OutboundSip {
        body: OutboundBody::Ack { ack },
        mode: TxnMode::Raw,
        destination,
        leg_id: Some(leg_id.clone()),
        provenance: Provenance::Authored,
    }
}

fn ack_to_repeat(e: &DialogExt, body: &Vec<u8>) -> (r: Option<AckPlan>)
    ensures
        opt_view(r) == repeated_ack(e@, body@),
{
    match (&e.emitted_ack, &e.ack_branch) {
        (Some(a), Some(b)) => if body.len() == 0 && a.branch == *b {
            Some(a.clone())
        } else {
            None
        },
        _ => None,
    }
}

fn retain_ack(call: &mut Call, leg_id: &String, ack: AckPlan)
    requires
        first_ext(old(call)@, leg_id@) is Some,
    ensures
        final(call)@ == with_first_ext(
            old(call)@,
            leg_id@,
            acknowledged(first_ext(old(call)@, leg_id@)->0, ack@),
        ),
{
    proof {
        with_leg_same(call@, leg_id@);
    }
    if let Some(l) = leg_mut(call, leg_id) {
        if l.dialogs.len() > 0 {
            let ghost before = l.dialogs@;
            l.dialogs[0].ext.ack_branch = Some(ack.branch.clone());
            l.dialogs[0].ext.emitted_ack = Some(ack);
            l.dialogs[0].ext.awaited_ack_cseq = None;
            assert(views(l.dialogs@) =~= views(before).update(0, l.dialogs@[0]@));
        }
    }
}

// ── sequence numbers ────────────────────────────────────────────────────
/// How far a relayed request moves the target's sequence: as far as it moved
/// its source's, and at least by one.
pub open spec fn relay_delta(inbound: i64, heard: Option<i64>) -> i64 {
    match heard {
        Some(r) => if inbound > r {
            clamp(inbound - r)
        } else {
            1
        },
        None => 1,
    }
}

fn relay_cseq_delta(inbound: i64, heard: Option<i64>) -> (r: i64)
    ensures
        r == relay_delta(inbound, heard),
{
    match heard {
        Some(h) => if inbound > h {
            match inbound.checked_sub(h) {
                Some(d) => d,
                None => i64::MAX,
            }
        } else {
            1
        },
        None => 1,
    }
}

pub open spec fn source_heard(ctx: RuleContextView) -> Option<i64> {
    match ctx.source_dialog() {
        Some(d) => d.ext.remote_cseq,
        None => None,
    }
}

/// The source dialog with the sequence number it sent.
pub open spec fn with_heard(c: CallView, ctx: RuleContextView, cseq: i64) -> CallView {
    match ctx.source_dialog() {
        Some(d) => c.update_remote_cseq(
            ctx.source_leg_id,
            identity_tag(ctx.source_leg_id, d),
            cseq,
        ),
        None => c,
    }
}

fn hear(call: &mut Call, ctx: &RuleContext, cseq: i64)
    ensures
        final(call)@ == with_heard(old(call)@, ctx@, cseq),
{
    if let Some(d) = ctx.source_dialog() {
        let tag = dialog_identity_tag(ctx.source_leg_id, d);
        update_remote_cseq(call, ctx.source_leg_id, &tag, cseq);
    }
}

// ── the acknowledgement ─────────────────────────────────────────────────
pub open spec fn floor_zero(n: i64) -> i64 {
    if n < 0 {
        0
    } else {
        n
    }
}

/// The acknowledgement of a relayed PRACK, in the target's own numbers.
pub open spec fn relayed_rack(
    c: CallView,
    target: Seq<char>,
    req: SipRequestView,
    cseq: i64,
) -> Option<Seq<char>> {
    match header_value(req.headers, "RAck"@) {
        Some(t) => match rack_tokens(t) {
            Some(tokens) => Some(
                restated_rack(
                    t,
                    Some(
                        match b_rseq(c, target, tokens.rseq) {
                            Some(n) => floor_zero(n),
                            None => tokens.rseq,
                        },
                    ),
                    floor_zero(cseq),
                ),
            ),
            None => None,
        },
        None => None,
    }
}

fn rack_toward(call: &Call, target: &String, req: &SipRequest, cseq: i64) -> (r: Option<String>)
    ensures
        opt_view(r) == relayed_rack(call@, target@, req@, cseq),
{
    let t = match header_text(&req.headers, "RAck") {
        Some(t) => t,
        None => {
            return None;
        },
    };
    match read_rack(t.as_str()) {
        Some(tokens) => {
            let rseq = match b_rseq_for(call, target, tokens.rseq) {
                Some(n) => if n < 0 {
                    0
                } else {
                    n
                },
                None => tokens.rseq,
            };
            let own = if cseq < 0 {
                0
            } else {
                cseq
            };
            Some(restate_rack(t.as_str(), Some(rseq), own))
        },
        None => None,
    }
}

// ── what travels ────────────────────────────────────────────────────────
pub open spec fn wire_name() -> spec_fn(HeaderName) -> Seq<char> {
    |n: HeaderName| name_text(n)
}

/// The lines of a relayed request: its own, less what the call declares for the
/// face it leaves on.
pub open spec fn relayed_lines(
    c: CallView,
    target: Seq<char>,
    req: SipRequestView,
) -> Seq<SipHeaderView> {
    keep(
        req.relayable,
        named_outside(
            declared_names(c.features, face_of_leg(target)).map_values(wire_name()),
        ),
    )
}

fn lines_toward(call: &Call, target: &String, req: &SipRequest) -> (r: Vec<SipHeader>)
    ensures
        views(r@) == relayed_lines(call@, target@, req@),
{
    let face = Face::of_leg(target.as_str());
    let declared = declared_advert_headers(features_of(call), face);
    let mut names: Vec<String> = Vec::new();
    let ghost all = declared@.map_values(wire_name());
    for i in 0..declared.len()
        invariant
            all == declared@.map_values(wire_name()),
            views(names@) == all.take(i as int),
    {
        let ghost before = names@;
        let n = declared[i].as_wire_str().to_string();
        names.push(n);
        assert(views(names@) =~= views(before).push(n@));
        assert(all.take(i + 1) =~= all.take(i as int).push(n@));
    }
    assert(all.take(declared@.len() as int) =~= all);
    lines_outside(&req.relayable, &names)
}

// ── the snapshot ────────────────────────────────────────────────────────
pub open spec fn text_or_empty(t: Option<Seq<char>>) -> Seq<char> {
    match t {
        Some(s) => s,
        None => Seq::empty(),
    }
}

/// What the responses to a relayed request will echo.
pub open spec fn snapshot_of(
    ctx: RuleContextView,
    req: SipRequestView,
    outbound: i64,
) -> PendingRequestView {
    PendingRequestView {
        method: req.method,
        outbound_cseq: outbound,
        inbound_cseq: req.cseq,
        source_vias: header_values(req.headers, "Via"@),
        source_call_id: text_or_empty(header_value(req.headers, "Call-ID"@)),
        source_from: text_or_empty(header_value(req.headers, "From"@)),
        source_to: text_or_empty(header_value(req.headers, "To"@)),
        source_timestamp: header_value(req.headers, "Timestamp"@),
        offers_100rel: header_lists(req.headers, "Supported"@, "100rel"@) || header_lists(
            req.headers,
            "Require"@,
            "100rel"@,
        ),
        direction: ctx.direction,
        cancelled: false,
    }
}

fn text_of(hs: &Vec<SipHeader>, name: &str) -> (r: String)
    ensures
        r@ == text_or_empty(header_value(views(hs@), name@)),
{
    match header_text(hs, name) {
        Some(t) => t,
        None => {
            let empty = String::new();
            assert(empty@ =~= Seq::<char>::empty());
            empty
        },
    }
}

fn snapshot(ctx: &RuleContext, req: &SipRequest, outbound: i64) -> (r: PendingRequest)
    ensures
        r@ == snapshot_of(ctx@, req@, outbound),
{
    PendingRequest {
        method: req.method.clone(),
        outbound_cseq: outbound,
        inbound_cseq: req.cseq,
        source_vias: header_lines(&req.headers, "Via"),
        source_call_id: text_of(&req.headers, "Call-ID"),
        source_from: text_of(&req.headers, "From"),
        source_to: text_of(&req.headers, "To"),
        source_timestamp: header_text(&req.headers, "Timestamp"),
        offers_100rel: lists_token(&req.headers, "Supported", "100rel") || lists_token(
            &req.headers,
            "Require",
            "100rel",
        ),
        direction: ctx.direction,
        cancelled: false,
    }
}

// ── the relay ───────────────────────────────────────────────────────────
/// The sequence number of the relayed request.
pub open spec fn outbound_cseq(ctx: RuleContextView, d: DialogView, req: SipRequestView) -> i64 {
    clamp(d.sip.local_cseq + relay_delta(req.cseq, source_heard(ctx)))
}

/// Both dialogs with their sequences advanced.
pub open spec fn advanced_both(
    c: CallView,
    ctx: RuleContextView,
    target: Seq<char>,
    d: DialogView,
    req: SipRequestView,
) -> CallView {
    with_heard(c, ctx, req.cseq).bump_local_cseq(
        target,
        identity_tag(target, d),
        relay_delta(req.cseq, source_heard(ctx)),
    )
}

/// The relayed request.
pub open spec fn relayed_plan(
    c: CallView,
    ctx: RuleContextView,
    target: Seq<char>,
    d: DialogView,
    req: SipRequestView,
    branch: Seq<char>,
) -> RequestPlanView {
    RequestPlanView {
        body: req.body,
        content_type: media_type_of(header_value(req.headers, "Content-Type"@)),
        headers: relayed_lines(c, target, req),
        rack: if req.method == MethodView::Prack {
            relayed_rack(c, target, req, invite_cseq(d))
        } else {
            None
        },
        capabilities: Some(advertised_set(c.features, face_of_leg(target))),
        ..dialog_request(
            req.method,
            c.is_emergency(),
            d.sip,
            branch,
            outbound_cseq(ctx, d, req),
        )
    }
}

/// A request relayed on a dialog of the target leg.
#[verifier::opaque]
pub open spec fn relayed_on(
    w: WorkView,
    ctx: RuleContextView,
    target: Seq<char>,
    d: DialogView,
    req: SipRequestView,
) -> WorkView {
    let tag = identity_tag(target, d);
    let out = outbound_cseq(ctx, d, req);
    let c1 = advanced_both(w.call, ctx, target, d, req);
    let c2 = if req.method == MethodView::Invite {
        c1.set_invite_txn(
            target,
            tag,
            InviteTxnView {
                branch: w.ids.branch(),
                cseq: out,
                destination: next_hop(d.sip),
                emergency: w.call.is_emergency(),
            },
        )
    } else {
        c1
    };
    let c3 = if req.method == MethodView::Bye {
        c2
    } else {
        c2.add_pending_request(target, tag, snapshot_of(ctx, req, out))
    };
    w.on(c3).minted().send(
        toward_peer(
            relayed_plan(c1, ctx, target, d, req, w.ids.branch()),
            target,
            Provenance::Relayed,
        ),
    )
}

/// A request relayed to a leg: an ACK as the ACK of that leg's answer, any
/// other on the dialog it names. Nothing where the leg has no dialog whose peer
/// tag is known, or the method takes no place in one.
#[verifier::opaque]
pub open spec fn relay_request(
    w: WorkView,
    ctx: RuleContextView,
    target: Seq<char>,
    req: SipRequestView,
    to_tag: Option<Seq<char>>,
) -> WorkView {
    if req.method == MethodView::Ack {
        ack_leg(
            w,
            target,
            req.body,
            media_type_of(header_value(req.headers, "Content-Type"@)),
        )
    } else {
        match w.call.leg(target) {
            Some(l) => match relay_dialog(l, to_tag) {
                Some(d) => if in_dialog(req.method) && d.sip.remote_tag.len() > 0 {
                    relayed_on(w, ctx, target, d, req)
                } else {
                    w
                },
                None => w,
            },
            None => w,
        }
    }
}

impl<'a> ActionExecutor<'a> {
    /// Send the ACK of a leg's answer.
    pub(crate) fn ack_leg(
        &self,
        w: &mut Work,
        leg_id: &String,
        body: &Vec<u8>,
        content_type: Option<String>,
    )
        ensures
            final(w)@ == ack_leg(old(w)@, leg_id@, body@, opt_view(content_type)),
    {
        proof {
            reveal(ack_leg);
        }
        let d = match find_leg(&w.call, leg_id) {
            Some(l) => {
                if l.dialogs.len() == 0 {
                    return;
                }
                assert(l@.dialogs[0] == l.dialogs@[0]@);
                l.dialogs[0].clone()
            },
            None => {
                return;
            },
        };
        if is_empty(&d.sip.remote_tag) {
            return;
        }
        if let Some(a) = ack_to_repeat(&d.ext, body) {
            w.send(ack_effect(a, leg_id));
            return;
        }
        let branch = match &d.ext.ack_branch {
            Some(b) => b.clone(),
            None => w.ids.new_branch(),
        };
        let ack = AckPlan {
            dialog: d.sip.clone(),
            branch,
            cseq: invite_cseq_from_handle(&d),
            body: clone_bytes(body),
            content_type,
            emergency: w.call.is_emergency(),
        };
        w.send(ack_effect(ack.clone(), leg_id));
        retain_ack(&mut w.call, leg_id, ack);
    }

    fn relay_on(
        &self,
        w: &mut Work,
        ctx: &RuleContext,
        target: &String,
        d: &Dialog,
        req: &SipRequest,
    )
        ensures
            final(w)@ == relayed_on(old(w)@, ctx@, target@, d@, req@),
    {
        proof {
            reveal(relayed_on);
        }
        let heard = match ctx.source_dialog() {
            Some(sd) => sd.ext.remote_cseq,
            None => None,
        };
        let delta = relay_cseq_delta(req.cseq, heard);
        let out = clamped_add(d.sip.local_cseq, delta);
        let tag = dialog_identity_tag(target, d);
        hear(&mut w.call, ctx, req.cseq);
        bump_local_cseq(&mut w.call, target, &tag, delta);
        let rack = if req.method == Method::Prack {
            rack_toward(&w.call, target, req, invite_cseq_from_handle(d))
        } else {
            None
        };
        let branch = w.ids.new_branch();
        let mut plan = bare_request(
            req.method.clone(),
            w.call.is_emergency(),
            &d.sip,
            branch.clone(),
            out,
        );
        plan.body = clone_bytes(&req.body);
        plan.content_type = media_type(&header_text(&req.headers, "Content-Type"));
        plan.headers = lines_toward(&w.call, target, req);
        plan.rack = rack;
        plan.capabilities = Some(advertised(&w.call, Face::of_leg(target.as_str())));
        if req.method == Method::Invite {
            let emergency = w.call.is_emergency();
            set_invite_txn(
                &mut w.call,
                target,
                &tag,
                InviteTxn { branch, cseq: out, destination: next_hop_of(&d.sip), emergency },
            );
        }
        if req.method != Method::Bye {
            add_pending_request(&mut w.call, target, &tag, snapshot(ctx, req, out));
        }
        w.send(to_peer(plan, target, Provenance::Relayed));
    }

    /// Relay a request to a leg.
    pub(crate) fn relay_request(
        &self,
        w: &mut Work,
        ctx: &RuleContext,
        target: &String,
        req: &SipRequest,
        to_tag: &Option<String>,
    )
        ensures
            final(w)@ == relay_request(old(w)@, ctx@, target@, req@, opt_view(*to_tag)),
    {
        proof {
            reveal(relay_request);
        }
        if req.method == Method::Ack {
            let ct = media_type(&header_text(&req.headers, "Content-Type"));
            self.ack_leg(w, target, &req.body, ct);
            return;
        }
        if !in_dialog_method(&req.method) {
            return;
        }
        let d = match find_leg(&w.call, target) {
            Some(l) => match pick_relay_dialog(l, to_tag) {
                Some(d) => d.clone(),
                None => {
                    return;
                },
            },
            None => {
                return;
            },
        };
        if is_empty(&d.sip.remote_tag) {
            return;
        }
        self.relay_on(w, ctx, target, &d, req);
    }
}

// ── laws ────────────────────────────────────────────────────────────────
/// A relayed request always moves the target's sequence forward, and by exactly
/// one where its source's moved by one: a gap one dialog has is the only gap
/// the other gets.
pub proof fn sequences_advance_together(inbound: i64, heard: Option<i64>)
    ensures
        relay_delta(inbound, heard) >= 1,
        heard is None ==> relay_delta(inbound, heard) == 1,
        heard is Some && inbound == heard->0 + 1 ==> relay_delta(inbound, heard) == 1,
        heard is Some && heard->0 < inbound && inbound - heard->0 <= i64::MAX ==> relay_delta(
            inbound,
            heard,
        ) == inbound - heard->0,
{
}

/// Every ACK of one answer goes on one transaction: the second carries the
/// branch of the first, and no fresh one is taken.
pub proof fn one_transaction_acks_an_answer(
    w: WorkView,
    leg_id: Seq<char>,
    b1: Seq<u8>,
    t1: Option<Seq<char>>,
    b2: Seq<u8>,
    t2: Option<Seq<char>>,
)
    requires
        w.call.leg(leg_id) is Some,
        w.call.leg(leg_id)->0.dialogs.len() > 0,
        w.call.leg(leg_id)->0.dialogs[0].sip.remote_tag.len() > 0,
        w.call.leg(leg_id)->0.leg_id == leg_id,
    ensures
        ({
            let w1 = ack_leg(w, leg_id, b1, t1);
            let w2 = ack_leg(w1, leg_id, b2, t2);
            let sent = w2.fx.outbound;
            &&& w2.ids == w1.ids
            &&& sent.len() == w.fx.outbound.len() + 2
            &&& sent[sent.len() - 1].body is Ack
            &&& sent[sent.len() - 2].body is Ack
            &&& sent[sent.len() - 1].body->ack.branch == sent[sent.len() - 2].body->ack.branch
        }),
{
    an_ack_is_retained(w, leg_id, b1, t1);
    reveal(ack_leg);
}

/// An ACK sent stands retained on the branch it went out on.
proof fn an_ack_is_retained(
    w: WorkView,
    leg_id: Seq<char>,
    body: Seq<u8>,
    content_type: Option<Seq<char>>,
)
    requires
        w.call.leg(leg_id) is Some,
        w.call.leg(leg_id)->0.dialogs.len() > 0,
        w.call.leg(leg_id)->0.dialogs[0].sip.remote_tag.len() > 0,
        w.call.leg(leg_id)->0.leg_id == leg_id,
    ensures
        ({
            let w1 = ack_leg(w, leg_id, body, content_type);
            let l1 = w1.call.leg(leg_id)->0;
            let a = w1.fx.outbound.last().body->ack;
            &&& w1.fx.outbound.len() == w.fx.outbound.len() + 1
            &&& w1.fx.outbound.last() == ack_toward(a, leg_id)
            &&& w1.call.leg(leg_id) is Some
            &&& l1.dialogs.len() > 0
            &&& l1.dialogs[0].sip == w.call.leg(leg_id)->0.dialogs[0].sip
            &&& l1.leg_id == leg_id
            &&& l1.dialogs[0].ext.emitted_ack == Some(a)
            &&& l1.dialogs[0].ext.ack_branch == Some(a.branch)
        }),
{
    reveal(ack_leg);
    let l = w.call.leg(leg_id)->0;
    let d = l.dialogs[0];
    if repeated_ack(d.ext, body) is None {
        let a = ack_leg(w, leg_id, body, content_type).fx.outbound.last().body->ack;
        let l2 = LegView {
            dialogs: l.dialogs.update(0, DialogView { ext: acknowledged(d.ext, a), ..d }),
            ..l
        };
        leg_of_with_leg(w.call, leg_id, l2);
    }
}

/// A repeated answer draws the ACK the answer drew, body and all, and takes no
/// fresh branch.
pub proof fn a_repeated_answer_draws_the_same_ack(
    w: WorkView,
    leg_id: Seq<char>,
    body: Seq<u8>,
    content_type: Option<Seq<char>>,
)
    requires
        w.call.leg(leg_id) is Some,
        w.call.leg(leg_id)->0.dialogs.len() > 0,
        w.call.leg(leg_id)->0.dialogs[0].sip.remote_tag.len() > 0,
        w.call.leg(leg_id)->0.leg_id == leg_id,
    ensures
        ({
            let w1 = ack_leg(w, leg_id, body, content_type);
            let w2 = ack_leg(w1, leg_id, Seq::empty(), None);
            &&& w1.fx.outbound.len() == w.fx.outbound.len() + 1
            &&& w1.fx.outbound.last().body is Ack
            &&& body.len() > 0 ==> w1.fx.outbound.last().body->ack.body == body
            &&& w2.fx.outbound == w1.fx.outbound.push(w1.fx.outbound.last())
            &&& w2.ids == w1.ids
            &&& w2.call == w1.call
        }),
{
    an_ack_is_retained(w, leg_id, body, content_type);
    reveal(ack_leg);
}

} // verus!
