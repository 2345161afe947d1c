//! What a relay does beside it: whom it acknowledges, which wait it ends, and what the
//! call remembers of it.
use vstd::prelude::*;

use crate::action::{MessageTransformView, NewDialogAnswerView, RuleActionView};
use crate::actions::dialog_track::{early_ensured, tracks, with_early_dialog};
use crate::actions::ended::{
    face_replaced, faces_through, faces_where_legs_are, found_alike, retiring_keeps_faces,
    same_faces, same_wire,
};
use crate::actions::ladder::unacked;
use crate::actions::originate::dialog_of_tag;
use crate::actions::relay_response::{
    answering_dialog, bare_180, body_taken, carried, not_100rel, originator_lines, originator_plan,
    provisional_settled, reason_of, shown_180, status_of, transaction_closed, unreliable,
    unreliable_line, with_awaited_ack,
};
use crate::actions::requested::a_prack_names_its_provisional;
use crate::actions::stated::{
    a_callees_response_reaches_the_caller, answers_no_relay, closing_is_quiet, either_holds,
    kept_exactly, left_alone, relays, retaining_a_provisional_is_quiet,
    retaining_a_reinvite_answer_is_quiet, retaining_an_answer_is_quiet, retiring_is_quiet,
    the_callers_dialog_is_quiet,
};
use crate::actions::{ExecView, WorkView};
use crate::books::{first_ext, with_first_ext};
use crate::call::{
    AnswersView, CallView, DestinationView, DialogExtView, DialogView, FeatureActivationsView,
    LegView, MaxDurationAnchor, PendingRequestView, PrackedProvisionalView, TagMappingView,
    TimerTypeView,
};
use crate::capabilities::items;
use crate::effects::CriticalEffectView;
use crate::headers::{rseq_of, sent_by};
use crate::lens::{
    dialog_named, dialog_of_with_dialog, dialog_toward, identity_tag, not_pending_under,
};
use crate::model::RuleContextView;
use crate::reliable::{pracked_as, repeats_reliable};
use crate::seqs::{
    any_where, first_where, first_where_found, first_where_is, is_first, keep, keep_sound,
};
use crate::text::{decimal_text, join_text, lower, same_ignoring_case};
use crate::wire::{MethodView, SipHeaderView, SipResponseView};

verus! {

/// A PRACK of this stack's own goes on the dialog of the tag it names and says which
/// provisional it acknowledges.
pub proof fn a_prack_is_sent_as_asked(
    x: ExecView,
    w: WorkView,
    ctx: RuleContextView,
    leg_id: Seq<char>,
    rseq: i64,
    invite_cseq: i64,
    b_tag: Seq<char>,
    d: DialogView,
)
    requires
        leg_id != "a"@,
        leg_id != w.call.a_leg.leg_id,
        w.call.dialog(leg_id, b_tag) == Some(d),
        b_tag.len() > 0,
        rseq >= 0,
        invite_cseq >= 0,
        !w.call.pracked_provisionals.contains(
            PrackedProvisionalView { leg_id, b_tag, invite_cseq, rseq },
        ),
    ensures
        ({
            let r = x.apply(
                w,
                RuleActionView::SendPrackToLeg { leg_id, rseq, invite_cseq, b_tag },
                ctx,
            );
            let e = r.fx.outbound.last();
            let sent = e.body->request;
            &&& r.fx.outbound == w.fx.outbound.push(e)
            &&& e.body is Request
            &&& e.leg_id == Some(leg_id)
            &&& sent.method == MethodView::Prack
            &&& sent.dialog == d.sip
            &&& sent.rack == Some(
                decimal_text(rseq as nat) + " "@ + decimal_text(invite_cseq as nat) + " INVITE"@,
            )
            &&& sent.body.len() == 0
            &&& sent.headers.len() == 0
            &&& d.sip.local_cseq < i64::MAX ==> sent.cseq == d.sip.local_cseq + 1
        }),
{
    reveal(ExecView::apply);
    reveal(early_ensured);
    reveal(with_early_dialog);
    let l = w.call.leg(leg_id)->0;
    first_where_found(l.dialogs, dialog_named(leg_id, b_tag));
    let i = first_where(l.dialogs, dialog_named(leg_id, b_tag))->0;
    assert(dialog_toward(b_tag)(l.dialogs[i]));
    assert(tracks(w.call, leg_id, b_tag));
    assert(is_first(l.dialogs, dialog_toward(b_tag), i)) by {
        assert forall|j: int| 0 <= j < i implies !dialog_toward(b_tag)(#[trigger] l.dialogs[j]) by {
            assert(!dialog_named(leg_id, b_tag)(l.dialogs[j]));
        }
    }
    first_where_is(l.dialogs, dialog_toward(b_tag), i);
    assert(dialog_of_tag(w.call, leg_id, b_tag) == Some(d));
    a_prack_names_its_provisional(w, leg_id, rseq, invite_cseq, b_tag, d);
}

/// What a provisional that may not go out reliably still says: nothing of its number,
/// and of what it requires everything but reliability.
pub proof fn a_plain_provisional_says_nothing_of_reliability(hs: Seq<SipHeaderView>)
    ensures
        forall|h: SipHeaderView| #[trigger]
            unreliable(hs).contains(h) ==> !same_ignoring_case(h.name, "RSeq"@),
        forall|h: SipHeaderView| #[trigger]
            unreliable(hs).contains(h) && same_ignoring_case(h.name, "Require"@) ==> exists|
                g: SipHeaderView,
            |
                {
                    let rest = keep(items(g.value), not_100rel());
                    &&& #[trigger] hs.contains(g)
                    &&& g.name == h.name
                    &&& rest.len() > 0
                    &&& h.value == join_text(rest, ", "@)
                    &&& forall|k: int|
                        0 <= k < rest.len() ==> !same_ignoring_case(#[trigger] rest[k], "100rel"@)
                },
    decreases hs.len(),
{
    if hs.len() > 0 {
        let t = hs.drop_last();
        let x = hs.last();
        a_plain_provisional_says_nothing_of_reliability(t);
        the_names_are_two();
        keep_sound(items(x.value), not_100rel());
        assert(hs[hs.len() - 1] == x);
        assert forall|h: SipHeaderView| #[trigger] unreliable(hs).contains(h) implies {
            &&& !same_ignoring_case(h.name, "RSeq"@)
            &&& same_ignoring_case(h.name, "Require"@) ==> exists|g: SipHeaderView|
                {
                    let rest = keep(items(g.value), not_100rel());
                    &&& #[trigger] hs.contains(g)
                    &&& g.name == h.name
                    &&& rest.len() > 0
                    &&& h.value == join_text(rest, ", "@)
                    &&& forall|k: int|
                        0 <= k < rest.len() ==> !same_ignoring_case(#[trigger] rest[k], "100rel"@)
                }
        } by {
            either_holds(unreliable(t), unreliable_line(x), h);
            if unreliable(t).contains(h) {
                if same_ignoring_case(h.name, "Require"@) {
                    let g = choose|g: SipHeaderView|
                        {
                            let rest = keep(items(g.value), not_100rel());
                            &&& #[trigger] t.contains(g)
                            &&& g.name == h.name
                            &&& rest.len() > 0
                            &&& h.value == join_text(rest, ", "@)
                            &&& forall|k: int|
                                0 <= k < rest.len() ==> !same_ignoring_case(
                                    #[trigger] rest[k],
                                    "100rel"@,
                                )
                        };
                    let i = choose|i: int| 0 <= i < t.len() && t[i] == g;
                    assert(hs[i] == g);
                    assert(hs.contains(g));
                }
            } else {
                let k = choose|k: int|
                    0 <= k < unreliable_line(x).len() && unreliable_line(x)[k] == h;
                assert(k == 0);
                assert(h.name == x.name);
                assert(hs.contains(x));
                if same_ignoring_case(h.name, "Require"@) {
                    let rest = keep(items(x.value), not_100rel());
                    assert forall|k: int| 0 <= k < rest.len() implies !same_ignoring_case(
                        #[trigger] rest[k],
                        "100rel"@,
                    ) by {
                        assert(not_100rel()(rest[k]));
                    }
                }
            }
        }
    }
}

proof fn the_names_are_two()
    ensures
        !same_ignoring_case("RSeq"@, "Require"@),
        forall|n: Seq<char>| same_ignoring_case(n, "Require"@) ==> !#[trigger] same_ignoring_case(
            n,
            "RSeq"@,
        ),
{
    reveal_strlit("RSeq");
    reveal_strlit("Require");
    assert(lower("RSeq"@).len() == 4);
    assert(lower("Require"@).len() == 7);
}

/// A provisional that its originator does not take as a reliable one is acknowledged
/// here, under its own number, and goes on without one.
pub proof fn a_provisional_is_acknowledged_in_its_originators_place(
    x: ExecView,
    w: WorkView,
    ctx: RuleContextView,
    target: Seq<char>,
    t: MessageTransformView,
    to_tag: Option<Seq<char>>,
    resp: SipResponseView,
    p: PendingRequestView,
    d: DialogView,
    n: i64,
)
    requires
        ctx.response() == Some(resp),
        resp.method == MethodView::Invite,
        t.status is None,
        101 <= resp.status < 200,
        rseq_of(resp) == Some(n as int),
        n >= 0,
        resp.cseq >= 0,
        answering_dialog(ctx, resp) is Some,
        answering_dialog(ctx, resp)->0.pending(resp.cseq) == Some(p),
        p.source_vias.len() > 0,
        sent_by(p.source_vias[0]) is Some,
        !(p.method == MethodView::Invite && p.offers_100rel),
        !repeats_reliable(w.call, ctx.source_leg_id, resp),
        resp.to_tag is Some,
        resp.to_tag->0.len() > 0,
        dialog_of_tag(w.call, ctx.source_leg_id, resp.to_tag->0) == Some(d),
    ensures
        ({
            let r = x.relay_to(w, ctx, target, t, to_tag);
            let k = w.fx.outbound.len() as int;
            let e = r.fx.outbound[k];
            let sent = r.fx.outbound[k + 1].body->Response_response;
            &&& r.fx.outbound.len() == k + 2
            &&& e.body is Request
            &&& e.leg_id == Some(ctx.source_leg_id)
            &&& e.body->request.method == MethodView::Prack
            &&& e.body->request.dialog == d.sip
            &&& e.body->request.rack == Some(
                decimal_text(n as nat) + " "@ + decimal_text(resp.cseq as nat) + " INVITE"@,
            )
            &&& sent.status == resp.status
            &&& forall|h: SipHeaderView| #[trigger]
                sent.headers.contains(h) ==> !same_ignoring_case(h.name, "RSeq"@)
        }),
{
    reveal(ExecView::relay_to);
    reveal(ExecView::relay_response);
    reveal(ExecView::relay_to_originator);
    reveal(provisional_settled);
    closing_is_quiet();
    retaining_a_reinvite_answer_is_quiet();
    retaining_a_provisional_is_quiet();
    let c1 = body_taken(w.call, t);
    let w1 = w.on(c1);
    let b = carried(w.call, t, resp);
    let status = status_of(t, resp);
    let hs = originator_lines(c1, target, t, resp, status, b.source);
    a_plain_provisional_says_nothing_of_reliability(hs);
    let tag = resp.to_tag->0;
    assert(dialog_of_tag(c1, ctx.source_leg_id, tag) == Some(d));
    let q = PrackedProvisionalView {
        leg_id: ctx.source_leg_id,
        b_tag: tag,
        invite_cseq: resp.cseq,
        rseq: n,
    };
    assert(!c1.pracked_provisionals.contains(q)) by {
        if c1.pracked_provisionals.contains(q) {
            let i = choose|i: int|
                0 <= i < c1.pracked_provisionals.len() && c1.pracked_provisionals[i] == q;
            assert(pracked_as(q)(w.call.pracked_provisionals[i]));
            assert(any_where(w.call.pracked_provisionals, pracked_as(q)));
        }
    }
    a_prack_names_its_provisional(w1, ctx.source_leg_id, n, resp.cseq, tag, d);
}

// ── what a final closes ─────────────────────────────────────────────────
proof fn a_first_ext_keeps_the_faces(c: CallView, leg: Seq<char>, e: DialogExtView)
    requires
        first_ext(c, leg) is Some ==> {
            &&& e.pending_invite_txn == first_ext(c, leg)->0.pending_invite_txn
            &&& e.inbound_pending_requests == first_ext(c, leg)->0.inbound_pending_requests
        },
    ensures
        same_faces(with_first_ext(c, leg, e), c, true),
{
    faces_where_legs_are(c, c);
    match c.leg(leg) {
        Some(l) => if l.dialogs.len() > 0 {
            let d = DialogView { ext: e, ..l.dialogs[0] };
            face_replaced(c, leg, LegView { dialogs: l.dialogs.update(0, d), ..l }, true);
        },
        None => {},
    }
}

proof fn a_dialog_is_found_alike(c: CallView, d: CallView, leg: Seq<char>, tag: Seq<char>)
    requires
        same_faces(c, d, true),
        d.dialog(leg, tag) is Some,
    ensures
        c.dialog(leg, tag) is Some,
        same_wire(c.dialog(leg, tag)->0, d.dialog(leg, tag)->0, true),
{
    found_alike(c, d, leg, true);
    let a = c.leg(leg)->0.dialogs;
    let b = d.leg(leg)->0.dialogs;
    let p = dialog_named(leg, tag);
    first_where_found(b, p);
    let i = first_where(b, p)->0;
    assert(same_wire(a[i], b[i], true));
    assert forall|j: int| 0 <= j < i implies !p(#[trigger] a[j]) by {
        assert(same_wire(a[j], b[j], true));
        assert(!p(b[j]));
    }
    assert(is_first(a, p, i));
    first_where_is(a, p, i);
}

/// A final that goes back to the originator of a request ends its wait: the dialog it
/// was relayed on holds it no longer, and every other request waits on.
pub proof fn a_final_ends_the_wait(
    x: ExecView,
    w: WorkView,
    ctx: RuleContextView,
    target: Seq<char>,
    t: MessageTransformView,
    to_tag: Option<Seq<char>>,
    resp: SipResponseView,
    p: PendingRequestView,
    d: DialogView,
    other: PendingRequestView,
)
    requires
        ctx.response() == Some(resp),
        t.status is None,
        200 <= resp.status,
        answering_dialog(ctx, resp) == Some(d),
        d.pending(resp.cseq) == Some(p),
        p.source_vias.len() > 0,
        sent_by(p.source_vias[0]) is Some,
        !repeats_reliable(w.call, ctx.source_leg_id, resp),
        w.call.dialog(ctx.source_leg_id, identity_tag(ctx.source_leg_id, d)) == Some(d),
    ensures
        ({
            let r = x.relay_to(w, ctx, target, t, to_tag);
            let after = r.call.dialog(ctx.source_leg_id, identity_tag(ctx.source_leg_id, d));
            &&& after is Some
            &&& after->0.sip == d.sip
            &&& after->0.ext.inbound_pending_requests.contains(other)
                <==> d.ext.inbound_pending_requests.contains(other) && other.outbound_cseq
                != resp.cseq
        }),
{
    reveal(ExecView::relay_to);
    reveal(ExecView::relay_response);
    reveal(ExecView::relay_to_originator);
    reveal(provisional_settled);
    reveal(transaction_closed);
    let source = ctx.source_leg_id;
    let tag = identity_tag(source, d);
    let c1 = body_taken(w.call, t);
    let w1 = w.on(c1);
    assert(c1.leg(source) == w.call.leg(source));
    assert(c1.dialog(source, tag) == Some(d));
    let b = carried(w.call, t, resp);
    let status = status_of(t, resp);
    let hs = originator_lines(c1, target, t, resp, status, b.source);
    let (wa, hs1, ladder) = provisional_settled(w1, ctx, target, resp, p, status, hs);
    assert(wa == w1 && ladder is None);
    let plan = originator_plan(c1, p, resp, status, reason_of(t, resp), b, hs1);
    let to = DestinationView::Address { at: sent_by(p.source_vias[0])->0 };
    let gone = d.without_pending(resp.cseq);
    let c2 = c1.with_dialog(source, tag, gone);
    dialog_of_with_dialog(c1, source, tag, gone);
    kept_exactly(d.ext.inbound_pending_requests, not_pending_under(resp.cseq), other);
    let w2 = transaction_closed(w1, source, tag, resp, status);
    retiring_keeps_faces();
    faces_where_legs_are(c2, c2);
    assert(same_faces(w2.call, c2, true));
    let r = x.relay_to(w, ctx, target, t, to_tag);
    if resp.method == MethodView::Invite && 200 <= status < 300 {
        reveal(ExecView::retain_reinvite_2xx);
        reveal(ExecView::arm_ack_ladder);
        reveal(ExecView::schedule);
        let c3 = with_awaited_ack(w2.call, source, p.inbound_cseq);
        faces_where_legs_are(w2.call, w2.call);
        if let Some(e) = first_ext(w2.call, source) {
            a_first_ext_keeps_the_faces(
                w2.call,
                source,
                DialogExtView { awaited_ack_cseq: Some(p.inbound_cseq), ..e },
            );
        }
        faces_through(c3, w2.call, c2, true);
        faces_where_legs_are(c3, c3);
        let c4 = match first_ext(c3, target) {
            Some(e) => with_first_ext(
                c3,
                target,
                DialogExtView { pending_reinvite_2xx: Some(unacked(plan, to)), ..e },
            ),
            None => c3,
        };
        if let Some(e) = first_ext(c3, target) {
            a_first_ext_keeps_the_faces(
                c3,
                target,
                DialogExtView { pending_reinvite_2xx: Some(unacked(plan, to)), ..e },
            );
        }
        faces_through(c4, c3, c2, true);
        faces_where_legs_are(r.call, c4);
        faces_through(r.call, c4, c2, true);
    } else {
        faces_where_legs_are(r.call, w2.call);
        faces_through(r.call, w2.call, c2, true);
    }
    a_dialog_is_found_alike(r.call, c2, source, tag);
}

// ── the masked provisional ──────────────────────────────────────────────
/// The first ringing that a masked call shows its caller: a bare 180, under the tag
/// that stands for the callee's dialog from then on, and the call knows it was shown.
pub proof fn a_masked_ringing_is_a_bare_180(
    x: ExecView,
    w: WorkView,
    ctx: RuleContextView,
    leg_id: Seq<char>,
    b_tag: Seq<char>,
    resp: SipResponseView,
)
    requires
        ctx.response() == Some(resp),
        resp.method == MethodView::Invite,
        answers_no_relay(ctx, resp),
        !repeats_reliable(w.call, ctx.source_leg_id, resp),
        w.call.a_leg.invite_final_sent is None,
        w.call.relay_peer(ctx.source_leg_id, None).0 is Some,
        ctx.source_leg_id != w.call.a_leg.leg_id,
    ensures
        ({
            let r = x.apply(w, RuleActionView::RelayFirstBare180 { leg_id, b_tag }, ctx);
            let e = r.fx.outbound.last();
            let sent = e.body->Response_response;
            let noted = r.call.relay_first_18x;
            &&& r.fx.outbound == w.fx.outbound.push(e)
            &&& e.body is Response
            &&& e.leg_id == Some(w.call.a_leg.leg_id)
            &&& sent.answers == AnswersView::ALegInvite
            &&& sent.status == 180
            &&& sent.reason == "Ringing"@
            &&& sent.body.len() == 0
            &&& sent.content_type is None
            &&& forall|h: SipHeaderView| #[trigger]
                sent.headers.contains(h) && !same_ignoring_case(h.name, "RSeq"@)
                    ==> resp.relayable.contains(h) && !same_ignoring_case(h.name, "Require"@)
                    && !same_ignoring_case(h.name, "P-Early-Media"@)
            &&& noted is Some
            &&& noted->0.relayed
            &&& noted->0.a_tag is Some
            &&& noted->0.values.contains(resp.status)
        }),
{
    reveal(ExecView::apply);
    reveal(ExecView::relay_first_bare_180);
    the_callers_dialog_is_quiet();
    reveal(ExecView::ensure_a_dialog);
    let stored = match w.call.relay_first_18x {
        Some(s) => s.a_tag,
        None => None,
    };
    let (w1, tag) = x.ensure_a_dialog(w, stored);
    let c2 = w1.call.add_tag_mapping(TagMappingView { a_tag: tag, b_leg_id: leg_id, b_tag });
    let w2 = w1.on(shown_180(c2, tag, Some(resp.status)));
    let t = bare_180();
    let values = match w.call.relay_first_18x {
        Some(s) => s.values,
        None => Seq::empty(),
    };
    assert(values.push(resp.status)[values.len() as int] == resp.status);
    assert(w2.call.active_peer == w.call.active_peer);
    assert(w2.call.b_legs == w.call.b_legs);
    assert(w2.call.leg(ctx.source_leg_id) == w.call.leg(ctx.source_leg_id));
    assert(!repeats_reliable(w2.call, ctx.source_leg_id, resp));
    assert(relays(w2, ctx, RuleActionView::RelayToPeer { transform: t }, t));
    a_callees_response_reaches_the_caller(
        x,
        w2,
        ctx,
        RuleActionView::RelayToPeer { transform: t },
        t,
        resp,
    );
    let r = x.apply(w, RuleActionView::RelayFirstBare180 { leg_id, b_tag }, ctx);
    assert(r == x.apply(w2, RuleActionView::RelayToPeer { transform: t }, ctx));
    let sent = r.fx.outbound.last().body->Response_response;
    assert(t.remove_headers[0] == "Require"@);
    assert(t.remove_headers[2] == "P-Early-Media"@);
    assert forall|h: SipHeaderView| #[trigger]
        sent.headers.contains(h) && !same_ignoring_case(h.name, "RSeq"@) implies
        resp.relayable.contains(h) && !same_ignoring_case(h.name, "Require"@)
        && !same_ignoring_case(h.name, "P-Early-Media"@) by {
        assert(left_alone(w2.call, t, h) || t.add_headers.contains(h));
        if same_ignoring_case(h.name, "Require"@) {
            assert(same_ignoring_case(t.remove_headers[0], h.name));
        }
        if same_ignoring_case(h.name, "P-Early-Media"@) {
            assert(same_ignoring_case(t.remove_headers[2], h.name));
        }
    }
}

/// A call whose ceiling runs from its answer has it armed with the answer.
pub proof fn a_ceiling_runs_from_the_answer(
    x: ExecView,
    w: WorkView,
    ctx: RuleContextView,
    answer: NewDialogAnswerView,
    f: FeatureActivationsView,
)
    requires
        200 <= answer.status < 300,
        w.call.a_leg.invite_final_sent is None,
        w.call.features == Some(f),
        f.platform.max_duration_anchor == MaxDurationAnchor::Answer,
        0 <= f.platform.max_duration_sec <= 1000000000,
        0 <= x.now_ms <= 1000000000000000,
    ensures
        ({
            let r = x.apply(w, RuleActionView::AnswerALegNewDialog { answer }, ctx);
            let e = r.call.timers.last();
            &&& r.call.timers.len() > 0
            &&& e.timer_type == TimerTypeView::GlobalDuration
            &&& e.fire_at == x.now_ms + f.platform.max_duration_sec * 1000
            &&& r.fx.critical.len() > 0
            &&& r.fx.critical.last() == CriticalEffectView::ScheduleTimer { entry: e }
        }),
{
    reveal(ExecView::apply);
    reveal(ExecView::answer_a_leg_new_dialog);
    reveal(ExecView::anchor_at_answer);
    reveal(ExecView::send_a_leg_answer);
    the_callers_dialog_is_quiet();
    retaining_an_answer_is_quiet();
    retiring_is_quiet();
    reveal(ExecView::schedule);
}

} // verus!
