//! What the messages of a turn say: whoever they go to, each carries what it was
//! asked to carry, from the message it relays or the action that sends it.
use vstd::prelude::*;

use crate::action::{MessageTransformView, RuleActionView};
use crate::actions::dialog_track::with_early_dialog;
use crate::actions::ladder::{end_ladders, ladders_in, retire};
use crate::actions::originate::send_prack_to_leg;
use crate::actions::relay_response::{
    answering_dialog, body_taken, caller_lines, caller_plan, carried, names_of, numbered,
    originator_lines, own_number, passed, provisional_settled, reason_of, restating, shown_tag,
    status_of, transaction_closed, unreliable, unreliable_line,
};
use crate::actions::respond::media_reads;
use crate::actions::{ExecView, WorkView};
use crate::books::ScopeView;
use crate::call::{
    AnswersView, CallView, DestinationView, ObligationView, PendingRequestView, ResponsePlanView,
    SourceBody, TagMappingView, TimerTypeView,
};
use crate::capabilities::{
    Face, face_of_leg, half_line, HeaderName, is_advert, relaying_set, stamped, survives_stamp,
};
use crate::effects::{Provenance, TxnMode};
use crate::headers::{
    describes_body, goes_with, header_value, lines_with, named_outside, rseq_of, sent_by,
};
use crate::model::RuleContextView;
use crate::reliable::{repeats_reliable, tag_or_empty};
use crate::seqs::{
    find_where_push, keep, keep_append, keep_complete, keep_push, keep_sound, keep_whole,
};
use crate::state::mapping_of_b;
use crate::text::same_ignoring_case;
use crate::wire::{CapabilitySetView, HostPortView, MethodView, SipHeaderView, SipResponseView};

verus! {

/// Nothing is sent, nobody consulted, and the caller's INVITE stands as it did.
pub open spec fn quiet(before: WorkView, after: WorkView) -> bool {
    &&& after.fx.outbound == before.fx.outbound
    &&& after.fx.fire_and_forget == before.fx.fire_and_forget
    &&& after.call.a_leg.leg_id == before.call.a_leg.leg_id
    &&& after.call.a_leg.invite_final_sent == before.call.a_leg.invite_final_sent
    &&& after.call.a_leg_invite == before.call.a_leg_invite
    &&& after.call.emergency == before.call.emergency
    &&& after.call.features == before.call.features
    &&& after.call.tag_map == before.call.tag_map
    &&& after.call.relay_first_18x == before.call.relay_first_18x
}

pub(crate) proof fn ladders_end_quietly(w: WorkView, os: Seq<ObligationView>)
    ensures
        quiet(w, end_ladders(w, os)),
    decreases os.len(),
{
    if os.len() > 0 {
        ladders_end_quietly(w, os.drop_last());
    }
}

pub(crate) proof fn retiring_is_quiet()
    ensures
        forall|w: WorkView, s: ScopeView| quiet(w, (#[trigger] retire(w, s))),
{
    assert forall|w: WorkView, s: ScopeView| quiet(w, (#[trigger] retire(w, s))) by {
        reveal(retire);
        ladders_end_quietly(w, ladders_in(w.call, s));
    }
}

pub(crate) proof fn scheduling_is_quiet()
    ensures
        forall|x: ExecView, w: WorkView, t: TimerTypeView, ms: i64, leg: Option<Seq<char>>|
            quiet(w, (#[trigger] x.schedule(w, t, ms, leg))),
{
    assert forall|x: ExecView, w: WorkView, t: TimerTypeView, ms: i64, leg: Option<Seq<char>>|
        quiet(w, (#[trigger] x.schedule(w, t, ms, leg))) by {
        reveal(ExecView::schedule);
    }
}

pub(crate) proof fn arming_is_quiet()
    ensures
        forall|x: ExecView, w: WorkView, o: ObligationView|
            quiet(w, (#[trigger] x.arm_ack_ladder(w, o))),
{
    assert forall|x: ExecView, w: WorkView, o: ObligationView|
        quiet(w, (#[trigger] x.arm_ack_ladder(w, o))) by {
        reveal(ExecView::arm_ack_ladder);
        scheduling_is_quiet();
    }
}

pub(crate) proof fn retaining_an_answer_is_quiet()
    ensures
        forall|x: ExecView, w: WorkView, p: ResponsePlanView, d: DestinationView|
            quiet(w, (#[trigger] x.retain_a_leg_answer(w, p, d))),
{
    assert forall|x: ExecView, w: WorkView, p: ResponsePlanView, d: DestinationView|
        quiet(w, (#[trigger] x.retain_a_leg_answer(w, p, d))) by {
        reveal(ExecView::retain_a_leg_answer);
        arming_is_quiet();
    }
}

pub(crate) proof fn retaining_a_reinvite_answer_is_quiet()
    ensures
        forall|x: ExecView, w: WorkView, p: ResponsePlanView, d: DestinationView, leg: Seq<char>|
            quiet(w, (#[trigger] x.retain_reinvite_2xx(w, p, d, leg))),
{
    assert forall|x: ExecView, w: WorkView, p: ResponsePlanView, d: DestinationView, leg: Seq<char>|
        quiet(w, (#[trigger] x.retain_reinvite_2xx(w, p, d, leg))) by {
        reveal(ExecView::retain_reinvite_2xx);
        arming_is_quiet();
    }
}

pub(crate) proof fn retaining_a_provisional_is_quiet()
    ensures
        forall|
            x: ExecView,
            w: WorkView,
            p: ResponsePlanView,
            d: DestinationView,
            tag: Seq<char>,
            n: i64,
        |
            quiet(w, (#[trigger] x.arm_provisional(w, p, d, tag, n))),
{
    assert forall|
        x: ExecView,
        w: WorkView,
        p: ResponsePlanView,
        d: DestinationView,
        tag: Seq<char>,
        n: i64,
    |
        quiet(w, (#[trigger] x.arm_provisional(w, p, d, tag, n))) by {
        reveal(ExecView::arm_provisional);
        scheduling_is_quiet();
    }
}

pub(crate) proof fn the_callers_dialog_is_quiet()
    ensures
        forall|x: ExecView, w: WorkView, t: Option<Seq<char>>|
            quiet(w, (#[trigger] x.ensure_a_dialog(w, t)).0),
{
    assert forall|x: ExecView, w: WorkView, t: Option<Seq<char>>|
        quiet(w, (#[trigger] x.ensure_a_dialog(w, t)).0) by {
        reveal(ExecView::ensure_a_dialog);
    }
}

pub(crate) proof fn numbering_is_quiet()
    ensures
        forall|
            w: WorkView,
            tag: Seq<char>,
            n: i64,
            s: Seq<char>,
            r: SipResponseView,
            hs: Seq<SipHeaderView>,
        |
            quiet(w, (#[trigger] numbered(w, tag, n, s, r, hs)).0),
{
    assert forall|
        w: WorkView,
        tag: Seq<char>,
        n: i64,
        s: Seq<char>,
        r: SipResponseView,
        hs: Seq<SipHeaderView>,
    |
        quiet(w, (#[trigger] numbered(w, tag, n, s, r, hs)).0) by {
        reveal(numbered);
    }
}

pub(crate) proof fn closing_is_quiet()
    ensures
        forall|w: WorkView, s: Seq<char>, tag: Seq<char>, r: SipResponseView, n: u16|
            quiet(w, (#[trigger] transaction_closed(w, s, tag, r, n))),
{
    assert forall|w: WorkView, s: Seq<char>, tag: Seq<char>, r: SipResponseView, n: u16|
        quiet(w, (#[trigger] transaction_closed(w, s, tag, r, n))) by {
        reveal(transaction_closed);
        retiring_is_quiet();
    }
}

// ── what a relay carries ────────────────────────────────────────────────
/// A relayed response carries the body it should: none where the relay drops it,
/// the staged one where one is staged, else the one it had, under the type it was
/// stated with.
pub open spec fn body_goes_through(
    c: CallView,
    t: MessageTransformView,
    resp: SipResponseView,
    sent: ResponsePlanView,
) -> bool {
    if t.drop_body {
        sent.body.len() == 0 && sent.content_type is None
    } else {
        match c.policy_update_body {
            Some(staged) => sent.body == staged && sent.content_type == Some("application/sdp"@),
            None => sent.body == resp.body && match header_value(resp.headers, "Content-Type"@) {
                Some(stated) => media_reads(stated) ==> sent.content_type == Some(stated),
                None => sent.content_type is None,
            },
        }
    }
}

/// A relayed response states the status and the phrase of the one it relays, but
/// for those the relay puts in their place.
pub open spec fn status_goes_through(
    t: MessageTransformView,
    resp: SipResponseView,
    sent: ResponsePlanView,
) -> bool {
    &&& t.status is None ==> sent.status == resp.status
    &&& t.status is Some ==> sent.status == t.status->0
    &&& t.reason is None ==> sent.reason == resp.reason
    &&& t.reason is Some ==> sent.reason == t.reason->0
}

/// A line of the relayed response that the relay leaves alone: neither removed
/// nor restated by it, and not about a body that stays behind.
pub open spec fn left_alone(c: CallView, t: MessageTransformView, h: SipHeaderView) -> bool {
    &&& forall|i: int|
        0 <= i < t.remove_headers.len() ==> !same_ignoring_case(
            #[trigger] t.remove_headers[i],
            h.name,
        )
    &&& forall|i: int|
        0 <= i < t.add_headers.len() ==> !same_ignoring_case(
            (#[trigger] t.add_headers[i]).name,
            h.name,
        )
    &&& !t.drop_body && c.policy_update_body is None || !describes_body(h.name) || !t.drop_body
        && same_ignoring_case(h.name, "Content-Disposition"@)
}

/// The lines of a relayed response: those it had that the relay leaves alone, and
/// those the relay states; nothing else, but for the number of a reliable
/// provisional and, on a 2xx, the advertisement.
pub open spec fn lines_go_through(
    c: CallView,
    t: MessageTransformView,
    resp: SipResponseView,
    sent: ResponsePlanView,
) -> bool {
    forall|h: SipHeaderView|
        #![trigger sent.headers.contains(h)]
        !same_ignoring_case(h.name, "RSeq"@) && !(200 <= sent.status < 300 && is_advert(h.name))
            ==> (sent.headers.contains(h) <==> t.add_headers.contains(h) || (
        resp.relayable.contains(h) && left_alone(c, t, h)))
}

pub(crate) proof fn kept_exactly<A>(s: Seq<A>, p: spec_fn(A) -> bool, x: A)
    ensures
        keep(s, p).contains(x) <==> s.contains(x) && p(x),
{
    keep_sound(s, p);
    if s.contains(x) && p(x) {
        let i = choose|i: int| 0 <= i < s.len() && s[i] == x;
        keep_complete(s, p, i);
    }
    if keep(s, p).contains(x) {
        let i = choose|i: int| 0 <= i < keep(s, p).len() && keep(s, p)[i] == x;
        assert(s.contains(keep(s, p)[i]));
    }
}

pub(crate) proof fn either_holds<A>(a: Seq<A>, b: Seq<A>, x: A)
    ensures
        (a + b).contains(x) <==> a.contains(x) || b.contains(x),
{
    if a.contains(x) {
        let i = choose|i: int| 0 <= i < a.len() && a[i] == x;
        assert((a + b)[i] == x);
    }
    if b.contains(x) {
        let i = choose|i: int| 0 <= i < b.len() && b[i] == x;
        assert((a + b)[a.len() + i] == x);
    }
    if (a + b).contains(x) {
        let i = choose|i: int| 0 <= i < (a + b).len() && (a + b)[i] == x;
        if i < a.len() {
            assert(a[i] == x);
        } else {
            assert(b[i - a.len()] == x);
        }
    }
}

proof fn passed_exactly(
    c: CallView,
    t: MessageTransformView,
    resp: SipResponseView,
    h: SipHeaderView,
)
    ensures
        passed(t, lines_with(resp.relayable, carried(c, t, resp).source)).contains(h)
            <==> t.add_headers.contains(h) || (resp.relayable.contains(h) && left_alone(c, t, h)),
{
    let source = carried(c, t, resp).source;
    let lines = lines_with(resp.relayable, source);
    let added = names_of(t.add_headers);
    let names = t.remove_headers + added;
    kept_exactly(resp.relayable, goes_with(source), h);
    kept_exactly(lines, named_outside(names), h);
    either_holds(keep(lines, named_outside(names)), t.add_headers, h);
    assert(named_outside(names)(h) <==> (forall|i: int|
        0 <= i < t.remove_headers.len() ==> !same_ignoring_case(
            #[trigger] t.remove_headers[i],
            h.name,
        )) && (forall|i: int|
        0 <= i < t.add_headers.len() ==> !same_ignoring_case(
            (#[trigger] t.add_headers[i]).name,
            h.name,
        ))) by {
        if named_outside(names)(h) {
            assert forall|i: int| 0 <= i < t.remove_headers.len() implies !same_ignoring_case(
                #[trigger] t.remove_headers[i],
                h.name,
            ) by {
                assert(names[i] == t.remove_headers[i]);
            }
            assert forall|i: int| 0 <= i < t.add_headers.len() implies !same_ignoring_case(
                (#[trigger] t.add_headers[i]).name,
                h.name,
            ) by {
                assert(names[t.remove_headers.len() + i] == added[i]);
            }
        } else {
            let i = choose|i: int|
                0 <= i < names.len() && same_ignoring_case(#[trigger] names[i], h.name);
            if i < t.remove_headers.len() {
                assert(t.remove_headers[i] == names[i]);
            } else {
                assert(t.add_headers[i - t.remove_headers.len()].name == names[i]);
            }
        }
    }
}

pub(crate) proof fn a_stamp_leaves_the_rest(
    hs: Seq<SipHeaderView>,
    owned: Seq<Seq<char>>,
    caps: CapabilitySetView,
    h: SipHeaderView,
)
    requires
        !is_advert(h.name),
    ensures
        stamped(hs, owned, caps).contains(h) <==> hs.contains(h),
{
    let a = keep(hs, survives_stamp(owned));
    let l1 = half_line(owned, HeaderName::Allow, caps.allow);
    let l2 = half_line(owned, HeaderName::Supported, caps.supported);
    let l3 = half_line(owned, HeaderName::Accept, caps.accept);
    kept_exactly(hs, survives_stamp(owned), h);
    either_holds(a, l1, h);
    either_holds(a + l1, l2, h);
    either_holds(a + l1 + l2, l3, h);
}

proof fn a_number_leaves_the_rest(hs: Seq<SipHeaderView>, n: i64, h: SipHeaderView)
    requires
        !same_ignoring_case(h.name, "RSeq"@),
    ensures
        own_number(hs, n).contains(h) <==> hs.contains(h),
{
    let s = own_number(hs, n);
    if hs.contains(h) {
        let i = choose|i: int| 0 <= i < hs.len() && hs[i] == h;
        assert(s[i] == h);
    }
    if s.contains(h) {
        let i = choose|i: int| 0 <= i < s.len() && s[i] == h;
        assert(s[i] == restating(n)(hs[i]));
        assert(hs[i] == h);
    }
}

pub(crate) proof fn numbered_lines(
    w: WorkView,
    tag: Seq<char>,
    n: i64,
    s: Seq<char>,
    r: SipResponseView,
    hs: Seq<SipHeaderView>,
    h: SipHeaderView,
)
    requires
        !same_ignoring_case(h.name, "RSeq"@),
    ensures
        numbered(w, tag, n, s, r, hs).1.contains(h) <==> hs.contains(h),
{
    reveal(numbered);
    if let Some(own) = numbered(w, tag, n, s, r, hs).2 {
        a_number_leaves_the_rest(hs, own, h);
    }
}

/// What the caller is sent where a callee's response is relayed to it.
proof fn the_caller_is_sent(
    x: ExecView,
    w: WorkView,
    ctx: RuleContextView,
    t: MessageTransformView,
    resp: SipResponseView,
    c: CallView,
    tag: Seq<char>,
    ends_setup: bool,
)
    requires
        w.call.a_leg.invite_final_sent is None,
    ensures
        ({
            let r = x.relay_to_caller(w, ctx, t, resp, carried(c, t, resp), tag, ends_setup);
            let e = r.fx.outbound.last();
            let sent = e.body->Response_response;
            &&& r.fx.outbound == w.fx.outbound.push(e)
            &&& r.fx.fire_and_forget == w.fx.fire_and_forget
            &&& e.leg_id == Some(w.call.a_leg.leg_id)
            &&& e.mode == TxnMode::ServerResponse
            &&& e.destination == DestinationView::TopVia
            &&& e.provenance == Provenance::Relayed
            &&& e.body is Response
            &&& sent.answers == AnswersView::ALegInvite
            &&& sent.method == MethodView::Invite
            &&& sent.cseq == w.call.a_leg_invite.cseq
            &&& sent.to_tag == Some(tag)
            &&& sent.contact == (100 < sent.status < 300)
            &&& sent.emergency == (w.call.emergency == Some(true))
            &&& sent.redirects.len() == 0
            &&& status_goes_through(t, resp, sent)
            &&& body_goes_through(c, t, resp, sent)
            &&& lines_go_through(c, t, resp, sent)
            &&& r.call.tag_map == w.call.tag_map
            &&& r.call.relay_first_18x == w.call.relay_first_18x
            &&& r.call.a_leg.leg_id == w.call.a_leg.leg_id
            &&& r.call.a_leg.invite_final_sent == if sent.status >= 200 {
                Some(sent.status)
            } else {
                None
            }
        }),
{
    reveal(ExecView::relay_to_caller);
    reveal(ExecView::send_a_leg_answer);
    numbering_is_quiet();
    retiring_is_quiet();
    retaining_an_answer_is_quiet();
    retaining_a_provisional_is_quiet();
    let b = carried(c, t, resp);
    let status = status_of(t, resp);
    let hs = caller_lines(w.call, t, resp, status, b.source);
    let (w1, hs1, own) = numbered(w, tag, w.call.a_leg_invite.cseq, ctx.source_leg_id, resp, hs);
    let r = x.relay_to_caller(w, ctx, t, resp, b, tag, ends_setup);
    let sent = r.fx.outbound.last().body->Response_response;
    assert(sent == caller_plan(w1.call, status, reason_of(t, resp), tag, b, hs1));
    assert forall|h: SipHeaderView|
        #![trigger sent.headers.contains(h)]
        !same_ignoring_case(h.name, "RSeq"@) && !(200 <= sent.status < 300 && is_advert(
            h.name,
        )) implies (sent.headers.contains(h) <==> t.add_headers.contains(h) || (
    resp.relayable.contains(h) && left_alone(c, t, h))) by {
        let lines = passed(t, lines_with(resp.relayable, b.source));
        passed_exactly(c, t, resp, h);
        if 200 <= status < 300 {
            a_stamp_leaves_the_rest(
                lines,
                names_of(t.add_headers),
                relaying_set(w.call.features, Face::Originator, lines),
                h,
            );
        }
        numbered_lines(w, tag, w.call.a_leg_invite.cseq, ctx.source_leg_id, resp, hs, h);
    }
}

/// The event is relayed, by that transform: to the leg the action names, or to
/// its peer where it has one.
pub open spec fn relays(
    w: WorkView,
    ctx: RuleContextView,
    a: RuleActionView,
    t: MessageTransformView,
) -> bool {
    match a {
        RuleActionView::RelayToLeg { transform, .. } => transform == t,
        RuleActionView::RelayToPeer { transform } => transform == t && w.call.relay_peer(
            ctx.source_leg_id,
            match ctx.request() {
                Some(req) => req.to_tag,
                None => None,
            },
        ).0 is Some,
        _ => false,
    }
}

/// The response answers no request that was relayed on a dialog of its leg.
pub open spec fn answers_no_relay(ctx: RuleContextView, resp: SipResponseView) -> bool {
    answering_dialog(ctx, resp) matches Some(d) ==> d.pending(resp.cseq) is None
}

/// A response of a callee's to the INVITE reaches the caller, once: as the
/// response to its own INVITE, with the status, the phrase, the body and the lines
/// of the callee's, but for what the relay puts in their place. It goes under the
/// tag that stands for the callee's dialog. A final is the one final of that
/// INVITE.
pub proof fn a_callees_response_reaches_the_caller(
    x: ExecView,
    w: WorkView,
    ctx: RuleContextView,
    a: RuleActionView,
    t: MessageTransformView,
    resp: SipResponseView,
)
    requires
        relays(w, ctx, a, t),
        ctx.response() == Some(resp),
        resp.method == MethodView::Invite,
        answers_no_relay(ctx, resp),
        !repeats_reliable(w.call, ctx.source_leg_id, resp),
        w.call.a_leg.invite_final_sent is None,
    ensures
        ({
            let r = x.apply(w, a, ctx);
            let e = r.fx.outbound.last();
            let sent = e.body->Response_response;
            &&& r.fx.outbound == w.fx.outbound.push(e)
            &&& r.fx.fire_and_forget == w.fx.fire_and_forget
            &&& e.leg_id == Some(w.call.a_leg.leg_id)
            &&& e.mode == TxnMode::ServerResponse
            &&& e.destination == DestinationView::TopVia
            &&& e.provenance == Provenance::Relayed
            &&& e.body is Response
            &&& sent.answers == AnswersView::ALegInvite
            &&& sent.method == MethodView::Invite
            &&& sent.cseq == w.call.a_leg_invite.cseq
            &&& sent.contact == (100 < sent.status < 300)
            &&& sent.emergency == (w.call.emergency == Some(true))
            &&& sent.redirects.len() == 0
            &&& status_goes_through(t, resp, sent)
            &&& body_goes_through(w.call, t, resp, sent)
            &&& lines_go_through(w.call, t, resp, sent)
            &&& sent.to_tag is Some
            &&& 100 <= resp.status < 300 && resp.to_tag is Some && resp.to_tag->0.len() > 0
                && ctx.source_leg_id != "a"@ ==> (r.call.by_b_tag(
                ctx.source_leg_id,
                resp.to_tag->0,
            ) matches Some(m) && sent.to_tag == Some(m.a_tag))
            &&& r.call.a_leg.invite_final_sent == if sent.status >= 200 {
                Some(sent.status)
            } else {
                None
            }
            &&& r.call.relay_first_18x == w.call.relay_first_18x
        }),
{
    reveal(ExecView::apply);
    reveal(ExecView::relay_to_peer);
    reveal(ExecView::relay_to);
    reveal(ExecView::relay_response);
    let c1 = body_taken(w.call, t);
    let w1 = w.on(c1);
    let tag = tag_or_empty(resp.to_tag);
    assert(!repeats_reliable(c1, ctx.source_leg_id, resp));
    if 100 <= resp.status < 300 && tag.len() > 0 && ctx.source_leg_id != "a"@ {
        reveal(ExecView::relay_fork);
        reveal(with_early_dialog);
        reveal(ExecView::face_for);
        the_callers_dialog_is_quiet();
        let c2 = with_early_dialog(x.config, c1, ctx.source_leg_id, resp, tag);
        let (w2, face) = x.face_for(w1.on(c2), ctx.source_leg_id, tag);
        if c2.by_b_tag(ctx.source_leg_id, tag) is None {
            find_where_push(
                c2.tag_map,
                TagMappingView { a_tag: face, b_leg_id: ctx.source_leg_id, b_tag: tag },
                mapping_of_b(ctx.source_leg_id, tag),
            );
        }
        the_caller_is_sent(x, w2, ctx, t, resp, w.call, face, false);
    } else {
        the_callers_dialog_is_quiet();
        let (w2, face) = x.ensure_a_dialog(w1, None);
        the_caller_is_sent(x, w2, ctx, t, resp, w.call, face, true);
    }
}

/// The lines of a response relayed to the originator of the request it answers:
/// as [`lines_go_through`] says; a provisional that may not go out reliably says
/// nothing of reliability.
pub open spec fn lines_go_back(
    c: CallView,
    t: MessageTransformView,
    resp: SipResponseView,
    sent: ResponsePlanView,
) -> bool {
    forall|h: SipHeaderView|
        #![trigger sent.headers.contains(h)]
        !same_ignoring_case(h.name, "RSeq"@) && !same_ignoring_case(h.name, "Require"@) && !(
        resp.method == MethodView::Invite && 200 <= sent.status < 300 && is_advert(h.name)) ==> (
        sent.headers.contains(h) <==> t.add_headers.contains(h) || (resp.relayable.contains(h)
            && left_alone(c, t, h)))
}

proof fn stripping_leaves_the_rest(hs: Seq<SipHeaderView>, h: SipHeaderView)
    requires
        !same_ignoring_case(h.name, "RSeq"@),
        !same_ignoring_case(h.name, "Require"@),
    ensures
        unreliable(hs).contains(h) <==> hs.contains(h),
    decreases hs.len(),
{
    if hs.len() > 0 {
        let last = hs.last();
        stripping_leaves_the_rest(hs.drop_last(), h);
        either_holds(unreliable(hs.drop_last()), unreliable_line(last), h);
        either_holds(hs.drop_last(), seq![last], h);
        assert(hs =~= hs.drop_last() + seq![last]);
        assert(unreliable_line(last).contains(h) <==> seq![last].contains(h)) by {
            if last == h {
                assert(unreliable_line(last)[0] == h);
                assert(seq![last][0] == h);
            }
        }
    }
}

/// The response to a relayed request goes back to whoever sent the request, and
/// to nobody else: as the response to that request, with the status, the phrase,
/// the body and the lines of the one that is relayed, to the address the request
/// came from. Beside it there is at most the acknowledgement of a provisional that
/// the originator does not take as a reliable one.
pub proof fn a_response_goes_back_to_its_originator(
    x: ExecView,
    w: WorkView,
    ctx: RuleContextView,
    target: Seq<char>,
    t: MessageTransformView,
    to_tag: Option<Seq<char>>,
    resp: SipResponseView,
    p: PendingRequestView,
    at: HostPortView,
)
    requires
        ctx.response() == Some(resp),
        answering_dialog(ctx, resp) is Some,
        answering_dialog(ctx, resp)->0.pending(resp.cseq) == Some(p),
        p.source_vias.len() > 0,
        sent_by(p.source_vias[0]) == Some(at),
        !repeats_reliable(w.call, ctx.source_leg_id, resp),
    ensures
        ({
            let r = x.relay_to(w, ctx, target, t, to_tag);
            let n = w.fx.outbound.len() as int;
            let e = r.fx.outbound.last();
            let sent = e.body->Response_response;
            &&& n + 1 <= r.fx.outbound.len() <= n + 2
            &&& r.fx.outbound.take(n) == w.fx.outbound
            &&& r.fx.outbound.len() == n + 2 ==> {
                &&& r.fx.outbound[n].body is Request
                &&& r.fx.outbound[n].body->request.method == MethodView::Prack
                &&& r.fx.outbound[n].leg_id == Some(ctx.source_leg_id)
                &&& rseq_of(resp) is Some
                &&& !(p.method == MethodView::Invite && p.offers_100rel) || shown_tag(
                    w.call,
                    target,
                    p,
                ) is None
            }
            &&& e.leg_id == Some(target)
            &&& e.mode == TxnMode::ServerResponse
            &&& e.destination == (DestinationView::Address { at })
            &&& e.provenance == Provenance::Relayed
            &&& e.body is Response
            &&& sent.answers == (AnswersView::Relayed { snapshot: p })
            &&& sent.cseq == p.inbound_cseq
            &&& sent.method == resp.method
            &&& sent.emergency == (w.call.emergency == Some(true))
            &&& sent.redirects.len() == 0
            &&& resp.method == MethodView::Invite ==> sent.contact == (100 < sent.status < 300)
            &&& status_goes_through(t, resp, sent)
            &&& body_goes_through(w.call, t, resp, sent)
            &&& lines_go_back(w.call, t, resp, sent)
        }),
{
    reveal(ExecView::relay_to);
    reveal(ExecView::relay_response);
    reveal(ExecView::relay_to_originator);
    reveal(provisional_settled);
    reveal(send_prack_to_leg);
    numbering_is_quiet();
    closing_is_quiet();
    retaining_a_reinvite_answer_is_quiet();
    retaining_a_provisional_is_quiet();
    let c1 = body_taken(w.call, t);
    assert(!repeats_reliable(c1, ctx.source_leg_id, resp));
    let w1 = w.on(c1);
    let b = carried(w.call, t, resp);
    let status = status_of(t, resp);
    let hs = originator_lines(c1, target, t, resp, status, b.source);
    let (w2, hs1, ladder) = provisional_settled(w1, ctx, target, resp, p, status, hs);
    assert(w2.fx.outbound.len() <= w.fx.outbound.len() + 1);
    assert(w2.fx.outbound.take(w.fx.outbound.len() as int) =~= w.fx.outbound);
    let r = x.relay_to(w, ctx, target, t, to_tag);
    let sent = r.fx.outbound.last().body->Response_response;
    assert(r.fx.outbound =~= w2.fx.outbound.push(r.fx.outbound.last()));
    assert(r.fx.outbound.take(w.fx.outbound.len() as int) =~= w.fx.outbound);
    assert forall|h: SipHeaderView|
        #![trigger sent.headers.contains(h)]
        !same_ignoring_case(h.name, "RSeq"@) && !same_ignoring_case(h.name, "Require"@) && !(
        resp.method == MethodView::Invite && 200 <= sent.status < 300 && is_advert(
            h.name,
        )) implies (sent.headers.contains(h) <==> t.add_headers.contains(h) || (
    resp.relayable.contains(h) && left_alone(w.call, t, h))) by {
        let lines = passed(t, lines_with(resp.relayable, b.source));
        passed_exactly(w.call, t, resp, h);
        if resp.method == MethodView::Invite && 200 <= status < 300 {
            a_stamp_leaves_the_rest(
                lines,
                names_of(t.add_headers),
                relaying_set(c1.features, face_of_leg(target), lines),
                h,
            );
        }
        stripping_leaves_the_rest(hs, h);
        if let Some(tag) = shown_tag(c1, target, p) {
            numbered_lines(w1, tag, p.inbound_cseq, ctx.source_leg_id, resp, hs, h);
        }
    }
}

pub open spec fn is_plain_line() -> spec_fn(SipHeaderView) -> bool {
    |h: SipHeaderView| !is_advert(h.name) && !same_ignoring_case(h.name, "RSeq"@)
}

pub(crate) proof fn kept_twice<A>(s: Seq<A>, p: spec_fn(A) -> bool, q: spec_fn(A) -> bool)
    requires
        forall|x: A| #[trigger] q(x) ==> p(x),
    ensures
        keep(keep(s, p), q) == keep(s, q),
    decreases s.len(),
{
    if s.len() > 0 {
        kept_twice(s.drop_last(), p, q);
        if p(s.last()) {
            keep_push(keep(s.drop_last(), p), s.last(), q);
        }
    } else {
        assert(keep(s, p) =~= s);
    }
}

pub(crate) proof fn none_kept<A>(s: Seq<A>, q: spec_fn(A) -> bool)
    requires
        forall|i: int| 0 <= i < s.len() ==> !q(#[trigger] s[i]),
    ensures
        keep(s, q).len() == 0,
    decreases s.len(),
{
    if s.len() > 0 {
        assert(!q(s[s.len() - 1]));
        assert forall|i: int| 0 <= i < s.drop_last().len() implies !q(
            #[trigger] s.drop_last()[i],
        ) by {
            assert(!q(s[i]));
        }
        none_kept(s.drop_last(), q);
    }
}

proof fn renumbering_keeps_plain_lines(hs: Seq<SipHeaderView>, n: i64)
    ensures
        keep(own_number(hs, n), is_plain_line()) == keep(hs, is_plain_line()),
    decreases hs.len(),
{
    let s = own_number(hs, n);
    if hs.len() > 0 {
        renumbering_keeps_plain_lines(hs.drop_last(), n);
        assert(s.drop_last() =~= own_number(hs.drop_last(), n));
        assert(s.last() == restating(n)(hs.last()));
    } else {
        assert(s =~= hs);
    }
}

proof fn stamping_keeps_plain_lines(
    hs: Seq<SipHeaderView>,
    owned: Seq<Seq<char>>,
    caps: CapabilitySetView,
)
    ensures
        keep(stamped(hs, owned, caps), is_plain_line()) == keep(hs, is_plain_line()),
{
    let q = is_plain_line();
    let a = keep(hs, survives_stamp(owned));
    let l1 = half_line(owned, HeaderName::Allow, caps.allow);
    let l2 = half_line(owned, HeaderName::Supported, caps.supported);
    let l3 = half_line(owned, HeaderName::Accept, caps.accept);
    kept_twice(hs, survives_stamp(owned), q);
    none_kept(l1, q);
    none_kept(l2, q);
    none_kept(l3, q);
    keep_append(a, l1, q);
    keep_append(a + l1, l2, q);
    keep_append(a + l1 + l2, l3, q);
    assert(keep(stamped(hs, owned, caps), q) =~= keep(a, q));
}

/// A response that is relayed as it stands keeps its lines in their order.
pub proof fn a_plain_relay_keeps_the_order_of_the_lines(
    x: ExecView,
    w: WorkView,
    ctx: RuleContextView,
    a: RuleActionView,
    t: MessageTransformView,
    resp: SipResponseView,
)
    requires
        relays(w, ctx, a, t),
        t.remove_headers.len() == 0,
        t.add_headers.len() == 0,
        !t.drop_body,
        w.call.policy_update_body is None,
        ctx.response() == Some(resp),
        resp.method == MethodView::Invite,
        answers_no_relay(ctx, resp),
        !repeats_reliable(w.call, ctx.source_leg_id, resp),
        w.call.a_leg.invite_final_sent is None,
    ensures
        ({
            let sent = x.apply(w, a, ctx).fx.outbound.last().body->Response_response;
            &&& keep(sent.headers, is_plain_line()) == keep(resp.relayable, is_plain_line())
            &&& sent.status < 200 && rseq_of(resp) is None ==> sent.headers == resp.relayable
        }),
{
    reveal(ExecView::apply);
    reveal(ExecView::relay_to_peer);
    reveal(ExecView::relay_to);
    reveal(ExecView::relay_response);
    reveal(ExecView::relay_fork);
    reveal(ExecView::face_for);
    reveal(with_early_dialog);
    reveal(ExecView::relay_to_caller);
    reveal(ExecView::send_a_leg_answer);
    reveal(numbered);
    the_callers_dialog_is_quiet();
    retiring_is_quiet();
    retaining_an_answer_is_quiet();
    retaining_a_provisional_is_quiet();
    numbering_is_quiet();
    let names = t.remove_headers + names_of(t.add_headers);
    let hs = lines_with(resp.relayable, SourceBody::Verbatim);
    keep_whole(resp.relayable, goes_with(SourceBody::Verbatim));
    keep_whole(hs, named_outside(names));
    assert(passed(t, hs) =~= resp.relayable);
    let c1 = body_taken(w.call, t);
    assert(c1 == w.call);
    assert(!repeats_reliable(c1, ctx.source_leg_id, resp));
    let sent = x.apply(w, a, ctx).fx.outbound.last().body->Response_response;
    let status = status_of(t, resp);
    let before = if 200 <= status < 300 {
        stamped(
            resp.relayable,
            names_of(t.add_headers),
            relaying_set(w.call.features, Face::Originator, resp.relayable),
        )
    } else {
        resp.relayable
    };
    stamping_keeps_plain_lines(
        resp.relayable,
        names_of(t.add_headers),
        relaying_set(w.call.features, Face::Originator, resp.relayable),
    );
    assert(sent.headers == before || exists|n: i64| sent.headers == #[trigger] own_number(before, n));
    if sent.headers != before {
        let n = choose|n: i64| sent.headers == #[trigger] own_number(before, n);
        renumbering_keeps_plain_lines(before, n);
    }
}

} // verus!
