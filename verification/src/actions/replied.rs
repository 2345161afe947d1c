//! What this stack answers of its own: to the request at hand, and to the caller's
//! INVITE.
use vstd::prelude::*;

use crate::action::{AuthoredFinalView, NewDialogAnswerView, ProvisionalView, RuleActionView};
use crate::actions::ladder::{end_ladders, ladders_in, retire};
use crate::actions::respond::{
    is_structural, media_reads, redirect_targets, respond, sets_header, update_lines, update_names,
};
use crate::actions::stated::{
    a_stamp_leaves_the_rest, either_holds, kept_exactly, retaining_an_answer_is_quiet,
    retiring_is_quiet, scheduling_is_quiet, the_callers_dialog_is_quiet,
};
use crate::actions::{ExecView, WorkView};
use crate::books::ScopeView;
use crate::call::{AnswersView, DestinationView, DialogView, ObligationView};
use crate::capabilities::{Face, is_advert, relaying_set};
use crate::effects::{OutboundSipView, Provenance, TxnMode};
use crate::headers::{bare_uri, name_among, named_outside};
use crate::json::member_text;
use crate::lens::{dialog_of_with_dialog, identity_tag};
use crate::model::RuleContextView;
use crate::seqs::keep;
use crate::text::same_ignoring_case;
use crate::wire::{HeaderUpdateView, MethodView, RedirectContactView, SipHeaderView, SipRequestView};

verus! {

/// A response to the caller's INVITE, on its own transaction.
pub open spec fn answers_the_caller(w: WorkView, e: OutboundSipView) -> bool {
    &&& e.body is Response
    &&& e.leg_id == Some(w.call.a_leg.leg_id)
    &&& e.mode == TxnMode::ServerResponse
    &&& e.destination == DestinationView::TopVia
    &&& e.body->Response_response.answers == AnswersView::ALegInvite
    &&& e.body->Response_response.method == MethodView::Invite
    &&& e.body->Response_response.cseq == w.call.a_leg_invite.cseq
    &&& e.body->Response_response.emergency == (w.call.emergency == Some(true))
    &&& e.body->Response_response.source_body is None
}

/// The tag the caller holds, once it holds one: whatever it is answered, it is
/// answered under it.
pub open spec fn under_the_tag_it_holds(w: WorkView, r: WorkView, tag: Option<Seq<char>>) -> bool {
    &&& r.call.a_leg.dialogs.len() > 0
    &&& tag == Some(r.call.a_leg.dialogs[0].sip.local_tag)
    &&& w.call.a_leg.dialogs.len() > 0 && w.call.a_leg.dialogs[0].sip.local_tag.len() > 0 ==> tag
        == Some(w.call.a_leg.dialogs[0].sip.local_tag)
}

/// A request answered in place is answered once, on the leg it came on, with the
/// status, the phrase and the body the action states, under the tag it named, or
/// under this stack's own.
pub proof fn a_request_is_answered_as_asked(
    x: ExecView,
    w: WorkView,
    ctx: RuleContextView,
    status: u16,
    reason: Seq<char>,
    body: Seq<u8>,
    content_type: Option<Seq<char>>,
    req: SipRequestView,
)
    requires
        ctx.request() == Some(req),
    ensures
        ({
            let r = x.apply(
                w,
                RuleActionView::Respond { status, reason, body, content_type },
                ctx,
            );
            let e = r.fx.outbound.last();
            let sent = e.body->Response_response;
            &&& r.fx.outbound == w.fx.outbound.push(e)
            &&& r.fx.critical == w.fx.critical
            &&& r.fx.fire_and_forget == w.fx.fire_and_forget
            &&& r.ids == w.ids
            &&& e.body is Response
            &&& e.leg_id == Some(ctx.source_leg_id)
            &&& e.mode == TxnMode::ServerResponse
            &&& e.destination == DestinationView::TopVia
            &&& e.provenance == Provenance::Authored
            &&& sent.answers == AnswersView::CurrentRequest
            &&& sent.status == status
            &&& sent.reason == reason
            &&& sent.method == req.method
            &&& sent.cseq == req.cseq
            &&& sent.body == body
            &&& content_type matches Some(t) ==> (media_reads(t) ==> sent.content_type == Some(t))
            &&& content_type is None ==> sent.content_type is None
            &&& req.to_tag is Some ==> sent.to_tag == req.to_tag
            &&& sent.headers.len() == 0
            &&& sent.redirects.len() == 0
            &&& !sent.contact
        }),
{
    reveal(ExecView::apply);
    reveal(respond);
}

/// A request answered in place moves what its dialog has heard, and only forward.
pub proof fn an_answered_request_was_heard(
    x: ExecView,
    w: WorkView,
    ctx: RuleContextView,
    status: u16,
    reason: Seq<char>,
    body: Seq<u8>,
    content_type: Option<Seq<char>>,
    req: SipRequestView,
    d: DialogView,
)
    requires
        ctx.request() == Some(req),
        req.to_tag is Some,
        ctx.source_dialog() == Some(d),
        w.call.dialog(ctx.source_leg_id, identity_tag(ctx.source_leg_id, d)) == Some(d),
    ensures
        ({
            let r = x.apply(
                w,
                RuleActionView::Respond { status, reason, body, content_type },
                ctx,
            );
            let after = r.call.dialog(ctx.source_leg_id, identity_tag(ctx.source_leg_id, d));
            &&& after is Some
            &&& after->0.sip == d.sip
            &&& after->0.ext.remote_cseq == if d.ext.remote_cseq is Some && d.ext.remote_cseq->0
                >= req.cseq {
                d.ext.remote_cseq
            } else {
                Some(req.cseq)
            }
        }),
{
    reveal(ExecView::apply);
    reveal(respond);
    dialog_of_with_dialog(
        w.call,
        ctx.source_leg_id,
        identity_tag(ctx.source_leg_id, d),
        d.heard(req.cseq),
    );
}

proof fn a_retired_call_keeps_the_callers_tag(w: WorkView, os: Seq<ObligationView>)
    ensures
        end_ladders(w, os).call.a_leg.dialogs.len() == w.call.a_leg.dialogs.len(),
        forall|i: int|
            0 <= i < w.call.a_leg.dialogs.len() ==> (#[trigger] end_ladders(
                w,
                os,
            ).call.a_leg.dialogs[i]).sip == w.call.a_leg.dialogs[i].sip,
    decreases os.len(),
{
    if os.len() > 0 {
        a_retired_call_keeps_the_callers_tag(w, os.drop_last());
    }
}

/// The final that relays a failure to the caller states the status and the phrase
/// it is given, and the lines of the peer that failed where it answers the consult
/// about that peer, and no others.
pub proof fn a_failure_reaches_the_caller_as_stated(
    x: ExecView,
    w: WorkView,
    ctx: RuleContextView,
    status: u16,
    reason: Seq<char>,
)
    requires
        w.call.a_leg.invite_final_sent is None,
    ensures
        ({
            let r = x.apply(w, RuleActionView::RelayFailureToALeg { status, reason }, ctx);
            let e = r.fx.outbound.last();
            let sent = e.body->Response_response;
            &&& r.fx.outbound == w.fx.outbound.push(e)
            &&& answers_the_caller(w, e)
            &&& e.provenance == Provenance::Relayed
            &&& sent.status == status
            &&& sent.reason == reason
            &&& sent.body.len() == 0
            &&& sent.content_type is None
            &&& sent.redirects.len() == 0
            &&& sent.contact == (100 < status < 300)
            &&& under_the_tag_it_holds(w, r, sent.to_tag)
            &&& (ctx.event is Internal && ctx.event->topic == "call-failure-result"@ && member_text(
                ctx.event->payload,
                "origin"@,
            ) != Some("call_limiter"@) ==> sent.headers == w.call.failure_headers)
            &&& !(ctx.event is Internal && ctx.event->topic == "call-failure-result"@)
                ==> sent.headers.len() == 0
            &&& status >= 200 ==> r.call.a_leg.invite_final_sent == Some(status)
        }),
{
    reveal(ExecView::apply);
    reveal(ExecView::relay_failure_to_a_leg);
    reveal(ExecView::ensure_a_dialog);
    reveal(retire);
    retiring_is_quiet();
    let os = ladders_in(w.call, ScopeView::Provisionals);
    a_retired_call_keeps_the_callers_tag(w, os);
    retired_keeps_the_failure(w, os);
}

proof fn retired_keeps_the_failure(w: WorkView, os: Seq<ObligationView>)
    ensures
        end_ladders(w, os).call.failure_headers == w.call.failure_headers,
    decreases os.len(),
{
    if os.len() > 0 {
        retired_keeps_the_failure(w, os.drop_last());
    }
}

/// Every target of a redirect, in its bare form and with the preference stated for
/// it, in their order.
pub open spec fn all_targets(
    stated: Seq<RedirectContactView>,
    sent: Seq<RedirectContactView>,
) -> bool {
    sent.len() == stated.len() && forall|i: int|
        0 <= i < stated.len() ==> bare_uri((#[trigger] stated[i]).uri) == Some(sent[i].uri)
            && sent[i].q == stated[i].q
}

proof fn targets_are_all_of_them(cs: Seq<RedirectContactView>)
    ensures
        redirect_targets(cs) matches Some(ts) ==> all_targets(cs, ts),
        redirect_targets(cs) is Some <==> forall|i: int|
            0 <= i < cs.len() ==> bare_uri((#[trigger] cs[i]).uri) is Some,
    decreases cs.len(),
{
    if cs.len() > 0 {
        let t = cs.drop_last();
        targets_are_all_of_them(t);
        if redirect_targets(cs) is Some {
            let ts = redirect_targets(cs)->0;
            assert forall|i: int| 0 <= i < cs.len() implies bare_uri((#[trigger] cs[i]).uri)
                == Some(ts[i].uri) && ts[i].q == cs[i].q by {
                if i < t.len() {
                    assert(t[i] == cs[i]);
                }
            }
        }
        if (forall|i: int| 0 <= i < cs.len() ==> bare_uri((#[trigger] cs[i]).uri) is Some) {
            assert forall|i: int| 0 <= i < t.len() implies bare_uri(
                (#[trigger] t[i]).uri,
            ) is Some by {
                assert(cs[i] == t[i]);
            }
            assert(bare_uri(cs[cs.len() - 1].uri) is Some);
        }
    }
}

/// A final a decision authors is the one the caller gets: its status, its phrase,
/// every header it sets and every target it redirects to. A redirect one of whose
/// targets does not read is not sent: the caller gets a server error that names no
/// target.
pub proof fn an_authored_final_reaches_the_caller(
    x: ExecView,
    w: WorkView,
    ctx: RuleContextView,
    authored: AuthoredFinalView,
)
    requires
        w.call.a_leg.invite_final_sent is None,
    ensures
        ({
            let r = x.apply(w, RuleActionView::RespondToALeg { authored }, ctx);
            let e = r.fx.outbound.last();
            let sent = e.body->Response_response;
            let reads = forall|i: int|
                0 <= i < authored.contacts.len() ==> bare_uri(
                    (#[trigger] authored.contacts[i]).uri,
                ) is Some;
            &&& r.fx.outbound == w.fx.outbound.push(e)
            &&& answers_the_caller(w, e)
            &&& e.provenance == Provenance::Authored
            &&& sent.body.len() == 0
            &&& sent.content_type is None
            &&& !sent.contact
            &&& under_the_tag_it_holds(w, r, sent.to_tag)
            &&& reads ==> {
                &&& sent.status == authored.status
                &&& sent.reason == authored.reason
                &&& all_targets(authored.contacts, sent.redirects)
                &&& forall|i: int|
                    0 <= i < authored.header_updates.len()
                        && (#[trigger] authored.header_updates[i]).value is Some && !is_structural(
                        authored.header_updates[i].name,
                    ) ==> sent.headers.contains(
                        SipHeaderView {
                            name: authored.header_updates[i].name,
                            value: authored.header_updates[i].value->0,
                        },
                    )
            }
            &&& !reads ==> {
                &&& sent.status == 500
                &&& sent.reason == "Server Internal Error"@
                &&& sent.redirects.len() == 0
                &&& sent.headers.len() == 0
            }
            &&& sent.status >= 200 ==> r.call.a_leg.invite_final_sent == Some(sent.status)
        }),
{
    reveal(ExecView::apply);
    reveal(ExecView::respond_to_a_leg);
    reveal(ExecView::ensure_a_dialog);
    reveal(retire);
    retiring_is_quiet();
    let os = ladders_in(w.call, ScopeView::Provisionals);
    a_retired_call_keeps_the_callers_tag(w, os);
    targets_are_all_of_them(authored.contacts);
    let us = authored.header_updates;
    let sent = x.apply(
        w,
        RuleActionView::RespondToALeg { authored },
        ctx,
    ).fx.outbound.last().body->Response_response;
    if redirect_targets(authored.contacts) is Some {
        assert forall|i: int|
            0 <= i < us.len() && (#[trigger] us[i]).value is Some && !is_structural(
                us[i].name,
            ) implies sent.headers.contains(
            SipHeaderView { name: us[i].name, value: us[i].value->0 },
        ) by {
            an_update_states_its_line(us, i);
            let h = SipHeaderView { name: us[i].name, value: us[i].value->0 };
            let tail = sent.headers.skip(update_lines(us).len() as int);
            assert(sent.headers =~= update_lines(us) + tail);
            either_holds(update_lines(us), tail, h);
        }
    }
}

proof fn an_update_states_its_line(us: Seq<HeaderUpdateView>, i: int)
    requires
        0 <= i < us.len(),
        us[i].value is Some,
        !is_structural(us[i].name),
    ensures
        update_lines(us).contains(SipHeaderView { name: us[i].name, value: us[i].value->0 }),
{
    let kept = keep(us, sets_header());
    kept_exactly(us, sets_header(), us[i]);
    let k = choose|k: int| 0 <= k < kept.len() && kept[k] == us[i];
    assert(update_lines(us)[k] == SipHeaderView { name: us[i].name, value: us[i].value->0 });
}

/// A provisional for the caller shows what it is given to show, under the tag it
/// states, or under the one the caller holds; only the caller can be shown one, and
/// none after its final.
pub proof fn a_provisional_shows_what_it_is_given(
    x: ExecView,
    w: WorkView,
    ctx: RuleContextView,
    p: ProvisionalView,
)
    requires
        w.call.a_leg.invite_final_sent is None,
        100 <= p.status < 200,
        p.leg_id == w.call.a_leg.leg_id,
    ensures
        ({
            let r = x.apply(w, RuleActionView::SendProvisionalToLeg { provisional: p }, ctx);
            let e = r.fx.outbound.last();
            let sent = e.body->Response_response;
            &&& r.fx.outbound == w.fx.outbound.push(e)
            &&& answers_the_caller(w, e)
            &&& e.provenance == Provenance::Authored
            &&& sent.status == p.status
            &&& sent.reason == p.reason
            &&& sent.body == p.body
            &&& p.content_type matches Some(t) ==> (media_reads(t) ==> sent.content_type == Some(t))
            &&& p.content_type is None && p.body.len() > 0 ==> sent.content_type == Some(
                "application/sdp"@,
            )
            &&& p.content_type is None && p.body.len() == 0 ==> sent.content_type is None
            &&& p.p_early_media matches Some(v) ==> sent.headers == seq![
                SipHeaderView { name: "P-Early-Media"@, value: v },
            ]
            &&& p.p_early_media is None ==> sent.headers.len() == 0
            &&& sent.contact == (p.status > 100)
            &&& p.to_tag is Some ==> sent.to_tag == p.to_tag
            &&& r.call.a_leg.dialogs.len() > 0
            &&& sent.to_tag == Some(r.call.a_leg.dialogs[0].sip.local_tag)
            &&& r.call.a_leg.invite_final_sent is None
        }),
{
    reveal(ExecView::apply);
    reveal(ExecView::send_provisional_to_leg);
    reveal(ExecView::ensure_a_dialog);
}

/// The caller answered in a dialog of its own gets the answer it is given, under
/// the tag it states, or a fresh one; that dialog is the caller's from then on, the
/// caller is confirmed in it, and the answer is repeated until it is acknowledged.
pub proof fn a_new_dialog_answers_as_given(
    x: ExecView,
    w: WorkView,
    ctx: RuleContextView,
    a: NewDialogAnswerView,
)
    requires
        w.call.a_leg.invite_final_sent is None,
        200 <= a.status < 300,
    ensures
        ({
            let r = x.apply(w, RuleActionView::AnswerALegNewDialog { answer: a }, ctx);
            let e = r.fx.outbound.last();
            let sent = e.body->Response_response;
            &&& r.fx.outbound == w.fx.outbound.push(e)
            &&& answers_the_caller(w, e)
            &&& e.provenance == Provenance::Authored
            &&& sent.status == a.status
            &&& sent.reason == a.reason
            &&& sent.body == a.body
            &&& a.content_type matches Some(t) ==> (media_reads(t) ==> sent.content_type == Some(t))
            &&& a.content_type is None && a.body.len() > 0 ==> sent.content_type == Some(
                "application/sdp"@,
            )
            &&& sent.contact
            &&& sent.to_tag == (if a.to_tag is Some {
                a.to_tag
            } else {
                Some(w.ids.tag())
            })
            &&& forall|h: SipHeaderView|
                !is_advert(h.name) ==> (#[trigger] sent.headers.contains(h) <==> (
                a.relayed.contains(h) && forall|i: int|
                    0 <= i < a.header_updates.len() ==> !same_ignoring_case(
                        (#[trigger] a.header_updates[i]).name,
                        h.name,
                    )) || update_lines(a.header_updates).contains(h))
            &&& r.call.a_leg.invite_final_sent == Some(a.status)
        }),
{
    reveal(ExecView::apply);
    reveal(ExecView::answer_a_leg_new_dialog);
    reveal(ExecView::send_a_leg_answer);
    reveal(ExecView::anchor_at_answer);
    the_callers_dialog_is_quiet();
    retiring_is_quiet();
    retaining_an_answer_is_quiet();
    scheduling_is_quiet();
    let sent = x.apply(
        w,
        RuleActionView::AnswerALegNewDialog { answer: a },
        ctx,
    ).fx.outbound.last().body->Response_response;
    let us = a.header_updates;
    let owned = update_names(us);
    let relayed = keep(a.relayed, named_outside(owned));
    assert forall|h: SipHeaderView|
        !is_advert(h.name) implies (#[trigger] sent.headers.contains(h) <==> (a.relayed.contains(h)
        && forall|i: int|
        0 <= i < us.len() ==> !same_ignoring_case((#[trigger] us[i]).name, h.name))
        || update_lines(us).contains(h)) by {
        a_stamp_leaves_the_rest(
            relayed + update_lines(us),
            owned,
            relaying_set(w.call.features, Face::Originator, relayed),
            h,
        );
        either_holds(relayed, update_lines(us), h);
        kept_exactly(a.relayed, named_outside(owned), h);
        if name_among(owned, h.name) {
            let i = choose|i: int|
                0 <= i < owned.len() && same_ignoring_case(#[trigger] owned[i], h.name);
            assert(us[i].name == owned[i]);
        }
        if exists|i: int| 0 <= i < us.len() && same_ignoring_case((#[trigger] us[i]).name, h.name) {
            let i = choose|i: int|
                0 <= i < us.len() && same_ignoring_case((#[trigger] us[i]).name, h.name);
            assert(owned[i] == us[i].name);
        }
    }
}

/// Once the caller's INVITE has its final, nothing more answers it.
pub proof fn nothing_follows_the_final(
    x: ExecView,
    w: WorkView,
    ctx: RuleContextView,
    a: RuleActionView,
)
    requires
        w.call.a_leg.invite_final_sent is Some,
        a is RelayFailureToALeg || a is RespondToALeg || a is SendProvisionalToLeg
            || a is AnswerALegNewDialog,
    ensures
        x.apply(w, a, ctx).fx.outbound == w.fx.outbound,
        x.apply(w, a, ctx).call.a_leg.invite_final_sent == w.call.a_leg.invite_final_sent,
{
    reveal(ExecView::apply);
    reveal(ExecView::relay_failure_to_a_leg);
    reveal(ExecView::respond_to_a_leg);
    reveal(ExecView::send_provisional_to_leg);
    reveal(ExecView::answer_a_leg_new_dialog);
    retiring_is_quiet();
    the_callers_dialog_is_quiet();
}

} // verus!
