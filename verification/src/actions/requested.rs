//! What the requests of a turn say: the ones relayed from a peer, and the ones this
//! stack sends of its own.
use vstd::prelude::*;

use crate::action::{MessageTransformView, NewLegView, RuleActionView};
use crate::actions::originate::{
    body_headers, dialog_of_tag, next_hop, send_notify, send_prack_to_leg, send_reinvite,
    tagged_dialog,
};
use crate::actions::relay_request::{
    ack_leg, advanced_both, outbound_cseq, relay_delta, relay_request, relayed_on, snapshot_of,
    source_heard, wire_name, with_heard,
};
use crate::actions::respond::media_reads;
use crate::actions::select::in_dialog;
use crate::actions::stated::kept_exactly;
use crate::actions::teardown::{end_legs, terminate_all};
use crate::actions::{ExecView, WorkView};
use crate::call::{
    CallModelState, CallView, CdrEventType, ConfigView, DestinationView, DialogView,
    FeatureActivationsView, InviteTxnView, LegDisposition, LegKind, LegState, LegView, OptionTagUse,
    OptionTagView, PrackedProvisionalView, StackDialogView, TimerTypeView,
};
use crate::capabilities::{
    declaration, declared_names, Face, face_of_leg, HeaderName, is_token, name_text, option_tags,
    speaks_of, stated, tag_name,
};
use crate::context::relay_dialog;
use crate::effects::{CriticalEffectView, OutboundSipView, Provenance, TxnMode};
use crate::headers::{
    bare_uri, header_lists, header_value, header_values, name_among, named_outside,
};
use crate::lens::{
    dialog_named, dialog_of_with_dialog, dialog_toward, identity_tag, leg_named,
    other_leg_of_with_leg,
};
use crate::model::RuleContextView;
use crate::reliable::{b_rseq, pracked_as};
use crate::routes::{rack_tokens, RAckTokens};
use crate::sdp::is_sdp;
use crate::seqs::{any_where, first_where, first_where_found, keep, keep_whole};
use crate::text::{decimal_text, ends_with_text, same_ignoring_case, signed_text, words_text};
use crate::wire::{MethodView, SipHeaderView, SipRequestView};

verus! {

/// A request goes out on a dialog: toward its peer, over its routes, on a fresh
/// branch and a transaction of its own.
pub open spec fn goes_on(
    w: WorkView,
    e: OutboundSipView,
    leg_id: Seq<char>,
    d: StackDialogView,
) -> bool {
    &&& e.body is Request
    &&& e.body->request.dialog == d
    &&& e.body->request.branch == w.ids.branch()
    &&& e.body->request.emergency == (w.call.emergency == Some(true))
    &&& e.body->request.contact
    &&& e.body->request.max_forwards is None
    &&& e.leg_id == Some(leg_id)
    &&& e.destination == (DestinationView::Target {
        uri: d.remote_target,
        route_set: d.route_set,
    })
    &&& e.body->request.method == MethodView::Invite ==> e.mode == TxnMode::NewInvite
    &&& e.body->request.method != MethodView::Invite ==> e.mode == TxnMode::NewNonInvite
}

/// The features declare what that header advertises on the side of that leg.
pub open spec fn declares(
    f: Option<FeatureActivationsView>,
    leg_id: Seq<char>,
    name: Seq<char>,
) -> bool {
    f matches Some(f) && f.advertise_capabilities matches Some(arm) && (if leg_id == "a"@ {
        arm.toward_originator
    } else {
        arm.toward_originated
    }) matches Some(d) && (same_ignoring_case("Allow"@, name) && d.allow is Some
        || same_ignoring_case("Supported"@, name) && d.supported is Some)
}

/// How far a request moves the sequence of the dialog it is relayed on: as far as
/// it moved the one it came on, and at least by one.
pub open spec fn moves_by(
    ctx: RuleContextView,
    req: SipRequestView,
    sent: int,
    stood: int,
) -> bool {
    let heard = match ctx.source_dialog() {
        Some(d) => d.ext.remote_cseq,
        None => None,
    };
    let step = if heard is Some && req.cseq - heard->0 > 1 {
        req.cseq - heard->0
    } else {
        1
    };
    step <= i64::MAX ==> sent == stood + step || (sent == i64::MAX && stood + step > i64::MAX)
}

proof fn declared_or_not(
    f: Option<FeatureActivationsView>,
    leg_id: Seq<char>,
    h: SipHeaderView,
)
    ensures
        named_outside(declared_names(f, face_of_leg(leg_id)).map_values(wire_name()))(h)
            <==> !declares(f, leg_id, h.name),
{
    let ns = declared_names(f, face_of_leg(leg_id));
    let names = ns.map_values(wire_name());
    if name_among(names, h.name) {
        let i = choose|i: int|
            0 <= i < names.len() && same_ignoring_case(#[trigger] names[i], h.name);
        assert(names[i] == name_text(ns[i]));
    }
    if declares(f, leg_id, h.name) {
        let d = declaration(f, face_of_leg(leg_id))->0;
        if same_ignoring_case("Allow"@, h.name) && d.allow is Some {
            assert(ns[0] == HeaderName::Allow);
            assert(names[0] == "Allow"@);
        } else {
            let k: int = if d.allow is Some {
                1
            } else {
                0
            };
            assert(ns[k] == HeaderName::Supported);
            assert(names[k] == "Supported"@);
        }
    }
}

/// A request relayed to a leg arrives whole: one request goes out on that leg, on
/// the dialog it names, with the method, the body and the lines of the one that
/// came, but for the headers the call declares itself. Its number moves that
/// dialog's sequence as far as it moved the one it came on.
pub proof fn a_relayed_request_arrives_whole(
    x: ExecView,
    w: WorkView,
    ctx: RuleContextView,
    target: Seq<char>,
    t: MessageTransformView,
    to_tag: Option<Seq<char>>,
    req: SipRequestView,
    l: LegView,
    d: DialogView,
)
    requires
        ctx.request() == Some(req),
        req.method != MethodView::Ack,
        in_dialog(req.method),
        w.call.leg(target) == Some(l),
        relay_dialog(l, to_tag) == Some(d),
        d.sip.remote_tag.len() > 0,
    ensures
        ({
            let r = x.relay_to(w, ctx, target, t, to_tag);
            let e = r.fx.outbound.last();
            let sent = e.body->request;
            &&& r.fx.outbound == w.fx.outbound.push(e)
            &&& r.fx.fire_and_forget == w.fx.fire_and_forget
            &&& r.fx.critical == w.fx.critical
            &&& goes_on(w, e, target, d.sip)
            &&& e.provenance == Provenance::Relayed
            &&& sent.method == req.method
            &&& sent.body == req.body
            &&& (match header_value(req.headers, "Content-Type"@) {
                Some(stated) => media_reads(stated) ==> sent.content_type == Some(stated),
                None => sent.content_type is None,
            })
            &&& forall|h: SipHeaderView| #[trigger]
                sent.headers.contains(h) <==> req.relayable.contains(h) && !declares(
                    w.call.features,
                    target,
                    h.name,
                )
            &&& (forall|n: Seq<char>| !#[trigger] declares(w.call.features, target, n))
                ==> sent.headers == req.relayable
            &&& moves_by(ctx, req, sent.cseq as int, d.sip.local_cseq as int)
            &&& req.method != MethodView::Prack ==> sent.rack is None
            &&& sent.event is None
            &&& sent.subscription_state is None
            &&& r.ids == w.ids.after()
        }),
{
    reveal(ExecView::relay_to);
    reveal(relay_request);
    reveal(relayed_on);
    let c1 = advanced_both(w.call, ctx, target, d, req);
    assert(c1.features == w.call.features);
    assert(c1.emergency == w.call.emergency);
    let names = declared_names(w.call.features, face_of_leg(target)).map_values(wire_name());
    let sent = x.relay_to(w, ctx, target, t, to_tag).fx.outbound.last().body->request;
    assert(sent.headers == keep(req.relayable, named_outside(names)));
    assert forall|h: SipHeaderView| #[trigger]
        sent.headers.contains(h) <==> req.relayable.contains(h) && !declares(
            w.call.features,
            target,
            h.name,
        ) by {
        kept_exactly(req.relayable, named_outside(names), h);
        declared_or_not(w.call.features, target, h);
    }
    if forall|n: Seq<char>| !#[trigger] declares(w.call.features, target, n) {
        assert forall|i: int| 0 <= i < req.relayable.len() implies named_outside(names)(
            #[trigger] req.relayable[i],
        ) by {
            declared_or_not(w.call.features, target, req.relayable[i]);
            assert(!declares(w.call.features, target, req.relayable[i].name));
        }
        keep_whole(req.relayable, named_outside(names));
    }
}

/// A request under a tag that stands for a callee's dialog is relayed on that
/// dialog, and one that names none on the leg's first.
pub proof fn a_request_goes_on_the_dialog_it_names(l: LegView, to_tag: Option<Seq<char>>, i: int)
    requires
        0 <= i < l.dialogs.len(),
    ensures
        relay_dialog(l, to_tag) is Some,
        l.dialogs.contains(relay_dialog(l, to_tag)->0),
        to_tag == Some(l.dialogs[i].sip.remote_tag) ==> relay_dialog(l, to_tag)->0.sip.remote_tag
            == l.dialogs[i].sip.remote_tag,
        to_tag is None ==> relay_dialog(l, to_tag) == Some(l.dialogs[0]),
{
    if let Some(t) = to_tag {
        first_where_found(l.dialogs, dialog_toward(t));
        if l.dialogs[i].sip.remote_tag == t {
            assert(dialog_toward(t)(l.dialogs[i]));
        }
    }
}

/// A relayed request is remembered on the dialog it went out on, as it came, so
/// that its answer finds the way back; a BYE is answered here and leaves nothing
/// to remember. The dialog it came on has heard its number.
pub proof fn a_relayed_request_is_remembered(
    x: ExecView,
    w: WorkView,
    ctx: RuleContextView,
    target: Seq<char>,
    t: MessageTransformView,
    to_tag: Option<Seq<char>>,
    req: SipRequestView,
    l: LegView,
    d: DialogView,
)
    requires
        ctx.request() == Some(req),
        req.method != MethodView::Ack,
        in_dialog(req.method),
        w.call.leg(target) == Some(l),
        relay_dialog(l, to_tag) == Some(d),
        d.sip.remote_tag.len() > 0,
        w.call.dialog(target, identity_tag(target, d)) == Some(d),
        ctx.source_leg_id != target,
    ensures
        ({
            let r = x.relay_to(w, ctx, target, t, to_tag);
            let sent = r.fx.outbound.last().body->request;
            let d1 = r.call.dialog(target, identity_tag(target, d));
            &&& d1 is Some
            &&& d1->0.sip == (StackDialogView { local_cseq: sent.cseq, ..d.sip })
            &&& req.method == MethodView::Bye ==> d1->0.ext == d.ext
            &&& req.method != MethodView::Bye ==> ({
                let p = d1->0.ext.inbound_pending_requests.last();
                &&& d1->0.ext.inbound_pending_requests == d.ext.inbound_pending_requests.push(p)
                &&& p.method == req.method
                &&& p.outbound_cseq == sent.cseq
                &&& p.inbound_cseq == req.cseq
                &&& p.source_vias == header_values(req.headers, "Via"@)
                &&& header_value(req.headers, "From"@) == Some(p.source_from) || header_value(
                    req.headers,
                    "From"@,
                ) is None
                &&& header_value(req.headers, "To"@) == Some(p.source_to) || header_value(
                    req.headers,
                    "To"@,
                ) is None
                &&& header_value(req.headers, "Call-ID"@) == Some(p.source_call_id) || header_value(
                    req.headers,
                    "Call-ID"@,
                ) is None
                &&& p.source_timestamp == header_value(req.headers, "Timestamp"@)
                &&& p.offers_100rel <==> header_lists(req.headers, "Supported"@, "100rel"@)
                    || header_lists(req.headers, "Require"@, "100rel"@)
                &&& p.direction == ctx.direction
                &&& !p.cancelled
            })
            &&& req.method == MethodView::Invite ==> (d1->0.ext.pending_invite_txn matches Some(txn)
                && {
                &&& txn.branch == sent.branch
                &&& txn.cseq == sent.cseq
                &&& txn.destination == r.fx.outbound.last().destination
                &&& txn.emergency == sent.emergency
            })
            &&& req.method == MethodView::Invite ==> d1->0.ext.ack_branch is None
        }),
{
    reveal(ExecView::relay_to);
    reveal(relay_request);
    reveal(relayed_on);
    let tag = identity_tag(target, d);
    let out = outbound_cseq(ctx, d, req);
    let c0 = with_heard(w.call, ctx, req.cseq);
    first_where_found(w.call.b_legs, leg_named(ctx.source_leg_id));
    first_where_found(w.call.b_legs, leg_named(target));
    if let Some(sd) = ctx.source_dialog() {
        let stag = identity_tag(ctx.source_leg_id, sd);
        if let Some(s) = w.call.dialog(ctx.source_leg_id, stag) {
            let sl = w.call.leg(ctx.source_leg_id)->0;
            first_where_found(sl.dialogs, dialog_named(ctx.source_leg_id, stag));
            let k = first_where(sl.dialogs, dialog_named(ctx.source_leg_id, stag))->0;
            other_leg_of_with_leg(
                w.call,
                ctx.source_leg_id,
                LegView { dialogs: sl.dialogs.update(k, s.heard(req.cseq)), ..sl },
                target,
            );
        }
    }
    assert(c0.leg(target) == Some(l));
    assert(c0.dialog(target, tag) == Some(d));
    let delta = relay_delta(req.cseq, source_heard(ctx));
    let d1 = d.bump(delta);
    dialog_of_with_dialog(c0, target, tag, d1);
    let c1 = advanced_both(w.call, ctx, target, d, req);
    let txn = InviteTxnView {
        branch: w.ids.branch(),
        cseq: out,
        destination: next_hop(d.sip),
        emergency: w.call.is_emergency(),
    };
    let d2 = if req.method == MethodView::Invite {
        d1.with_invite_txn(txn)
    } else {
        d1
    };
    let c2 = if req.method == MethodView::Invite {
        c1.set_invite_txn(target, tag, txn)
    } else {
        c1
    };
    dialog_of_with_dialog(c1, target, tag, d2);
    assert(c2.dialog(target, tag) == Some(d2));
    let p = snapshot_of(ctx, req, out);
    dialog_of_with_dialog(c2, target, tag, d2.with_pending(p));
}

/// What an optional address comes to on the wire: its bare form, and nothing
/// where none is stated.
pub open spec fn bare_or_none(stated: Option<Seq<char>>, sent: Option<Seq<char>>) -> bool {
    match stated {
        Some(s) => sent is Some && sent == bare_uri(s),
        None => sent is None,
    }
}

/// Calls may be sent to a host whose suffix is listed, and to any where none is.
pub open spec fn admits(config: ConfigView, host: Seq<char>) -> bool {
    config.worker_allowed_target_suffixes.len() == 0 || exists|i: int|
        0 <= i < config.worker_allowed_target_suffixes.len() && ends_with_text(
            host,
            #[trigger] config.worker_allowed_target_suffixes[i],
        )
}

/// The decision may be acted on: its destination is admitted, and every address it
/// states reads.
pub open spec fn can_be_dialled(config: ConfigView, n: NewLegView) -> bool {
    &&& config.worker_allowed_target_suffixes.len() == 0 || exists|i: int|
        0 <= i < config.worker_allowed_target_suffixes.len() && ends_with_text(
            n.destination.host,
            #[trigger] config.worker_allowed_target_suffixes[i],
        )
    &&& n.new_ruri matches Some(s) ==> bare_uri(s) is Some
    &&& n.new_from matches Some(s) ==> bare_uri(s) is Some
    &&& n.new_to matches Some(s) ==> bare_uri(s) is Some
}

/// A new leg is opened by one INVITE that states what the decision states: its
/// request URI, its From and its To each in their own place, its body, its header
/// updates; it goes where the decision says, or through the front proxy. The leg
/// that stands for it afterwards has the same identifiers and the same ends: the
/// From is its own side, the To its peer's.
pub proof fn a_new_leg_is_opened_as_decided(
    x: ExecView,
    w: WorkView,
    ctx: RuleContextView,
    n: NewLegView,
)
    requires
        can_be_dialled(x.config, n),
    ensures
        ({
            let r = x.apply(w, RuleActionView::CreateLeg { leg: n }, ctx);
            let e = r.fx.outbound.last();
            let sent = e.body->invite;
            let l = r.call.b_legs.last();
            let d = l.dialogs[0];
            &&& r.fx.outbound == w.fx.outbound.push(e)
            &&& e.body is Invite
            &&& e.mode == TxnMode::NewInvite
            &&& e.provenance == Provenance::Authored
            &&& e.leg_id == Some(l.leg_id)
            &&& x.config.outbound_proxy is None ==> e.destination == (DestinationView::Address {
                at: n.destination,
            })
            &&& x.config.outbound_proxy matches Some(p) ==> e.destination == (
            DestinationView::Address { at: p })
            &&& bare_or_none(n.new_ruri, sent.new_ruri)
            &&& bare_or_none(n.new_from, sent.new_from)
            &&& bare_or_none(n.new_to, sent.new_to)
            &&& sent.body_override == n.body_override
            &&& sent.header_updates == n.header_updates
            &&& sent.kind == n.kind
            &&& sent.emergency == (w.call.emergency == Some(true))
            &&& w.call.features matches Some(f) ==> sent.charging_vector == f.charging_vector
            &&& w.call.features is None ==> sent.charging_vector is None
            &&& r.call.b_legs == w.call.b_legs.push(l)
            &&& w.call.b_legs.len() < u64::MAX ==> l.leg_id == "b-"@ + decimal_text(
                (w.call.b_legs.len() + 1) as nat,
            )
            &&& sent.leg_id == l.leg_id
            &&& sent.call_id == l.call_id
            &&& sent.from_tag == l.from_tag
            &&& sent.call_id == w.ids.tag()
            &&& sent.from_tag == w.ids.after().tag()
            &&& sent.branch == w.ids.after().after().branch()
            &&& l.state == LegState::Trying
            &&& l.disposition == LegDisposition::Pending
            &&& l.bye_disposition is None
            &&& l.kind == n.kind
            &&& l.adopted == (n.kind is None)
            &&& l.local_uri == Some(
                if n.new_from is Some {
                    sent.new_from->0
                } else {
                    w.call.a_leg_invite.from_uri
                },
            )
            &&& l.remote_uri == Some(
                if n.new_to is Some {
                    sent.new_to->0
                } else {
                    w.call.a_leg_invite.to_uri
                },
            )
            &&& (match n.body_override {
                Some(b) => l.offers_sdp == (b.len() > 0),
                None => l.offers_sdp == is_sdp(
                    w.call.a_leg_invite.headers,
                    w.call.a_leg_invite.body,
                ),
            })
            &&& l.dialogs.len() == 1
            &&& d.sip.call_id == sent.call_id
            &&& d.sip.local_tag == sent.from_tag
            &&& d.sip.remote_tag.len() == 0
            &&& Some(d.sip.local_uri) == l.local_uri
            &&& Some(d.sip.remote_uri) == l.remote_uri
            &&& d.sip.remote_target == (if n.new_ruri is Some {
                sent.new_ruri->0
            } else {
                d.sip.remote_uri
            })
            &&& d.sip.local_cseq == sent.cseq
            &&& sent.cseq == 1
            &&& (d.ext.pending_invite_txn matches Some(txn) && {
                &&& txn.branch == sent.branch
                &&& txn.cseq == sent.cseq
                &&& txn.destination == e.destination
                &&& txn.emergency == sent.emergency
            })
            &&& n.callback_context is Some ==> r.call.callback_context == n.callback_context
            &&& n.callback_context is None ==> r.call.callback_context == w.call.callback_context
        }),
{
    reveal(ExecView::apply);
    reveal(ExecView::create_leg);
    reveal(ExecView::leg_created);
    reveal(ExecView::schedule);
}

/// The ring of a new leg ends at the deadline the decision states, or at the
/// latest the INVITE transaction allows; without one nothing is armed.
pub proof fn a_new_leg_rings_no_longer_than_decided(
    x: ExecView,
    w: WorkView,
    ctx: RuleContextView,
    n: NewLegView,
)
    requires
        can_be_dialled(x.config, n),
    ensures
        ({
            let r = x.apply(w, RuleActionView::CreateLeg { leg: n }, ctx);
            let l = r.call.b_legs.last();
            &&& n.no_answer_timeout_sec is None ==> r.fx.critical == w.fx.critical && r.call.timers
                == w.call.timers
            &&& n.no_answer_timeout_sec matches Some(secs) ==> {
                let armed = r.call.timers.last();
                let wait = if secs > x.config.no_answer_ceiling_sec {
                    x.config.no_answer_ceiling_sec as int
                } else {
                    secs as int
                };
                &&& r.fx.critical == w.fx.critical.push(
                    CriticalEffectView::ScheduleTimer { entry: armed },
                )
                &&& r.call.timers.contains(armed)
                &&& armed.timer_type == TimerTypeView::NoAnswer
                &&& armed.leg_id == Some(l.leg_id)
                &&& i64::MIN <= wait * 1000 <= i64::MAX && i64::MIN <= x.now_ms + wait * 1000
                    <= i64::MAX ==> armed.fire_at == x.now_ms + wait * 1000
            }
        }),
{
    reveal(ExecView::apply);
    reveal(ExecView::create_leg);
    reveal(ExecView::leg_created);
    reveal(ExecView::schedule);
    if n.no_answer_timeout_sec is Some {
        let r = x.apply(w, RuleActionView::CreateLeg { leg: n }, ctx);
        assert(r.call.timers[r.call.timers.len() - 1] == r.call.timers.last());
    }
}

/// A leg that may not be dialled is not: nothing is sent, the call ends, and the
/// record says with which status and why.
pub proof fn a_leg_that_cannot_be_dialled_ends_the_call(
    x: ExecView,
    w: WorkView,
    ctx: RuleContextView,
    n: NewLegView,
)
    requires
        !can_be_dialled(x.config, n),
    ensures
        ({
            let r = x.apply(w, RuleActionView::CreateLeg { leg: n }, ctx);
            let told = r.call.cdr_events.last();
            &&& r.fx == w.fx
            &&& r.ids == w.ids
            &&& r.call.state == CallModelState::Terminated
            &&& r.call.cdr_events == w.call.cdr_events.push(told)
            &&& told.event_type == CdrEventType::Reject
            &&& told.timestamp == x.now_ms
            &&& told.leg_id == ctx.source_leg_id
            &&& told.status_code == Some(503i64) || told.status_code == Some(500i64)
            &&& admits(x.config, n.destination.host) ==> told.status_code == Some(500i64)
            &&& !admits(x.config, n.destination.host) ==> told.status_code == Some(503i64)
                && told.reason == Some("admission_reject host="@ + n.destination.host)
            &&& admits(x.config, n.destination.host) ==> {
                ||| told.reason == Some("unreadable_address field="@ + "new_ruri"@)
                    && n.new_ruri is Some && bare_uri(n.new_ruri->0) is None
                ||| told.reason == Some("unreadable_address field="@ + "new_from"@)
                    && n.new_from is Some && bare_uri(n.new_from->0) is None
                ||| told.reason == Some("unreadable_address field="@ + "new_to"@)
                    && n.new_to is Some && bare_uri(n.new_to->0) is None
            }
            &&& w.call.termination is None ==> (r.call.termination matches Some(t) && t.at_ms
                == x.now_ms && t.cause == told.reason && t.by_leg == Some(ctx.source_leg_id))
        }),
{
    reveal(ExecView::apply);
    reveal(ExecView::create_leg);
    reveal(terminate_all);
    assert forall|c: CallView, ids: Seq<Seq<char>>|
        #[trigger] end_legs(c, ids).cdr_events == c.cdr_events && end_legs(c, ids).termination
            == c.termination by {
        ended_keeps_the_record(c, ids);
    }
}

proof fn ended_keeps_the_record(c: CallView, ids: Seq<Seq<char>>)
    ensures
        end_legs(c, ids).cdr_events == c.cdr_events,
        end_legs(c, ids).termination == c.termination,
    decreases ids.len(),
{
    if ids.len() > 0 {
        ended_keeps_the_record(c, ids.drop_last());
    }
}

/// A NOTIFY reports what it is given to report, on the leg's own dialog and under
/// its next number.
pub proof fn a_notify_reports_what_it_is_given(
    x: ExecView,
    w: WorkView,
    ctx: RuleContextView,
    leg_id: Seq<char>,
    event: Seq<char>,
    subscription_state: Seq<char>,
    content_type: Option<Seq<char>>,
    body: Seq<u8>,
    d: DialogView,
)
    requires
        tagged_dialog(w.call, leg_id) == Some(d),
    ensures
        ({
            let r = x.apply(
                w,
                RuleActionView::SendNotify {
                    leg_id,
                    event,
                    subscription_state,
                    content_type,
                    body,
                },
                ctx,
            );
            let e = r.fx.outbound.last();
            let sent = e.body->request;
            &&& r.fx.outbound == w.fx.outbound.push(e)
            &&& goes_on(w, e, leg_id, d.sip)
            &&& e.provenance == Provenance::Authored
            &&& sent.method == MethodView::Notify
            &&& sent.event == Some(event)
            &&& sent.subscription_state == Some(subscription_state)
            &&& sent.body == body
            &&& content_type matches Some(t) ==> (media_reads(t) ==> sent.content_type == Some(t))
            &&& content_type is None ==> sent.content_type is None
            &&& sent.headers.len() == 0
            &&& sent.rack is None
            &&& sent.cseq == d.sip.local_cseq + 1 || d.sip.local_cseq == i64::MAX
        }),
{
    reveal(ExecView::apply);
    reveal(send_notify);
}

/// A re-INVITE offers the description it is given, with the lines it is given, on
/// the leg's own dialog and under its next number; the dialog remembers the
/// transaction, and forgets the ACK of the one before.
pub proof fn a_reinvite_offers_what_it_is_given(
    x: ExecView,
    w: WorkView,
    ctx: RuleContextView,
    leg_id: Seq<char>,
    body: Seq<u8>,
    add_headers: Seq<SipHeaderView>,
    d: DialogView,
)
    requires
        tagged_dialog(w.call, leg_id) == Some(d),
    ensures
        ({
            let r = x.apply(w, RuleActionView::SendReinvite { leg_id, body, add_headers }, ctx);
            let e = r.fx.outbound.last();
            let sent = e.body->request;
            &&& r.fx.outbound == w.fx.outbound.push(e)
            &&& goes_on(w, e, leg_id, d.sip)
            &&& e.provenance == Provenance::Authored
            &&& sent.method == MethodView::Invite
            &&& sent.body == body
            &&& body.len() > 0 ==> sent.content_type == Some("application/sdp"@)
            &&& body.len() == 0 ==> sent.content_type is None
            &&& sent.headers == add_headers
            &&& sent.event is None
            &&& sent.subscription_state is None
            &&& sent.rack is None
            &&& sent.cseq == d.sip.local_cseq + 1 || d.sip.local_cseq == i64::MAX
            &&& w.call.dialog(leg_id, identity_tag(leg_id, d)) == Some(d) ==> (r.call.dialog(
                leg_id,
                identity_tag(leg_id, d),
            ) matches Some(d1) && {
                &&& d1.sip == (StackDialogView { local_cseq: sent.cseq, ..d.sip })
                &&& d1.ext.pending_invite_txn matches Some(txn)
                &&& txn.branch == sent.branch
                &&& txn.cseq == sent.cseq
                &&& txn.destination == e.destination
                &&& txn.emergency == sent.emergency
                &&& d1.ext.ack_branch is None
                &&& d1.ext.emitted_ack is None
                &&& d1.ext.awaited_ack_cseq is None
            })
        }),
{
    reveal(ExecView::apply);
    reveal(send_reinvite);
    let tag = identity_tag(leg_id, d);
    if w.call.dialog(leg_id, tag) == Some(d) {
        let d1 = d.bump(1);
        dialog_of_with_dialog(w.call, leg_id, tag, d1);
        let c1 = w.call.bump_local_cseq(leg_id, tag, 1);
        let r = x.apply(w, RuleActionView::SendReinvite { leg_id, body, add_headers }, ctx);
        let txn = InviteTxnView {
            branch: w.ids.branch(),
            cseq: r.fx.outbound.last().body->request.cseq,
            destination: next_hop(d.sip),
            emergency: w.call.is_emergency(),
        };
        dialog_of_with_dialog(c1, leg_id, tag, d1.with_own_invite_txn(txn));
    }
}

/// A request of this stack's own states what it is given, but for the lines that
/// describe its body, which the body's own type states. A keepalive is a probe.
pub proof fn an_own_request_states_what_it_is_given(
    x: ExecView,
    w: WorkView,
    ctx: RuleContextView,
    leg_id: Seq<char>,
    method: MethodView,
    body: Seq<u8>,
    content_type: Option<Seq<char>>,
    headers: Seq<SipHeaderView>,
    d: DialogView,
)
    requires
        tagged_dialog(w.call, leg_id) == Some(d),
        in_dialog(method),
    ensures
        ({
            let r = x.apply(
                w,
                RuleActionView::SendRequestToLeg { leg_id, method, body, content_type, headers },
                ctx,
            );
            let e = r.fx.outbound.last();
            let sent = e.body->request;
            &&& r.fx.outbound == w.fx.outbound.push(e)
            &&& goes_on(w, e, leg_id, d.sip)
            &&& (e.provenance == Provenance::Probe) == (method == MethodView::Options)
            &&& method != MethodView::Options ==> e.provenance == Provenance::Authored
            &&& sent.method == method
            &&& sent.body == body
            &&& content_type matches Some(t) ==> (media_reads(t) ==> sent.content_type == Some(t))
            &&& content_type is None && body.len() > 0 ==> sent.content_type == Some(
                "application/sdp"@,
            )
            &&& content_type is None && body.len() == 0 ==> sent.content_type is None
            &&& forall|h: SipHeaderView| #[trigger]
                sent.headers.contains(h) <==> headers.contains(h) && !same_ignoring_case(
                    "Content-Type"@,
                    h.name,
                ) && !same_ignoring_case("Content-Length"@, h.name)
            &&& sent.event is None
            &&& sent.subscription_state is None
            &&& sent.rack is None
            &&& !(method == MethodView::Options && x.config.keepalive_cseq_reuse) ==> sent.cseq
                == d.sip.local_cseq + 1 || d.sip.local_cseq == i64::MAX
        }),
{
    reveal(ExecView::apply);
    reveal(ExecView::send_request_to_leg);
    let p = named_outside(body_headers());
    let r = x.apply(
        w,
        RuleActionView::SendRequestToLeg { leg_id, method, body, content_type, headers },
        ctx,
    );
    let sent = r.fx.outbound.last().body->request;
    assert(sent.headers == keep(headers, p));
    assert forall|h: SipHeaderView| #[trigger]
        sent.headers.contains(h) <==> headers.contains(h) && !same_ignoring_case(
            "Content-Type"@,
            h.name,
        ) && !same_ignoring_case("Content-Length"@, h.name) by {
        kept_exactly(headers, p, h);
        assert(body_headers()[0] == "Content-Type"@);
        assert(body_headers()[1] == "Content-Length"@);
    }
}

/// A PRACK of this stack's own goes out on the dialog that raised the provisional,
/// and names it by its number and by the INVITE it came under.
pub proof fn a_prack_names_its_provisional(
    w: WorkView,
    leg_id: Seq<char>,
    rseq: i64,
    invite_cseq: i64,
    b_tag: Seq<char>,
    d: DialogView,
)
    requires
        dialog_of_tag(w.call, leg_id, b_tag) == Some(d),
        b_tag.len() > 0,
        rseq >= 0,
        invite_cseq >= 0,
        !w.call.pracked_provisionals.contains(
            PrackedProvisionalView { leg_id, b_tag, invite_cseq, rseq },
        ),
    ensures
        ({
            let r = send_prack_to_leg(w, leg_id, rseq, invite_cseq, b_tag);
            let e = r.fx.outbound.last();
            let sent = e.body->request;
            &&& r.fx.outbound == w.fx.outbound.push(e)
            &&& goes_on(w, e, leg_id, d.sip)
            &&& d.sip.remote_tag == b_tag
            &&& e.provenance == Provenance::Authored
            &&& sent.method == MethodView::Prack
            &&& sent.rack == Some(
                decimal_text(rseq as nat) + " "@ + decimal_text(invite_cseq as nat) + " INVITE"@,
            )
            &&& sent.body.len() == 0
            &&& sent.content_type is None
            &&& sent.headers.len() == 0
            &&& sent.cseq == d.sip.local_cseq + 1 || d.sip.local_cseq == i64::MAX
            &&& r.call.pracked_provisionals == w.call.pracked_provisionals.push(
                PrackedProvisionalView { leg_id, b_tag, invite_cseq, rseq },
            )
        }),
{
    reveal(send_prack_to_leg);
    let p = PrackedProvisionalView { leg_id, b_tag, invite_cseq, rseq };
    let l = w.call.leg(leg_id)->0;
    first_where_found(l.dialogs, dialog_toward(b_tag));
    assert(!any_where(w.call.pracked_provisionals, pracked_as(p))) by {
        if any_where(w.call.pracked_provisionals, pracked_as(p)) {
            let i = choose|i: int|
                0 <= i < w.call.pracked_provisionals.len() && pracked_as(p)(
                    #[trigger] w.call.pracked_provisionals[i],
                );
            assert(w.call.pracked_provisionals[i] == p);
        }
    }
}

/// A PRACK the peer sends is relayed in the target's own numbers: the one the
/// target raised, where this stack showed it under another, and the INVITE it was
/// raised under there.
pub proof fn a_relayed_prack_names_the_targets_numbers(
    x: ExecView,
    w: WorkView,
    ctx: RuleContextView,
    target: Seq<char>,
    t: MessageTransformView,
    to_tag: Option<Seq<char>>,
    req: SipRequestView,
    l: LegView,
    d: DialogView,
    rack: Seq<char>,
    named: RAckTokens,
)
    requires
        ctx.request() == Some(req),
        req.method == MethodView::Prack,
        w.call.leg(target) == Some(l),
        relay_dialog(l, to_tag) == Some(d),
        d.sip.remote_tag.len() > 0,
        header_value(req.headers, "RAck"@) == Some(rack),
        rack_tokens(rack) == Some(named),
    ensures
        ({
            let sent = x.relay_to(w, ctx, target, t, to_tag).fx.outbound.last().body->request;
            let rseq = match b_rseq(w.call, target, named.rseq) {
                Some(n) => if n < 0 {
                    0
                } else {
                    n as int
                },
                None => named.rseq as int,
            };
            let under = match d.ext.pending_invite_txn {
                Some(txn) => txn.cseq,
                None => d.sip.local_cseq,
            };
            under >= 0 ==> sent.rack == Some(
                signed_text(rseq) + " "@ + signed_text(under as int) + " "@ + words_text(rack)[2],
            )
        }),
{
    reveal(ExecView::relay_to);
    reveal(relay_request);
    reveal(relayed_on);
    let c1 = advanced_both(w.call, ctx, target, d, req);
    assert(c1.reliable_provisionals == w.call.reliable_provisionals);
}

/// The ACK of a leg's answer goes out on the leg's dialog, under the number of the
/// INVITE it answers, with the body it is given; the ACK that a repeated answer
/// draws is the one retained. A relayed ACK carries the body of the one that came.
pub proof fn an_ack_carries_what_it_is_given(
    x: ExecView,
    w: WorkView,
    ctx: RuleContextView,
    leg_id: Seq<char>,
    body: Seq<u8>,
    content_type: Option<Seq<char>>,
    l: LegView,
)
    requires
        w.call.leg(leg_id) == Some(l),
        l.dialogs.len() > 0,
        l.dialogs[0].sip.remote_tag.len() > 0,
    ensures
        ({
            let d = l.dialogs[0];
            let r = x.apply(w, RuleActionView::AckLeg { leg_id, body, content_type }, ctx);
            let e = r.fx.outbound.last();
            let sent = e.body->ack;
            &&& r.fx.outbound == w.fx.outbound.push(e)
            &&& e.body is Ack
            &&& e.mode == TxnMode::Raw
            &&& e.leg_id == Some(leg_id)
            &&& e.provenance == Provenance::Authored
            &&& e.destination == (DestinationView::Target {
                uri: sent.dialog.remote_target,
                route_set: sent.dialog.route_set,
            })
            &&& body.len() > 0 || d.ext.emitted_ack is None ==> {
                &&& sent.dialog == d.sip
                &&& sent.body == body
                &&& sent.emergency == (w.call.emergency == Some(true))
                &&& d.ext.pending_invite_txn matches Some(txn) ==> sent.cseq == txn.cseq
                &&& d.ext.ack_branch matches Some(b) ==> sent.branch == b
                &&& d.ext.ack_branch is None ==> sent.branch == w.ids.branch()
                &&& body.len() == 0 ==> sent.content_type is None
                &&& body.len() > 0 && content_type is None ==> sent.content_type == Some(
                    "application/sdp"@,
                )
                &&& body.len() > 0 && (content_type matches Some(t) && media_reads(t))
                    ==> sent.content_type == content_type
            }
            &&& body.len() == 0 && (d.ext.emitted_ack matches Some(a) && d.ext.ack_branch == Some(
                a.branch,
            )) ==> sent == d.ext.emitted_ack->0 && r.call == w.call && r.ids == w.ids
            &&& ctx.request() matches Some(req) ==> (req.method == MethodView::Ack && req.body
                == body && body.len() > 0 ==> x.relay_to(
                w,
                ctx,
                leg_id,
                MessageTransformView {
                    status: None,
                    reason: None,
                    drop_body: false,
                    remove_headers: Seq::empty(),
                    add_headers: Seq::empty(),
                },
                None,
            ).fx.outbound.last().body->ack.body == body)
        }),
{
    reveal(ExecView::apply);
    reveal(ExecView::relay_to);
    reveal(relay_request);
    reveal(ack_leg);
}

/// What the features say of option tags.
pub open spec fn all_tags(f: Option<FeatureActivationsView>) -> Seq<OptionTagView> {
    match f {
        Some(f) => f.option_tags,
        None => Seq::empty(),
    }
}

/// What the INVITE that opens a leg says this stack and the caller can do: what is
/// declared toward the callee, and where nothing is, what the caller's INVITE said.
/// The option tags are those that the features have for a leg of its kind.
pub proof fn an_opening_invite_states_what_is_declared(
    x: ExecView,
    w: WorkView,
    ctx: RuleContextView,
    n: NewLegView,
    tag: Seq<char>,
)
    requires
        can_be_dialled(x.config, n),
    ensures
        ({
            let r = x.apply(w, RuleActionView::CreateLeg { leg: n }, ctx);
            let sent = r.fx.outbound.last().body->invite;
            let l = r.call.b_legs.last();
            let d = l.dialogs[0];
            let got = w.call.a_leg_invite.headers;
            let own = if w.call.features is Some
                && w.call.features->0.advertise_capabilities is Some {
                w.call.features->0.advertise_capabilities->0.toward_originated
            } else {
                None
            };
            let tags = all_tags(w.call.features);
            &&& sent.capabilities.allow == if own is Some && own->0.allow is Some {
                Some(keep(own->0.allow->0, is_token()))
            } else {
                stated(got, "Allow"@)
            }
            &&& sent.capabilities.supported == if own is Some && own->0.supported is Some {
                Some(keep(own->0.supported->0, is_token()))
            } else {
                stated(got, "Supported"@)
            }
            &&& sent.capabilities.accept == stated(got, "Accept"@)
            &&& sent.offered_option_tags.contains(tag) <==> exists|i: int|
                {
                    &&& 0 <= i < tags.len()
                    &&& (#[trigger] tags[i]).tag == tag
                    &&& tags[i].usage == OptionTagUse::Offered
                    &&& tags[i].kind == n.kind
                }
            &&& sent.withheld_option_tags.contains(tag) <==> exists|i: int|
                {
                    &&& 0 <= i < tags.len()
                    &&& (#[trigger] tags[i]).tag == tag
                    &&& tags[i].usage == OptionTagUse::Withheld
                    &&& tags[i].kind == n.kind
                    &&& tags[i].offers_sdp is None || tags[i].offers_sdp == Some(l.offers_sdp)
                }
            &&& l.invite_final_sent is None
            &&& d.sip.route_set.len() == 0
            &&& d.ext.remote_cseq is None
            &&& d.ext.inbound_pending_requests.len() == 0
            &&& d.ext.ack_branch is None
            &&& d.ext.emitted_ack is None
            &&& d.ext.cached_sdp is None
            &&& d.ext.answered_2xx is None
            &&& d.ext.pending_reinvite_2xx is None
            &&& d.ext.awaited_ack_cseq is None
            &&& r.call.a_leg == w.call.a_leg
            &&& r.call.active_peer == w.call.active_peer
            &&& r.call.state == w.call.state
        }),
{
    reveal(ExecView::apply);
    reveal(ExecView::create_leg);
    reveal(ExecView::leg_created);
    reveal(ExecView::schedule);
    reveal_strlit("a");
    reveal_strlit("b-");
    let l = x.apply(w, RuleActionView::CreateLeg { leg: n }, ctx).call.b_legs.last();
    assert(l.leg_id[0] == 'b');
    assert("a"@[0] == 'a');
    assert(face_of_leg(l.leg_id) == Face::Originated);
    if let Some(f) = w.call.features {
        tags_of_a_use(f, OptionTagUse::Offered, n.kind, l.offers_sdp, tag);
        tags_of_a_use(f, OptionTagUse::Withheld, n.kind, l.offers_sdp, tag);
    }
}

proof fn tags_of_a_use(
    f: FeatureActivationsView,
    usage: OptionTagUse,
    kind: Option<LegKind>,
    offers_sdp: bool,
    tag: Seq<char>,
)
    ensures
        option_tags(Some(f), usage, kind, offers_sdp).contains(tag) <==> exists|i: int|
            {
                &&& 0 <= i < f.option_tags.len()
                &&& (#[trigger] f.option_tags[i]).tag == tag
                &&& f.option_tags[i].usage == usage
                &&& f.option_tags[i].kind == kind
                &&& usage == OptionTagUse::Offered || f.option_tags[i].offers_sdp is None
                    || f.option_tags[i].offers_sdp == Some(offers_sdp)
            },
{
    let p = speaks_of(usage, kind, offers_sdp);
    let kept = keep(f.option_tags, p);
    let all = kept.map_values(tag_name());
    if all.contains(tag) {
        let k = choose|k: int| 0 <= k < all.len() && all[k] == tag;
        kept_exactly(f.option_tags, p, kept[k]);
        assert(kept.contains(kept[k]));
        let i = choose|i: int| 0 <= i < f.option_tags.len() && f.option_tags[i] == kept[k];
        assert(f.option_tags[i].tag == tag);
    }
    if exists|i: int|
        {
            &&& 0 <= i < f.option_tags.len()
            &&& (#[trigger] f.option_tags[i]).tag == tag
            &&& p(f.option_tags[i])
        } {
        let i = choose|i: int|
            {
                &&& 0 <= i < f.option_tags.len()
                &&& (#[trigger] f.option_tags[i]).tag == tag
                &&& p(f.option_tags[i])
            };
        kept_exactly(f.option_tags, p, f.option_tags[i]);
        let k = choose|k: int| 0 <= k < kept.len() && kept[k] == f.option_tags[i];
        assert(all[k] == tag);
    }
    assert forall|i: int|
        0 <= i < f.option_tags.len() && (#[trigger] f.option_tags[i]).tag == tag
            && f.option_tags[i].usage == usage && f.option_tags[i].kind == kind && (usage == OptionTagUse::Offered
            || f.option_tags[i].offers_sdp is None || f.option_tags[i].offers_sdp == Some(
            offers_sdp,
        )) implies p(f.option_tags[i]) by {}
}

} // verus!
