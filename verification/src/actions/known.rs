//! What this stack knows of its peers: what a response teaches of a callee, what the
//! INVITE says of the caller, and whom an event of either goes to.
use vstd::prelude::*;

use crate::action::RuleActionView;
use crate::actions::dialog_track::{
    b_confirmed, confirmed_leg, early_leg, has_handle, tracks, with_early_dialog,
};
use crate::actions::{ExecView, WorkView};
use crate::call::{
    CallModelState, CallView, ConfigView, DialogExtView, DialogView, LegDisposition, LegState,
    LegView, StackDialogView, TagMappingView,
};
use crate::headers::contact_of;
use crate::lens::{dialog_toward, dialog_untagged, leg_named, leg_of_with_leg};
use crate::model::RuleContextView;
use crate::routes::{proxy_routes, recorded_routes, stored_routes, uac_routes};
use crate::seqs::{any_where, find_where, first_where, first_where_found, first_where_is, is_first};
use crate::state::{leg_confirmed, mapping_of_a};
use crate::wire::SipResponseView;

verus! {

/// The peer's side of a dialog as a response teaches it: its tag, where it is
/// reached, and over what. What the response does not say stays.
pub open spec fn is_learnt(
    before: StackDialogView,
    after: StackDialogView,
    tag: Seq<char>,
    contact: Option<Seq<char>>,
    routes: Seq<Seq<char>>,
) -> bool {
    &&& after.remote_tag == tag
    &&& contact is Some ==> after.remote_target == contact->0
    &&& contact is None ==> after.remote_target == before.remote_target
    &&& routes.len() > 0 ==> after.route_set == routes
    &&& routes.len() == 0 ==> after.route_set == before.route_set
    &&& after.call_id == before.call_id
    &&& after.local_tag == before.local_tag
    &&& after.local_uri == before.local_uri
    &&& after.remote_uri == before.remote_uri
    &&& after.local_cseq == before.local_cseq
}

/// The route a dialog of this stack's own INVITE takes: what the response recorded,
/// last hop first; over the proxy where that cannot be read.
pub open spec fn way_back(config: ConfigView, resp: SipResponseView) -> Seq<Seq<char>> {
    match recorded_routes(resp.headers) {
        Some(routes) => routes.reverse(),
        None => proxy_routes(config),
    }
}

/// An answered leg keeps the one dialog that answered: the one of the answer's own
/// tag where that is known, with what the answer taught of its peer.
pub proof fn an_answer_teaches_the_callees_side(
    x: ExecView,
    w: WorkView,
    ctx: RuleContextView,
    resp: SipResponseView,
    tag: Seq<char>,
    l: LegView,
    d: DialogView,
)
    requires
        ctx.response() == Some(resp),
        resp.to_tag == Some(tag),
        tag.len() > 0,
        l.leg_id != w.call.a_leg.leg_id,
        w.call.leg(l.leg_id) == Some(l),
        find_where(l.dialogs, dialog_toward(tag)) == Some(d) || (find_where(
            l.dialogs,
            dialog_toward(tag),
        ) is None && find_where(l.dialogs, dialog_untagged()) == Some(d)),
    ensures
        ({
            let r = x.apply(w, RuleActionView::ConfirmDialog { leg_id: l.leg_id }, ctx);
            let after = r.call.leg(l.leg_id)->0;
            let e = after.dialogs[0];
            &&& r.fx == w.fx
            &&& r.call.leg(l.leg_id) is Some
            &&& after.state == LegState::Confirmed
            &&& after.disposition == LegDisposition::Bridged
            &&& after.dialogs.len() == 1
            &&& is_learnt(
                d.sip,
                e.sip,
                tag,
                contact_of(resp.headers),
                way_back(x.config, resp),
            )
            &&& e.ext == DialogExtView { remote_cseq: Some(resp.cseq), ..d.ext }
            &&& after.call_id == l.call_id
            &&& after.from_tag == l.from_tag
            &&& after.adopted == l.adopted
            &&& after.kind == l.kind
            &&& after.bye_disposition == l.bye_disposition
        }),
{
    reveal(ExecView::apply);
    reveal(ExecView::confirm_dialog);
    reveal(ExecView::ensure_a_dialog);
    reveal(b_confirmed);
    let id = l.leg_id;
    first_where_found(w.call.b_legs, leg_named(id));
    let i = w.call.b_at(id)->0;
    first_where_found(l.dialogs, dialog_toward(tag));
    first_where_found(l.dialogs, dialog_untagged());
    let r = x.apply(w, RuleActionView::ConfirmDialog { leg_id: id }, ctx);
    let routes = stored_routes(x.config, uac_routes(resp));
    assert(routes == way_back(x.config, resp));
    let n = confirmed_leg(l, resp, routes);
    let bs = w.call.b_legs.update(i, n);
    assert(r.call.b_legs == bs);
    assert(is_first(bs, leg_named(id), i));
    first_where_is(bs, leg_named(id), i);
    assert(r.call.a_leg.leg_id == w.call.a_leg.leg_id);
}

/// What the caller is known by once its callee answers: the tag the caller was shown
/// for that dialog, the description it is answered with, and, for a leg the call has
/// adopted, an answered leg of its own.
pub proof fn an_answer_settles_the_callers_side(
    x: ExecView,
    w: WorkView,
    ctx: RuleContextView,
    resp: SipResponseView,
    tag: Seq<char>,
    l: LegView,
)
    requires
        ctx.response() == Some(resp),
        resp.to_tag == Some(tag),
        l.leg_id != w.call.a_leg.leg_id,
        w.call.leg(l.leg_id) == Some(l),
    ensures
        ({
            let r = x.apply(w, RuleActionView::ConfirmDialog { leg_id: l.leg_id }, ctx);
            let shown = w.call.by_b_tag(l.leg_id, tag);
            let a = r.call.a_leg;
            let d = a.dialogs[0];
            &&& a.dialogs.len() > 0
            &&& shown is Some && shown->0.a_tag.len() > 0 ==> d.sip.local_tag == shown->0.a_tag
            &&& shown is None && w.call.a_leg.dialogs.len() > 0
                && w.call.a_leg.dialogs[0].sip.local_tag.len() > 0 ==> d.sip
                == w.call.a_leg.dialogs[0].sip
            &&& w.call.policy_update_body is Some ==> d.ext.cached_sdp == w.call.policy_update_body
            &&& w.call.policy_update_body is None && resp.body.len() > 0 ==> d.ext.cached_sdp
                == Some(resp.body)
            &&& a.state == if w.call.state == CallModelState::Active && l.adopted {
                LegState::Confirmed
            } else {
                w.call.a_leg.state
            }
            &&& a.leg_id == w.call.a_leg.leg_id
            &&& a.invite_final_sent == w.call.a_leg.invite_final_sent
            &&& r.call.policy_update_body == w.call.policy_update_body
            &&& r.call.tag_map == w.call.tag_map
        }),
{
    reveal(ExecView::apply);
    reveal(ExecView::confirm_dialog);
    reveal(ExecView::ensure_a_dialog);
    reveal(b_confirmed);
    let id = l.leg_id;
    first_where_found(w.call.b_legs, leg_named(id));
    let i = w.call.b_at(id)->0;
    let routes = stored_routes(x.config, uac_routes(resp));
    let n = confirmed_leg(l, resp, routes);
    let bs = w.call.b_legs.update(i, n);
    assert(is_first(bs, leg_named(id), i));
    first_where_is(bs, leg_named(id), i);
}

/// The dialog this stack opens toward the caller is of the caller's own INVITE: its
/// parties are the other way round, its routes as they were recorded, and it has
/// heard that INVITE and nothing since.
pub proof fn the_callers_dialog_is_of_its_invite(
    x: ExecView,
    w: WorkView,
    preferred: Option<Seq<char>>,
)
    requires
        w.call.a_leg.dialogs.len() == 0 || w.call.a_leg.dialogs[0].sip.local_tag.len() == 0,
    ensures
        ({
            let (r, tag) = x.ensure_a_dialog(w, preferred);
            let inv = w.call.a_leg_invite;
            let d = r.call.a_leg.dialogs[0];
            &&& r.fx == w.fx
            &&& preferred is Some ==> tag == preferred->0 && r.ids == w.ids
            &&& preferred is None ==> tag == w.ids.tag() && r.ids == w.ids.after()
            &&& r.call.a_leg.dialogs.len() == 1
            &&& d.sip.call_id == w.call.a_leg.call_id
            &&& d.sip.local_tag == tag
            &&& d.sip.remote_tag == w.call.a_leg.from_tag
            &&& d.sip.local_uri == inv.to_uri
            &&& d.sip.remote_uri == inv.from_uri
            &&& d.sip.local_cseq == inv.cseq
            &&& contact_of(inv.headers) is Some ==> d.sip.remote_target == contact_of(
                inv.headers,
            )->0
            &&& contact_of(inv.headers) is None ==> d.sip.remote_target == inv.from_uri
            &&& recorded_routes(inv.headers) is Some ==> d.sip.route_set == recorded_routes(
                inv.headers,
            )->0
            &&& recorded_routes(inv.headers) is None ==> d.sip.route_set == proxy_routes(x.config)
            &&& d.ext.remote_cseq == Some(inv.cseq)
            &&& d.ext.inbound_pending_requests.len() == 0
            &&& d.ext.ack_branch is None
            &&& d.ext.emitted_ack is None
            &&& d.ext.pending_invite_txn is None
            &&& d.ext.cached_sdp is None
            &&& d.ext.answered_2xx is None
            &&& d.ext.pending_reinvite_2xx is None
            &&& d.ext.awaited_ack_cseq is None
            &&& w.call.a_leg == LegView { dialogs: w.call.a_leg.dialogs, ..r.call.a_leg }
            &&& w.call == CallView { a_leg: w.call.a_leg, ..r.call }
        }),
{
    reveal(ExecView::ensure_a_dialog);
}

/// A tag the callee shows for the first time: the dialog that had none takes it, with
/// what the response taught; where each has one, a further dialog of the same INVITE
/// stands beside them. The leg is early.
pub proof fn a_first_provisional_opens_a_dialog(
    config: ConfigView,
    c: CallView,
    leg_id: Seq<char>,
    resp: SipResponseView,
    tag: Seq<char>,
    l: LegView,
)
    requires
        leg_id != c.a_leg.leg_id,
        c.leg(leg_id) == Some(l),
        forall|i: int| 0 <= i < l.dialogs.len() ==> (#[trigger] l.dialogs[i]).sip.remote_tag != tag,
    ensures
        ({
            let r = with_early_dialog(config, c, leg_id, resp, tag);
            let after = r.leg(leg_id)->0;
            let routes = way_back(config, resp);
            let n = l.dialogs.len() as int;
            &&& r.leg(leg_id) is Some
            &&& after.state == LegState::Early
            &&& l == LegView { state: l.state, dialogs: l.dialogs, ..after }
            &&& match first_where(l.dialogs, dialog_untagged()) {
                Some(i) => {
                    &&& after.dialogs.len() == n
                    &&& is_learnt(
                        l.dialogs[i].sip,
                        after.dialogs[i].sip,
                        tag,
                        contact_of(resp.headers),
                        routes,
                    )
                    &&& after.dialogs[i].ext == l.dialogs[i].ext
                    &&& forall|j: int|
                        0 <= j < n && j != i ==> (#[trigger] after.dialogs[j]) == l.dialogs[j]
                },
                None => {
                    let d = after.dialogs[n];
                    let target = if l.remote_uri is Some {
                        l.remote_uri->0
                    } else {
                        Seq::empty()
                    };
                    &&& after.dialogs.len() == n + 1
                    &&& after.dialogs.take(n) == l.dialogs
                    &&& d.sip.call_id == l.call_id
                    &&& d.sip.local_tag == l.from_tag
                    &&& d.sip.remote_tag == tag
                    &&& l.local_uri is Some ==> d.sip.local_uri == l.local_uri->0
                    &&& d.sip.remote_uri == target
                    &&& d.sip.local_cseq == resp.cseq
                    &&& contact_of(resp.headers) is Some ==> d.sip.remote_target == contact_of(
                        resp.headers,
                    )->0
                    &&& contact_of(resp.headers) is None ==> d.sip.remote_target == target
                    &&& d.sip.route_set == routes
                    &&& d.ext.pending_invite_txn is Some ==> exists|j: int|
                        0 <= j < n && (#[trigger] l.dialogs[j]).ext.pending_invite_txn
                            == d.ext.pending_invite_txn
                    &&& d.ext.pending_invite_txn is None ==> forall|j: int|
                        0 <= j < n ==> (#[trigger] l.dialogs[j]).ext.pending_invite_txn is None
                    &&& d.ext.remote_cseq is None
                    &&& d.ext.inbound_pending_requests.len() == 0
                    &&& d.ext.cached_sdp is None
                    &&& d.ext.ack_branch is None
                    &&& d.ext.emitted_ack is None
                    &&& d.ext.answered_2xx is None
                    &&& d.ext.pending_reinvite_2xx is None
                    &&& d.ext.awaited_ack_cseq is None
                },
            }
        }),
{
    reveal(with_early_dialog);
    first_where_found(c.b_legs, leg_named(leg_id));
    first_where_found(l.dialogs, dialog_untagged());
    first_where_found(l.dialogs, has_handle());
    assert(!tracks(c, leg_id, tag)) by {
        assert(find_where(c.b_legs, leg_named(leg_id)) == Some(l));
        if any_where(l.dialogs, dialog_toward(tag)) {
            let i = choose|i: int|
                0 <= i < l.dialogs.len() && dialog_toward(tag)(#[trigger] l.dialogs[i]);
            assert(l.dialogs[i].sip.remote_tag == tag);
        }
    }
    let routes = stored_routes(config, uac_routes(resp));
    assert(routes == way_back(config, resp));
    let n = early_leg(l, tag, resp.cseq, contact_of(resp.headers), routes);
    leg_of_with_leg(c, leg_id, n);
    let r = with_early_dialog(config, c, leg_id, resp, tag);
    assert(r == c.with_leg(leg_id, n));
    if first_where(l.dialogs, dialog_untagged()) is None {
        assert(n.dialogs.take(l.dialogs.len() as int) =~= l.dialogs);
        if let Some(j) = first_where(l.dialogs, has_handle()) {
            assert(l.dialogs[j].ext.pending_invite_txn
                == n.dialogs.last().ext.pending_invite_txn);
        } else {
            assert forall|j: int| 0 <= j < l.dialogs.len() implies (
            #[trigger] l.dialogs[j]).ext.pending_invite_txn is None by {
                assert(!has_handle()(l.dialogs[j]));
            }
        }
    }
}

/// Where the event of a leg goes: to the leg it is bridged to, if it is; the caller's
/// to the dialog that its tag stands for, if it was shown that tag; a callee's that
/// the call has not adopted nowhere; any other callee's to the caller.
pub proof fn an_event_goes_to_its_peer(
    c: CallView,
    source: Seq<char>,
    to_tag: Option<Seq<char>>,
)
    ensures
        ({
            let (leg, tag) = c.relay_peer(source, to_tag);
            let bridged = c.active_peer is Some && (c.active_peer->0.leg_a == source
                || c.active_peer->0.leg_b == source);
            &&& bridged && c.active_peer->0.leg_a == source ==> leg == Some(
                c.active_peer->0.leg_b,
            ) && tag is None
            &&& bridged && c.active_peer->0.leg_a != source ==> leg == Some(
                c.active_peer->0.leg_a,
            ) && tag is None
            &&& !bridged && source != c.a_leg.leg_id ==> {
                &&& tag is None
                &&& leg == if c.leg(source) is Some && !c.leg(source)->0.adopted {
                    None
                } else {
                    Some(c.a_leg.leg_id)
                }
            }
            &&& !bridged && source == c.a_leg.leg_id ==> {
                &&& tag is Some ==> leg is Some && to_tag is Some && exists|i: int|
                    0 <= i < c.tag_map.len() && (#[trigger] c.tag_map[i]) == (TagMappingView {
                        a_tag: to_tag->0,
                        b_leg_id: leg->0,
                        b_tag: tag->0,
                    })
                &&& tag is None && to_tag is Some ==> forall|i: int|
                    0 <= i < c.tag_map.len() ==> (#[trigger] c.tag_map[i]).a_tag != to_tag->0
                &&& tag is None && leg is Some ==> exists|i: int|
                    0 <= i < c.b_legs.len() && (#[trigger] c.b_legs[i]).leg_id == leg->0 && (
                    c.b_legs[i].state == LegState::Confirmed || i == 0 && forall|j: int|
                        0 <= j < c.b_legs.len() ==> (#[trigger] c.b_legs[j]).state
                            != LegState::Confirmed)
                &&& leg is None ==> c.b_legs.len() == 0
            }
        }),
{
    if to_tag is Some {
        first_where_found(c.tag_map, mapping_of_a(to_tag->0));
        if let Some(i) = first_where(c.tag_map, mapping_of_a(to_tag->0)) {
            assert(c.tag_map[i].a_tag == to_tag->0);
        } else {
            assert forall|i: int| 0 <= i < c.tag_map.len() implies (#[trigger] c.tag_map[i]).a_tag
                != to_tag->0 by {
                assert(!mapping_of_a(to_tag->0)(c.tag_map[i]));
            }
        }
    }
    first_where_found(c.b_legs, leg_confirmed());
    if let Some(i) = first_where(c.b_legs, leg_confirmed()) {
        assert(c.b_legs[i].state == LegState::Confirmed);
    } else {
        assert forall|j: int| 0 <= j < c.b_legs.len() implies (#[trigger] c.b_legs[j]).state
            != LegState::Confirmed by {
            assert(!leg_confirmed()(c.b_legs[j]));
        }
        if c.b_legs.len() > 0 {
            assert(c.b_legs[0].state != LegState::Confirmed);
        }
    }
}

} // verus!
