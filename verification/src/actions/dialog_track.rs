//! Establishing dialogs: a callee's early dialogs, one per tag; the 2xx that
//! confirms one of them; and the caller's dialog with its stable tag.
use vstd::prelude::*;

use crate::actions::{ActionExecutor, ExecView, Work, WorkView};
use crate::call::{
    Call, CallModelState, CallView, Config, ConfigView, Dialog, DialogExt, DialogExtView,
    DialogView, InviteTxn, InviteTxnView, Leg, LegDisposition, LegState, LegView, StackDialog,
    StackDialogView,
};
use crate::headers::{contact_of, contact_uri};
use crate::lens::{
    dialog_toward, dialog_untagged, find_dialog_toward, find_leg_index, find_untagged_dialog, is_a,
    is_empty, leg_mut, leg_named, leg_of_with_leg, set_leg_state,
};
use crate::model::{RuleContext, RuleContextView};
use crate::reliable::{tag_or_empty, tag_text};
use crate::routes::{
    dialog_route_set, recorded_routes, stored_routes, uac_route_set, uac_routes, uas_route_set,
};
use crate::seqs::{
    any_where, find_where, first_where, first_where_found, first_where_is, first_where_none,
    opt_view, views,
};
use crate::state::find_by_b_tag;
use crate::text::{clone_bytes, decimal_nonempty};
use crate::wire::{SipResponse, SipResponseView};

verus! {

// ── fresh dialogs ───────────────────────────────────────────────────────
/// Nothing beside the dialog yet.
pub open spec fn blank_ext() -> DialogExtView {
    DialogExtView {
        remote_cseq: None,
        inbound_pending_requests: Seq::empty(),
        ack_branch: None,
        emitted_ack: None,
        pending_invite_txn: None,
        cached_sdp: None,
        answered_2xx: None,
        pending_reinvite_2xx: None,
        awaited_ack_cseq: None,
    }
}

/// Nothing beside a dialog yet.
pub(crate) fn new_ext() -> (r: DialogExt)
    ensures
        r@ == blank_ext(),
{
    let r = DialogExt {
        remote_cseq: None,
        inbound_pending_requests: Vec::new(),
        ack_branch: None,
        emitted_ack: None,
        pending_invite_txn: None,
        cached_sdp: None,
        answered_2xx: None,
        pending_reinvite_2xx: None,
        awaited_ack_cseq: None,
    };
    assert(views(r.inbound_pending_requests@) =~= Seq::empty());
    r
}

/// The caller's dialog under `tag`: this stack answers, so the routes stand as
/// recorded.
pub open spec fn a_dialog(config: ConfigView, c: CallView, tag: Seq<char>) -> DialogView {
    let inv = c.a_leg_invite;
    DialogView {
        sip: StackDialogView {
            call_id: c.a_leg.call_id,
            local_tag: tag,
            remote_tag: c.a_leg.from_tag,
            local_uri: inv.to_uri,
            remote_uri: inv.from_uri,
            remote_target: match contact_of(inv.headers) {
                Some(u) => u,
                None => inv.from_uri,
            },
            local_cseq: inv.cseq,
            route_set: stored_routes(config, recorded_routes(inv.headers)),
        },
        ext: DialogExtView { remote_cseq: Some(inv.cseq), ..blank_ext() },
    }
}

/// The tag the caller is answered under, once it has one.
pub open spec fn pinned_tag(c: CallView) -> Option<Seq<char>> {
    if c.a_leg.dialogs.len() > 0 && c.a_leg.dialogs[0].sip.local_tag.len() > 0 {
        Some(c.a_leg.dialogs[0].sip.local_tag)
    } else {
        None
    }
}

pub open spec fn with_a_dialogs(c: CallView, ds: Seq<DialogView>) -> CallView {
    CallView { a_leg: LegView { dialogs: ds, ..c.a_leg }, ..c }
}

impl ExecView {
    /// The caller's dialog ensured, under the tag it has, else the preferred
    /// one, else a fresh one; with that tag.
    #[verifier::opaque]
    pub open spec fn ensure_a_dialog(self, w: WorkView, preferred: Option<Seq<char>>) -> (
        WorkView,
        Seq<char>,
    ) {
        match pinned_tag(w.call) {
            Some(t) => (w, t),
            None => {
                let (w1, t) = match preferred {
                    Some(p) => (w, p),
                    None => (w.minted(), w.ids.tag()),
                };
                (w1.on(with_a_dialogs(w1.call, seq![a_dialog(self.config, w1.call, t)])), t)
            },
        }
    }
}

impl<'a> ActionExecutor<'a> {
    /// Ensure the caller's dialog, under `preferred` where it is created here;
    /// return the tag it goes by.
    pub(crate) fn ensure_a_dialog_with(
        &self,
        w: &mut Work,
        preferred: Option<String>,
    ) -> (r: String)
        ensures
            (final(w)@, r@) == self@.ensure_a_dialog(old(w)@, opt_view(preferred)),
    {
        proof {
            reveal(ExecView::ensure_a_dialog);
        }
        if w.call.a_leg.dialogs.len() > 0 {
            assert(w@.call.a_leg.dialogs[0] == w.call.a_leg.dialogs@[0]@);
            if !is_empty(&w.call.a_leg.dialogs[0].sip.local_tag) {
                return w.call.a_leg.dialogs[0].sip.local_tag.clone();
            }
        }
        let tag = match preferred {
            Some(t) => t,
            None => w.ids.new_tag(),
        };
        let inv = &w.call.a_leg_invite;
        let remote_target = match contact_uri(&inv.headers) {
            Some(u) => u,
            None => inv.from_uri.clone(),
        };
        let route_set = dialog_route_set(self.config, uas_route_set(inv));
        let mut ext = new_ext();
        ext.remote_cseq = Some(inv.cseq);
        let d = Dialog {
            sip: StackDialog {
                call_id: w.call.a_leg.call_id.clone(),
                local_tag: tag.clone(),
                remote_tag: w.call.a_leg.from_tag.clone(),
                local_uri: inv.to_uri.clone(),
                remote_uri: inv.from_uri.clone(),
                remote_target,
                local_cseq: inv.cseq,
                route_set,
            },
            ext,
        };
        let mut dialogs: Vec<Dialog> = Vec::new();
        dialogs.push(d);
        assert(views(dialogs@) =~= seq![d@]);
        w.call.a_leg.dialogs = dialogs;
        tag
    }

    /// Ensure the caller's dialog; return the tag it goes by.
    pub(crate) fn ensure_a_dialog(&self, w: &mut Work) -> (r: String)
        ensures
            (final(w)@, r@) == self@.ensure_a_dialog(old(w)@, None),
    {
        self.ensure_a_dialog_with(w, None)
    }
}

/// The caller's dialog under another tag.
pub open spec fn retagged(c: CallView, tag: Seq<char>) -> CallView {
    if c.a_leg.dialogs.len() > 0 {
        let d = c.a_leg.dialogs[0];
        with_a_dialogs(
            c,
            c.a_leg.dialogs.update(
                0,
                DialogView { sip: StackDialogView { local_tag: tag, ..d.sip }, ..d },
            ),
        )
    } else {
        c
    }
}

/// Put the caller's dialog under another tag.
pub(crate) fn retag_a_dialog(call: &mut Call, tag: &String)
    ensures
        final(call)@ == retagged(old(call)@, tag@),
{
    if call.a_leg.dialogs.len() > 0 {
        let ghost before = call.a_leg.dialogs@;
        call.a_leg.dialogs[0].sip.local_tag = tag.clone();
        assert(views(call.a_leg.dialogs@) =~= views(before).update(0, call.a_leg.dialogs@[0]@));
    }
}

/// The description answered to the caller kept on its dialog.
pub open spec fn with_answer_sdp(c: CallView, body: Seq<u8>) -> CallView {
    if c.a_leg.dialogs.len() > 0 {
        with_a_dialogs(
            c,
            c.a_leg.dialogs.update(0, c.a_leg.dialogs[0].with_cached_sdp(body)),
        )
    } else {
        c
    }
}

/// Keep the description answered to the caller on its dialog.
pub(crate) fn keep_answer_sdp(call: &mut Call, body: Vec<u8>)
    ensures
        final(call)@ == with_answer_sdp(old(call)@, body@),
{
    if call.a_leg.dialogs.len() > 0 {
        let ghost before = call.a_leg.dialogs@;
        call.a_leg.dialogs[0].ext.cached_sdp = Some(body);
        assert(views(call.a_leg.dialogs@) =~= views(before).update(0, call.a_leg.dialogs@[0]@));
    }
}

// ── early dialogs ───────────────────────────────────────────────────────
/// A dialog with what a response taught of its peer.
pub open spec fn learned(
    d: DialogView,
    tag: Option<Seq<char>>,
    contact: Option<Seq<char>>,
    routes: Seq<Seq<char>>,
) -> DialogView {
    DialogView {
        sip: StackDialogView {
            remote_tag: match tag {
                Some(t) => t,
                None => d.sip.remote_tag,
            },
            remote_target: match contact {
                Some(u) => u,
                None => d.sip.remote_target,
            },
            route_set: if routes.len() > 0 {
                routes
            } else {
                d.sip.route_set
            },
            ..d.sip
        },
        ..d
    }
}

fn learn(d: &mut Dialog, tag: Option<String>, contact: Option<String>, routes: Vec<String>)
    ensures
        final(d)@ == learned(old(d)@, opt_view(tag), opt_view(contact), views(routes@)),
{
    assert(views(routes@).len() == routes@.len());
    if let Some(t) = tag {
        d.sip.remote_tag = t;
    }
    if let Some(u) = contact {
        d.sip.remote_target = u;
    }
    if routes.len() > 0 {
        d.sip.route_set = routes;
    }
}

pub open spec fn has_handle() -> spec_fn(DialogView) -> bool {
    |d: DialogView| d.ext.pending_invite_txn is Some
}

/// The transaction of the INVITE that opened a leg.
pub open spec fn leg_handle(l: LegView) -> Option<InviteTxnView> {
    match find_where(l.dialogs, has_handle()) {
        Some(d) => d.ext.pending_invite_txn,
        None => None,
    }
}

fn invite_handle(l: &Leg) -> (r: Option<InviteTxn>)
    ensures
        opt_view(r) == leg_handle(l@),
{
    let ghost p = has_handle();
    for i in 0..l.dialogs.len()
        invariant
            p == has_handle(),
            forall|j: int| 0 <= j < i ==> !p(#[trigger] l@.dialogs[j]),
    {
        assert(l@.dialogs[i as int] == l.dialogs@[i as int]@);
        if l.dialogs[i].ext.pending_invite_txn.is_some() {
            proof {
                first_where_is(l@.dialogs, p, i as int);
            }
            return l.dialogs[i].ext.pending_invite_txn.clone();
        }
    }
    proof {
        first_where_none(l@.dialogs, p);
    }
    None
}

/// A further early dialog of a leg, with a sequence of its own that starts at
/// the INVITE's.
pub open spec fn fork(l: LegView, tag: Seq<char>, cseq: i64) -> DialogView {
    DialogView {
        sip: StackDialogView {
            call_id: l.call_id,
            local_tag: l.from_tag,
            remote_tag: tag,
            local_uri: tag_or_empty(l.local_uri),
            remote_uri: tag_or_empty(l.remote_uri),
            remote_target: tag_or_empty(l.remote_uri),
            local_cseq: cseq,
            route_set: Seq::empty(),
        },
        ext: DialogExtView { pending_invite_txn: leg_handle(l), ..blank_ext() },
    }
}

/// A leg with the early dialog of `tag`: the untagged one takes the tag, else a
/// further one is added.
pub open spec fn early_leg(
    l: LegView,
    tag: Seq<char>,
    cseq: i64,
    contact: Option<Seq<char>>,
    routes: Seq<Seq<char>>,
) -> LegView {
    LegView {
        state: LegState::Early,
        dialogs: match first_where(l.dialogs, dialog_untagged()) {
            Some(i) => l.dialogs.update(i, learned(l.dialogs[i], Some(tag), contact, routes)),
            None => l.dialogs.push(learned(fork(l, tag, cseq), None, contact, routes)),
        },
        ..l
    }
}

/// A callee's dialog of that tag is known already.
pub open spec fn tracks(c: CallView, leg_id: Seq<char>, tag: Seq<char>) -> bool {
    match find_where(c.b_legs, leg_named(leg_id)) {
        Some(l) => any_where(l.dialogs, dialog_toward(tag)),
        None => false,
    }
}

/// The call with the callee's early dialog of `tag`.
#[verifier::opaque]
pub open spec fn with_early_dialog(
    config: ConfigView,
    c: CallView,
    leg_id: Seq<char>,
    resp: SipResponseView,
    tag: Seq<char>,
) -> CallView {
    if tracks(c, leg_id, tag) {
        c
    } else {
        match c.leg(leg_id) {
            Some(l) => c.with_leg(
                leg_id,
                early_leg(
                    l,
                    tag,
                    resp.cseq,
                    contact_of(resp.headers),
                    stored_routes(config, uac_routes(resp)),
                ),
            ),
            None => c,
        }
    }
}

fn already_tracked(call: &Call, leg_id: &String, tag: &String) -> (r: bool)
    ensures
        r == tracks(call@, leg_id@, tag@),
{
    match find_leg_index(&call.b_legs, leg_id) {
        Some(i) => {
            assert(call@.b_legs[i as int] == call.b_legs@[i as int]@);
            let found = find_dialog_toward(&call.b_legs[i].dialogs, tag);
            proof {
                first_where_found(call@.b_legs[i as int].dialogs, dialog_toward(tag@));
                match found {
                    Some(k) => {
                        assert(dialog_toward(tag@)(call@.b_legs[i as int].dialogs[k as int]));
                    },
                    None => {},
                }
            }
            found.is_some()
        },
        None => false,
    }
}

impl<'a> ActionExecutor<'a> {
    /// Establish the callee's early dialog of `tag`. Nothing changes where it
    /// is known.
    pub(crate) fn track_b_early_dialog(
        &self,
        call: &mut Call,
        leg_id: &String,
        resp: &SipResponse,
        tag: &String,
    )
        ensures
            final(call)@ == with_early_dialog(self@.config, old(call)@, leg_id@, resp@, tag@),
    {
        proof {
            reveal(with_early_dialog);
        }
        if already_tracked(call, leg_id, tag) {
            return;
        }
        let contact = contact_uri(&resp.headers);
        let routes = dialog_route_set(self.config, uac_route_set(resp));
        if let Some(l) = leg_mut(call, leg_id) {
            let ghost l0 = l@;
            let ghost before = l.dialogs@;
            match find_untagged_dialog(&l.dialogs) {
                Some(i) => {
                    l.state = LegState::Early;
                    learn(&mut l.dialogs[i], Some(tag.clone()), contact, routes);
                    assert(views(l.dialogs@) =~= views(before).update(
                        i as int,
                        l.dialogs@[i as int]@,
                    ));
                },
                None => {
                    let mut ext = new_ext();
                    ext.pending_invite_txn = invite_handle(l);
                    let empty: Vec<String> = Vec::new();
                    assert(views(empty@) =~= Seq::<Seq<char>>::empty());
                    let mut d = Dialog {
                        sip: StackDialog {
                            call_id: l.call_id.clone(),
                            local_tag: l.from_tag.clone(),
                            remote_tag: tag.clone(),
                            local_uri: tag_text(&l.local_uri),
                            remote_uri: tag_text(&l.remote_uri),
                            remote_target: tag_text(&l.remote_uri),
                            local_cseq: resp.cseq,
                            route_set: empty,
                        },
                        ext,
                    };
                    assert(d@ == fork(l0, tag@, resp@.cseq));
                    learn(&mut d, None, contact, routes);
                    l.state = LegState::Early;
                    l.dialogs.push(d);
                    assert(views(l.dialogs@) =~= views(before).push(d@));
                },
            }
        }
    }

    /// Establish the early dialog of the event's own response where it was
    /// not relayed.
    pub(crate) fn ensure_b_early_dialog(
        &self,
        call: &mut Call,
        ctx: &RuleContext,
        leg_id: &String,
        b_tag: &String,
    )
        ensures
            final(call)@ == early_ensured(self@.config, old(call)@, ctx@, leg_id@, b_tag@),
    {
        proof {
            reveal(early_ensured);
        }
        if is_empty(b_tag) || is_a(leg_id) {
            return;
        }
        if let Some(resp) = ctx.response() {
            if *ctx.source_leg_id != *leg_id {
                return;
            }
            match &resp.to_tag {
                Some(t) => {
                    if *t != *b_tag {
                        return;
                    }
                },
                None => {
                    return;
                },
            }
            self.track_b_early_dialog(call, leg_id, resp, b_tag);
        }
    }
}

/// The call with the early dialog of the event's own response, where that is
/// the dialog named.
#[verifier::opaque]
pub open spec fn early_ensured(
    config: ConfigView,
    c: CallView,
    ctx: RuleContextView,
    leg_id: Seq<char>,
    b_tag: Seq<char>,
) -> CallView {
    match ctx.response() {
        Some(resp) => if b_tag.len() > 0 && leg_id != "a"@ && ctx.source_leg_id == leg_id
            && resp.to_tag == Some(b_tag) {
            with_early_dialog(config, c, leg_id, resp, b_tag)
        } else {
            c
        },
        None => c,
    }
}

// ── confirmation ────────────────────────────────────────────────────────
/// The dialog a 2xx under `tag` confirms: the one of that tag, else the
/// untagged one, else the first.
pub open spec fn confirmed_index(ds: Seq<DialogView>, tag: Seq<char>) -> int {
    let named = if tag.len() > 0 {
        first_where(ds, dialog_toward(tag))
    } else {
        None
    };
    match named {
        Some(i) => i,
        None => match first_where(ds, dialog_untagged()) {
            Some(i) => i,
            None => 0,
        },
    }
}

/// A leg confirmed: one dialog survives, with what the 2xx taught.
pub open spec fn confirmed_leg(
    l: LegView,
    resp: SipResponseView,
    routes: Seq<Seq<char>>,
) -> LegView {
    let tag = tag_or_empty(resp.to_tag);
    let i = confirmed_index(l.dialogs, tag);
    LegView {
        state: LegState::Confirmed,
        disposition: LegDisposition::Bridged,
        dialogs: if i < l.dialogs.len() {
            seq![
                learned(
                    l.dialogs[i],
                    if tag.len() > 0 {
                        Some(tag)
                    } else {
                        None
                    },
                    contact_of(resp.headers),
                    routes,
                ).heard(resp.cseq),
            ]
        } else {
            l.dialogs
        },
        ..l
    }
}

/// The call with the answering leg confirmed.
#[verifier::opaque]
pub open spec fn b_confirmed(
    config: ConfigView,
    c: CallView,
    leg_id: Seq<char>,
    resp: SipResponseView,
) -> CallView {
    match c.b_at(leg_id) {
        Some(i) => CallView {
            b_legs: c.b_legs.update(
                i,
                confirmed_leg(c.b_legs[i], resp, stored_routes(config, uac_routes(resp))),
            ),
            ..c
        },
        None => c,
    }
}

/// The description the caller is answered with: the staged one, else the
/// callee's.
pub open spec fn answer_body(c: CallView, resp: SipResponseView) -> Option<Seq<u8>> {
    match c.policy_update_body {
        Some(b) => Some(b),
        None => if resp.body.len() > 0 {
            Some(resp.body)
        } else {
            None
        },
    }
}

/// The answering leg is bridged to the caller.
pub open spec fn answer_faces_caller(c: CallView, leg_id: Seq<char>) -> bool {
    match find_where(c.b_legs, leg_named(leg_id)) {
        Some(l) => l.adopted,
        None => true,
    }
}

impl ExecView {
    /// The event's 2xx taken as the answer of `leg_id`.
    #[verifier::opaque]
    pub open spec fn confirm_dialog(
        self,
        w: WorkView,
        ctx: RuleContextView,
        leg_id: Seq<char>,
    ) -> WorkView {
        match ctx.response() {
            Some(resp) => {
                let tag = tag_or_empty(resp.to_tag);
                let c1 = b_confirmed(self.config, w.call, leg_id, resp);
                let preferred = match c1.by_b_tag(leg_id, tag) {
                    Some(m) => Some(m.a_tag),
                    None => None,
                };
                let w2 = self.ensure_a_dialog(w.on(c1), preferred).0;
                let c3 = match preferred {
                    Some(p) => if p.len() > 0 {
                        retagged(w2.call, p)
                    } else {
                        w2.call
                    },
                    None => w2.call,
                };
                let c4 = match answer_body(c3, resp) {
                    Some(b) => with_answer_sdp(c3, b),
                    None => c3,
                };
                w2.on(
                    if c4.state == CallModelState::Active && answer_faces_caller(c4, leg_id) {
                        c4.set_leg_state(c4.a_leg.leg_id, LegState::Confirmed)
                    } else {
                        c4
                    },
                )
            },
            None => w,
        }
    }
}

fn pick_confirmed(dialogs: &Vec<Dialog>, tag: &String) -> (r: usize)
    ensures
        r == confirmed_index(views(dialogs@), tag@),
{
    if !is_empty(tag) {
        if let Some(i) = find_dialog_toward(dialogs, tag) {
            return i;
        }
    }
    match find_untagged_dialog(dialogs) {
        Some(i) => i,
        None => 0,
    }
}

fn confirm_leg(l: &mut Leg, resp: &SipResponse, routes: Vec<String>)
    ensures
        final(l)@ == confirmed_leg(old(l)@, resp@, views(routes@)),
{
    let tag = tag_text(&resp.to_tag);
    let contact = contact_uri(&resp.headers);
    let i: usize = pick_confirmed(&l.dialogs, &tag);
    assert(l@.dialogs.len() == l.dialogs@.len());
    if i < l.dialogs.len() {
        let mut d = l.dialogs[i].clone();
        let known = if is_empty(&tag) {
            None
        } else {
            Some(tag)
        };
        learn(&mut d, known, contact, routes);
        d.ext.remote_cseq = Some(resp.cseq);
        let mut one: Vec<Dialog> = Vec::new();
        one.push(d);
        assert(views(one@) =~= seq![d@]);
        l.dialogs = one;
    }
    l.state = LegState::Confirmed;
    l.disposition = LegDisposition::Bridged;
}

fn confirm_b(config: &Config, call: &mut Call, leg_id: &String, resp: &SipResponse)
    ensures
        final(call)@ == b_confirmed(config@, old(call)@, leg_id@, resp@),
{
    proof {
        reveal(b_confirmed);
    }
    let routes = dialog_route_set(config, uac_route_set(resp));
    if let Some(i) = find_leg_index(&call.b_legs, leg_id) {
        let ghost before = call.b_legs@;
        confirm_leg(&mut call.b_legs[i], resp, routes);
        assert(views(call.b_legs@) =~= views(before).update(i as int, call.b_legs@[i as int]@));
    }
}

fn faces_caller(call: &Call, leg_id: &String) -> (r: bool)
    ensures
        r == answer_faces_caller(call@, leg_id@),
{
    match find_leg_index(&call.b_legs, leg_id) {
        Some(i) => {
            assert(call@.b_legs[i as int] == call.b_legs@[i as int]@);
            call.b_legs[i].adopted
        },
        None => true,
    }
}

fn body_answered(call: &Call, resp: &SipResponse) -> (r: Option<Vec<u8>>)
    ensures
        opt_view(r) == answer_body(call@, resp@),
{
    match &call.policy_update_body {
        Some(b) => Some(clone_bytes(b)),
        None => if resp.body.len() > 0 {
            Some(clone_bytes(&resp.body))
        } else {
            None
        },
    }
}

impl<'a> ActionExecutor<'a> {
    /// Take the event's 2xx as the answer of `leg_id`: one dialog of the leg
    /// survives, and the caller's dialog goes by the tag the caller saw for it.
    pub(crate) fn confirm_dialog(&self, w: &mut Work, ctx: &RuleContext, leg_id: &String)
        ensures
            final(w)@ == self@.confirm_dialog(old(w)@, ctx@, leg_id@),
    {
        proof {
            reveal(ExecView::confirm_dialog);
        }
        let resp = match ctx.response() {
            Some(r) => r,
            None => {
                return;
            },
        };
        let tag = tag_text(&resp.to_tag);
        confirm_b(self.config, &mut w.call, leg_id, resp);
        let preferred = match find_by_b_tag(&w.call, leg_id, &tag) {
            Some(m) => Some(m.a_tag.clone()),
            None => None,
        };
        let again = preferred.clone();
        let _shown = self.ensure_a_dialog_with(w, preferred);
        if let Some(p) = &again {
            if !is_empty(p) {
                retag_a_dialog(&mut w.call, p);
            }
        }
        if let Some(b) = body_answered(&w.call, resp) {
            keep_answer_sdp(&mut w.call, b);
        }
        if w.call.state == CallModelState::Active && faces_caller(&w.call, leg_id) {
            let a = w.call.a_leg.leg_id.clone();
            set_leg_state(&mut w.call, &a, LegState::Confirmed);
        }
    }
}

// ── laws ────────────────────────────────────────────────────────────────
/// A confirmed leg holds at most one dialog more than none: the losing forks
/// are gone.
pub proof fn one_dialog_survives_confirmation(
    l: LegView,
    resp: SipResponseView,
    routes: Seq<Seq<char>>,
)
    requires
        l.dialogs.len() > 0,
    ensures
        confirmed_leg(l, resp, routes).dialogs.len() == 1,
        confirmed_leg(l, resp, routes).state == LegState::Confirmed,
{
    first_where_found(l.dialogs, dialog_toward(tag_or_empty(resp.to_tag)));
    first_where_found(l.dialogs, dialog_untagged());
}

/// The surviving dialog keeps the sequence it had: numbers its early requests
/// spent are not spent again.
pub proof fn confirmation_keeps_the_sequence(
    l: LegView,
    resp: SipResponseView,
    routes: Seq<Seq<char>>,
)
    requires
        l.dialogs.len() > 0,
    ensures
        confirmed_leg(l, resp, routes).dialogs[0].sip.local_cseq == l.dialogs[confirmed_index(
            l.dialogs,
            tag_or_empty(resp.to_tag),
        )].sip.local_cseq,
{
    first_where_found(l.dialogs, dialog_toward(tag_or_empty(resp.to_tag)));
    first_where_found(l.dialogs, dialog_untagged());
}

/// The caller's tag is stable: once it has one, ensuring its dialog changes
/// nothing and returns that tag.
pub proof fn caller_tag_is_stable(
    x: ExecView,
    w: WorkView,
    p: Option<Seq<char>>,
    q: Option<Seq<char>>,
)
    requires
        p is Some ==> p->0.len() > 0,
    ensures
        ({
            let (w1, t) = x.ensure_a_dialog(w, p);
            x.ensure_a_dialog(w1, q) == (w1, t)
        }),
{
    reveal(ExecView::ensure_a_dialog);
    decimal_nonempty(w.ids.next as nat);
}

/// Tracking a callee's early dialog twice is tracking it once.
pub proof fn tracking_is_idempotent(
    config: ConfigView,
    c: CallView,
    leg_id: Seq<char>,
    resp: SipResponseView,
    tag: Seq<char>,
)
    requires
        c.a_leg.leg_id != leg_id,
    ensures
        ({
            let d = with_early_dialog(config, c, leg_id, resp, tag);
            with_early_dialog(config, d, leg_id, resp, tag) == d
        }),
{
    reveal(with_early_dialog);
    if !tracks(c, leg_id, tag) {
        first_where_found(c.b_legs, leg_named(leg_id));
        match c.b_at(leg_id) {
            Some(i) => {
                let l = c.b_legs[i];
                let e = early_leg(
                    l,
                    tag,
                    resp.cseq,
                    contact_of(resp.headers),
                    stored_routes(config, uac_routes(resp)),
                );
                let d = with_early_dialog(config, c, leg_id, resp, tag);
                leg_of_with_leg(c, leg_id, e);
                assert(d.leg(leg_id) == Some(e));
                first_where_found(l.dialogs, dialog_untagged());
                let p = dialog_toward(tag);
                match first_where(l.dialogs, dialog_untagged()) {
                    Some(k) => {
                        assert(p(e.dialogs[k]));
                    },
                    None => {
                        assert(p(e.dialogs[l.dialogs.len() as int]));
                    },
                }
                assert(any_where(e.dialogs, p));
            },
            None => {},
        }
    }
}

} // verus!
