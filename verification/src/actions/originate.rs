//! The requests this stack sends of its own: the INVITE that opens a leg, and
//! the re-INVITE, NOTIFY, PRACK and other requests within a dialog. What relays
//! a peer's request is [`super::relay_request`].
use vstd::prelude::*;

use super::dialog_track::{blank_ext, new_ext};
use super::respond::{content_type, content_type_of, media_type, media_type_of};
use super::select::{in_dialog, in_dialog_method};
use super::teardown::{end_call, terminate_all};
use super::{ActionExecutor, ExecView, Work, WorkView};
use crate::action::{NewLeg, NewLegView};
use crate::call::{
    Call, CallModelState, CallView, CdrEvent, CdrEventType, CdrEventView, Config, ConfigView,
    Destination, DestinationView, Dialog, DialogExtView, DialogView, InviteTxn, InviteTxnView, Leg,
    LegDisposition, LegState, LegView, OptionTagUse, PrackedProvisionalView, StackDialog,
    StackDialogView, TimerType, TimerTypeView,
};
use crate::capabilities::{
    advertised_set, charging_vector, face_of_leg, for_leg, offered_option_tags, option_tags,
    relaying_for_leg, relaying_set, stated_charging_vector, withheld_option_tags,
};
use crate::effects::{
    InvitePlan, InvitePlanView, OutboundBody, OutboundBodyView, OutboundSip, OutboundSipView,
    Provenance, RequestPlan, RequestPlanView, TxnMode,
};
use crate::headers::{
    bare_uri, clone_lines, lines_outside, named_outside, to_bare_uri,
};
use crate::lens::{
    bump_local_cseq, clamp, clamped_add, clamped_millis, dialog_identity_tag, dialog_named,
    dialog_of_with_dialog, dialog_tagged, dialog_toward, find_dialog_toward, find_leg,
    find_tagged_dialog, identity_tag, is_empty, leg_named, leg_of_with_leg, opt_dialog,
    set_own_invite_txn,
};
use crate::model::{RuleContext, RuleContextView};
use crate::reliable::{pracked, pracked_as, record_pracked_provisional};
use crate::sdp::{carries_sdp, is_sdp};
use crate::seqs::{
    find_where, first_where, first_where_found, first_where_is, is_first, keep, opt_view, views,
};
use crate::state::{add_b_leg, add_cdr_event};
use crate::text::{
    clone_bytes, clone_opt_bytes, clone_texts, decimal, decimal_text, ends_with, ends_with_text,
};
use crate::wire::{
    HeaderUpdate, HostPort, HostPortView, Method, MethodView, SipHeader, SipHeaderView,
};

verus! {

// ── admission ───────────────────────────────────────────────────────────
/// Whether calls may be sent to a host: its suffix is listed, or nothing is.
pub open spec fn admitted(host: Seq<char>, suffixes: Seq<Seq<char>>) -> bool {
    suffixes.len() == 0 || exists|i: int|
        0 <= i < suffixes.len() && ends_with_text(host, #[trigger] suffixes[i])
}

fn admits(host: &String, suffixes: &Vec<String>) -> (r: bool)
    ensures
        r == admitted(host@, views(suffixes@)),
{
    if suffixes.len() == 0 {
        return true;
    }
    for i in 0..suffixes.len()
        invariant
            forall|j: int| 0 <= j < i ==> !ends_with_text(host@, #[trigger] views(suffixes@)[j]),
    {
        assert(views(suffixes@)[i as int] == suffixes@[i as int]@);
        if ends_with(host.as_str(), suffixes[i].as_str()) {
            return true;
        }
    }
    false
}

/// Whether an optional address field reads.
pub open spec fn address_reads(s: Option<Seq<char>>) -> bool {
    s is Some ==> bare_uri(s->0) is Some
}

/// The first address field of a new leg that does not read.
pub open spec fn unread_field(n: NewLegView) -> Option<Seq<char>> {
    if !address_reads(n.new_ruri) {
        Some("new_ruri"@)
    } else if !address_reads(n.new_from) {
        Some("new_from"@)
    } else if !address_reads(n.new_to) {
        Some("new_to"@)
    } else {
        None
    }
}

/// An optional address in its bare form.
pub open spec fn bare_opt(s: Option<Seq<char>>) -> Option<Seq<char>> {
    match s {
        Some(t) => bare_uri(t),
        None => None,
    }
}

fn bare(s: &Option<String>) -> (r: Option<String>)
    ensures
        opt_view(r) == bare_opt(opt_view(*s)),
{
    match s {
        Some(t) => to_bare_uri(t.as_str()),
        None => None,
    }
}

fn first_unread(n: &NewLeg) -> (r: Option<String>)
    ensures
        opt_view(r) == unread_field(n@),
{
    if n.new_ruri.is_some() && bare(&n.new_ruri).is_none() {
        return Some("new_ruri".to_string());
    }
    if n.new_from.is_some() && bare(&n.new_from).is_none() {
        return Some("new_from".to_string());
    }
    if n.new_to.is_some() && bare(&n.new_to).is_none() {
        return Some("new_to".to_string());
    }
    None
}

// ── the new leg ─────────────────────────────────────────────────────────
/// Whether the INVITE of a new leg carries an offer.
pub open spec fn offers(c: CallView, n: NewLegView) -> bool {
    match n.body_override {
        Some(b) => b.len() > 0,
        None => is_sdp(c.a_leg_invite.headers, c.a_leg_invite.body),
    }
}

/// A ring deadline the INVITE transaction outlives.
pub open spec fn ring_deadline(config: ConfigView, secs: i64) -> i64 {
    if secs > config.no_answer_ceiling_sec {
        config.no_answer_ceiling_sec
    } else {
        secs
    }
}

/// The id of the next leg of a call.
pub open spec fn next_leg_id(c: CallView) -> Seq<char> {
    let n = c.b_legs.len() + 1;
    "b-"@ + decimal_text(
        if n > u64::MAX {
            u64::MAX as nat
        } else {
            n as nat
        },
    )
}

pub open spec fn or_else(o: Option<Seq<char>>, d: Seq<char>) -> Seq<char> {
    match o {
        Some(t) => t,
        None => d,
    }
}

/// Where the INVITE of a new leg goes: through the front proxy where there is
/// one.
pub open spec fn egress(config: ConfigView, at: HostPortView) -> DestinationView {
    match config.outbound_proxy {
        Some(p) => DestinationView::Address { at: p },
        None => DestinationView::Address { at },
    }
}

/// A new leg: trying, with the one dialog its answers will name.
pub open spec fn new_leg(
    config: ConfigView,
    c: CallView,
    n: NewLegView,
    call_id: Seq<char>,
    from_tag: Seq<char>,
    branch: Seq<char>,
) -> LegView {
    let local = or_else(bare_opt(n.new_from), c.a_leg_invite.from_uri);
    let remote = or_else(bare_opt(n.new_to), c.a_leg_invite.to_uri);
    LegView {
        leg_id: next_leg_id(c),
        call_id,
        from_tag,
        local_uri: Some(local),
        remote_uri: Some(remote),
        state: LegState::Trying,
        disposition: LegDisposition::Pending,
        bye_disposition: None,
        kind: n.kind,
        adopted: n.kind is None,
        offers_sdp: offers(c, n),
        invite_final_sent: None,
        dialogs: seq![
            DialogView {
                sip: StackDialogView {
                    call_id,
                    local_tag: from_tag,
                    remote_tag: Seq::empty(),
                    local_uri: local,
                    remote_uri: remote,
                    remote_target: or_else(bare_opt(n.new_ruri), remote),
                    local_cseq: 1,
                    route_set: Seq::empty(),
                },
                ext: DialogExtView {
                    pending_invite_txn: Some(
                        InviteTxnView {
                            branch,
                            cseq: 1,
                            destination: egress(config, n.destination),
                            emergency: c.is_emergency(),
                        },
                    ),
                    ..blank_ext()
                },
            },
        ],
    }
}

/// The INVITE that opens a new leg.
pub open spec fn opening_invite(c: CallView, n: NewLegView, l: LegView) -> InvitePlanView {
    InvitePlanView {
        leg_id: l.leg_id,
        call_id: l.call_id,
        from_tag: l.from_tag,
        branch: l.dialogs[0].ext.pending_invite_txn->0.branch,
        cseq: 1,
        new_ruri: bare_opt(n.new_ruri),
        new_from: bare_opt(n.new_from),
        new_to: bare_opt(n.new_to),
        body_override: n.body_override,
        header_updates: n.header_updates,
        capabilities: relaying_set(c.features, face_of_leg(l.leg_id), c.a_leg_invite.headers),
        charging_vector: charging_vector(c.features),
        withheld_option_tags: option_tags(
            c.features,
            OptionTagUse::Withheld,
            n.kind,
            offers(c, n),
        ),
        offered_option_tags: option_tags(
            c.features,
            OptionTagUse::Offered,
            n.kind,
            offers(c, n),
        ),
        kind: n.kind,
        emergency: c.is_emergency(),
    }
}

/// The call ended because a leg could not be created.
pub open spec fn refused(
    c: CallView,
    now_ms: i64,
    leg_id: Seq<char>,
    status: i64,
    reason: Seq<char>,
) -> CallView {
    terminate_all(
        c.add_cdr_event(
            CdrEventView {
                event_type: CdrEventType::Reject,
                timestamp: now_ms,
                leg_id,
                status_code: Some(status),
                reason: Some(reason),
                decision_ordinal: 0,
            },
        ),
        now_ms,
        Some(reason),
        Some(leg_id),
    )
}

impl ExecView {
    /// The leg created and its INVITE sent, with its ring deadline armed.
    #[verifier::opaque]
    pub open spec fn leg_created(self, w: WorkView, n: NewLegView) -> WorkView {
        let l = new_leg(
            self.config,
            w.call,
            n,
            w.ids.tag(),
            w.ids.after().tag(),
            w.ids.after().after().branch(),
        );
        let c1 = match n.callback_context {
            Some(t) => CallView { callback_context: Some(t), ..w.call },
            None => w.call,
        };
        let w1 = w.minted().minted().minted().on(c1.add_b_leg(l)).send(
            OutboundSipView {
                body: OutboundBodyView::Invite { invite: opening_invite(w.call, n, l) },
                mode: TxnMode::NewInvite,
                destination: egress(self.config, n.destination),
                leg_id: Some(l.leg_id),
                provenance: Provenance::Authored,
            },
        );
        match n.no_answer_timeout_sec {
            Some(secs) => self.schedule(
                w1,
                TimerTypeView::NoAnswer,
                clamp(ring_deadline(self.config, secs) * 1000),
                Some(l.leg_id),
            ),
            None => w1,
        }
    }

    /// A leg created; or the call ended, where the destination is not admitted
    /// or an address does not read.
    #[verifier::opaque]
    pub open spec fn create_leg(
        self,
        w: WorkView,
        ctx: RuleContextView,
        n: NewLegView,
    ) -> WorkView {
        if !admitted(n.destination.host, self.config.worker_allowed_target_suffixes) {
            w.on(
                refused(
                    w.call,
                    self.now_ms,
                    ctx.source_leg_id,
                    503,
                    "admission_reject host="@ + n.destination.host,
                ),
            )
        } else {
            match unread_field(n) {
                Some(field) => w.on(
                    refused(
                        w.call,
                        self.now_ms,
                        ctx.source_leg_id,
                        500,
                        "unreadable_address field="@ + field,
                    ),
                ),
                None => self.leg_created(w, n),
            }
        }
    }
}

/// The id of the next leg of a call.
pub(crate) fn leg_id_for(call: &Call) -> (r: String)
    ensures
        r@ == next_leg_id(call@),
{
    let mut s = "b-".to_string();
    let n: u64 = call.b_legs.len() as u64;
    let d = decimal(n.saturating_add(1));
    s.append(d.as_str());
    s
}

fn egress_of(config: &Config, at: &HostPort) -> (r: Destination)
    ensures
        r@ == egress(config@, at@),
{
    match &config.outbound_proxy {
        Some(p) => Destination::Address { at: p.clone() },
        None => Destination::Address { at: at.clone() },
    }
}

fn refuse(call: &mut Call, now_ms: i64, leg_id: &String, status: i64, reason: String)
    ensures
        final(call)@ == refused(old(call)@, now_ms, leg_id@, status, reason@),
{
    add_cdr_event(
        call,
        CdrEvent {
            event_type: CdrEventType::Reject,
            timestamp: now_ms,
            leg_id: leg_id.clone(),
            status_code: Some(status),
            reason: Some(reason.clone()),
            decision_ordinal: 0,
        },
    );
    end_call(call, now_ms, Some(reason), Some(leg_id.clone()));
}

fn build_leg(
    config: &Config,
    call: &Call,
    n: &NewLeg,
    call_id: &String,
    from_tag: &String,
    branch: &String,
) -> (r: Leg)
    ensures
        r@ == new_leg(config@, call@, n@, call_id@, from_tag@, branch@),
{
    let local = match bare(&n.new_from) {
        Some(t) => t,
        None => call.a_leg_invite.from_uri.clone(),
    };
    let remote = match bare(&n.new_to) {
        Some(t) => t,
        None => call.a_leg_invite.to_uri.clone(),
    };
    let target = match bare(&n.new_ruri) {
        Some(t) => t,
        None => remote.clone(),
    };
    let mut ext = new_ext();
    ext.pending_invite_txn = Some(
        InviteTxn {
            branch: branch.clone(),
            cseq: 1,
            destination: egress_of(config, &n.destination),
            emergency: call.is_emergency(),
        },
    );
    let offers_sdp = match &n.body_override {
        Some(b) => b.len() > 0,
        None => carries_sdp(&call.a_leg_invite.headers, &call.a_leg_invite.body),
    };
    let d = Dialog {
        sip: StackDialog {
            call_id: call_id.clone(),
            local_tag: from_tag.clone(),
            remote_tag: String::new(),
            local_uri: local.clone(),
            remote_uri: remote.clone(),
            remote_target: target,
            local_cseq: 1,
            route_set: Vec::new(),
        },
        ext,
    };
    assert(d.sip.remote_tag@ =~= Seq::empty());
    assert(views(d.sip.route_set@) =~= Seq::empty());
    let mut dialogs: Vec<Dialog> = Vec::new();
    dialogs.push(d);
    assert(views(dialogs@) =~= seq![d@]);
    Leg {
        leg_id: leg_id_for(call),
        call_id: call_id.clone(),
        from_tag: from_tag.clone(),
        local_uri: Some(local),
        remote_uri: Some(remote),
        state: LegState::Trying,
        disposition: LegDisposition::Pending,
        bye_disposition: None,
        kind: n.kind,
        adopted: n.kind.is_none(),
        offers_sdp,
        invite_final_sent: None,
        dialogs,
    }
}

fn clone_updates(us: &Vec<HeaderUpdate>) -> (r: Vec<HeaderUpdate>)
    ensures
        views(r@) == views(us@),
{
    let mut out: Vec<HeaderUpdate> = Vec::new();
    for i in 0..us.len()
        invariant
            views(out@) == views(us@).take(i as int),
    {
        let ghost before = out@;
        out.push(us[i].clone());
        assert(views(out@) =~= views(before).push(us@[i as int]@));
        assert(views(us@).take(i + 1) =~= views(us@).take(i as int).push(us@[i as int]@));
    }
    assert(views(us@).take(us@.len() as int) =~= views(us@));
    out
}

// ── requests within a dialog ────────────────────────────────────────────
/// The dialog a request of this stack's own goes on: the first whose peer tag
/// is known.
pub open spec fn tagged_dialog(c: CallView, leg_id: Seq<char>) -> Option<DialogView> {
    match c.leg(leg_id) {
        Some(l) => find_where(l.dialogs, dialog_tagged()),
        None => None,
    }
}

/// A request within a dialog that states no more than its method.
pub open spec fn dialog_request(
    method: MethodView,
    emergency: bool,
    d: StackDialogView,
    branch: Seq<char>,
    cseq: i64,
) -> RequestPlanView {
    RequestPlanView {
        method,
        dialog: d,
        branch,
        cseq,
        rack: None,
        body: Seq::empty(),
        content_type: None,
        headers: Seq::empty(),
        event: None,
        subscription_state: None,
        contact: true,
        emergency,
        max_forwards: None,
        capabilities: None,
    }
}

/// The next hop of a dialog's requests.
pub open spec fn next_hop(d: StackDialogView) -> DestinationView {
    DestinationView::Target { uri: d.remote_target, route_set: d.route_set }
}

/// The transaction of a request of that method.
pub open spec fn txn_mode(m: MethodView) -> TxnMode {
    if m == MethodView::Invite {
        TxnMode::NewInvite
    } else {
        TxnMode::NewNonInvite
    }
}

/// A request toward the peer of a dialog.
pub open spec fn toward_peer(
    plan: RequestPlanView,
    leg_id: Seq<char>,
    provenance: Provenance,
) -> OutboundSipView {
    OutboundSipView {
        body: OutboundBodyView::Request { request: plan },
        mode: txn_mode(plan.method),
        destination: next_hop(plan.dialog),
        leg_id: Some(leg_id),
        provenance,
    }
}

/// Find the dialog a request of this stack's own goes on.
pub(crate) fn find_tagged<'a>(call: &'a Call, leg_id: &String) -> (r: Option<&'a Dialog>)
    ensures
        opt_dialog(r) == tagged_dialog(call@, leg_id@),
{
    match find_leg(call, leg_id) {
        Some(l) => match find_tagged_dialog(&l.dialogs) {
            Some(i) => {
                assert(l@.dialogs[i as int] == l.dialogs@[i as int]@);
                Some(&l.dialogs[i])
            },
            None => None,
        },
        None => None,
    }
}

/// Build a request within a dialog that states no more than its method.
pub(crate) fn bare_request(
    method: Method,
    emergency: bool,
    d: &StackDialog,
    branch: String,
    cseq: i64,
) -> (r: RequestPlan)
    ensures
        r@ == dialog_request(method@, emergency, d@, branch@, cseq),
{
    let r = RequestPlan {
        method,
        dialog: d.clone(),
        branch,
        cseq,
        rack: None,
        body: Vec::new(),
        content_type: None,
        headers: Vec::new(),
        event: None,
        subscription_state: None,
        contact: true,
        emergency,
        max_forwards: None,
        capabilities: None,
    };
    assert(r.body@ =~= Seq::empty());
    assert(views(r.headers@) =~= Seq::empty());
    r
}

/// Name the next hop of a dialog's requests.
pub(crate) fn next_hop_of(d: &StackDialog) -> (r: Destination)
    ensures
        r@ == next_hop(d@),
{
    Destination::Target { uri: d.remote_target.clone(), route_set: clone_texts(&d.route_set) }
}

/// Address a request toward the peer of a dialog.
pub(crate) fn to_peer(
    plan: RequestPlan,
    leg_id: &String,
    provenance: Provenance,
) -> (r: OutboundSip)
    ensures
        r@ == toward_peer(plan@, leg_id@, provenance),
{
    let destination = next_hop_of(&plan.dialog);
    let mode = if plan.method == Method::Invite {
        TxnMode::NewInvite
    } else {
        TxnMode::NewNonInvite
    };
    OutboundSip {
        body: OutboundBody::Request { request: plan },
        mode,
        destination,
        leg_id: Some(leg_id.clone()),
        provenance,
    }
}

/// A NOTIFY sent on the leg's dialog, under the next number of its sequence.
#[verifier::opaque]
pub open spec fn send_notify(
    w: WorkView,
    leg_id: Seq<char>,
    event: Seq<char>,
    subscription_state: Seq<char>,
    content_type: Option<Seq<char>>,
    body: Seq<u8>,
) -> WorkView {
    match tagged_dialog(w.call, leg_id) {
        Some(d) => {
            let plan = RequestPlanView {
                event: Some(event),
                subscription_state: Some(subscription_state),
                content_type: media_type_of(content_type),
                body,
                ..dialog_request(
                    MethodView::Notify,
                    w.call.is_emergency(),
                    d.sip,
                    w.ids.branch(),
                    clamp(d.sip.local_cseq + 1),
                )
            };
            w.on(w.call.bump_local_cseq(leg_id, identity_tag(leg_id, d), 1)).minted().send(
                toward_peer(plan, leg_id, Provenance::Authored),
            )
        },
        None => w,
    }
}

/// A re-INVITE sent on the leg's dialog; the dialog awaits its answer.
#[verifier::opaque]
pub open spec fn send_reinvite(
    w: WorkView,
    leg_id: Seq<char>,
    body: Seq<u8>,
    headers: Seq<SipHeaderView>,
) -> WorkView {
    match tagged_dialog(w.call, leg_id) {
        Some(d) => {
            let cseq = clamp(d.sip.local_cseq + 1);
            let tag = identity_tag(leg_id, d);
            let plan = RequestPlanView {
                content_type: content_type_of(None, body),
                body,
                headers,
                capabilities: Some(advertised_set(w.call.features, face_of_leg(leg_id))),
                ..dialog_request(
                    MethodView::Invite,
                    w.call.is_emergency(),
                    d.sip,
                    w.ids.branch(),
                    cseq,
                )
            };
            let txn = InviteTxnView {
                branch: w.ids.branch(),
                cseq,
                destination: next_hop(d.sip),
                emergency: w.call.is_emergency(),
            };
            w.on(
                w.call.bump_local_cseq(leg_id, tag, 1).set_own_invite_txn(leg_id, tag, txn),
            ).minted().send(toward_peer(plan, leg_id, Provenance::Authored))
        },
        None => w,
    }
}

/// The headers that describe a body; whoever carries the body writes them.
pub open spec fn body_headers() -> Seq<Seq<char>> {
    seq!["Content-Type"@, "Content-Length"@]
}

impl ExecView {
    /// A request sent on the leg's dialog, under the next number of its
    /// sequence.
    #[verifier::opaque]
    pub open spec fn send_request_to_leg(
        self,
        w: WorkView,
        leg_id: Seq<char>,
        method: MethodView,
        body: Seq<u8>,
        content_type: Option<Seq<char>>,
        headers: Seq<SipHeaderView>,
    ) -> WorkView {
        match tagged_dialog(w.call, leg_id) {
            Some(d) => if !in_dialog(method) {
                w
            } else {
                let reuse = method == MethodView::Options && self.config.keepalive_cseq_reuse;
                let cseq = if reuse {
                    d.sip.local_cseq
                } else {
                    clamp(d.sip.local_cseq + 1)
                };
                let call = if reuse {
                    w.call
                } else {
                    w.call.bump_local_cseq(leg_id, identity_tag(leg_id, d), 1)
                };
                let plan = RequestPlanView {
                    content_type: content_type_of(content_type, body),
                    body,
                    headers: keep(headers, named_outside(body_headers())),
                    ..dialog_request(
                        method,
                        w.call.is_emergency(),
                        d.sip,
                        w.ids.branch(),
                        cseq,
                    )
                };
                let provenance = if method == MethodView::Options {
                    Provenance::Probe
                } else {
                    Provenance::Authored
                };
                w.on(call).minted().send(toward_peer(plan, leg_id, provenance))
            },
            None => w,
        }
    }
}

pub open spec fn at_least_zero(n: i64) -> nat {
    if n < 0 {
        0
    } else {
        n as nat
    }
}

/// The acknowledgement of a reliable provisional, as a PRACK names it.
pub open spec fn rack_of(rseq: i64, cseq: i64) -> Seq<char> {
    decimal_text(at_least_zero(rseq)) + " "@ + decimal_text(at_least_zero(cseq)) + " INVITE"@
}

/// The dialog of a leg toward that callee tag.
pub open spec fn dialog_of_tag(
    c: CallView,
    leg_id: Seq<char>,
    tag: Seq<char>,
) -> Option<DialogView> {
    match c.leg(leg_id) {
        Some(l) => find_where(l.dialogs, dialog_toward(tag)),
        None => None,
    }
}

/// A reliable provisional acknowledged, once, on the dialog that raised it.
#[verifier::opaque]
pub open spec fn send_prack_to_leg(
    w: WorkView,
    leg_id: Seq<char>,
    rseq: i64,
    invite_cseq: i64,
    b_tag: Seq<char>,
) -> WorkView {
    match dialog_of_tag(w.call, leg_id, b_tag) {
        Some(d) => if d.sip.remote_tag.len() == 0 {
            w
        } else {
            let (call, first) = pracked(
                w.call,
                PrackedProvisionalView { leg_id, b_tag, invite_cseq, rseq },
            );
            if first {
                let plan = RequestPlanView {
                    rack: Some(rack_of(rseq, invite_cseq)),
                    ..dialog_request(
                        MethodView::Prack,
                        w.call.is_emergency(),
                        d.sip,
                        w.ids.branch(),
                        clamp(d.sip.local_cseq + 1),
                    )
                };
                w.on(call.bump_local_cseq(leg_id, identity_tag(leg_id, d), 1)).minted().send(
                    toward_peer(plan, leg_id, Provenance::Authored),
                )
            } else {
                w
            }
        },
        None => w,
    }
}

fn rack_text(rseq: i64, cseq: i64) -> (r: String)
    ensures
        r@ == rack_of(rseq, cseq),
{
    let n: u64 = if rseq < 0 {
        0
    } else {
        rseq as u64
    };
    let m: u64 = if cseq < 0 {
        0
    } else {
        cseq as u64
    };
    let mut s = decimal(n);
    s.append(" ");
    let t = decimal(m);
    s.append(t.as_str());
    s.append(" INVITE");
    s
}

fn find_toward<'a>(call: &'a Call, leg_id: &String, tag: &String) -> (r: Option<&'a Dialog>)
    ensures
        opt_dialog(r) == dialog_of_tag(call@, leg_id@, tag@),
{
    match find_leg(call, leg_id) {
        Some(l) => match find_dialog_toward(&l.dialogs, tag) {
            Some(i) => {
                assert(l@.dialogs[i as int] == l.dialogs@[i as int]@);
                Some(&l.dialogs[i])
            },
            None => None,
        },
        None => None,
    }
}

impl<'a> ActionExecutor<'a> {
    fn open_leg(&self, w: &mut Work, n: &NewLeg)
        ensures
            final(w)@ == self@.leg_created(old(w)@, n@),
    {
        proof {
            reveal(ExecView::leg_created);
        }
        let call_id = w.ids.new_tag();
        let from_tag = w.ids.new_tag();
        let branch = w.ids.new_branch();
        let leg = build_leg(self.config, &w.call, n, &call_id, &from_tag, &branch);
        let leg_id = leg.leg_id.clone();
        let invite = InvitePlan {
            leg_id: leg_id.clone(),
            call_id,
            from_tag,
            branch,
            cseq: 1,
            new_ruri: bare(&n.new_ruri),
            new_from: bare(&n.new_from),
            new_to: bare(&n.new_to),
            body_override: clone_opt_bytes(&n.body_override),
            header_updates: clone_updates(&n.header_updates),
            capabilities: relaying_for_leg(&w.call, leg_id.as_str(), &w.call.a_leg_invite.headers),
            charging_vector: stated_charging_vector(&w.call),
            withheld_option_tags: withheld_option_tags(&w.call, n.kind, leg.offers_sdp),
            offered_option_tags: offered_option_tags(&w.call, n.kind),
            kind: n.kind,
            emergency: w.call.is_emergency(),
        };
        if let Some(t) = &n.callback_context {
            w.call.callback_context = Some(t.clone());
        }
        add_b_leg(&mut w.call, leg);
        w.send(
            OutboundSip {
                body: OutboundBody::Invite { invite },
                mode: TxnMode::NewInvite,
                destination: egress_of(self.config, &n.destination),
                leg_id: Some(leg_id.clone()),
                provenance: Provenance::Authored,
            },
        );
        if let Some(secs) = n.no_answer_timeout_sec {
            let held = if secs > self.config.no_answer_ceiling_sec {
                self.config.no_answer_ceiling_sec
            } else {
                secs
            };
            self.schedule(w, TimerType::NoAnswer, clamped_millis(held), Some(leg_id));
        }
    }

    /// Create a leg and send its INVITE. A destination that is not admitted, or
    /// an address that does not read, ends the call with the cause on record.
    pub(crate) fn create_leg(&self, w: &mut Work, ctx: &RuleContext, n: &NewLeg)
        ensures
            final(w)@ == self@.create_leg(old(w)@, ctx@, n@),
    {
        proof {
            reveal(ExecView::create_leg);
        }
        if !admits(&n.destination.host, &self.config.worker_allowed_target_suffixes) {
            let mut reason = "admission_reject host=".to_string();
            reason.append(n.destination.host.as_str());
            refuse(&mut w.call, self.now_ms, ctx.source_leg_id, 503, reason);
            return;
        }
        if let Some(field) = first_unread(n) {
            let mut reason = "unreadable_address field=".to_string();
            reason.append(field.as_str());
            refuse(&mut w.call, self.now_ms, ctx.source_leg_id, 500, reason);
            return;
        }
        self.open_leg(w, n);
    }

    /// Send a NOTIFY on the leg's dialog.
    pub(crate) fn send_notify(
        &self,
        w: &mut Work,
        leg_id: &String,
        event: &String,
        subscription_state: &String,
        content_type: &Option<String>,
        body: &Vec<u8>,
    )
        ensures
            final(w)@ == send_notify(
                old(w)@,
                leg_id@,
                event@,
                subscription_state@,
                opt_view(*content_type),
                body@,
            ),
    {
        proof {
            reveal(send_notify);
        }
        let d = match find_tagged(&w.call, leg_id) {
            Some(d) => d.clone(),
            None => {
                return;
            },
        };
        let tag = dialog_identity_tag(leg_id, &d);
        bump_local_cseq(&mut w.call, leg_id, &tag, 1);
        let branch = w.ids.new_branch();
        let mut plan = bare_request(
            Method::Notify,
            w.call.is_emergency(),
            &d.sip,
            branch,
            clamped_add(d.sip.local_cseq, 1),
        );
        plan.event = Some(event.clone());
        plan.subscription_state = Some(subscription_state.clone());
        plan.content_type = media_type(content_type);
        plan.body = clone_bytes(body);
        w.send(to_peer(plan, leg_id, Provenance::Authored));
    }

    /// Send a re-INVITE on the leg's dialog.
    pub(crate) fn send_reinvite(
        &self,
        w: &mut Work,
        leg_id: &String,
        body: &Vec<u8>,
        headers: &Vec<SipHeader>,
    )
        ensures
            final(w)@ == send_reinvite(old(w)@, leg_id@, body@, views(headers@)),
    {
        proof {
            reveal(send_reinvite);
        }
        let d = match find_tagged(&w.call, leg_id) {
            Some(d) => d.clone(),
            None => {
                return;
            },
        };
        let caps = for_leg(&w.call, leg_id.as_str());
        let tag = dialog_identity_tag(leg_id, &d);
        let cseq = clamped_add(d.sip.local_cseq, 1);
        bump_local_cseq(&mut w.call, leg_id, &tag, 1);
        let branch = w.ids.new_branch();
        let emergency = w.call.is_emergency();
        set_own_invite_txn(
            &mut w.call,
            leg_id,
            &tag,
            InviteTxn {
                branch: branch.clone(),
                cseq,
                destination: next_hop_of(&d.sip),
                emergency,
            },
        );
        let mut plan = bare_request(Method::Invite, w.call.is_emergency(), &d.sip, branch, cseq);
        plan.content_type = content_type(&None, body);
        plan.body = clone_bytes(body);
        plan.headers = clone_lines(headers);
        plan.capabilities = Some(caps);
        w.send(to_peer(plan, leg_id, Provenance::Authored));
    }

    /// Send a request on the leg's dialog: a keepalive OPTIONS, or what a
    /// service wants said.
    pub(crate) fn send_request_to_leg(
        &self,
        w: &mut Work,
        leg_id: &String,
        method: &Method,
        body: &Vec<u8>,
        content_type_stated: &Option<String>,
        headers: &Vec<SipHeader>,
    )
        ensures
            final(w)@ == self@.send_request_to_leg(
                old(w)@,
                leg_id@,
                method@,
                body@,
                opt_view(*content_type_stated),
                views(headers@),
            ),
    {
        proof {
            reveal(ExecView::send_request_to_leg);
        }
        if !in_dialog_method(method) {
            return;
        }
        let d = match find_tagged(&w.call, leg_id) {
            Some(d) => d.clone(),
            None => {
                return;
            },
        };
        let reuse = *method == Method::Options && self.config.keepalive_cseq_reuse;
        let cseq = if reuse {
            d.sip.local_cseq
        } else {
            let tag = dialog_identity_tag(leg_id, &d);
            bump_local_cseq(&mut w.call, leg_id, &tag, 1);
            clamped_add(d.sip.local_cseq, 1)
        };
        let branch = w.ids.new_branch();
        let mut plan = bare_request(method.clone(), w.call.is_emergency(), &d.sip, branch, cseq);
        let names: Vec<String> = vec!["Content-Type".to_string(), "Content-Length".to_string()];
        assert(views(names@) =~= body_headers());
        plan.content_type = content_type(content_type_stated, body);
        plan.body = clone_bytes(body);
        plan.headers = lines_outside(headers, &names);
        let provenance = if *method == Method::Options {
            Provenance::Probe
        } else {
            Provenance::Authored
        };
        w.send(to_peer(plan, leg_id, provenance));
    }

    /// Acknowledge a reliable provisional on the dialog that raised it, once.
    pub(crate) fn send_prack_to_leg(
        &self,
        w: &mut Work,
        leg_id: &String,
        rseq: i64,
        invite_cseq: i64,
        b_tag: &String,
    )
        ensures
            final(w)@ == send_prack_to_leg(old(w)@, leg_id@, rseq, invite_cseq, b_tag@),
    {
        proof {
            reveal(send_prack_to_leg);
        }
        let d = match find_toward(&w.call, leg_id, b_tag) {
            Some(d) => d.clone(),
            None => {
                return;
            },
        };
        if is_empty(&d.sip.remote_tag) {
            return;
        }
        if !record_pracked_provisional(&mut w.call, leg_id, b_tag, invite_cseq, rseq) {
            return;
        }
        let tag = dialog_identity_tag(leg_id, &d);
        bump_local_cseq(&mut w.call, leg_id, &tag, 1);
        let branch = w.ids.new_branch();
        let mut plan = bare_request(
            Method::Prack,
            w.call.is_emergency(),
            &d.sip,
            branch,
            clamped_add(d.sip.local_cseq, 1),
        );
        plan.rack = Some(rack_text(rseq, invite_cseq));
        w.send(to_peer(plan, leg_id, Provenance::Authored));
    }
}

// ── laws ────────────────────────────────────────────────────────────────
/// A reliable provisional acknowledged once is not acknowledged again: its
/// repeat changes nothing and sends nothing.
pub proof fn a_provisional_is_pracked_once(
    w: WorkView,
    leg_id: Seq<char>,
    rseq: i64,
    invite_cseq: i64,
    b_tag: Seq<char>,
)
    requires
        w.call.pracked_provisionals.contains(
            PrackedProvisionalView { leg_id, b_tag, invite_cseq, rseq },
        ),
    ensures
        send_prack_to_leg(w, leg_id, rseq, invite_cseq, b_tag) == w,
{
    reveal(send_prack_to_leg);
    let p = PrackedProvisionalView { leg_id, b_tag, invite_cseq, rseq };
    let i = choose|i: int|
        0 <= i < w.call.pracked_provisionals.len() && w.call.pracked_provisionals[i] == p;
    assert(pracked_as(p)(w.call.pracked_provisionals[i]));
}

/// A refused leg is never sent for: nothing goes on the wire, and the call
/// ends.
pub proof fn a_refused_leg_sends_nothing(
    e: ExecView,
    w: WorkView,
    ctx: RuleContextView,
    n: NewLegView,
)
    requires
        !admitted(n.destination.host, e.config.worker_allowed_target_suffixes) || unread_field(
            n,
        ) is Some,
    ensures
        e.create_leg(w, ctx, n).fx == w.fx,
        e.create_leg(w, ctx, n).ids == w.ids,
        e.create_leg(w, ctx, n).call.state == CallModelState::Terminated,
{
    reveal(terminate_all);
    reveal(ExecView::create_leg);
}

/// No ring outlasts the INVITE transaction that carries it.
pub proof fn rings_are_bounded(config: ConfigView, secs: i64)
    ensures
        ring_deadline(config, secs) <= config.no_answer_ceiling_sec,
        secs <= config.no_answer_ceiling_sec ==> ring_deadline(config, secs) == secs,
{
}

/// The tag of a leg's own dialog finds that dialog. On the caller's leg it is
/// this stack's own tag, which a dialog whose peer is not known yet may share.
pub open spec fn own_tag_finds(c: CallView, leg_id: Seq<char>) -> bool {
    match tagged_dialog(c, leg_id) {
        Some(d) => leg_id == "a"@ ==> c.dialog(leg_id, identity_tag(leg_id, d)) == Some(d),
        None => true,
    }
}

proof fn a_bump_is_kept(c: CallView, leg_id: Seq<char>)
    requires
        tagged_dialog(c, leg_id) is Some,
        own_tag_finds(c, leg_id),
    ensures
        ({
            let d = tagged_dialog(c, leg_id)->0;
            let c1 = c.bump_local_cseq(leg_id, identity_tag(leg_id, d), 1);
            &&& tagged_dialog(c1, leg_id) == Some(d.bump(1))
            &&& own_tag_finds(c1, leg_id)
        }),
{
    let l = c.leg(leg_id)->0;
    let ds = l.dialogs;
    let p = dialog_tagged();
    first_where_found(ds, p);
    let i = first_where(ds, p)->0;
    let d = ds[i];
    let tag = identity_tag(leg_id, d);
    let q = dialog_named(leg_id, tag);
    first_where_found(ds, q);
    assert(is_first(ds, q, i)) by {
        if leg_id == "a"@ {
            let j = first_where(ds, q)->0;
            if j < i {
                assert(!p(ds[j]));
            }
            if j > i {
                assert(!q(ds[i]));
            }
        } else {
            assert forall|j: int| 0 <= j < i implies !q(#[trigger] ds[j]) by {
                assert(!p(ds[j]));
            }
        }
    }
    first_where_is(ds, q, i);
    let d1 = d.bump(1);
    let l1 = LegView { dialogs: ds.update(i, d1), ..l };
    if c.a_leg.leg_id != leg_id {
        first_where_found(c.b_legs, leg_named(leg_id));
    }
    leg_of_with_leg(c, leg_id, l1);
    assert(is_first(l1.dialogs, p, i)) by {
        assert forall|j: int| 0 <= j < i implies !p(#[trigger] l1.dialogs[j]) by {
            assert(!p(ds[j]));
        }
    }
    first_where_is(l1.dialogs, p, i);
    dialog_of_with_dialog(c, leg_id, tag, d1);
}

/// Each request of this stack's own takes the next number of its dialog: two in
/// a row carry consecutive numbers, and the dialog keeps the last. Nothing is
/// sent, and no number taken, on a leg without a dialog whose peer is known.
pub proof fn own_requests_are_numbered_on(
    x: ExecView,
    w: WorkView,
    leg_id: Seq<char>,
    m1: MethodView,
    b1: Seq<u8>,
    t1: Option<Seq<char>>,
    h1: Seq<SipHeaderView>,
    m2: MethodView,
    b2: Seq<u8>,
    t2: Option<Seq<char>>,
    h2: Seq<SipHeaderView>,
)
    requires
        in_dialog(m1),
        in_dialog(m2),
        !x.config.keepalive_cseq_reuse,
        own_tag_finds(w.call, leg_id),
    ensures
        ({
            let w1 = x.send_request_to_leg(w, leg_id, m1, b1, t1, h1);
            let w2 = x.send_request_to_leg(w1, leg_id, m2, b2, t2, h2);
            match tagged_dialog(w.call, leg_id) {
                Some(d) => d.sip.local_cseq <= i64::MAX - 2 ==> {
                    let sent = w2.fx.outbound;
                    let n = w.fx.outbound.len() as int;
                    &&& sent.len() == n + 2
                    &&& sent.take(n) == w.fx.outbound
                    &&& sent[n].body is Request
                    &&& sent[n].body->request.cseq == d.sip.local_cseq + 1
                    &&& sent[n + 1].body is Request
                    &&& sent[n + 1].body->request.cseq == d.sip.local_cseq + 2
                    &&& tagged_dialog(w2.call, leg_id) is Some
                    &&& tagged_dialog(w2.call, leg_id)->0.sip == (StackDialogView {
                        local_cseq: (d.sip.local_cseq + 2) as i64,
                        ..d.sip
                    })
                },
                None => w2 == w,
            }
        }),
{
    reveal(ExecView::send_request_to_leg);
    if tagged_dialog(w.call, leg_id) is Some {
        a_bump_is_kept(w.call, leg_id);
        let w1 = x.send_request_to_leg(w, leg_id, m1, b1, t1, h1);
        let w2 = x.send_request_to_leg(w1, leg_id, m2, b2, t2, h2);
        a_bump_is_kept(w1.call, leg_id);
        assert(w2.fx.outbound.take(w.fx.outbound.len() as int) =~= w.fx.outbound);
    }
}

} // verus!
