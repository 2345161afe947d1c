//! Relaying a response: to the originator of a relayed request, from its
//! snapshot; else to the caller, on its INVITE, with a tag of its own for each
//! dialog of the callee's.
use vstd::prelude::*;

use super::dialog_track::with_early_dialog;
use super::ladder::{retire, retire_scope};
use super::originate::send_prack_to_leg;
use super::relay_request::relay_request;
use super::respond::{
    a_leg_response, caller_effect, media_type, media_type_of, note_final, plain_response,
    response_states_contact, states_contact, toward_caller, with_final_sent,
};
use super::select::{
    origin_address, plain_snapshot_response, read_origin, snapshot_response, to_originator,
    toward_originator,
};
use super::{ActionExecutor, ExecView, Work, WorkView};
use crate::action::{MessageTransform, MessageTransformView};
use crate::books::{first_ext, with_first_ext, Scope, ScopeView};
use crate::call::{
    Call, CallView, Destination, DestinationView, Dialog, DialogExtView, DialogView, LegState,
    PendingRequest, PendingRequestView, Relay18xState, Relay18xStateView, ReliableProvisional,
    ReliableProvisionalView, ResponsePlanView, SourceBody, TagMapping, TagMappingView,
};
use crate::capabilities::{
    face_of_leg, items, push_items, relaying, relaying_for_leg, relaying_set, stamp_advert, stamped,
    Face,
};
use crate::effects::Provenance;
use crate::headers::{
    append_lines, describes_body, goes_with, has_header, has_line, header_text, header_value,
    lines_beside, lines_outside, lines_with, named_outside, reliable_rseq, rseq_of, tag_of,
    tag_param,
};
use crate::lens::{
    dialog_identity_tag, dialog_toward, find_dialog_toward, find_leg, find_pending_request,
    identity_tag, is_a, is_empty, leg_mut, opt_dialog, remove_pending_request, with_leg_same,
};
use crate::model::{RuleContext, RuleContextView};
use crate::reliable::{
    admits_reliable, assign_a_rseq, assigned, repeated_reliable_provisional, repeats_reliable,
    starts_ladder, starts_reliable_ladder, tag_or_empty, tag_text,
};
use crate::seqs::{
    find_where, find_where_push, first_where_none, keep, keep_sound, keep_step, opt_view, views,
};
use crate::state::{
    add_tag_mapping, find_by_b_tag, find_mapping_on_leg, mapping_of_b, mapping_on_leg,
    masking,
    relay_first_18x_strategy, resolve_relay_peer,
};
use crate::text::{
    clone_bytes, clone_opt_bytes, clone_texts, eq_ignore_case, join, join_text, same_ignoring_case,
    signed, signed_text,
};
use crate::wire::{Method, MethodView, SipHeader, SipHeaderView, SipResponse, SipResponseView};

verus! {

// ── what the relay carries ──────────────────────────────────────────────
/// The body of a relayed response, and what it stands for.
pub struct Carried {
    pub body: Vec<u8>,
    pub content_type: Option<String>,
    pub source: SourceBody,
}

/// The mathematical value of a [`Carried`].
pub struct CarriedView {
    pub body: Seq<u8>,
    pub content_type: Option<Seq<char>>,
    pub source: SourceBody,
}

impl View for Carried {
    type V = CarriedView;

    open spec fn view(&self) -> CarriedView {
        CarriedView {
            body: self.body@,
            content_type: opt_view(self.content_type),
            source: self.source,
        }
    }
}

/// The body that is relayed: none, the staged one, else the response's own.
pub open spec fn carried(
    c: CallView,
    t: MessageTransformView,
    resp: SipResponseView,
) -> CarriedView {
    if t.drop_body {
        CarriedView { body: Seq::empty(), content_type: None, source: SourceBody::Dropped }
    } else {
        match c.policy_update_body {
            Some(b) => CarriedView {
                body: b,
                content_type: Some("application/sdp"@),
                source: SourceBody::Replaced,
            },
            None => CarriedView {
                body: resp.body,
                content_type: media_type_of(header_value(resp.headers, "Content-Type"@)),
                source: SourceBody::Verbatim,
            },
        }
    }
}

/// The call with the staged body taken: it is relayed once.
pub open spec fn body_taken(c: CallView, t: MessageTransformView) -> CallView {
    if t.drop_body {
        c
    } else {
        CallView { policy_update_body: None, ..c }
    }
}

fn take_body(call: &mut Call, t: &MessageTransform, resp: &SipResponse) -> (r: Carried)
    ensures
        r@ == carried(old(call)@, t@, resp@),
        final(call)@ == body_taken(old(call)@, t@),
{
    if t.drop_body {
        let r = Carried { body: Vec::new(), content_type: None, source: SourceBody::Dropped };
        assert(r.body@ =~= Seq::empty());
        return r;
    }
    let staged = clone_opt_bytes(&call.policy_update_body);
    call.policy_update_body = None;
    match staged {
        Some(body) => Carried {
            body,
            content_type: Some("application/sdp".to_string()),
            source: SourceBody::Replaced,
        },
        None => Carried {
            body: clone_bytes(&resp.body),
            content_type: media_type(&header_text(&resp.headers, "Content-Type")),
            source: SourceBody::Verbatim,
        },
    }
}

pub open spec fn line_name() -> spec_fn(SipHeaderView) -> Seq<char> {
    |h: SipHeaderView| h.name
}

/// The names of header lines.
pub open spec fn names_of(hs: Seq<SipHeaderView>) -> Seq<Seq<char>> {
    hs.map_values(line_name())
}

/// The lines a relay restates: the source's, less what the transform removes or
/// states itself, and what it states.
pub open spec fn passed(t: MessageTransformView, hs: Seq<SipHeaderView>) -> Seq<SipHeaderView> {
    keep(hs, named_outside(t.remove_headers + names_of(t.add_headers))) + t.add_headers
}

fn line_names(hs: &Vec<SipHeader>) -> (r: Vec<String>)
    ensures
        views(r@) == names_of(views(hs@)),
{
    let mut out: Vec<String> = Vec::new();
    let ghost all = names_of(views(hs@));
    for i in 0..hs.len()
        invariant
            all == names_of(views(hs@)),
            views(out@) == all.take(i as int),
    {
        let ghost before = out@;
        out.push(hs[i].name.clone());
        assert(views(out@) =~= views(before).push(hs@[i as int].name@));
        assert(all.take(i + 1) =~= all.take(i as int).push(hs@[i as int].name@));
    }
    assert(all.take(hs@.len() as int) =~= all);
    out
}

fn pass_through(t: &MessageTransform, hs: &Vec<SipHeader>) -> (r: Vec<SipHeader>)
    ensures
        views(r@) == passed(t@, views(hs@)),
{
    let mut names = clone_texts(&t.remove_headers);
    let added = line_names(&t.add_headers);
    let ghost start = views(names@);
    assert(start + views(added@).take(0) =~= start);
    for i in 0..added.len()
        invariant
            views(names@) == start + views(added@).take(i as int),
    {
        let ghost before = names@;
        names.push(added[i].clone());
        assert(views(names@) =~= views(before).push(added@[i as int]@));
        assert(start + views(added@).take(i + 1) =~= (start + views(added@).take(i as int)).push(
            added@[i as int]@,
        ));
    }
    assert(views(added@).take(added@.len() as int) =~= views(added@));
    let mut out = lines_outside(hs, &names);
    append_lines(&mut out, &t.add_headers);
    out
}

// ── reliability ─────────────────────────────────────────────────────────
pub open spec fn restating(n: i64) -> spec_fn(SipHeaderView) -> SipHeaderView {
    |h: SipHeaderView|
        if same_ignoring_case(h.name, "RSeq"@) {
            SipHeaderView { name: h.name, value: signed_text(n as int) }
        } else {
            h
        }
}

/// Header lines with this stack's own number.
pub open spec fn own_number(hs: Seq<SipHeaderView>, n: i64) -> Seq<SipHeaderView> {
    hs.map_values(restating(n))
}

fn own_the_rseq(hs: &Vec<SipHeader>, n: i64) -> (r: Vec<SipHeader>)
    ensures
        views(r@) == own_number(views(hs@), n),
{
    let mut out: Vec<SipHeader> = Vec::new();
    let ghost all = own_number(views(hs@), n);
    for i in 0..hs.len()
        invariant
            all == own_number(views(hs@), n),
            views(out@) == all.take(i as int),
    {
        let mut line = hs[i].clone();
        if eq_ignore_case(line.name.as_str(), "RSeq") {
            line.value = signed(n);
        }
        let ghost before = out@;
        out.push(line);
        assert(views(out@) =~= views(before).push(line@));
        assert(all[i as int] == line@);
        assert(all.take(i + 1) =~= all.take(i as int).push(line@));
    }
    assert(all.take(hs@.len() as int) =~= all);
    out
}

pub open spec fn not_100rel() -> spec_fn(Seq<char>) -> bool {
    |s: Seq<char>| !same_ignoring_case(s, "100rel"@)
}

/// A line without what makes a provisional reliable: nothing of it where it
/// states no more than that.
pub open spec fn unreliable_line(h: SipHeaderView) -> Seq<SipHeaderView> {
    if same_ignoring_case(h.name, "RSeq"@) {
        Seq::empty()
    } else if same_ignoring_case(h.name, "Require"@) {
        let rest = keep(items(h.value), not_100rel());
        if rest.len() == 0 {
            Seq::empty()
        } else {
            seq![SipHeaderView { name: h.name, value: join_text(rest, ", "@) }]
        }
    } else {
        seq![h]
    }
}

/// Header lines without what makes a provisional reliable.
pub open spec fn unreliable(hs: Seq<SipHeaderView>) -> Seq<SipHeaderView>
    decreases hs.len(),
{
    if hs.len() == 0 {
        Seq::empty()
    } else {
        unreliable(hs.drop_last()) + unreliable_line(hs.last())
    }
}

fn without_100rel(list: &Vec<String>) -> (r: Vec<String>)
    ensures
        views(r@) == keep(views(list@), not_100rel()),
{
    let ghost p = not_100rel();
    let mut out: Vec<String> = Vec::new();
    assert(views(list@).take(0).len() == 0);
    assert(views(out@) =~= Seq::<Seq<char>>::empty());
    for i in 0..list.len()
        invariant
            p == not_100rel(),
            views(out@) == keep(views(list@).take(i as int), p),
    {
        proof {
            keep_step(views(list@), p, i as int);
        }
        assert(views(list@)[i as int] == list@[i as int]@);
        if !eq_ignore_case(list[i].as_str(), "100rel") {
            let ghost before = out@;
            out.push(list[i].clone());
            assert(views(out@) =~= views(before).push(list@[i as int]@));
        }
    }
    assert(views(list@).take(list@.len() as int) =~= views(list@));
    out
}

fn push_unreliable(out: &mut Vec<SipHeader>, h: &SipHeader)
    ensures
        views(final(out)@) == views(old(out)@) + unreliable_line(h@),
{
    let ghost before = out@;
    if eq_ignore_case(h.name.as_str(), "RSeq") {
        assert(views(before) + Seq::<SipHeaderView>::empty() =~= views(before));
        return;
    }
    if eq_ignore_case(h.name.as_str(), "Require") {
        let mut all: Vec<String> = Vec::new();
        assert(views(all@) + items(h@.value) =~= items(h@.value));
        push_items(&mut all, h.value.as_str());
        let rest = without_100rel(&all);
        assert(views(rest@).len() == rest@.len());
        if rest.len() == 0 {
            assert(views(before) + Seq::<SipHeaderView>::empty() =~= views(before));
            return;
        }
        let line = SipHeader { name: h.name.clone(), value: join(&rest, ", ") };
        out.push(line);
        assert(views(out@) =~= views(before) + seq![line@]);
        return;
    }
    let line = h.clone();
    out.push(line);
    assert(views(out@) =~= views(before) + seq![h@]);
}

fn strip_reliability(hs: &Vec<SipHeader>) -> (r: Vec<SipHeader>)
    ensures
        views(r@) == unreliable(views(hs@)),
{
    let mut out: Vec<SipHeader> = Vec::new();
    assert(views(hs@).take(0).len() == 0);
    assert(views(out@) =~= unreliable(views(hs@).take(0)));
    for i in 0..hs.len()
        invariant
            views(out@) == unreliable(views(hs@).take(i as int)),
    {
        assert(views(hs@).take(i + 1).drop_last() =~= views(hs@).take(i as int));
        assert(views(hs@).take(i + 1).last() == hs@[i as int]@);
        push_unreliable(&mut out, &hs[i]);
    }
    assert(views(hs@).take(hs@.len() as int) =~= views(hs@));
    out
}

/// The provisional as it is raised, before it has a number of this stack's.
pub open spec fn raised_here(
    shown_tag: Seq<char>,
    shown_cseq: i64,
    source: Seq<char>,
    resp: SipResponseView,
    n: int,
) -> ReliableProvisionalView {
    ReliableProvisionalView {
        a_tag: shown_tag,
        a_rseq: 0,
        a_cseq: shown_cseq,
        b_leg_id: source,
        b_tag: tag_or_empty(resp.to_tag),
        b_cseq: resp.cseq,
        b_rseq: n as i64,
        emission: None,
    }
}

/// A relayed reliable provisional under this stack's own number: the turn, its
/// lines and the number. One relayed without an `RSeq` takes none.
#[verifier::opaque]
pub open spec fn numbered(
    w: WorkView,
    shown_tag: Seq<char>,
    shown_cseq: i64,
    source: Seq<char>,
    resp: SipResponseView,
    hs: Seq<SipHeaderView>,
) -> (WorkView, Seq<SipHeaderView>, Option<i64>) {
    match rseq_of(resp) {
        Some(n) => if has_header(hs, "RSeq"@) {
            let (w1, initial) = if starts_ladder(w.call, shown_tag) {
                (w.minted(), w.ids.sequence())
            } else {
                (w, 0i64)
            };
            let (c2, own) = assigned(
                w1.call,
                raised_here(shown_tag, shown_cseq, source, resp, n),
                initial,
            );
            (w1.on(c2), own_number(hs, own), Some(own))
        } else {
            (w, hs, None)
        },
        None => (w, hs, None),
    }
}

// ── to the originator of a relayed request ──────────────────────────────
/// The dialog the response belongs to: the one toward the responder's tag, else
/// the first of its leg.
pub open spec fn answering_dialog(
    ctx: RuleContextView,
    resp: SipResponseView,
) -> Option<DialogView> {
    let named = match ctx.source_leg() {
        Some(l) => find_where(l.dialogs, dialog_toward(tag_or_empty(resp.to_tag))),
        None => None,
    };
    match named {
        Some(d) => Some(d),
        None => ctx.source_dialog(),
    }
}

/// The lines of a response relayed to an originator.
pub open spec fn originator_lines(
    c: CallView,
    target: Seq<char>,
    t: MessageTransformView,
    resp: SipResponseView,
    status: u16,
    source: SourceBody,
) -> Seq<SipHeaderView> {
    let hs = passed(t, lines_with(resp.relayable, source));
    if resp.method == MethodView::Invite && 200 <= status < 300 {
        stamped(
            hs,
            names_of(t.add_headers),
            relaying_set(c.features, face_of_leg(target), hs),
        )
    } else {
        hs
    }
}

/// The tag this stack showed the originator of a relayed request.
pub open spec fn shown_tag(
    c: CallView,
    target: Seq<char>,
    p: PendingRequestView,
) -> Option<Seq<char>> {
    match tag_param(p.source_to) {
        Some(t) => Some(t),
        None => match c.leg(target) {
            Some(l) => if l.dialogs.len() > 0 && l.dialogs[0].sip.local_tag.len() > 0 {
                Some(l.dialogs[0].sip.local_tag)
            } else {
                None
            },
            None => None,
        },
    }
}

/// A reliable provisional on its way to an originator: under this stack's own
/// number where the originator takes one; else plain, and acknowledged here.
#[verifier::opaque]
pub open spec fn provisional_settled(
    w: WorkView,
    ctx: RuleContextView,
    target: Seq<char>,
    resp: SipResponseView,
    p: PendingRequestView,
    status: u16,
    hs: Seq<SipHeaderView>,
) -> (WorkView, Seq<SipHeaderView>, Option<(Seq<char>, i64)>) {
    match rseq_of(resp) {
        Some(n) => if 101 <= status < 200 {
            let shown = if admits_reliable(p) {
                shown_tag(w.call, target, p)
            } else {
                None
            };
            match shown {
                Some(tag) => {
                    let (w1, hs1, own) = numbered(
                        w,
                        tag,
                        p.inbound_cseq,
                        ctx.source_leg_id,
                        resp,
                        hs,
                    );
                    (
                        w1,
                        hs1,
                        match own {
                            Some(k) => Some((tag, k)),
                            None => None,
                        },
                    )
                },
                None => (
                    if resp.method == MethodView::Invite {
                        send_prack_to_leg(
                            w,
                            ctx.source_leg_id,
                            n as i64,
                            resp.cseq,
                            tag_or_empty(resp.to_tag),
                        )
                    } else {
                        w
                    },
                    unreliable(hs),
                    None,
                ),
            }
        } else {
            (w, hs, None)
        },
        None => (w, hs, None),
    }
}

/// The response for an originator.
pub open spec fn originator_plan(
    c: CallView,
    p: PendingRequestView,
    resp: SipResponseView,
    status: u16,
    reason: Seq<char>,
    b: CarriedView,
    hs: Seq<SipHeaderView>,
) -> ResponsePlanView {
    ResponsePlanView {
        method: resp.method,
        contact: states_contact(resp.method, status),
        emergency: c.is_emergency(),
        body: b.body,
        content_type: b.content_type,
        headers: hs,
        source_body: Some(b.source),
        ..snapshot_response(p, status, reason)
    }
}

/// The transaction of a relayed request closed by its final.
#[verifier::opaque]
pub open spec fn transaction_closed(
    w: WorkView,
    source: Seq<char>,
    tag: Seq<char>,
    resp: SipResponseView,
    status: u16,
) -> WorkView {
    if status >= 200 {
        let w1 = w.on(w.call.remove_pending_request(source, tag, resp.cseq));
        if resp.method == MethodView::Invite {
            retire(w1, ScopeView::Transaction { leg_id: source, cseq: resp.cseq })
        } else {
            w1
        }
    } else {
        w
    }
}

/// The answering leg with the ACK it is owed.
pub open spec fn with_awaited_ack(c: CallView, leg_id: Seq<char>, cseq: i64) -> CallView {
    match first_ext(c, leg_id) {
        Some(e) => with_first_ext(
            c,
            leg_id,
            DialogExtView { awaited_ack_cseq: Some(cseq), ..e },
        ),
        None => c,
    }
}

impl ExecView {
    /// A response relayed to the originator of the request it answers.
    #[verifier::opaque]
    pub open spec fn relay_to_originator(
        self,
        w: WorkView,
        ctx: RuleContextView,
        target: Seq<char>,
        t: MessageTransformView,
        resp: SipResponseView,
        d: DialogView,
        p: PendingRequestView,
        b: CarriedView,
    ) -> WorkView {
        let status = status_of(t, resp);
        match origin_address(p) {
            Some(at) => {
                let hs = originator_lines(w.call, target, t, resp, status, b.source);
                let (w1, hs1, ladder) = provisional_settled(w, ctx, target, resp, p, status, hs);
                let plan = originator_plan(w.call, p, resp, status, reason_of(t, resp), b, hs1);
                let w2 = transaction_closed(
                    w1,
                    ctx.source_leg_id,
                    identity_tag(ctx.source_leg_id, d),
                    resp,
                    status,
                );
                let to = DestinationView::Address { at };
                let w3 = if resp.method == MethodView::Invite && 200 <= status < 300 {
                    self.retain_reinvite_2xx(
                        w2.on(with_awaited_ack(w2.call, ctx.source_leg_id, p.inbound_cseq)),
                        plan,
                        to,
                        target,
                    )
                } else {
                    w2
                };
                let w4 = match ladder {
                    Some((tag, n)) => self.arm_provisional(w3, plan, to, tag, n),
                    None => w3,
                };
                w4.send(toward_originator(plan, at, target, Provenance::Relayed))
            },
            None => w,
        }
    }
}

fn find_answering<'a>(ctx: &'a RuleContext, resp: &SipResponse) -> (r: Option<&'a Dialog>)
    ensures
        opt_dialog(r) == answering_dialog(ctx@, resp@),
{
    let tag = tag_text(&resp.to_tag);
    if let Some(l) = ctx.source_leg() {
        if let Some(i) = find_dialog_toward(&l.dialogs, &tag) {
            assert(l@.dialogs[i as int] == l.dialogs@[i as int]@);
            return Some(&l.dialogs[i]);
        }
    }
    ctx.source_dialog()
}

fn shown_tag_of(call: &Call, target: &String, p: &PendingRequest) -> (r: Option<String>)
    ensures
        opt_view(r) == shown_tag(call@, target@, p@),
{
    if let Some(t) = tag_of(p.source_to.as_str()) {
        return Some(t);
    }
    match find_leg(call, target) {
        Some(l) => {
            if l.dialogs.len() == 0 {
                return None;
            }
            assert(l@.dialogs[0] == l.dialogs@[0]@);
            if is_empty(&l.dialogs[0].sip.local_tag) {
                None
            } else {
                Some(l.dialogs[0].sip.local_tag.clone())
            }
        },
        None => None,
    }
}

fn await_ack(call: &mut Call, leg_id: &String, cseq: i64)
    ensures
        final(call)@ == with_awaited_ack(old(call)@, leg_id@, cseq),
{
    proof {
        with_leg_same(call@, leg_id@);
    }
    if let Some(l) = leg_mut(call, leg_id) {
        if l.dialogs.len() > 0 {
            let ghost before = l.dialogs@;
            l.dialogs[0].ext.awaited_ack_cseq = Some(cseq);
            assert(views(l.dialogs@) =~= views(before).update(0, l.dialogs@[0]@));
        }
    }
}

fn close_transaction(w: &mut Work, source: &String, tag: &String, resp: &SipResponse, status: u16)
    ensures
        final(w)@ == transaction_closed(old(w)@, source@, tag@, resp@, status),
{
    proof {
        reveal(transaction_closed);
    }
    if status >= 200 {
        remove_pending_request(&mut w.call, source, tag, resp.cseq);
        if resp.method == Method::Invite {
            retire_scope(w, &Scope::Transaction { leg_id: source.clone(), cseq: resp.cseq });
        }
    }
}

// ── to the caller ───────────────────────────────────────────────────────
pub open spec fn status_of(t: MessageTransformView, resp: SipResponseView) -> u16 {
    match t.status {
        Some(s) => s,
        None => resp.status,
    }
}

pub open spec fn reason_of(t: MessageTransformView, resp: SipResponseView) -> Seq<char> {
    match t.reason {
        Some(r) => r,
        None => resp.reason,
    }
}

/// The caller was shown a dialog already that a new one of this leg's would
/// have to differ from.
pub open spec fn face_taken(c: CallView, source: Seq<char>) -> bool {
    if masking(c) is None && c.a_leg.state != LegState::Confirmed {
        c.tag_map.len() > 0
    } else {
        find_where(c.tag_map, mapping_on_leg(source)) is Some
    }
}

/// The lines of a response for the caller.
pub open spec fn caller_lines(
    c: CallView,
    t: MessageTransformView,
    resp: SipResponseView,
    status: u16,
    source: SourceBody,
) -> Seq<SipHeaderView> {
    let hs = passed(t, lines_with(resp.relayable, source));
    if 200 <= status < 300 {
        stamped(hs, names_of(t.add_headers), relaying_set(c.features, Face::Originator, hs))
    } else {
        hs
    }
}

/// The response for the caller.
pub open spec fn caller_plan(
    c: CallView,
    status: u16,
    reason: Seq<char>,
    tag: Seq<char>,
    b: CarriedView,
    hs: Seq<SipHeaderView>,
) -> ResponsePlanView {
    ResponsePlanView {
        contact: states_contact(MethodView::Invite, status),
        body: b.body,
        content_type: b.content_type,
        headers: hs,
        source_body: Some(b.source),
        ..a_leg_response(c, status, reason, tag)
    }
}

impl ExecView {
    /// The tag the caller sees for a callee's dialog: the one it was shown; else
    /// its own dialog's, or a fresh one where that stands for another already.
    #[verifier::opaque]
    pub open spec fn face_for(self, w: WorkView, source: Seq<char>, tag: Seq<char>) -> (
        WorkView,
        Seq<char>,
    ) {
        match w.call.by_b_tag(source, tag) {
            Some(m) => (w, m.a_tag),
            None => {
                let (w1, primary) = self.ensure_a_dialog(w, None);
                let (w2, face) = if face_taken(w1.call, source) {
                    (w1.minted(), w1.ids.tag())
                } else {
                    (w1, primary)
                };
                (
                    w2.on(
                        w2.call.add_tag_mapping(
                            TagMappingView { a_tag: face, b_leg_id: source, b_tag: tag },
                        ),
                    ),
                    face,
                )
            },
        }
    }

    /// A response relayed to the caller under a tag. `ends_setup` says whether
    /// a failure final ends the provisionals shown.
    #[verifier::opaque]
    pub open spec fn relay_to_caller(
        self,
        w: WorkView,
        ctx: RuleContextView,
        t: MessageTransformView,
        resp: SipResponseView,
        b: CarriedView,
        tag: Seq<char>,
        ends_setup: bool,
    ) -> WorkView {
        let status = status_of(t, resp);
        let (w1, hs, own) = numbered(
            w,
            tag,
            w.call.a_leg_invite.cseq,
            ctx.source_leg_id,
            resp,
            caller_lines(w.call, t, resp, status, b.source),
        );
        if w1.call.a_leg.invite_final_sent is Some {
            w1
        } else {
            let plan = caller_plan(w1.call, status, reason_of(t, resp), tag, b, hs);
            let w2 = w1.on(with_final_sent(w1.call, status));
            if 200 <= status < 300 {
                self.send_a_leg_answer(w2, plan, Provenance::Relayed)
            } else {
                let w3 = if ends_setup && status >= 300 {
                    retire(w2, ScopeView::Provisionals)
                } else {
                    w2
                };
                let w4 = if 101 <= status < 200 && own is Some {
                    self.arm_provisional(w3, plan, DestinationView::TopVia, tag, own->0)
                } else {
                    w3
                };
                w4.send(toward_caller(w1.call, plan, Provenance::Relayed))
            }
        }
    }

    /// The response of a callee's dialog, under the tag the caller sees it by.
    #[verifier::opaque]
    pub open spec fn relay_fork(
        self,
        w: WorkView,
        ctx: RuleContextView,
        t: MessageTransformView,
        resp: SipResponseView,
        b: CarriedView,
    ) -> WorkView {
        let tag = tag_or_empty(resp.to_tag);
        let c1 = with_early_dialog(self.config, w.call, ctx.source_leg_id, resp, tag);
        let (w2, face) = self.face_for(w.on(c1), ctx.source_leg_id, tag);
        self.relay_to_caller(w2, ctx, t, resp, b, face, false)
    }

    /// A response relayed: a repeat of a reliable provisional not at all; the
    /// answer to a relayed request to its originator; the INVITE response of a
    /// callee's dialog, and any other INVITE response, to the caller.
    #[verifier::opaque]
    pub open spec fn relay_response(
        self,
        w: WorkView,
        ctx: RuleContextView,
        target: Seq<char>,
        t: MessageTransformView,
        resp: SipResponseView,
    ) -> WorkView {
        let b = carried(w.call, t, resp);
        let w1 = w.on(body_taken(w.call, t));
        let d = answering_dialog(ctx, resp);
        if repeats_reliable(w1.call, ctx.source_leg_id, resp) {
            w1
        } else if d is Some && d->0.pending(resp.cseq) is Some {
            self.relay_to_originator(
                w1,
                ctx,
                target,
                t,
                resp,
                d->0,
                d->0.pending(resp.cseq)->0,
                b,
            )
        } else if resp.method != MethodView::Invite {
            w1
        } else if 100 <= resp.status < 300 && tag_or_empty(resp.to_tag).len() > 0
            && ctx.source_leg_id != "a"@ {
            self.relay_fork(w1, ctx, t, resp, b)
        } else {
            let (w2, tag) = self.ensure_a_dialog(w1, None);
            self.relay_to_caller(w2, ctx, t, resp, b, tag, true)
        }
    }

    /// The event relayed to a leg.
    #[verifier::opaque]
    pub open spec fn relay_to(
        self,
        w: WorkView,
        ctx: RuleContextView,
        target: Seq<char>,
        t: MessageTransformView,
        to_tag: Option<Seq<char>>,
    ) -> WorkView {
        match (ctx.response(), ctx.request()) {
            (Some(resp), _) => self.relay_response(w, ctx, target, t, resp),
            (None, Some(req)) => relay_request(w, ctx, target, req, to_tag),
            _ => w,
        }
    }

    /// The event relayed to its peer, where it has one.
    #[verifier::opaque]
    pub open spec fn relay_to_peer(
        self,
        w: WorkView,
        ctx: RuleContextView,
        t: MessageTransformView,
    ) -> WorkView {
        let to_tag = match ctx.request() {
            Some(r) => r.to_tag,
            None => None,
        };
        let (peer, tag) = w.call.relay_peer(ctx.source_leg_id, to_tag);
        match peer {
            Some(p) => self.relay_to(w, ctx, p, t, tag),
            None => w,
        }
    }
}

fn face_is_taken(call: &Call, source: &String) -> (r: bool)
    ensures
        r == face_taken(call@, source@),
{
    if relay_first_18x_strategy(call).is_none() && call.a_leg.state != LegState::Confirmed {
        assert(views(call.tag_map@).len() == call.tag_map@.len());
        call.tag_map.len() > 0
    } else {
        find_mapping_on_leg(call, source).is_some()
    }
}

impl<'a> ActionExecutor<'a> {
    fn own_relayed_rseq(
        &self,
        w: &mut Work,
        shown_tag: &String,
        shown_cseq: i64,
        source: &String,
        resp: &SipResponse,
        hs: Vec<SipHeader>,
    ) -> (r: (Vec<SipHeader>, Option<i64>))
        ensures
            (final(w)@, views(r.0@), r.1) == numbered(
                old(w)@,
                shown_tag@,
                shown_cseq,
                source@,
                resp@,
                views(hs@),
            ),
    {
        proof {
            reveal(numbered);
        }
        let n = match reliable_rseq(resp) {
            Some(n) => n,
            None => {
                return (hs, None);
            },
        };
        if !has_line(&hs, "RSeq") {
            return (hs, None);
        }
        let initial = if starts_reliable_ladder(&w.call, shown_tag) {
            w.ids.new_sequence_number()
        } else {
            0
        };
        let raised = ReliableProvisional {
            a_tag: shown_tag.clone(),
            a_rseq: 0,
            a_cseq: shown_cseq,
            b_leg_id: source.clone(),
            b_tag: tag_text(&resp.to_tag),
            b_cseq: resp.cseq,
            b_rseq: n,
            emission: None,
        };
        let own = assign_a_rseq(&mut w.call, raised, initial);
        (own_the_rseq(&hs, own), Some(own))
    }

    fn settle_provisional(
        &self,
        w: &mut Work,
        ctx: &RuleContext,
        target: &String,
        resp: &SipResponse,
        p: &PendingRequest,
        status: u16,
        hs: Vec<SipHeader>,
    ) -> (r: (Vec<SipHeader>, Option<(String, i64)>))
        ensures
            (final(w)@, views(r.0@), opt_view(r.1)) == provisional_settled(
                old(w)@,
                ctx@,
                target@,
                resp@,
                p@,
                status,
                views(hs@),
            ),
    {
        proof {
            reveal(provisional_settled);
        }
        let n = match reliable_rseq(resp) {
            Some(n) => n,
            None => {
                return (hs, None);
            },
        };
        if status < 101 || status >= 200 {
            return (hs, None);
        }
        let shown = if p.method == Method::Invite && p.offers_100rel {
            shown_tag_of(&w.call, target, p)
        } else {
            None
        };
        match shown {
            Some(tag) => {
                let (lines, own) = self.own_relayed_rseq(
                    w,
                    &tag,
                    p.inbound_cseq,
                    ctx.source_leg_id,
                    resp,
                    hs,
                );
                match own {
                    Some(k) => (lines, Some((tag, k))),
                    None => (lines, None),
                }
            },
            None => {
                if resp.method == Method::Invite {
                    let tag = tag_text(&resp.to_tag);
                    self.send_prack_to_leg(w, ctx.source_leg_id, n, resp.cseq, &tag);
                }
                (strip_reliability(&hs), None)
            },
        }
    }

    fn relay_to_originator(
        &self,
        w: &mut Work,
        ctx: &RuleContext,
        target: &String,
        t: &MessageTransform,
        resp: &SipResponse,
        d: &Dialog,
        p: &PendingRequest,
        b: Carried,
    )
        ensures
            final(w)@ == self@.relay_to_originator(
                old(w)@,
                ctx@,
                target@,
                t@,
                resp@,
                d@,
                p@,
                b@,
            ),
    {
        proof {
            reveal(ExecView::relay_to_originator);
        }
        let status = match t.status {
            Some(s) => s,
            None => resp.status,
        };
        let reason = match &t.reason {
            Some(r) => r.clone(),
            None => resp.reason.clone(),
        };
        let at = match read_origin(p) {
            Some(at) => at,
            None => {
                return;
            },
        };
        let answers = resp.method == Method::Invite && 200 <= status && status < 300;
        let mut hs = pass_through(t, &lines_beside(&resp.relayable, b.source));
        if answers {
            let caps = relaying_for_leg(&w.call, target.as_str(), &hs);
            hs = stamp_advert(&hs, &line_names(&t.add_headers), &caps);
        }
        let emergency = w.call.is_emergency();
        let (lines, ladder) = self.settle_provisional(w, ctx, target, resp, p, status, hs);
        let mut plan = plain_snapshot_response(p, status, reason.as_str());
        plan.method = resp.method.clone();
        plan.contact = response_states_contact(&resp.method, status);
        plan.emergency = emergency;
        plan.body = b.body;
        plan.content_type = b.content_type;
        plan.headers = lines;
        plan.source_body = Some(b.source);
        let tag = dialog_identity_tag(ctx.source_leg_id, d);
        close_transaction(w, ctx.source_leg_id, &tag, resp, status);
        let to = Destination::Address { at: at.clone() };
        if answers {
            await_ack(&mut w.call, ctx.source_leg_id, p.inbound_cseq);
            self.retain_reinvite_2xx(w, &plan, &to, target);
        }
        if let Some((shown, n)) = &ladder {
            self.arm_reliable_provisional_ladder(w, &plan, &to, shown, *n);
        }
        w.send(to_originator(plan, at, target, Provenance::Relayed));
    }

    fn face_for(&self, w: &mut Work, source: &String, tag: &String) -> (r: String)
        ensures
            (final(w)@, r@) == self@.face_for(old(w)@, source@, tag@),
    {
        proof {
            reveal(ExecView::face_for);
        }
        if let Some(m) = find_by_b_tag(&w.call, source, tag) {
            return m.a_tag.clone();
        }
        let primary = self.ensure_a_dialog(w);
        let face = if face_is_taken(&w.call, source) {
            w.ids.new_tag()
        } else {
            primary
        };
        add_tag_mapping(
            &mut w.call,
            TagMapping { a_tag: face.clone(), b_leg_id: source.clone(), b_tag: tag.clone() },
        );
        face
    }

    fn relay_to_caller(
        &self,
        w: &mut Work,
        ctx: &RuleContext,
        t: &MessageTransform,
        resp: &SipResponse,
        b: Carried,
        tag: &String,
        ends_setup: bool,
    )
        ensures
            final(w)@ == self@.relay_to_caller(
                old(w)@,
                ctx@,
                t@,
                resp@,
                b@,
                tag@,
                ends_setup,
            ),
    {
        proof {
            reveal(ExecView::relay_to_caller);
        }
        let status = match t.status {
            Some(s) => s,
            None => resp.status,
        };
        let reason = match &t.reason {
            Some(r) => r.clone(),
            None => resp.reason.clone(),
        };
        let answers = 200 <= status && status < 300;
        let mut hs = pass_through(t, &lines_beside(&resp.relayable, b.source));
        if answers {
            let caps = relaying(&w.call, Face::Originator, &hs);
            hs = stamp_advert(&hs, &line_names(&t.add_headers), &caps);
        }
        let cseq = w.call.a_leg_invite.cseq;
        let (lines, own) = self.own_relayed_rseq(w, tag, cseq, ctx.source_leg_id, resp, hs);
        if w.call.a_leg.invite_final_sent.is_some() {
            return;
        }
        let mut plan = plain_response(&w.call, status, &reason, tag.clone());
        plan.contact = response_states_contact(&Method::Invite, status);
        plan.body = b.body;
        plan.content_type = b.content_type;
        plan.headers = lines;
        plan.source_body = Some(b.source);
        let effect = caller_effect(&w.call, plan.clone(), Provenance::Relayed);
        note_final(&mut w.call, status);
        if answers {
            self.send_a_leg_answer(w, plan, Provenance::Relayed);
            return;
        }
        if ends_setup && status >= 300 {
            retire_scope(w, &Scope::Provisionals);
        }
        if 101 <= status && status < 200 {
            if let Some(n) = own {
                self.arm_reliable_provisional_ladder(w, &plan, &Destination::TopVia, tag, n);
            }
        }
        w.send(effect);
    }

    /// Relay a response.
    pub(crate) fn relay_response(
        &self,
        w: &mut Work,
        ctx: &RuleContext,
        target: &String,
        t: &MessageTransform,
        resp: &SipResponse,
    )
        ensures
            final(w)@ == self@.relay_response(old(w)@, ctx@, target@, t@, resp@),
    {
        proof {
            reveal(ExecView::relay_response);
            reveal(ExecView::relay_fork);
        }
        let b = take_body(&mut w.call, t, resp);
        if repeated_reliable_provisional(&w.call, ctx.source_leg_id, resp) {
            return;
        }
        if let Some(d) = find_answering(ctx, resp) {
            if let Some(p) = find_pending_request(d, resp.cseq) {
                self.relay_to_originator(w, ctx, target, t, resp, d, p, b);
                return;
            }
        }
        if resp.method != Method::Invite {
            return;
        }
        let tag = tag_text(&resp.to_tag);
        if 100 <= resp.status && resp.status < 300 && !is_empty(&tag) && !is_a(
            ctx.source_leg_id,
        ) {
            self.track_b_early_dialog(&mut w.call, ctx.source_leg_id, resp, &tag);
            let face = self.face_for(w, ctx.source_leg_id, &tag);
            self.relay_to_caller(w, ctx, t, resp, b, &face, false);
            return;
        }
        let own = self.ensure_a_dialog(w);
        self.relay_to_caller(w, ctx, t, resp, b, &own, true);
    }

    /// Relay the event to a leg.
    pub(crate) fn relay_to(
        &self,
        w: &mut Work,
        ctx: &RuleContext,
        target: &String,
        t: &MessageTransform,
        to_tag: &Option<String>,
    )
        ensures
            final(w)@ == self@.relay_to(old(w)@, ctx@, target@, t@, opt_view(*to_tag)),
    {
        proof {
            reveal(ExecView::relay_to);
        }
        if let Some(resp) = ctx.response() {
            self.relay_response(w, ctx, target, t, resp);
            return;
        }
        if let Some(req) = ctx.request() {
            self.relay_request(w, ctx, target, req, to_tag);
        }
    }

    /// Relay the event to its peer.
    pub(crate) fn relay_to_peer(&self, w: &mut Work, ctx: &RuleContext, t: &MessageTransform)
        ensures
            final(w)@ == self@.relay_to_peer(old(w)@, ctx@, t@),
    {
        proof {
            reveal(ExecView::relay_to_peer);
        }
        let to_tag = match ctx.request() {
            Some(r) => r.to_tag.clone(),
            None => None,
        };
        let (peer, tag) = resolve_relay_peer(&w.call, ctx.source_leg_id, &to_tag);
        if let Some(p) = peer {
            self.relay_to(w, ctx, &p, t, &tag);
        }
    }
}

// ── the bare 180 ────────────────────────────────────────────────────────
/// What the masking has shown, with one more status shown under a tag.
pub open spec fn shown_180(c: CallView, tag: Seq<char>, status: Option<u16>) -> CallView {
    let values = match c.relay_first_18x {
        Some(s) => s.values,
        None => Seq::empty(),
    };
    CallView {
        relay_first_18x: Some(
            Relay18xStateView {
                a_tag: Some(tag),
                relayed: true,
                values: match status {
                    Some(v) => if values.contains(v) {
                        values
                    } else {
                        values.push(v)
                    },
                    None => values,
                },
            },
        ),
        ..c
    }
}

/// A ringing that states nothing else.
pub open spec fn bare_180() -> MessageTransformView {
    MessageTransformView {
        status: Some(180),
        reason: Some("Ringing"@),
        drop_body: true,
        remove_headers: seq!["Require"@, "RSeq"@, "P-Early-Media"@],
        add_headers: Seq::empty(),
    }
}

impl ExecView {
    /// The event's provisional shown to the caller as a bare 180, in the one
    /// early dialog the caller holds.
    #[verifier::opaque]
    pub open spec fn relay_first_bare_180(
        self,
        w: WorkView,
        ctx: RuleContextView,
        leg_id: Seq<char>,
        b_tag: Seq<char>,
    ) -> WorkView {
        let stored = match w.call.relay_first_18x {
            Some(s) => s.a_tag,
            None => None,
        };
        let (w1, tag) = self.ensure_a_dialog(w, stored);
        let c2 = w1.call.add_tag_mapping(
            TagMappingView { a_tag: tag, b_leg_id: leg_id, b_tag },
        );
        let status = match ctx.response() {
            Some(r) => Some(r.status),
            None => None,
        };
        self.relay_to_peer(w1.on(shown_180(c2, tag, status)), ctx, bare_180())
    }
}

fn contains_status(list: &Vec<u16>, x: u16) -> (r: bool)
    ensures
        r == list@.contains(x),
{
    for i in 0..list.len()
        invariant
            forall|j: int| 0 <= j < i ==> list@[j] != x,
    {
        if list[i] == x {
            return true;
        }
    }
    false
}

fn clone_statuses(list: &Vec<u16>) -> (r: Vec<u16>)
    ensures
        r@ == list@,
{
    let mut out: Vec<u16> = Vec::new();
    for i in 0..list.len()
        invariant
            out@ == list@.take(i as int),
    {
        out.push(list[i]);
        assert(list@.take(i + 1) =~= list@.take(i as int).push(list@[i as int]));
    }
    assert(list@.take(list@.len() as int) =~= list@);
    out
}

fn note_180(call: &mut Call, tag: &String, status: Option<u16>)
    ensures
        final(call)@ == shown_180(old(call)@, tag@, status),
{
    let mut values = match &call.relay_first_18x {
        Some(s) => clone_statuses(&s.values),
        None => {
            let v: Vec<u16> = Vec::new();
            assert(v@ =~= Seq::<u16>::empty());
            v
        },
    };
    if let Some(v) = status {
        if !contains_status(&values, v) {
            values.push(v);
        }
    }
    call.relay_first_18x = Some(
        Relay18xState { a_tag: Some(tag.clone()), relayed: true, values },
    );
}

fn bare_180_transform() -> (r: MessageTransform)
    ensures
        r@ == bare_180(),
{
    let r = MessageTransform {
        status: Some(180),
        reason: Some("Ringing".to_string()),
        drop_body: true,
        remove_headers: vec![
            "Require".to_string(),
            "RSeq".to_string(),
            "P-Early-Media".to_string(),
        ],
        add_headers: Vec::new(),
    };
    assert(views(r.remove_headers@) =~= seq!["Require"@, "RSeq"@, "P-Early-Media"@]);
    assert(views(r.add_headers@) =~= Seq::empty());
    r
}

impl<'a> ActionExecutor<'a> {
    /// Show the event's provisional to the caller as a bare 180.
    pub(crate) fn relay_first_bare_180(
        &self,
        w: &mut Work,
        ctx: &RuleContext,
        leg_id: &String,
        b_tag: &String,
    )
        ensures
            final(w)@ == self@.relay_first_bare_180(old(w)@, ctx@, leg_id@, b_tag@),
    {
        proof {
            reveal(ExecView::relay_first_bare_180);
        }
        let stored = match &w.call.relay_first_18x {
            Some(s) => s.a_tag.clone(),
            None => None,
        };
        let tag = self.ensure_a_dialog_with(w, stored);
        add_tag_mapping(
            &mut w.call,
            TagMapping { a_tag: tag.clone(), b_leg_id: leg_id.clone(), b_tag: b_tag.clone() },
        );
        let status = match ctx.response() {
            Some(r) => Some(r.status),
            None => None,
        };
        note_180(&mut w.call, &tag, status);
        let t = bare_180_transform();
        self.relay_to_peer(w, ctx, &t);
    }
}

// ── laws ────────────────────────────────────────────────────────────────
/// The repeat of a reliable provisional that was dealt with goes no further:
/// nothing is sent, and no number is taken.
pub proof fn a_repeated_provisional_goes_no_further(
    x: ExecView,
    w: WorkView,
    ctx: RuleContextView,
    target: Seq<char>,
    t: MessageTransformView,
    resp: SipResponseView,
)
    requires
        repeats_reliable(w.call, ctx.source_leg_id, resp),
    ensures
        ({
            let r = x.relay_response(w, ctx, target, t, resp);
            &&& r.fx == w.fx
            &&& r.ids == w.ids
            &&& r.call == body_taken(w.call, t)
        }),
{
    reveal(ExecView::relay_response);
}

/// A response to a request that was not relayed is never turned into a response
/// to the caller's INVITE: nothing is sent.
pub proof fn a_stray_answer_goes_no_further(
    x: ExecView,
    w: WorkView,
    ctx: RuleContextView,
    target: Seq<char>,
    t: MessageTransformView,
    resp: SipResponseView,
)
    requires
        resp.method != MethodView::Invite,
        answering_dialog(ctx, resp) matches Some(d) ==> d.pending(resp.cseq) is None,
    ensures
        x.relay_response(w, ctx, target, t, resp).fx == w.fx,
{
    reveal(ExecView::relay_response);
}

/// A callee's dialog keeps the face the caller was shown: asked for again it is
/// the same tag, and nothing changes.
pub proof fn a_callees_dialog_keeps_its_face(
    x: ExecView,
    w: WorkView,
    source: Seq<char>,
    tag: Seq<char>,
)
    ensures
        ({
            let (w1, face) = x.face_for(w, source, tag);
            x.face_for(w1, source, tag) == (w1, face)
        }),
{
    reveal(ExecView::face_for);
    reveal(ExecView::ensure_a_dialog);
    if w.call.by_b_tag(source, tag) is None {
        let (w1, face) = x.face_for(w, source, tag);
        find_where_push(
            w.call.tag_map,
            TagMappingView { a_tag: face, b_leg_id: source, b_tag: tag },
            mapping_of_b(source, tag),
        );
    }
}

/// Whose dialog the caller sees: while its INVITE is being set up, a call that
/// does not mask shows every callee's dialog past the first under a tag of its
/// own; a call that masks fuses the first dialog of each leg onto the caller's.
pub proof fn masking_decides_the_face(x: ExecView, w: WorkView, source: Seq<char>, tag: Seq<char>)
    requires
        w.call.by_b_tag(source, tag) is None,
    ensures
        ({
            let (w1, primary) = x.ensure_a_dialog(w, None);
            let (w2, face) = x.face_for(w, source, tag);
            &&& masking(w.call) is None && w.call.a_leg.state != LegState::Confirmed
                && w.call.tag_map.len() > 0 ==> face == w1.ids.tag() && w2.ids == w1.ids.after()
            &&& masking(w.call) is Some && find_where(
                w.call.tag_map,
                mapping_on_leg(source),
            ) is None
                ==> face == primary && w2.ids == w1.ids
            &&& w.call.tag_map.len() == 0 ==> face == primary
        }),
{
    reveal(ExecView::face_for);
    reveal(ExecView::ensure_a_dialog);
    let (w1, primary) = x.ensure_a_dialog(w, None);
    assert(w1.call.tag_map == w.call.tag_map);
    assert(masking(w1.call) == masking(w.call));
    if w.call.tag_map.len() == 0 {
        first_where_none(w.call.tag_map, mapping_on_leg(source));
    }
}

/// The snapshot of a relayed request outlives every provisional.
pub proof fn a_provisional_closes_nothing(
    w: WorkView,
    source: Seq<char>,
    tag: Seq<char>,
    resp: SipResponseView,
    status: u16,
)
    requires
        status < 200,
    ensures
        transaction_closed(w, source, tag, resp, status) == w,
{
    reveal(transaction_closed);
}

/// A bare 180 states ringing and nothing else: no body and no line that
/// describes one, none of the lines that make it reliable or authorise early
/// media, and so no number.
pub proof fn a_bare_180_states_nothing_else(
    w: WorkView,
    resp: SipResponseView,
    shown: Seq<char>,
    cseq: i64,
    source: Seq<char>,
)
    ensures
        carried(w.call, bare_180(), resp).body.len() == 0,
        carried(w.call, bare_180(), resp).content_type is None,
        ({
            let hs = passed(
                bare_180(),
                lines_with(resp.relayable, carried(w.call, bare_180(), resp).source),
            );
            &&& forall|i: int|
                0 <= i < hs.len() ==> !describes_body((#[trigger] hs[i]).name)
            &&& !has_header(hs, "RSeq"@)
            &&& !has_header(hs, "Require"@)
            &&& !has_header(hs, "P-Early-Media"@)
            &&& numbered(w, shown, cseq, source, resp, hs) == (w, hs, None::<i64>)
        }),
{
    reveal(numbered);
    let t = bare_180();
    let names = t.remove_headers + names_of(t.add_headers);
    assert(names =~= t.remove_headers);
    let p = named_outside(names);
    let lines = lines_with(resp.relayable, SourceBody::Dropped);
    let hs = passed(t, lines);
    keep_sound(resp.relayable, goes_with(SourceBody::Dropped));
    keep_sound(lines, p);
    assert(hs =~= keep(lines, p));
    assert forall|i: int| 0 <= i < hs.len() implies !describes_body((#[trigger] hs[i]).name) by {
        assert(lines.contains(hs[i]));
        let j = choose|j: int| 0 <= j < lines.len() && lines[j] == hs[i];
        assert(goes_with(SourceBody::Dropped)(lines[j]));
    }
    removed_is_gone(hs, names, 0);
    removed_is_gone(hs, names, 1);
    removed_is_gone(hs, names, 2);
}

proof fn removed_is_gone(hs: Seq<SipHeaderView>, names: Seq<Seq<char>>, k: int)
    requires
        0 <= k < names.len(),
        forall|i: int| 0 <= i < hs.len() ==> named_outside(names)(#[trigger] hs[i]),
    ensures
        !has_header(hs, names[k]),
{
}

} // verus!
