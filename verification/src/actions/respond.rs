//! The responses this stack authors: answering the current request in place,
//! the finals and provisionals toward the caller, and the answer that opens a
//! dialog of its own. What relays a peer's response is [`super::relay_response`].
use vstd::prelude::*;

use super::ladder::retire_scope;
use super::ladder::retire;
use super::dialog_track::{keep_answer_sdp, retag_a_dialog, retagged, with_answer_sdp};
use super::{ActionExecutor, ExecView, Work, WorkView};
use crate::action::{
    AuthoredFinal, AuthoredFinalView, NewDialogAnswer, NewDialogAnswerView, Provisional,
    ProvisionalView,
};
use crate::books::{Scope, ScopeView};
use crate::call::{
    Answers, AnswersView, Call, CallView, Destination, DestinationView, LegState, LegView,
    MaxDurationAnchor, ResponsePlan, ResponsePlanView, TimerType, TimerTypeView,
};
use crate::capabilities::{
    is_token, relaying, relaying_set, stamp_advert, stamped, token, Face,
};
use crate::effects::{
    OutboundBody, OutboundBodyView, OutboundSip, OutboundSipView, Provenance, TxnMode,
};
use crate::headers::{
    among, append_lines, bare_uri, before, before_text, lines_outside, name_among, named_outside, to_bare_uri,
};
use crate::json::{member_text, read_text};
use crate::lens::{
    clamped_millis, clamp, dialog_identity_tag, identity_tag, set_leg_state, update_remote_cseq,
};
use crate::model::{CallEvent, CallEventView, RuleContext, RuleContextView};
use crate::seqs::{keep, keep_sound, keep_step, opt_view, views};
use crate::state::{b2bua_tag, own_tag};
use crate::text::{clone_bytes, same, split, split_text, trim, trim_text};
use crate::wire::{
    HeaderUpdate, HeaderUpdateView, Method, MethodView, RedirectContact, RedirectContactView, SipHeader,
    SipHeaderView, SipRequest, SipRequestView,
};

verus! {

// ── content types ───────────────────────────────────────────────────────
/// Whether a content type reads: a type and a subtype, with parameters at will.
pub open spec fn media_reads(s: Seq<char>) -> bool {
    let halves = split_text(before_text(s, ';'), '/');
    halves.len() == 2 && is_token()(trim_text(halves[0])) && is_token()(trim_text(halves[1]))
}

/// The stated content type, where it reads.
pub open spec fn media_type_of(s: Option<Seq<char>>) -> Option<Seq<char>> {
    match s {
        Some(t) => if media_reads(t) {
            Some(t)
        } else {
            None
        },
        None => None,
    }
}

/// The stated content type; a body without one is a session description.
pub open spec fn content_type_of(s: Option<Seq<char>>, body: Seq<u8>) -> Option<Seq<char>> {
    match media_type_of(s) {
        Some(t) => Some(t),
        None => if body.len() > 0 {
            Some("application/sdp"@)
        } else {
            None
        },
    }
}

/// The stated content type, where it reads.
pub(crate) fn media_type(s: &Option<String>) -> (r: Option<String>)
    ensures
        opt_view(r) == media_type_of(opt_view(*s)),
{
    match s {
        Some(t) => {
            let kind = before(t.as_str(), ';');
            let halves = split(kind.as_str(), '/');
            assert(views(halves@).len() == halves@.len());
            if halves.len() != 2 {
                return None;
            }
            assert(views(halves@)[0] == halves@[0]@);
            assert(views(halves@)[1] == halves@[1]@);
            let left = trim(halves[0].as_str());
            let right = trim(halves[1].as_str());
            if token(left.as_str()) && token(right.as_str()) {
                Some(t.clone())
            } else {
                None
            }
        },
        None => None,
    }
}

/// The stated content type; a body without one is a session description.
pub(crate) fn content_type(s: &Option<String>, body: &Vec<u8>) -> (r: Option<String>)
    ensures
        opt_view(r) == content_type_of(opt_view(*s), body@),
{
    match media_type(s) {
        Some(t) => Some(t),
        None => if body.len() > 0 {
            Some("application/sdp".to_string())
        } else {
            None
        },
    }
}

/// Whether a response states this stack's Contact: it establishes a dialog, or
/// answers what refreshes the target of one.
pub open spec fn states_contact(m: MethodView, status: u16) -> bool {
    if m == MethodView::Invite {
        100 < status < 300
    } else if m == MethodView::Update || m == MethodView::Subscribe || m == MethodView::Notify || m
        == MethodView::Refer {
        200 <= status < 300
    } else {
        false
    }
}

/// Whether a response states this stack's Contact.
pub(crate) fn response_states_contact(m: &Method, status: u16) -> (r: bool)
    ensures
        r == states_contact(m@, status),
{
    if *m == Method::Invite {
        100 < status && status < 300
    } else if *m == Method::Update || *m == Method::Subscribe || *m == Method::Notify || *m
        == Method::Refer {
        200 <= status && status < 300
    } else {
        false
    }
}

// ── the caller's INVITE ─────────────────────────────────────────────────
/// A response to the caller's INVITE that states no more than its status line
/// and tag.
pub open spec fn a_leg_response(
    c: CallView,
    status: u16,
    reason: Seq<char>,
    to_tag: Seq<char>,
) -> ResponsePlanView {
    ResponsePlanView {
        status,
        reason,
        answers: AnswersView::ALegInvite,
        cseq: c.a_leg_invite.cseq,
        method: MethodView::Invite,
        to_tag: Some(to_tag),
        contact: false,
        emergency: c.is_emergency(),
        body: Seq::empty(),
        content_type: None,
        headers: Seq::empty(),
        redirects: Seq::empty(),
        source_body: None,
    }
}

/// A response to the caller, on its INVITE's server transaction.
pub open spec fn toward_caller(
    c: CallView,
    plan: ResponsePlanView,
    provenance: Provenance,
) -> OutboundSipView {
    OutboundSipView {
        body: OutboundBodyView::Response { response: plan },
        mode: TxnMode::ServerResponse,
        destination: DestinationView::TopVia,
        leg_id: Some(c.a_leg.leg_id),
        provenance,
    }
}

/// The caller's INVITE with the final it was sent, where the status is one.
pub open spec fn with_final_sent(c: CallView, status: u16) -> CallView {
    if status >= 200 {
        CallView { a_leg: LegView { invite_final_sent: Some(status), ..c.a_leg }, ..c }
    } else {
        c
    }
}

/// A response to the caller's INVITE sent; nothing once its final was.
pub open spec fn answer_caller(
    w: WorkView,
    plan: ResponsePlanView,
    provenance: Provenance,
) -> WorkView {
    if w.call.a_leg.invite_final_sent is Some {
        w
    } else {
        w.on(with_final_sent(w.call, plan.status)).send(toward_caller(w.call, plan, provenance))
    }
}

/// Build a response to the caller's INVITE that states no more than its status
/// line and tag.
pub(crate) fn plain_response(
    call: &Call,
    status: u16,
    reason: &String,
    to_tag: String,
) -> (r: ResponsePlan)
    ensures
        r@ == a_leg_response(call@, status, reason@, to_tag@),
{
    let r = ResponsePlan {
        status,
        reason: reason.clone(),
        answers: Answers::ALegInvite,
        cseq: call.a_leg_invite.cseq,
        method: Method::Invite,
        to_tag: Some(to_tag),
        contact: false,
        emergency: call.is_emergency(),
        body: Vec::new(),
        content_type: None,
        headers: Vec::new(),
        redirects: Vec::new(),
        source_body: None,
    };
    assert(views(r.headers@) =~= Seq::empty());
    assert(views(r.redirects@) =~= Seq::empty());
    assert(r.body@ =~= Seq::empty());
    r
}

/// Address a response to the caller.
pub(crate) fn caller_effect(
    call: &Call,
    plan: ResponsePlan,
    provenance: Provenance,
) -> (r: OutboundSip)
    ensures
        r@ == toward_caller(call@, plan@, provenance),
{
    OutboundSip {
        body: OutboundBody::Response { response: plan },
        mode: TxnMode::ServerResponse,
        destination: Destination::TopVia,
        leg_id: Some(call.a_leg.leg_id.clone()),
        provenance,
    }
}

/// Note the final sent to the caller's INVITE.
pub(crate) fn note_final(call: &mut Call, status: u16)
    ensures
        final(call)@ == with_final_sent(old(call)@, status),
{
    if status >= 200 {
        call.a_leg.invite_final_sent = Some(status);
    }
}

/// Send a response to the caller's INVITE, unless its final was sent.
pub(crate) fn send_to_caller(w: &mut Work, plan: ResponsePlan, provenance: Provenance)
    ensures
        final(w)@ == answer_caller(old(w)@, plan@, provenance),
{
    if w.call.a_leg.invite_final_sent.is_some() {
        return;
    }
    let status = plan.status;
    let effect = caller_effect(&w.call, plan, provenance);
    note_final(&mut w.call, status);
    w.send(effect);
}

// ── header updates ──────────────────────────────────────────────────────
/// Headers the stack writes itself; a decision neither sets nor removes them.
pub open spec fn structural_names() -> Seq<Seq<char>> {
    seq![
        "Via"@,
        "From"@,
        "To"@,
        "Call-ID"@,
        "CSeq"@,
        "Contact"@,
        "Max-Forwards"@,
        "Route"@,
        "Record-Route"@,
        "Content-Type"@,
        "Content-Length"@,
    ]
}

pub open spec fn is_structural(name: Seq<char>) -> bool {
    name_among(structural_names(), name)
}

/// The headers the stack writes itself.
pub(crate) fn structural() -> (r: Vec<String>)
    ensures
        views(r@) == structural_names(),
{
    let names: Vec<String> = vec![
        "Via".to_string(),
        "From".to_string(),
        "To".to_string(),
        "Call-ID".to_string(),
        "CSeq".to_string(),
        "Contact".to_string(),
        "Max-Forwards".to_string(),
        "Route".to_string(),
        "Record-Route".to_string(),
        "Content-Type".to_string(),
        "Content-Length".to_string(),
    ];
    assert(views(names@) =~= structural_names());
    names
}

/// An update that sets a header the decision may set.
pub open spec fn sets_header() -> spec_fn(HeaderUpdateView) -> bool {
    |u: HeaderUpdateView| u.value is Some && !is_structural(u.name)
}

pub open spec fn update_line() -> spec_fn(HeaderUpdateView) -> SipHeaderView {
    |u: HeaderUpdateView| SipHeaderView { name: u.name, value: u.value->0 }
}

/// The lines a list of updates sets; removals and the stack's own headers state
/// none.
pub open spec fn update_lines(us: Seq<HeaderUpdateView>) -> Seq<SipHeaderView> {
    keep(us, sets_header()).map_values(update_line())
}

pub open spec fn update_name() -> spec_fn(HeaderUpdateView) -> Seq<char> {
    |u: HeaderUpdateView| u.name
}

/// The headers a list of updates names, to set or to remove.
pub open spec fn update_names(us: Seq<HeaderUpdateView>) -> Seq<Seq<char>> {
    us.map_values(update_name())
}

/// The lines the updates set.
pub(crate) fn header_update_lines(us: &Vec<HeaderUpdate>) -> (r: Vec<SipHeader>)
    ensures
        views(r@) == update_lines(views(us@)),
{
    let ghost p = sets_header();
    let ghost f = update_line();
    let own = structural();
    let mut out: Vec<SipHeader> = Vec::new();
    assert(views(us@).take(0).len() == 0);
    assert(views(out@) =~= keep(views(us@).take(0), p).map_values(f));
    for i in 0..us.len()
        invariant
            p == sets_header(),
            f == update_line(),
            views(own@) == structural_names(),
            views(out@) == keep(views(us@).take(i as int), p).map_values(f),
    {
        proof {
            keep_step(views(us@), p, i as int);
        }
        assert(views(us@)[i as int] == us@[i as int]@);
        if let Some(v) = &us[i].value {
            if !among(&own, &us[i].name) {
                let line = SipHeader { name: us[i].name.clone(), value: v.clone() };
                let ghost before = out@;
                out.push(line);
                assert(views(out@) =~= views(before).push(line@));
                assert(keep(views(us@).take(i + 1), p).map_values(f) =~= keep(
                    views(us@).take(i as int),
                    p,
                ).map_values(f).push(line@));
            }
        }
    }
    assert(views(us@).take(us@.len() as int) =~= views(us@));
    out
}

/// The headers the updates name.
pub(crate) fn names_updated(us: &Vec<HeaderUpdate>) -> (r: Vec<String>)
    ensures
        views(r@) == update_names(views(us@)),
{
    let mut out: Vec<String> = Vec::new();
    for i in 0..us.len()
        invariant
            views(out@) == update_names(views(us@)).take(i as int),
    {
        let ghost before = out@;
        out.push(us[i].name.clone());
        assert(views(out@) =~= views(before).push(us@[i as int].name@));
        assert(update_names(views(us@)).take(i + 1) =~= update_names(views(us@)).take(
            i as int,
        ).push(us@[i as int].name@));
    }
    assert(update_names(views(us@)).take(us@.len() as int) =~= update_names(views(us@)));
    out
}

// ── in place ────────────────────────────────────────────────────────────
/// The source dialog with the sequence number of a request answered here.
pub open spec fn heard_here(c: CallView, ctx: RuleContextView, req: SipRequestView) -> CallView {
    match (req.to_tag, ctx.source_dialog()) {
        (Some(_), Some(d)) => if d.ext.remote_cseq is None || req.cseq > d.ext.remote_cseq->0 {
            c.update_remote_cseq(
                ctx.source_leg_id,
                identity_tag(ctx.source_leg_id, d),
                req.cseq,
            )
        } else {
            c
        },
        _ => c,
    }
}

/// The answer to the current request.
pub open spec fn in_place(
    c: CallView,
    ctx: RuleContextView,
    req: SipRequestView,
    status: u16,
    reason: Seq<char>,
    body: Seq<u8>,
    content_type: Option<Seq<char>>,
) -> ResponsePlanView {
    ResponsePlanView {
        status,
        reason,
        answers: AnswersView::CurrentRequest,
        cseq: req.cseq,
        method: req.method,
        to_tag: if req.to_tag is Some {
            req.to_tag
        } else {
            own_tag(c, ctx.source_leg_id)
        },
        contact: false,
        emergency: false,
        body,
        content_type: media_type_of(content_type),
        headers: Seq::empty(),
        redirects: Seq::empty(),
        source_body: None,
    }
}

/// The current request answered in place.
#[verifier::opaque]
pub open spec fn respond(
    w: WorkView,
    ctx: RuleContextView,
    status: u16,
    reason: Seq<char>,
    body: Seq<u8>,
    content_type: Option<Seq<char>>,
) -> WorkView {
    match ctx.request() {
        Some(req) => {
            let call = heard_here(w.call, ctx, req);
            w.on(call).send(
                OutboundSipView {
                    body: OutboundBodyView::Response {
                        response: in_place(call, ctx, req, status, reason, body, content_type),
                    },
                    mode: TxnMode::ServerResponse,
                    destination: DestinationView::TopVia,
                    leg_id: Some(ctx.source_leg_id),
                    provenance: Provenance::Authored,
                },
            )
        },
        None => w,
    }
}

fn hear_here(call: &mut Call, ctx: &RuleContext, req: &SipRequest)
    ensures
        final(call)@ == heard_here(old(call)@, ctx@, req@),
{
    if req.to_tag.is_none() {
        return;
    }
    if let Some(d) = ctx.source_dialog() {
        let newer = match d.ext.remote_cseq {
            Some(c) => req.cseq > c,
            None => true,
        };
        if newer {
            let tag = dialog_identity_tag(ctx.source_leg_id, d);
            update_remote_cseq(call, ctx.source_leg_id, &tag, req.cseq);
        }
    }
}

// ── the failed peer's own words ─────────────────────────────────────────
/// Whether the event is the answer to a failure consult about a peer.
pub open spec fn answers_failure(e: CallEventView) -> bool {
    match e {
        CallEventView::Internal { topic, payload, .. } => topic == "call-failure-result"@
            && member_text(payload, "origin"@) != Some("call_limiter"@),
        _ => false,
    }
}

/// The failing peer's header lines, on a final that answers the consult about
/// it; nothing on any other.
pub open spec fn failure_lines(ctx: RuleContextView, c: CallView) -> Seq<SipHeaderView> {
    if answers_failure(ctx.event) {
        c.failure_headers
    } else {
        Seq::empty()
    }
}

fn failure_headers_answering(ctx: &RuleContext, call: &Call) -> (r: Vec<SipHeader>)
    ensures
        views(r@) == failure_lines(ctx@, call@),
{
    let none: Vec<SipHeader> = Vec::new();
    assert(views(none@) =~= Seq::<SipHeaderView>::empty());
    match ctx.event {
        CallEvent::Internal { topic, payload, .. } => {
            if !same(topic.as_str(), "call-failure-result") {
                return none;
            }
            if let Some(origin) = read_text(payload, "origin") {
                if same(origin.as_str(), "call_limiter") {
                    return none;
                }
            }
            let mut out: Vec<SipHeader> = Vec::new();
            assert(views(out@) + views(call.failure_headers@) =~= views(call.failure_headers@));
            append_lines(&mut out, &call.failure_headers);
            out
        },
        _ => none,
    }
}

// ── redirects ───────────────────────────────────────────────────────────
/// The targets of a redirect in their bare form; nothing where one does not
/// read.
pub open spec fn redirect_targets(cs: Seq<RedirectContactView>) -> Option<Seq<RedirectContactView>>
    decreases cs.len(),
{
    if cs.len() == 0 {
        Some(Seq::empty())
    } else {
        match (redirect_targets(cs.drop_last()), bare_uri(cs.last().uri)) {
            (Some(before), Some(uri)) => Some(
                before.push(RedirectContactView { uri, q: cs.last().q }),
            ),
            _ => None,
        }
    }
}

proof fn one_unread_refuses(cs: Seq<RedirectContactView>, i: int)
    requires
        0 <= i < cs.len(),
        redirect_targets(cs.take(i + 1)) is None,
    ensures
        redirect_targets(cs) is None,
    decreases cs.len(),
{
    if i + 1 < cs.len() {
        assert(cs.drop_last().take(i + 1) =~= cs.take(i + 1));
        one_unread_refuses(cs.drop_last(), i);
    } else {
        assert(cs.take(i + 1) =~= cs);
    }
}

fn read_targets(cs: &Vec<RedirectContact>) -> (r: Option<Vec<RedirectContact>>)
    ensures
        match r {
            Some(v) => redirect_targets(views(cs@)) == Some(views(v@)),
            None => redirect_targets(views(cs@)) is None,
        },
{
    let mut out: Vec<RedirectContact> = Vec::new();
    assert(views(cs@).take(0).len() == 0);
    assert(views(out@) =~= Seq::<RedirectContactView>::empty());
    for i in 0..cs.len()
        invariant
            redirect_targets(views(cs@).take(i as int)) == Some(views(out@)),
    {
        assert(views(cs@).take(i + 1).drop_last() =~= views(cs@).take(i as int));
        assert(views(cs@).take(i + 1).last() == cs@[i as int]@);
        match to_bare_uri(cs[i].uri.as_str()) {
            Some(uri) => {
                let mut c = cs[i].clone();
                c.uri = uri;
                let ghost before = out@;
                out.push(c);
                assert(views(out@) =~= views(before).push(c@));
            },
            None => {
                proof {
                    one_unread_refuses(views(cs@), i as int);
                }
                return None;
            },
        }
    }
    assert(views(cs@).take(cs@.len() as int) =~= views(cs@));
    Some(out)
}

// ── finals ──────────────────────────────────────────────────────────────
/// The final a decision authored, as it goes out. A redirect whose targets do
/// not all read is refused, and the caller gets the plain server error.
pub open spec fn authored_plan(
    ctx: RuleContextView,
    c: CallView,
    tag: Seq<char>,
    a: AuthoredFinalView,
) -> ResponsePlanView {
    match redirect_targets(a.contacts) {
        Some(targets) => ResponsePlanView {
            headers: update_lines(a.header_updates) + if 300 <= a.status < 400 {
                Seq::empty()
            } else {
                keep(failure_lines(ctx, c), named_outside(update_names(a.header_updates)))
            },
            redirects: targets,
            ..a_leg_response(c, a.status, a.reason, tag)
        },
        None => a_leg_response(c, 500, "Server Internal Error"@, tag),
    }
}

/// The answer to the caller in a dialog of its own, as it goes out.
pub open spec fn new_dialog_plan(
    c: CallView,
    tag: Seq<char>,
    a: NewDialogAnswerView,
) -> ResponsePlanView {
    let owned = update_names(a.header_updates);
    let relayed = keep(a.relayed, named_outside(owned));
    ResponsePlanView {
        contact: true,
        body: a.body,
        content_type: content_type_of(a.content_type, a.body),
        headers: stamped(
            relayed + update_lines(a.header_updates),
            owned,
            relaying_set(c.features, Face::Originator, relayed),
        ),
        ..a_leg_response(c, a.status, a.reason, tag)
    }
}

impl ExecView {
    /// An answer to the caller sent, and repeated until its ACK.
    #[verifier::opaque]
    pub open spec fn send_a_leg_answer(
        self,
        w: WorkView,
        plan: ResponsePlanView,
        provenance: Provenance,
    ) -> WorkView {
        self.retain_a_leg_answer(
            retire(w, ScopeView::Provisionals),
            plan,
            DestinationView::TopVia,
        ).send(toward_caller(w.call, plan, provenance))
    }

    /// The failure final sent to the caller.
    #[verifier::opaque]
    pub open spec fn relay_failure_to_a_leg(
        self,
        w: WorkView,
        ctx: RuleContextView,
        status: u16,
        reason: Seq<char>,
    ) -> WorkView {
        let (w1, tag) = self.ensure_a_dialog(retire(w, ScopeView::Provisionals), None);
        answer_caller(
            w1,
            ResponsePlanView {
                contact: states_contact(MethodView::Invite, status),
                headers: failure_lines(ctx, w1.call),
                ..a_leg_response(w1.call, status, reason, tag)
            },
            Provenance::Relayed,
        )
    }

    /// The authored final sent to the caller.
    #[verifier::opaque]
    pub open spec fn respond_to_a_leg(
        self,
        w: WorkView,
        ctx: RuleContextView,
        a: AuthoredFinalView,
    ) -> WorkView {
        let (w1, tag) = self.ensure_a_dialog(retire(w, ScopeView::Provisionals), None);
        answer_caller(w1, authored_plan(ctx, w1.call, tag, a), Provenance::Authored)
    }

    /// A provisional shown to the caller.
    #[verifier::opaque]
    pub open spec fn send_provisional_to_leg(self, w: WorkView, p: ProvisionalView) -> WorkView {
        if !(100 <= p.status < 200) || p.leg_id != w.call.a_leg.leg_id
            || w.call.a_leg.invite_final_sent is Some {
            w
        } else {
            let (w1, tag) = match p.to_tag {
                Some(t) => {
                    let w1 = self.ensure_a_dialog(w, Some(t)).0;
                    (w1.on(retagged(w1.call, t)), t)
                },
                None => self.ensure_a_dialog(w, None),
            };
            answer_caller(
                w1,
                ResponsePlanView {
                    contact: states_contact(MethodView::Invite, p.status),
                    body: p.body,
                    content_type: content_type_of(p.content_type, p.body),
                    headers: match p.p_early_media {
                        Some(v) => seq![
                            SipHeaderView { name: "P-Early-Media"@, value: v },
                        ],
                        None => Seq::empty(),
                    },
                    ..a_leg_response(w1.call, p.status, p.reason, tag)
                },
                Provenance::Authored,
            )
        }
    }

    /// The ceiling of the call running from its answer, where it is anchored
    /// there.
    #[verifier::opaque]
    pub open spec fn anchor_at_answer(self, w: WorkView) -> WorkView {
        match w.call.features {
            Some(f) => if f.platform.max_duration_anchor == MaxDurationAnchor::Answer {
                self.schedule(
                    w,
                    TimerTypeView::GlobalDuration,
                    clamp(f.platform.max_duration_sec * 1000),
                    None,
                )
            } else {
                w
            },
            None => w,
        }
    }

    /// The caller answered in a dialog of its own, which supersedes the early
    /// one. Only a 2xx opens a dialog, and only where no final was sent.
    #[verifier::opaque]
    pub open spec fn answer_a_leg_new_dialog(
        self,
        w: WorkView,
        a: NewDialogAnswerView,
    ) -> WorkView {
        if !(200 <= a.status < 300) {
            w
        } else {
            let (w1, tag) = match a.to_tag {
                Some(t) => (w, t),
                None => (w.minted(), w.ids.tag()),
            };
            if w1.call.a_leg.invite_final_sent is Some {
                w1
            } else {
                let plan = new_dialog_plan(w1.call, tag, a);
                let w2 = w1.on(with_final_sent(w1.call, a.status));
                let w3 = self.ensure_a_dialog(w2, Some(tag)).0;
                let c4 = retagged(w3.call, tag);
                let c5 = if a.body.len() > 0 {
                    with_answer_sdp(c4, a.body)
                } else {
                    c4
                };
                let w6 = self.send_a_leg_answer(w3.on(c5), plan, Provenance::Authored);
                self.anchor_at_answer(
                    w6.on(w6.call.set_leg_state(w6.call.a_leg.leg_id, LegState::Confirmed)),
                )
            }
        }
    }
}

impl<'a> ActionExecutor<'a> {
    /// Answer the current request in place. One within a dialog still advances
    /// what the dialog has heard; one that names no dialog is answered under
    /// the leg's own tag.
    pub(crate) fn respond(
        &self,
        w: &mut Work,
        ctx: &RuleContext,
        status: u16,
        reason: &String,
        body: &Vec<u8>,
        content_type: &Option<String>,
    )
        ensures
            final(w)@ == respond(
                old(w)@,
                ctx@,
                status,
                reason@,
                body@,
                opt_view(*content_type),
            ),
    {
        proof {
            reveal(respond);
        }
        if let Some(req) = ctx.request() {
            hear_here(&mut w.call, ctx, req);
            let to_tag = match &req.to_tag {
                Some(t) => Some(t.clone()),
                None => b2bua_tag(&w.call, ctx.source_leg_id),
            };
            let plan = ResponsePlan {
                status,
                reason: reason.clone(),
                answers: Answers::CurrentRequest,
                cseq: req.cseq,
                method: req.method.clone(),
                to_tag,
                contact: false,
                emergency: false,
                body: clone_bytes(body),
                content_type: media_type(content_type),
                headers: Vec::new(),
                redirects: Vec::new(),
                source_body: None,
            };
            assert(views(plan.headers@) =~= Seq::empty());
            assert(views(plan.redirects@) =~= Seq::empty());
            w.send(
                OutboundSip {
                    body: OutboundBody::Response { response: plan },
                    mode: TxnMode::ServerResponse,
                    destination: Destination::TopVia,
                    leg_id: Some(ctx.source_leg_id.clone()),
                    provenance: Provenance::Authored,
                },
            );
        }
    }

    /// Send an answer to the caller: every provisional ladder ends, and the
    /// answer is repeated until its ACK. The one way a 2xx leaves for the
    /// caller's INVITE.
    pub(crate) fn send_a_leg_answer(&self, w: &mut Work, plan: ResponsePlan, provenance: Provenance)
        ensures
            final(w)@ == self@.send_a_leg_answer(old(w)@, plan@, provenance),
    {
        proof {
            reveal(ExecView::send_a_leg_answer);
        }
        let effect = caller_effect(&w.call, plan.clone(), provenance);
        retire_scope(w, &Scope::Provisionals);
        self.retain_a_leg_answer(w, &plan, &Destination::TopVia);
        w.send(effect);
    }

    /// Send the caller a failure final under the caller dialog's own tag, with
    /// the failing peer's lines where it answers the consult about that peer.
    pub(crate) fn relay_failure_to_a_leg(
        &self,
        w: &mut Work,
        ctx: &RuleContext,
        status: u16,
        reason: &String,
    )
        ensures
            final(w)@ == self@.relay_failure_to_a_leg(old(w)@, ctx@, status, reason@),
    {
        proof {
            reveal(ExecView::relay_failure_to_a_leg);
        }
        retire_scope(w, &Scope::Provisionals);
        let tag = self.ensure_a_dialog(w);
        let mut plan = plain_response(&w.call, status, reason, tag);
        plan.contact = response_states_contact(&Method::Invite, status);
        plan.headers = failure_headers_answering(ctx, &w.call);
        send_to_caller(w, plan, Provenance::Relayed);
    }

    /// Send the caller the final a decision authored. The failing peer's lines
    /// ride under the decision's own, and never on a redirect.
    pub(crate) fn respond_to_a_leg(&self, w: &mut Work, ctx: &RuleContext, a: &AuthoredFinal)
        ensures
            final(w)@ == self@.respond_to_a_leg(old(w)@, ctx@, a@),
    {
        proof {
            reveal(ExecView::respond_to_a_leg);
        }
        retire_scope(w, &Scope::Provisionals);
        let tag = self.ensure_a_dialog(w);
        match read_targets(&a.contacts) {
            Some(targets) => {
                let mut plan = plain_response(&w.call, a.status, &a.reason, tag);
                plan.redirects = targets;
                let mut lines = header_update_lines(&a.header_updates);
                if a.status < 300 || a.status >= 400 {
                    let names = names_updated(&a.header_updates);
                    let peer = lines_outside(&failure_headers_answering(ctx, &w.call), &names);
                    append_lines(&mut lines, &peer);
                } else {
                    assert(views(lines@) + Seq::<SipHeaderView>::empty() =~= views(lines@));
                }
                plan.headers = lines;
                send_to_caller(w, plan, Provenance::Authored);
            },
            None => {
                let reason = "Server Internal Error".to_string();
                let plan = plain_response(&w.call, 500, &reason, tag);
                send_to_caller(w, plan, Provenance::Authored);
            },
        }
    }

    /// Show the caller a provisional, under the tag the service states or the
    /// caller dialog's own; either way the tag shown becomes the dialog's.
    pub(crate) fn send_provisional_to_leg(&self, w: &mut Work, p: &Provisional)
        ensures
            final(w)@ == self@.send_provisional_to_leg(old(w)@, p@),
    {
        proof {
            reveal(ExecView::send_provisional_to_leg);
        }
        if p.status < 100 || p.status >= 200 || p.leg_id != w.call.a_leg.leg_id {
            return;
        }
        if w.call.a_leg.invite_final_sent.is_some() {
            return;
        }
        let tag = match &p.to_tag {
            Some(t) => {
                self.ensure_a_dialog_with(w, Some(t.clone()));
                retag_a_dialog(&mut w.call, t);
                t.clone()
            },
            None => self.ensure_a_dialog(w),
        };
        let mut plan = plain_response(&w.call, p.status, &p.reason, tag);
        plan.contact = response_states_contact(&Method::Invite, p.status);
        plan.body = clone_bytes(&p.body);
        plan.content_type = content_type(&p.content_type, &p.body);
        let mut lines: Vec<SipHeader> = Vec::new();
        assert(views(lines@) =~= Seq::<SipHeaderView>::empty());
        if let Some(v) = &p.p_early_media {
            let line = SipHeader { name: "P-Early-Media".to_string(), value: v.clone() };
            lines.push(line);
            assert(views(lines@) =~= seq![line@]);
        }
        plan.headers = lines;
        send_to_caller(w, plan, Provenance::Authored);
    }

    fn anchor_at_answer(&self, w: &mut Work)
        ensures
            final(w)@ == self@.anchor_at_answer(old(w)@),
    {
        proof {
            reveal(ExecView::anchor_at_answer);
        }
        let armed = match &w.call.features {
            Some(f) => if f.platform.max_duration_anchor == MaxDurationAnchor::Answer {
                Some(f.platform.max_duration_sec)
            } else {
                None
            },
            None => None,
        };
        if let Some(secs) = armed {
            self.schedule(w, TimerType::GlobalDuration, clamped_millis(secs), None);
        }
    }

    /// Answer the caller in a dialog of its own.
    pub(crate) fn answer_a_leg_new_dialog(&self, w: &mut Work, a: &NewDialogAnswer)
        ensures
            final(w)@ == self@.answer_a_leg_new_dialog(old(w)@, a@),
    {
        proof {
            reveal(ExecView::answer_a_leg_new_dialog);
        }
        if a.status < 200 || a.status >= 300 {
            return;
        }
        let tag = match &a.to_tag {
            Some(t) => t.clone(),
            None => w.ids.new_tag(),
        };
        if w.call.a_leg.invite_final_sent.is_some() {
            return;
        }
        let mut plan = plain_response(&w.call, a.status, &a.reason, tag.clone());
        plan.contact = true;
        plan.body = clone_bytes(&a.body);
        plan.content_type = content_type(&a.content_type, &a.body);
        let owned = names_updated(&a.header_updates);
        let mut lines = lines_outside(&a.relayed, &owned);
        let advert = relaying(&w.call, Face::Originator, &lines);
        append_lines(&mut lines, &header_update_lines(&a.header_updates));
        plan.headers = stamp_advert(&lines, &owned, &advert);
        note_final(&mut w.call, a.status);
        self.ensure_a_dialog_with(w, Some(tag.clone()));
        retag_a_dialog(&mut w.call, &tag);
        if a.body.len() > 0 {
            keep_answer_sdp(&mut w.call, clone_bytes(&a.body));
        }
        self.send_a_leg_answer(w, plan, Provenance::Authored);
        let leg_id = w.call.a_leg.leg_id.clone();
        set_leg_state(&mut w.call, &leg_id, LegState::Confirmed);
        self.anchor_at_answer(w);
    }
}

// ── laws ────────────────────────────────────────────────────────────────
/// The caller's INVITE gets one final: whatever is sent after it is refused,
/// provisional or final.
pub proof fn one_final_per_invite(
    w: WorkView,
    first: ResponsePlanView,
    then_sent: ResponsePlanView,
    p: Provenance,
    q: Provenance,
)
    requires
        first.status >= 200,
    ensures
        answer_caller(answer_caller(w, first, p), then_sent, q) == answer_caller(w, first, p),
{
}

/// A header a decision names is the decision's alone: no line of the failing
/// peer's competes with it.
pub proof fn the_decision_owns_its_headers(
    ctx: RuleContextView,
    c: CallView,
    tag: Seq<char>,
    a: AuthoredFinalView,
    i: int,
)
    requires
        redirect_targets(a.contacts) is Some,
        update_lines(a.header_updates).len() <= i < authored_plan(ctx, c, tag, a).headers.len(),
    ensures
        !name_among(update_names(a.header_updates), authored_plan(ctx, c, tag, a).headers[i].name),
{
    let names = update_names(a.header_updates);
    keep_sound(failure_lines(ctx, c), named_outside(names));
}

/// A redirect is an instruction of its own: it carries nothing of the peer's.
pub proof fn redirects_speak_for_themselves(
    ctx: RuleContextView,
    c: CallView,
    tag: Seq<char>,
    a: AuthoredFinalView,
)
    requires
        300 <= a.status < 400,
        redirect_targets(a.contacts) is Some,
    ensures
        authored_plan(ctx, c, tag, a).headers == update_lines(a.header_updates),
{
    assert(update_lines(a.header_updates) + Seq::<SipHeaderView>::empty() =~= update_lines(
        a.header_updates,
    ));
}

} // verus!
