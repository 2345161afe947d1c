//! The core rules a REFER meets before a transfer is under way: the first one of
//! a bridged callee is accepted and put to the decision layer; one whose target
//! does not read, one that asks for an attended transfer, and one of the
//! caller's are refused.
//!
//! All of them hold only where the route directs REFER to be processed here;
//! elsewhere a REFER is relayed like any other request.
use vstd::prelude::*;

use crate::action::{RuleAction, RuleActionView};
use crate::call::{
    Direction, LegDisposition, LegState, TimerType, TimerTypeView, TransferPhase, TransferState,
    TransferStateView,
};
use crate::effects::{ReferRequest, ReferRequestView};
use crate::headers::{
    bare_uri, has_replaces, header, header_text, header_value, lines_outside, named_outside,
    to_bare_uri, uri_has_replaces,
};
use crate::model::{
    Guard, Handler, Match, MatchView, RuleContext, RuleContextView, RuleDefinition,
    RuleDefinitionView, CORE_LAYER,
};
use crate::refer_transfer::notify::{notify, report, Subscription};
use crate::seqs::{keep, keep_step, views};
use crate::verbs::{add_action, texts, then_do};
use crate::wire::{Method, MethodView, SipHeader, SipHeaderView, SipRequest, SipRequestView};

verus! {

// ── when they apply ─────────────────────────────────────────────────────
/// The route directs REFER to be processed here.
pub open spec fn refers_locally(ctx: RuleContextView) -> bool {
    ctx.call.features is Some && ctx.call.features->0.refer
}

/// Whether the route directs REFER to be processed here.
pub(crate) fn local_refer(ctx: &RuleContext) -> (r: bool)
    ensures
        r == refers_locally(ctx@),
{
    match &ctx.call.features {
        Some(f) => f.refer,
        None => false,
    }
}

/// A transfer is under way.
pub open spec fn transferring(ctx: RuleContextView) -> bool {
    ctx.call.transfer is Some
}

/// Whether a transfer is under way.
pub(crate) fn transfer_active(ctx: &RuleContext) -> (r: bool)
    ensures
        r == transferring(ctx@),
{
    ctx.call.transfer.is_some()
}

/// What the request's `Refer-To` says.
pub open spec fn refer_target(ctx: RuleContextView) -> Option<Seq<char>> {
    match ctx.request() {
        Some(r) => header_value(r.headers, "Refer-To"@),
        None => None,
    }
}

/// The request names a target that reads.
pub open spec fn target_reads(ctx: RuleContextView) -> bool {
    refer_target(ctx) is Some && bare_uri(refer_target(ctx)->0) is Some
}

/// Whether the request names a target that reads.
pub(crate) fn refer_to_readable(ctx: &RuleContext) -> (r: bool)
    ensures
        r == target_reads(ctx@),
{
    match ctx.request() {
        Some(req) => match header(&req.headers, "Refer-To") {
            Some(v) => to_bare_uri(v.as_str()).is_some(),
            None => false,
        },
        None => false,
    }
}

/// The request names a dialog its target is to replace.
pub open spec fn attended(ctx: RuleContextView) -> bool {
    target_reads(ctx) && uri_has_replaces(refer_target(ctx)->0)
}

/// Whether the request names a dialog its target is to replace.
pub(crate) fn refer_to_has_replaces(ctx: &RuleContext) -> (r: bool)
    ensures
        r == attended(ctx@),
{
    match ctx.request() {
        Some(req) => match header(&req.headers, "Refer-To") {
            Some(v) => to_bare_uri(v.as_str()).is_some() && has_replaces(v.as_str()),
            None => false,
        },
        None => false,
    }
}

// ── what the decision layer is asked ────────────────────────────────────
/// The headers that stay here: the stack's own, and those that are stated as
/// members of the request.
pub open spec fn withheld() -> Seq<Seq<char>> {
    seq![
        "From"@,
        "To"@,
        "Via"@,
        "Contact"@,
        "Content-Type"@,
        "Call-ID"@,
        "CSeq"@,
        "Max-Forwards"@,
        "Content-Length"@,
        "Refer-To"@,
        "Referred-By"@,
    ]
}

fn withheld_names() -> (r: Vec<String>)
    ensures
        views(r@) == withheld(),
{
    let list: Vec<&str> = vec![
        "From",
        "To",
        "Via",
        "Contact",
        "Content-Type",
        "Call-ID",
        "CSeq",
        "Max-Forwards",
        "Content-Length",
        "Refer-To",
        "Referred-By",
    ];
    assert(views(list@) =~= withheld());
    texts(list)
}

pub open spec fn named_otherwise(name: Seq<char>) -> spec_fn(SipHeaderView) -> bool {
    |h: SipHeaderView| h.name != name
}

/// One line of each name: the last.
pub open spec fn last_of_each(hs: Seq<SipHeaderView>) -> Seq<SipHeaderView>
    decreases hs.len(),
{
    if hs.len() == 0 {
        Seq::empty()
    } else {
        keep(last_of_each(hs.drop_last()), named_otherwise(hs.last().name)).push(hs.last())
    }
}

fn drop_named(hs: &Vec<SipHeader>, name: &String) -> (r: Vec<SipHeader>)
    ensures
        views(r@) == keep(views(hs@), named_otherwise(name@)),
{
    let ghost p = named_otherwise(name@);
    let mut out: Vec<SipHeader> = Vec::new();
    assert(views(hs@).take(0).len() == 0);
    assert(views(out@) =~= Seq::<SipHeaderView>::empty());
    for i in 0..hs.len()
        invariant
            p == named_otherwise(name@),
            views(out@) == keep(views(hs@).take(i as int), p),
    {
        proof {
            keep_step(views(hs@), p, i as int);
        }
        if hs[i].name != *name {
            let ghost before = views(out@);
            out.push(hs[i].clone());
            assert(views(out@) =~= before.push(hs@[i as int]@));
        }
    }
    assert(views(hs@).take(hs@.len() as int) =~= views(hs@));
    out
}

/// The headers the decision layer is shown.
pub open spec fn shown_headers(req: SipRequestView) -> Seq<SipHeaderView> {
    last_of_each(keep(req.headers, named_outside(withheld())))
}

/// The headers the decision layer is shown.
pub(crate) fn extract_sip_headers(req: &SipRequest) -> (r: Vec<SipHeader>)
    ensures
        views(r@) == shown_headers(req@),
{
    let names = withheld_names();
    let hs = lines_outside(&req.headers, &names);
    let ghost all = views(hs@);
    let mut out: Vec<SipHeader> = Vec::new();
    assert(all.take(0).len() == 0);
    assert(views(out@) =~= Seq::<SipHeaderView>::empty());
    for i in 0..hs.len()
        invariant
            all == views(hs@),
            views(out@) == last_of_each(all.take(i as int)),
    {
        assert(all.take(i + 1).drop_last() =~= all.take(i as int));
        assert(all.take(i + 1).last() == hs@[i as int]@);
        let mut kept = drop_named(&out, &hs[i].name);
        let ghost before = views(kept@);
        kept.push(hs[i].clone());
        assert(views(kept@) =~= before.push(hs@[i as int]@));
        out = kept;
    }
    assert(all.take(hs@.len() as int) =~= all);
    out
}

/// The referrer's dialog as it names it itself.
pub open spec fn dialog_id(ctx: RuleContextView) -> Seq<char> {
    let call_id = match ctx.source_leg() {
        Some(l) => l.call_id,
        None => Seq::empty(),
    };
    let from_tag = match ctx.source_leg() {
        Some(l) => l.from_tag,
        None => Seq::empty(),
    };
    let to_tag = match ctx.source_dialog() {
        Some(d) => d.sip.remote_tag,
        None => Seq::empty(),
    };
    call_id + ";to-tag="@ + to_tag + ";from-tag="@ + from_tag
}

/// The referrer's dialog as it names it itself.
pub(crate) fn state_dialog_id(ctx: &RuleContext) -> (r: String)
    ensures
        r@ == dialog_id(ctx@),
{
    let mut s = String::new();
    assert(s@ =~= Seq::<char>::empty());
    let leg = ctx.source_leg();
    if let Some(l) = leg {
        s.append(l.call_id.as_str());
        assert(s@ =~= l.call_id@);
    }
    s.append(";to-tag=");
    if let Some(d) = ctx.source_dialog() {
        s.append(d.sip.remote_tag.as_str());
    } else {
        assert(s@ =~= s@ + Seq::<char>::empty());
    }
    s.append(";from-tag=");
    if let Some(l) = leg {
        s.append(l.from_tag.as_str());
    } else {
        assert(s@ =~= s@ + Seq::<char>::empty());
    }
    s
}

/// The question put to the decision layer.
pub open spec fn question(ctx: RuleContextView, req: SipRequestView) -> ReferRequestView {
    ReferRequestView {
        call_id: ctx.call.a_leg.call_id,
        dialog_id: dialog_id(ctx),
        refer_to: stated_target(req),
        referred_by: header_value(req.headers, "Referred-By"@),
        sip_headers: shown_headers(req),
    }
}

/// The target as the request states it.
pub open spec fn stated_target(req: SipRequestView) -> Seq<char> {
    match header_value(req.headers, "Refer-To"@) {
        Some(v) => v,
        None => Seq::empty(),
    }
}

fn read_target(req: &SipRequest) -> (r: String)
    ensures
        r@ == stated_target(req@),
{
    match header(&req.headers, "Refer-To") {
        Some(v) => v.clone(),
        None => {
            let s = String::new();
            assert(s@ =~= Seq::<char>::empty());
            s
        },
    }
}

/// A transfer at its start.
pub open spec fn started(ctx: RuleContextView, req: SipRequestView) -> TransferStateView {
    TransferStateView {
        phase: TransferPhase::ReferAuthorizing,
        referrer_leg_id: ctx.source_leg_id,
        refer_to_uri: stated_target(req),
        effective_refer_to_uri: None,
        callback_context: None,
        c_leg_id: None,
        refer_cseq: Some(req.cseq),
        started_at_ms: ctx.now_ms,
        last_c_leg_notified_status: None,
        c_initial_sdp: None,
        subscription_terminated: false,
    }
}

fn start(ctx: &RuleContext, req: &SipRequest) -> (r: TransferState)
    ensures
        r@ == started(ctx@, req@),
{
    TransferState {
        phase: TransferPhase::ReferAuthorizing,
        referrer_leg_id: ctx.source_leg_id.clone(),
        refer_to_uri: read_target(req),
        effective_refer_to_uri: None,
        callback_context: None,
        c_leg_id: None,
        refer_cseq: Some(req.cseq),
        started_at_ms: ctx.now_ms,
        last_c_leg_notified_status: None,
        c_initial_sdp: None,
        subscription_terminated: false,
    }
}

/// The REFER accepted, its transfer begun and its watchdogs armed.
pub open spec fn accepted(ctx: RuleContextView, seed: TransferStateView) -> Seq<RuleActionView> {
    seq![
        RuleActionView::refuse(202, "Accepted"@),
        RuleActionView::SetTransfer { state: Some(seed) },
        RuleActionView::arm(
            TimerTypeView::ReferSubscriptionExpiry,
            ctx.config.refer_subscription_expiry_sec,
            None,
        ),
        RuleActionView::arm(
            TimerTypeView::ReferOverallSafety,
            ctx.config.refer_overall_safety_sec,
            None,
        ),
    ]
}

/// A transfer begins: the REFER is accepted, the referrer told so, the decision
/// layer asked.
#[verifier::opaque]
pub open spec fn transfer_begun(ctx: RuleContextView) -> Option<Seq<RuleActionView>> {
    match ctx.request() {
        Some(req) => {
            let seed = started(ctx, req);
            Some(
                (accepted(ctx, seed) + report(seed, Subscription::Active, 100, "Trying"@)).push(
                    RuleActionView::ReferAsyncHttp { request: question(ctx, req) },
                ),
            )
        },
        None => None,
    }
}

pub(crate) fn on_refer(ctx: &RuleContext) -> (r: Option<Vec<RuleAction>>)
    ensures
        (match r {
            Some(v) => Some(views(v@)),
            None => None,
        }) == transfer_begun(ctx@),
{
    proof {
        reveal(transfer_begun);
    }
    let req = match ctx.request() {
        Some(r) => r,
        None => {
            return None;
        },
    };
    let seed = start(ctx, req);
    let ghost begun = seed@;
    let first_notify = notify(&seed, Subscription::Active, 100, "Trying");
    let first = vec![
        RuleAction::refuse(202, "Accepted"),
        RuleAction::SetTransfer { state: Some(seed) },
        RuleAction::arm(
            TimerType::ReferSubscriptionExpiry,
            ctx.config.refer_subscription_expiry_sec,
            None,
        ),
        RuleAction::arm(TimerType::ReferOverallSafety, ctx.config.refer_overall_safety_sec, None),
    ];
    assert(views(first@) =~= accepted(ctx@, begun));
    let mut actions = then_do(first, first_notify);
    let request = ReferRequest {
        call_id: ctx.call.a_leg.call_id.clone(),
        dialog_id: state_dialog_id(ctx),
        refer_to: read_target(req),
        referred_by: header_text(&req.headers, "Referred-By"),
        sip_headers: extract_sip_headers(req),
    };
    add_action(&mut actions, RuleAction::ReferAsyncHttp { request });
    Some(actions)
}

// ── rules ───────────────────────────────────────────────────────────────
/// A REFER of one of the ends.
pub open spec fn refer_from(d: Direction) -> MatchView {
    MatchView::request().method(MethodView::Refer).from(d)
}

/// A REFER of a bridged callee.
pub open spec fn bridged_refer() -> MatchView {
    refer_from(Direction::FromB).leg_states(seq![LegState::Confirmed]).disposed(
        LegDisposition::Bridged,
    )
}

fn match_bridged_refer() -> (r: Match)
    ensures
        r@ == bridged_refer(),
{
    let confirmed: Vec<LegState> = vec![LegState::Confirmed];
    assert(confirmed@ =~= seq![LegState::Confirmed]);
    Match::request().method(Method::Refer).direction(Direction::FromB).leg_states(
        confirmed,
    ).leg_disposition(LegDisposition::Bridged)
}

/// The rules a REFER meets before a transfer is under way.
#[verifier::opaque]
pub open spec fn seed_rules() -> Seq<RuleDefinitionView> {
    seq![
        RuleDefinitionView::core_rule(
            "transfer-reject-replaces"@,
            CORE_LAYER,
            seq!["transfer-reject-second-refer"@],
            refer_from(Direction::FromB).when(Guard::LocalAttended),
            Handler::RefuseUnimplemented,
        ),
        RuleDefinitionView::core_rule(
            "transfer-reject-a-leg-refer"@,
            CORE_LAYER,
            Seq::empty(),
            refer_from(Direction::FromA).when(Guard::LocalRefer),
            Handler::RefuseUnimplemented,
        ),
        RuleDefinitionView::core_rule(
            "transfer-refuse-unreadable-refer-to"@,
            CORE_LAYER,
            Seq::empty(),
            bridged_refer().when(Guard::LocalUnreadable),
            Handler::RefuseBadRequest,
        ),
        RuleDefinitionView::core_rule(
            "transfer-intercept-refer"@,
            CORE_LAYER,
            Seq::empty(),
            bridged_refer().when(Guard::LocalTransfer),
            Handler::InterceptRefer,
        ),
    ]
}

fn core_rule(
    id: &str,
    overrides: Vec<&str>,
    matcher: Match,
    handler: Handler,
) -> (r: RuleDefinition)
    ensures
        r@ == RuleDefinitionView::core_rule(
            id@,
            CORE_LAYER,
            views(overrides@),
            matcher@,
            handler,
        ),
{
    RuleDefinition::core_rule(id, CORE_LAYER, overrides, matcher, handler)
}

/// The rules a REFER meets before a transfer is under way.
pub fn transfer_seed_rules() -> (r: Vec<RuleDefinition>)
    ensures
        views(r@) == seed_rules(),
{
    proof {
        reveal(seed_rules);
    }
    let second: Vec<&str> = vec!["transfer-reject-second-refer"];
    assert(views(second@) =~= seq!["transfer-reject-second-refer"@]);
    let none_a: Vec<&str> = Vec::new();
    let none_u: Vec<&str> = Vec::new();
    let none_t: Vec<&str> = Vec::new();
    assert(views(none_a@) =~= Seq::<Seq<char>>::empty());
    assert(views(none_u@) =~= Seq::<Seq<char>>::empty());
    assert(views(none_t@) =~= Seq::<Seq<char>>::empty());
    let r = vec![
        core_rule(
            "transfer-reject-replaces",
            second,
            Match::request().method(Method::Refer).direction(Direction::FromB).filter(
                Guard::LocalAttended,
            ),
            Handler::RefuseUnimplemented,
        ),
        core_rule(
            "transfer-reject-a-leg-refer",
            none_a,
            Match::request().method(Method::Refer).direction(Direction::FromA).filter(
                Guard::LocalRefer,
            ),
            Handler::RefuseUnimplemented,
        ),
        core_rule(
            "transfer-refuse-unreadable-refer-to",
            none_u,
            match_bridged_refer().filter(Guard::LocalUnreadable),
            Handler::RefuseBadRequest,
        ),
        core_rule(
            "transfer-intercept-refer",
            none_t,
            match_bridged_refer().filter(Guard::LocalTransfer),
            Handler::InterceptRefer,
        ),
    ];
    assert(views(r@) =~= seed_rules());
    r
}

} // verus!
