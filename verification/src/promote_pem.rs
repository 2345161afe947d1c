//! Early media promoted to an answer: a callee's 183 with early media answers
//! the caller at once. Until the callee answers, the caller's own requests wait;
//! when it does, it is bridged silently, and the caller is re-invited where the
//! callee's description turned out to differ.
use vstd::prelude::*;

use crate::action::{MessageTransform, MessageTransformView, RuleAction, RuleActionView};
use crate::call::{
    ByeDisposition, CallModelState, CallView, CdrEventType, Direction, Leg, LegDisposition,
    LegState, LegView, PromotePemState, PromotePemStateView, RelayFirst18xStrategy, TagMapping,
    TagMappingView, TimerType, TimerTypeView,
};
use crate::defaults::handlers::{ceiling, keepalive_interval, max_duration};
use crate::executor::applies;
use crate::headers::{reliable_rseq, rseq_of};
use crate::lens::{clamp, clamped_add};
use crate::model::{
    Guard, Handler, Match, MatchView, RuleContext, RuleContextView, RuleDefinition,
    RuleDefinitionView, SERVICE_LAYER,
};
use crate::reliable::{tag_or_empty, tag_text};
use crate::sdp::{media_equivalent, sdp_media_equivalent};
use crate::seqs::{find_where, keep, keep_step, views};
use crate::state::{
    find_by_b_tag, find_mapping_on_leg, mapping_on_leg, masking, relay_first_18x_strategy,
};
use crate::text::{chars_of, clone_bytes, decimal, decimal_text};
use crate::verbs::{add_action, nothing, some, text, then_do};
use crate::wire::{Method, MethodView, SipHeader, SipHeaderView, SipResponse, SipResponseView};

verus! {

// ── what the service says ───────────────────────────────────────────────
/// The methods relayed end to end.
pub open spec fn allowed() -> Seq<char> {
    "INVITE, ACK, CANCEL, BYE, OPTIONS, UPDATE, INFO, REFER, PRACK, MESSAGE, NOTIFY"@
}

/// The options understood, without reliable provisionals: the caller was never
/// shown one.
pub open spec fn understood() -> Seq<char> {
    "timer, replaces"@
}

/// The advertisement on what this service sends the caller.
pub open spec fn advert() -> Seq<SipHeaderView> {
    seq![
        SipHeaderView { name: "Allow"@, value: allowed() },
        SipHeaderView { name: "Supported"@, value: understood() },
    ]
}

/// The advertisement on what this service sends the caller.
pub fn a_facing_advert() -> (r: Vec<SipHeader>)
    ensures
        views(r@) == advert(),
{
    let r = vec![
        SipHeader {
            name: "Allow".to_string(),
            value: "INVITE, ACK, CANCEL, BYE, OPTIONS, UPDATE, INFO, REFER, PRACK, MESSAGE, NOTIFY".to_string(),
        },
        SipHeader { name: "Supported".to_string(), value: "timer, replaces".to_string() },
    ];
    assert(views(r@) =~= advert());
    r
}

pub open spec fn not_quote() -> spec_fn(char) -> bool {
    |c: char| c != '"'
}

/// The cause a teardown states for a failure: its status and phrase.
pub open spec fn reason_of(status: u16, phrase: Seq<char>) -> Seq<char> {
    let bare = keep(phrase, not_quote());
    let said = if bare.len() == 0 {
        "Unspecified"@
    } else {
        bare
    };
    "SIP ;cause="@ + decimal_text(status as nat) + ";text=\""@ + said + "\""@
}

fn unquoted(phrase: &str) -> (r: String)
    ensures
        r@ == keep(phrase@, not_quote()),
{
    let cs = chars_of(phrase);
    let ghost p = not_quote();
    let mut out = String::new();
    assert(phrase@.take(0).len() == 0);
    assert(out@ =~= Seq::<char>::empty());
    for i in 0..cs.len()
        invariant
            p == not_quote(),
            cs@ == phrase@,
            out@ == keep(phrase@.take(i as int), p),
    {
        proof {
            keep_step(phrase@, p, i as int);
        }
        if cs[i] != '"' {
            out.push(cs[i]);
        }
    }
    assert(phrase@.take(cs@.len() as int) =~= phrase@);
    out
}

/// Write the cause a teardown states for a failure.
pub fn reason_header(status: u16, phrase: &str) -> (r: String)
    ensures
        r@ == reason_of(status, phrase@),
{
    let bare = unquoted(phrase);
    let mut s = "SIP ;cause=".to_string();
    let n = decimal(status as u64);
    s.append(n.as_str());
    s.append(";text=\"");
    if bare.as_str().unicode_len() == 0 {
        s.append("Unspecified");
    } else {
        s.append(bare.as_str());
    }
    s.append("\"");
    s
}

// ── when it applies ─────────────────────────────────────────────────────
/// The service owns the call.
pub open spec fn active(ctx: RuleContextView) -> bool {
    masking(ctx.call) == Some(RelayFirst18xStrategy::PromotePemTo200)
}

/// The caller was answered with early media.
pub open spec fn promoted(ctx: RuleContextView) -> bool {
    ctx.call.promote_pem is Some && ctx.call.promote_pem->0.promoted
}

/// The callee has not answered yet.
pub open spec fn window_open(ctx: RuleContextView) -> bool {
    ctx.call.promote_pem is Some && ctx.call.promote_pem->0.window_open
}

/// Whether the service owns the call.
pub(crate) fn promote_pem_active(ctx: &RuleContext) -> (r: bool)
    ensures
        r == active(ctx@),
{
    match relay_first_18x_strategy(ctx.call) {
        Some(s) => s == RelayFirst18xStrategy::PromotePemTo200,
        None => false,
    }
}

/// Whether the caller was answered with early media.
pub(crate) fn is_promoted(ctx: &RuleContext) -> (r: bool)
    ensures
        r == promoted(ctx@),
{
    match &ctx.call.promote_pem {
        Some(s) => s.promoted,
        None => false,
    }
}

/// Whether the callee has not answered yet.
pub(crate) fn is_window_open(ctx: &RuleContext) -> (r: bool)
    ensures
        r == window_open(ctx@),
{
    match &ctx.call.promote_pem {
        Some(s) => s.window_open,
        None => false,
    }
}

// ── handlers ────────────────────────────────────────────────────────────
/// The PRACK a reliable provisional is owed where the caller was not shown it.
pub open spec fn prack_owed(ctx: RuleContextView, resp: SipResponseView) -> Seq<RuleActionView> {
    match rseq_of(resp) {
        Some(n) => seq![
            RuleActionView::SendPrackToLeg {
                leg_id: ctx.source_leg_id,
                rseq: n as i64,
                invite_cseq: resp.cseq,
                b_tag: tag_or_empty(resp.to_tag),
            },
        ],
        None => Seq::empty(),
    }
}

/// The PRACK a reliable provisional is owed where the caller was not shown it.
pub(crate) fn pracks_owed(ctx: &RuleContext, resp: &SipResponse) -> (r: Vec<RuleAction>)
    ensures
        views(r@) == prack_owed(ctx@, resp@),
{
    let mut out = nothing();
    if let Some(n) = reliable_rseq(resp) {
        let a = RuleAction::SendPrackToLeg {
            leg_id: ctx.source_leg_id.clone(),
            rseq: n,
            invite_cseq: resp.cseq,
            b_tag: tag_text(&resp.to_tag),
        };
        add_action(&mut out, a);
        assert(views(out@) =~= seq![a@]);
    }
    out
}

/// The 183 as the answer the caller gets.
pub open spec fn as_answer() -> MessageTransformView {
    MessageTransformView {
        status: Some(200),
        reason: text("OK"),
        drop_body: false,
        remove_headers: seq!["Require"@, "RSeq"@],
        add_headers: advert(),
    }
}

fn answer_transform() -> (r: MessageTransform)
    ensures
        r@ == as_answer(),
{
    let r = MessageTransform {
        status: Some(200),
        reason: some("OK"),
        drop_body: false,
        remove_headers: vec!["Require".to_string(), "RSeq".to_string()],
        add_headers: a_facing_advert(),
    };
    assert(views(r.remove_headers@) =~= seq!["Require"@, "RSeq"@]);
    r
}

/// Early media answers the caller.
#[verifier::opaque]
pub open spec fn early_media_promoted(ctx: RuleContextView) -> Option<Seq<RuleActionView>> {
    match ctx.response() {
        Some(resp) => Some(
            seq![
                RuleActionView::UpdateLegState {
                    leg_id: "a"@,
                    state: LegState::Confirmed,
                    disposition: None,
                },
                RuleActionView::RelayToPeer { transform: as_answer() },
                RuleActionView::cdr(
                    CdrEventType::Provisional,
                    ctx.source_leg_id,
                    Some(200),
                    text("promote-pem-to-200"),
                ),
            ] + prack_owed(ctx, resp) + seq![
                RuleActionView::SetPromotePem {
                    state: Some(
                        PromotePemStateView {
                            promoted: true,
                            promoted_sdp: resp.body,
                            window_open: true,
                            resync_reinvite_cseq: None,
                        },
                    ),
                },
            ],
        ),
        None => None,
    }
}

pub(crate) fn on_early_media(ctx: &RuleContext) -> (r: Option<Vec<RuleAction>>)
    ensures
        (match r {
            Some(v) => Some(views(v@)),
            None => None,
        }) == early_media_promoted(ctx@),
{
    proof {
        reveal(early_media_promoted);
    }
    let resp = match ctx.response() {
        Some(r) => r,
        None => {
            return None;
        },
    };
    let first = vec![
        RuleAction::UpdateLegState {
            leg_id: "a".to_string(),
            state: LegState::Confirmed,
            disposition: None,
        },
        RuleAction::RelayToPeer { transform: answer_transform() },
        RuleAction::cdr(
            CdrEventType::Provisional,
            ctx.source_leg_id,
            Some(200),
            some("promote-pem-to-200"),
        ),
    ];
    assert(views(first@) =~= seq![
        RuleActionView::UpdateLegState {
            leg_id: "a"@,
            state: LegState::Confirmed,
            disposition: None,
        },
        RuleActionView::RelayToPeer { transform: as_answer() },
        RuleActionView::cdr(
            CdrEventType::Provisional,
            ctx@.source_leg_id,
            Some(200),
            text("promote-pem-to-200"),
        ),
    ]);
    let last = vec![
        RuleAction::SetPromotePem {
            state: Some(
                PromotePemState {
                    promoted: true,
                    promoted_sdp: clone_bytes(&resp.body),
                    window_open: true,
                    resync_reinvite_cseq: None,
                },
            ),
        },
    ];
    assert(views(last@) =~= seq![
        RuleActionView::SetPromotePem {
            state: Some(
                PromotePemStateView {
                    promoted: true,
                    promoted_sdp: resp@.body,
                    window_open: true,
                    resync_reinvite_cseq: None,
                },
            ),
        },
    ]);
    let more = then_do(first, pracks_owed(ctx, resp));
    Some(then_do(more, last))
}

/// A provisional after the promotion: the caller hears nothing of it.
#[verifier::opaque]
pub open spec fn provisional_suppressed(ctx: RuleContextView) -> Option<Seq<RuleActionView>> {
    match ctx.response() {
        Some(resp) => Some(
            seq![
                RuleActionView::cdr(
                    CdrEventType::Provisional,
                    ctx.source_leg_id,
                    Some(resp.status as i64),
                    text("promote-pem-to-200:suppressed"),
                ),
            ] + prack_owed(ctx, resp),
        ),
        None => None,
    }
}

pub(crate) fn on_suppressed(ctx: &RuleContext) -> (r: Option<Vec<RuleAction>>)
    ensures
        (match r {
            Some(v) => Some(views(v@)),
            None => None,
        }) == provisional_suppressed(ctx@),
{
    proof {
        reveal(provisional_suppressed);
    }
    let resp = match ctx.response() {
        Some(r) => r,
        None => {
            return None;
        },
    };
    let a = RuleAction::cdr(
        CdrEventType::Provisional,
        ctx.source_leg_id,
        Some(resp.status as i64),
        some("promote-pem-to-200:suppressed"),
    );
    let mut first = nothing();
    add_action(&mut first, a);
    assert(views(first@) =~= seq![a@]);
    Some(then_do(first, pracks_owed(ctx, resp)))
}

/// The mapping of the winning dialog, where it has none yet but its leg was
/// shown: the caller keeps the one tag it holds.
pub open spec fn winner_mapped(ctx: RuleContextView, tag: Seq<char>) -> Seq<RuleActionView> {
    let b = ctx.source_leg_id;
    if ctx.call.by_b_tag(b, tag) is Some {
        Seq::empty()
    } else {
        match find_where(ctx.call.tag_map, mapping_on_leg(b)) {
            Some(m) => seq![
                RuleActionView::AddTagMapping {
                    mapping: TagMappingView { a_tag: m.a_tag, b_leg_id: b, b_tag: tag },
                },
            ],
            None => Seq::empty(),
        }
    }
}

fn map_winner(ctx: &RuleContext, tag: &String) -> (r: Vec<RuleAction>)
    ensures
        views(r@) == winner_mapped(ctx@, tag@),
{
    let b = ctx.source_leg_id;
    let mut out = nothing();
    if find_by_b_tag(ctx.call, b, tag).is_none() {
        if let Some(m) = find_mapping_on_leg(ctx.call, b) {
            let a = RuleAction::AddTagMapping {
                mapping: TagMapping {
                    a_tag: m.a_tag.clone(),
                    b_leg_id: b.clone(),
                    b_tag: tag.clone(),
                },
            };
            add_action(&mut out, a);
            assert(views(out@) =~= seq![a@]);
        }
    }
    out
}

/// Every other leg of the callee's that is still up destroyed.
pub open spec fn others_destroyed(ls: Seq<LegView>, b: Seq<char>) -> Seq<RuleActionView>
    decreases ls.len(),
{
    if ls.len() == 0 {
        Seq::empty()
    } else {
        let before = others_destroyed(ls.drop_last(), b);
        if ls.last().leg_id != b && ls.last().state != LegState::Terminated {
            before.push(RuleActionView::DestroyLeg { leg_id: ls.last().leg_id })
        } else {
            before
        }
    }
}

fn destroy_others(ls: &Vec<Leg>, b: &String) -> (r: Vec<RuleAction>)
    ensures
        views(r@) == others_destroyed(views(ls@), b@),
{
    let ghost all = views(ls@);
    let mut out = nothing();
    assert(all.take(0).len() == 0);
    for i in 0..ls.len()
        invariant
            all == views(ls@),
            views(out@) == others_destroyed(all.take(i as int), b@),
    {
        assert(all.take(i + 1).drop_last() =~= all.take(i as int));
        assert(all.take(i + 1).last() == ls@[i as int]@);
        if ls[i].leg_id != *b && ls[i].state != LegState::Terminated {
            add_action(&mut out, RuleAction::DestroyLeg { leg_id: ls[i].leg_id.clone() });
        }
    }
    assert(all.take(ls@.len() as int) =~= all);
    out
}

/// The callee taken and bridged, without a word to the caller.
pub open spec fn silently_bridged(ctx: RuleContextView) -> Seq<RuleActionView> {
    let b = ctx.source_leg_id;
    seq![
        RuleActionView::UpdateLegState {
            leg_id: b,
            state: LegState::Confirmed,
            disposition: Some(LegDisposition::Bridged),
        },
        RuleActionView::ConfirmDialog { leg_id: b },
        RuleActionView::ack(b),
        RuleActionView::Merge { leg_a: ctx.call.a_leg.leg_id, leg_b: b },
    ]
}

fn bridge_silently(ctx: &RuleContext) -> (r: Vec<RuleAction>)
    ensures
        views(r@) == silently_bridged(ctx@),
{
    let b = ctx.source_leg_id;
    let r = vec![
        RuleAction::UpdateLegState {
            leg_id: b.clone(),
            state: LegState::Confirmed,
            disposition: Some(LegDisposition::Bridged),
        },
        RuleAction::ConfirmDialog { leg_id: b.clone() },
        RuleAction::ack(b),
        RuleAction::Merge { leg_a: ctx.call.a_leg.leg_id.clone(), leg_b: b.clone() },
    ];
    assert(views(r@) =~= silently_bridged(ctx@));
    r
}

/// The timers of an answered call.
pub open spec fn answer_timers(ctx: RuleContextView) -> Seq<RuleActionView> {
    let b = ctx.source_leg_id;
    seq![
        RuleActionView::cancel_timer(TimerTypeView::NoAnswer, Some(b)),
        RuleActionView::arm(TimerTypeView::GlobalDuration, ceiling(ctx), None),
        RuleActionView::arm(TimerTypeView::Keepalive, ctx.config.keepalive_interval_sec, None),
        RuleActionView::cdr(CdrEventType::Answer, b, Some(200), None),
    ]
}

fn time_answer(ctx: &RuleContext) -> (r: Vec<RuleAction>)
    ensures
        views(r@) == answer_timers(ctx@),
{
    let b = ctx.source_leg_id;
    let r = vec![
        RuleAction::cancel_timer(&TimerType::NoAnswer, Some(b.clone())),
        RuleAction::arm(TimerType::GlobalDuration, max_duration(ctx), None),
        RuleAction::arm(TimerType::Keepalive, keepalive_interval(ctx), None),
        RuleAction::cdr(CdrEventType::Answer, b, Some(200), None),
    ];
    assert(views(r@) =~= answer_timers(ctx@));
    r
}

/// What the service remembers; where it remembers nothing, as at its start.
pub open spec fn remembered(ctx: RuleContextView) -> PromotePemStateView {
    match ctx.call.promote_pem {
        Some(s) => s,
        None => PromotePemStateView {
            promoted: false,
            promoted_sdp: Seq::empty(),
            window_open: false,
            resync_reinvite_cseq: None,
        },
    }
}

fn recall(ctx: &RuleContext) -> (r: PromotePemState)
    ensures
        r@ == remembered(ctx@),
{
    match &ctx.call.promote_pem {
        Some(s) => s.clone(),
        None => {
            let r = PromotePemState {
                promoted: false,
                promoted_sdp: Vec::new(),
                window_open: false,
                resync_reinvite_cseq: None,
            };
            assert(r.promoted_sdp@ =~= Seq::empty());
            r
        },
    }
}

/// The next CSeq of the caller's dialog.
pub open spec fn next_cseq(c: CallView) -> i64 {
    if c.a_leg.dialogs.len() > 0 {
        clamp(c.a_leg.dialogs[0].sip.local_cseq + 1)
    } else {
        1
    }
}

/// The caller brought in line with the callee's description: nothing to do
/// where it says the same of the media, a re-INVITE where it does not.
pub open spec fn resync(ctx: RuleContextView, sdp: Seq<u8>) -> Seq<RuleActionView> {
    let s = remembered(ctx);
    if media_equivalent(s.promoted_sdp, sdp) {
        seq![RuleActionView::SetPromotePem { state: None }]
    } else {
        seq![
            RuleActionView::SendReinvite {
                leg_id: ctx.call.a_leg.leg_id,
                body: sdp,
                add_headers: advert(),
            },
            RuleActionView::cdr(
                CdrEventType::Provisional,
                "a"@,
                Some(0),
                text("promote-pem-to-200:resync-reinvite"),
            ),
            RuleActionView::SetPromotePem {
                state: Some(
                    PromotePemStateView { resync_reinvite_cseq: Some(next_cseq(ctx.call)), ..s },
                ),
            },
        ]
    }
}

fn resync_caller(ctx: &RuleContext, sdp: &Vec<u8>) -> (r: Vec<RuleAction>)
    ensures
        views(r@) == resync(ctx@, sdp@),
{
    let s = recall(ctx);
    if sdp_media_equivalent(&s.promoted_sdp, sdp) {
        let r = vec![RuleAction::SetPromotePem { state: None }];
        assert(views(r@) =~= resync(ctx@, sdp@));
        return r;
    }
    let ds = &ctx.call.a_leg.dialogs;
    let cseq = if ds.len() > 0 {
        assert(ctx@.call.a_leg.dialogs[0] == ds@[0]@);
        clamped_add(ds[0].sip.local_cseq, 1)
    } else {
        1
    };
    let mut next = s;
    next.resync_reinvite_cseq = Some(cseq);
    let r = vec![
        RuleAction::SendReinvite {
            leg_id: ctx.call.a_leg.leg_id.clone(),
            body: clone_bytes(sdp),
            add_headers: a_facing_advert(),
        },
        RuleAction::cdr(
            CdrEventType::Provisional,
            &"a".to_string(),
            Some(0),
            some("promote-pem-to-200:resync-reinvite"),
        ),
        RuleAction::SetPromotePem { state: Some(next) },
    ];
    assert(views(r@) =~= resync(ctx@, sdp@));
    r
}

/// The callee of a promoted call answered.
#[verifier::opaque]
pub open spec fn promoted_confirmed(ctx: RuleContextView) -> Option<Seq<RuleActionView>> {
    match ctx.response() {
        Some(resp) => Some(
            winner_mapped(ctx, tag_or_empty(resp.to_tag)) + silently_bridged(ctx)
                + others_destroyed(ctx.call.b_legs, ctx.source_leg_id) + answer_timers(ctx)
                + resync(ctx, resp.body),
        ),
        None => None,
    }
}

pub(crate) fn on_promoted_answer(ctx: &RuleContext) -> (r: Option<Vec<RuleAction>>)
    ensures
        (match r {
            Some(v) => Some(views(v@)),
            None => None,
        }) == promoted_confirmed(ctx@),
{
    proof {
        reveal(promoted_confirmed);
    }
    let resp = match ctx.response() {
        Some(r) => r,
        None => {
            return None;
        },
    };
    let tag = tag_text(&resp.to_tag);
    let mapped = map_winner(ctx, &tag);
    let bridged = then_do(mapped, bridge_silently(ctx));
    let alone = then_do(bridged, destroy_others(&ctx.call.b_legs, ctx.source_leg_id));
    let timed = then_do(alone, time_answer(ctx));
    Some(then_do(timed, resync_caller(ctx, &resp.body)))
}

/// The caller answered the re-INVITE: it is acknowledged; a refusal ends the
/// call, for the two descriptions cannot both stand.
#[verifier::opaque]
pub open spec fn resync_answered(ctx: RuleContextView) -> Option<Seq<RuleActionView>> {
    match ctx.response() {
        Some(resp) => Some(
            if resp.status < 200 {
                Seq::empty()
            } else if resp.status < 300 {
                seq![
                    RuleActionView::ack("a"@),
                    RuleActionView::cdr(
                        CdrEventType::Answer,
                        "a"@,
                        Some(resp.status as i64),
                        text("promote-pem-to-200:resync-success"),
                    ),
                    RuleActionView::SetPromotePem { state: None },
                ]
            } else {
                let reason = reason_of(resp.status, resp.reason);
                seq![
                    RuleActionView::cdr(
                        CdrEventType::Reject,
                        "a"@,
                        Some(resp.status as i64),
                        Some("promote-pem-to-200:resync-failed:"@ + reason),
                    ),
                    RuleActionView::SetPromotePem { state: None },
                    RuleActionView::hang_up(reason),
                ]
            },
        ),
        None => None,
    }
}

pub(crate) fn on_resync_answer(ctx: &RuleContext) -> (r: Option<Vec<RuleAction>>)
    ensures
        (match r {
            Some(v) => Some(views(v@)),
            None => None,
        }) == resync_answered(ctx@),
{
    proof {
        reveal(resync_answered);
    }
    let resp = match ctx.response() {
        Some(r) => r,
        None => {
            return None;
        },
    };
    if resp.status < 200 {
        return Some(nothing());
    }
    let a = "a".to_string();
    if resp.status < 300 {
        let r = vec![
            RuleAction::ack(&a),
            RuleAction::cdr(
                CdrEventType::Answer,
                &a,
                Some(resp.status as i64),
                some("promote-pem-to-200:resync-success"),
            ),
            RuleAction::SetPromotePem { state: None },
        ];
        assert(views(r@) =~= resync_answered(ctx@)->0);
        return Some(r);
    }
    let reason = reason_header(resp.status, resp.reason.as_str());
    let mut said = "promote-pem-to-200:resync-failed:".to_string();
    said.append(reason.as_str());
    let r = vec![
        RuleAction::cdr(CdrEventType::Reject, &a, Some(resp.status as i64), Some(said)),
        RuleAction::SetPromotePem { state: None },
        RuleAction::hang_up(reason.as_str()),
    ];
    assert(views(r@) =~= resync_answered(ctx@)->0);
    Some(r)
}

/// The caller's ACK of the promoted answer goes nowhere.
#[verifier::opaque]
pub open spec fn ack_absorbed() -> Seq<RuleActionView> {
    seq![
        RuleActionView::cdr(
            CdrEventType::Provisional,
            "a"@,
            Some(0),
            text("promote-pem-to-200:ack-absorbed"),
        ),
    ]
}

pub(crate) fn on_promoted_ack() -> (r: Vec<RuleAction>)
    ensures
        views(r@) == ack_absorbed(),
{
    proof {
        reveal(ack_absorbed);
    }
    let r = vec![
        RuleAction::cdr(
            CdrEventType::Provisional,
            &"a".to_string(),
            Some(0),
            some("promote-pem-to-200:ack-absorbed"),
        ),
    ];
    assert(views(r@) =~= ack_absorbed());
    r
}

/// The callee of a promoted call failed: the caller, already answered, is hung
/// up on with the cause.
#[verifier::opaque]
pub open spec fn promoted_failed(ctx: RuleContextView) -> Option<Seq<RuleActionView>> {
    match ctx.response() {
        Some(resp) => {
            let b = ctx.source_leg_id;
            let reason = reason_of(resp.status, resp.reason);
            Some(
                seq![
                    RuleActionView::cdr(
                        CdrEventType::Reject,
                        b,
                        Some(resp.status as i64),
                        Some("promote-pem-to-200:b-failed:"@ + reason),
                    ),
                    RuleActionView::end(b, ByeDisposition::Rejected),
                    RuleActionView::SetPromotePem { state: None },
                    RuleActionView::hang_up(reason),
                ],
            )
        },
        None => None,
    }
}

pub(crate) fn on_promoted_failure(ctx: &RuleContext) -> (r: Option<Vec<RuleAction>>)
    ensures
        (match r {
            Some(v) => Some(views(v@)),
            None => None,
        }) == promoted_failed(ctx@),
{
    proof {
        reveal(promoted_failed);
    }
    let resp = match ctx.response() {
        Some(r) => r,
        None => {
            return None;
        },
    };
    let b = ctx.source_leg_id;
    let reason = reason_header(resp.status, resp.reason.as_str());
    let mut said = "promote-pem-to-200:b-failed:".to_string();
    said.append(reason.as_str());
    let r = vec![
        RuleAction::cdr(CdrEventType::Reject, b, Some(resp.status as i64), Some(said)),
        RuleAction::end(b, ByeDisposition::Rejected),
        RuleAction::SetPromotePem { state: None },
        RuleAction::hang_up(reason.as_str()),
    ];
    assert(views(r@) =~= promoted_failed(ctx@)->0);
    Some(r)
}

// ── rules ───────────────────────────────────────────────────────────────
pub open spec fn service_rule(
    id: Seq<char>,
    matcher: MatchView,
    handler: Handler,
) -> RuleDefinitionView {
    RuleDefinitionView::core_rule(id, SERVICE_LAYER, Seq::empty(), matcher, handler)
}

fn rule(id: &str, matcher: Match, handler: Handler) -> (r: RuleDefinition)
    ensures
        r@ == service_rule(id@, matcher@, handler),
{
    let none: Vec<&str> = Vec::new();
    assert(views(none@) =~= Seq::<Seq<char>>::empty());
    RuleDefinition::core_rule(id, SERVICE_LAYER, none, matcher, handler)
}

/// The rules of the service. Each is dormant until a call's route switches the
/// service on.
#[verifier::opaque]
pub open spec fn promote_rules() -> Seq<RuleDefinitionView> {
    seq![
        service_rule(
            "promote-183-pem"@,
            MatchView::response().method(MethodView::Invite).status_code(183).from(
                Direction::FromB,
            ).when(Guard::Promotable),
            Handler::Promote183,
        ),
        service_rule(
            "suppress-post-promote-18x"@,
            MatchView::response().method(MethodView::Invite).status_class(1).from(
                Direction::FromB,
            ).when(Guard::Promoted),
            Handler::SuppressProvisional,
        ),
        service_rule(
            "confirm-after-promote"@,
            MatchView::response().method(MethodView::Invite).status_class(2).leg_states(
                seq![LegState::Trying, LegState::Early],
            ).from(Direction::FromB).when(Guard::Promoted),
            Handler::ConfirmPromoted,
        ),
        service_rule(
            "promote-resync-reinvite-response"@,
            MatchView::response().method(MethodView::Invite).from(Direction::FromA).when(
                Guard::ResyncAnswer,
            ),
            Handler::ResyncAnswered,
        ),
        service_rule(
            "promote-reject-a-reinvite-update"@,
            MatchView::request().any_method(seq![MethodView::Invite, MethodView::Update]).from(
                Direction::FromA,
            ).when(Guard::PromotionWindow),
            Handler::RefusePending,
        ),
        service_rule(
            "promote-reject-a-other-indialog"@,
            MatchView::request().any_method(seq![MethodView::Info, MethodView::Message]).from(
                Direction::FromA,
            ).when(Guard::PromotionWindow),
            Handler::RefuseNotAcceptable,
        ),
        service_rule(
            "promote-absorb-a-ack"@,
            MatchView::request().method(MethodView::Ack).from(Direction::FromA).when(
                Guard::PromotedUnbridged,
            ),
            Handler::AbsorbPromotedAck,
        ),
        service_rule(
            "promote-b-fails-post-promote"@,
            MatchView::response().method(MethodView::Invite).from(Direction::FromB).in_call_state(
                CallModelState::Active,
            ).when(Guard::PromotedFailure),
            Handler::PromotedFailure,
        ),
    ]
}

/// The rules of the service.
pub fn promote_pem_rules() -> (r: Vec<RuleDefinition>)
    ensures
        views(r@) == promote_rules(),
{
    proof {
        reveal(promote_rules);
    }
    let ringing: Vec<LegState> = vec![LegState::Trying, LegState::Early];
    assert(ringing@ =~= seq![LegState::Trying, LegState::Early]);
    let offers: Vec<Method> = vec![Method::Invite, Method::Update];
    assert(views(offers@) =~= seq![MethodView::Invite, MethodView::Update]);
    let others: Vec<Method> = vec![Method::Info, Method::Message];
    assert(views(others@) =~= seq![MethodView::Info, MethodView::Message]);
    let r = vec![
        rule(
            "promote-183-pem",
            Match::response().method(Method::Invite).status_code(183).direction(
                Direction::FromB,
            ).filter(Guard::Promotable),
            Handler::Promote183,
        ),
        rule(
            "suppress-post-promote-18x",
            Match::response().method(Method::Invite).status_class(1).direction(
                Direction::FromB,
            ).filter(Guard::Promoted),
            Handler::SuppressProvisional,
        ),
        rule(
            "confirm-after-promote",
            Match::response().method(Method::Invite).status_class(2).leg_states(
                ringing,
            ).direction(Direction::FromB).filter(Guard::Promoted),
            Handler::ConfirmPromoted,
        ),
        rule(
            "promote-resync-reinvite-response",
            Match::response().method(Method::Invite).direction(Direction::FromA).filter(
                Guard::ResyncAnswer,
            ),
            Handler::ResyncAnswered,
        ),
        rule(
            "promote-reject-a-reinvite-update",
            Match::request().methods(offers).direction(Direction::FromA).filter(
                Guard::PromotionWindow,
            ),
            Handler::RefusePending,
        ),
        rule(
            "promote-reject-a-other-indialog",
            Match::request().methods(others).direction(Direction::FromA).filter(
                Guard::PromotionWindow,
            ),
            Handler::RefuseNotAcceptable,
        ),
        rule(
            "promote-absorb-a-ack",
            Match::request().method(Method::Ack).direction(Direction::FromA).filter(
                Guard::PromotedUnbridged,
            ),
            Handler::AbsorbPromotedAck,
        ),
        rule(
            "promote-b-fails-post-promote",
            Match::response().method(Method::Invite).direction(Direction::FromB).call_state(
                CallModelState::Active,
            ).filter(Guard::PromotedFailure),
            Handler::PromotedFailure,
        ),
    ];
    assert(views(r@) =~= promote_rules());
    r
}

// ── laws ────────────────────────────────────────────────────────────────
/// Early media answers the caller once: on a call that was promoted no
/// provisional is promoted.
pub proof fn a_call_is_promoted_once(ctx: RuleContextView)
    requires
        promoted(ctx),
    ensures
        !applies(promote_rules()[0], ctx.call, ctx),
        promote_rules()[0].handler == Handler::Promote183,
        forall|k: int|
            0 < k < promote_rules().len() ==> (#[trigger] promote_rules()[k]).handler
                != Handler::Promote183,
{
    reveal(promote_rules);
}

/// What a callee says between the promotion and its answer stays between it and
/// this stack: it is recorded, and acknowledged where it asks for that.
pub proof fn suppressed_provisionals_stay_with_the_callee(ctx: RuleContextView, i: int)
    requires
        provisional_suppressed(ctx) is Some,
        0 <= i < provisional_suppressed(ctx)->0.len(),
    ensures
        match provisional_suppressed(ctx)->0[i] {
            RuleActionView::AddCdrEvent { .. } => true,
            RuleActionView::SendPrackToLeg { leg_id, .. } => leg_id == ctx.source_leg_id,
            _ => false,
        },
{
    reveal(provisional_suppressed);
}

} // verus!
