//! What the promotion of early media does: how the caller is answered with it, and how
//! it is brought in line with the callee's own answer.
use vstd::prelude::*;

use crate::action::{MessageTransformView, Provisional, RuleActionView};
use crate::actions::stated::either_holds;
use crate::call::{
    ByeDisposition, CdrEventType, LegDisposition, LegState, LegView, PromotePemStateView,
    TagMappingView, TimerTypeView,
};
use crate::conduct::transfer::owed_prack;
use crate::context::timer_key;
use crate::handling::handled;
use crate::headers::rseq_of;
use crate::model::{Handler, RuleContextView};
use crate::promote_pem::{
    ack_absorbed, answer_timers, as_answer, early_media_promoted, not_quote, others_destroyed,
    promoted_confirmed, promoted_failed, provisional_suppressed, reason_of, resync, resync_answered,
    silently_bridged, winner_mapped,
};
use crate::reliable::tag_or_empty;
use crate::sdp::media_equivalent;
use crate::seqs::{find_where, keep, keep_sound, keep_whole};
use crate::state::mapping_on_leg;
use crate::text::decimal_text;
use crate::wire::{SipHeaderView, SipResponseView};

verus! {

/// What this service advertises to the caller: the methods that are relayed end to
/// end, and no reliable provisionals.
pub open spec fn advertises(hs: Seq<SipHeaderView>) -> bool {
    &&& hs.len() == 2
    &&& hs[0].name == "Allow"@
    &&& hs[0].value
        == "INVITE, ACK, CANCEL, BYE, OPTIONS, UPDATE, INFO, REFER, PRACK, MESSAGE, NOTIFY"@
    &&& hs[1].name == "Supported"@
    &&& hs[1].value == "timer, replaces"@
}

/// The 183 relayed as the answer: a 200, with the body it had, and nothing of
/// reliability.
pub open spec fn answers_with(t: MessageTransformView) -> bool {
    &&& t.status == Some(200u16)
    &&& t.reason == Some("OK"@)
    &&& !t.drop_body
    &&& t.remove_headers == seq!["Require"@, "RSeq"@]
    &&& advertises(t.add_headers)
}

/// Early media that is promoted answers the caller: the 183 is relayed as a 200 with
/// its own body, and that body is what the caller was answered with. A reliable 183
/// is acknowledged here.
pub proof fn early_media_answers_the_caller(
    ctx: RuleContextView,
    resp: SipResponseView,
)
    requires
        ctx.response() == Some(resp),
    ensures
        handled(Handler::Promote183, ctx) is Some,
        ({
            let a = handled(Handler::Promote183, ctx)->0.actions;
            &&& a.contains(
                RuleActionView::UpdateLegState {
                    leg_id: "a"@,
                    state: LegState::Confirmed,
                    disposition: None,
                },
            )
            &&& a.contains(
                RuleActionView::RelayToPeer { transform: a[1]->RelayToPeer_transform },
            )
            &&& a.contains(
                RuleActionView::AddCdrEvent {
                    event_type: CdrEventType::Provisional,
                    leg_id: ctx.source_leg_id,
                    status_code: Some(200),
                    reason: Some("promote-pem-to-200"@),
                },
            )
            &&& rseq_of(resp) is Some ==> a.contains(
                owed_prack(ctx, resp),
            )
            &&& a.contains(
                RuleActionView::SetPromotePem {
                    state: Some(
                        PromotePemStateView {
                            promoted: true,
                            promoted_sdp: resp.body,
                            window_open: true,
                            resync_reinvite_cseq: None,
                        },
                    ),
                },
            )
            &&& a.len() == 4 + if rseq_of(resp) is Some {
                1int
            } else {
                0int
            }
            &&& a[1] is RelayToPeer
            &&& answers_with(a[1]->RelayToPeer_transform)
        }),
{
    reveal(handled);
    reveal(early_media_promoted);
    assert(as_answer().remove_headers =~= seq!["Require"@, "RSeq"@]);
    let a = handled(Handler::Promote183, ctx)->0.actions;
    if rseq_of(resp) is Some {
        assert(a[0] == RuleActionView::UpdateLegState {
            leg_id: "a"@,
            state: LegState::Confirmed,
            disposition: None,
        });
        assert(a[1] == RuleActionView::RelayToPeer { transform: a[1]->RelayToPeer_transform });
        assert(a[2] == RuleActionView::AddCdrEvent {
            event_type: CdrEventType::Provisional,
            leg_id: ctx.source_leg_id,
            status_code: Some(200),
            reason: Some("promote-pem-to-200"@),
        });
        assert(a[3] == owed_prack(ctx, resp));
        assert(a[4] == RuleActionView::SetPromotePem {
            state: Some(
                PromotePemStateView {
                    promoted: true,
                    promoted_sdp: resp.body,
                    window_open: true,
                    resync_reinvite_cseq: None,
                },
            ),
        });
    } else {
        assert(a[0] == RuleActionView::UpdateLegState {
            leg_id: "a"@,
            state: LegState::Confirmed,
            disposition: None,
        });
        assert(a[1] == RuleActionView::RelayToPeer { transform: a[1]->RelayToPeer_transform });
        assert(a[2] == RuleActionView::AddCdrEvent {
            event_type: CdrEventType::Provisional,
            leg_id: ctx.source_leg_id,
            status_code: Some(200),
            reason: Some("promote-pem-to-200"@),
        });
        assert(a[3] == RuleActionView::SetPromotePem {
            state: Some(
                PromotePemStateView {
                    promoted: true,
                    promoted_sdp: resp.body,
                    window_open: true,
                    resync_reinvite_cseq: None,
                },
            ),
        });
    }
}

/// A provisional after the promotion is recorded, acknowledged where it is a reliable
/// one, and goes no further.
pub proof fn a_provisional_after_the_promotion_stays_here(
    ctx: RuleContextView,
    resp: SipResponseView,
)
    requires
        ctx.response() == Some(resp),
    ensures
        handled(Handler::SuppressProvisional, ctx) is Some,
        ({
            let a = handled(Handler::SuppressProvisional, ctx)->0.actions;
            &&& a.contains(
                RuleActionView::AddCdrEvent {
                    event_type: CdrEventType::Provisional,
                    leg_id: ctx.source_leg_id,
                    status_code: Some(resp.status as i64),
                    reason: Some("promote-pem-to-200:suppressed"@),
                },
            )
            &&& rseq_of(resp) is Some ==> a.contains(
                owed_prack(ctx, resp),
            )
            &&& a.len() == 1 + if rseq_of(resp) is Some {
                1int
            } else {
                0int
            }
        }),
{
    reveal(handled);
    reveal(provisional_suppressed);
    let a = handled(Handler::SuppressProvisional, ctx)->0.actions;
    if rseq_of(resp) is Some {
        assert(a[0] == RuleActionView::AddCdrEvent {
            event_type: CdrEventType::Provisional,
            leg_id: ctx.source_leg_id,
            status_code: Some(resp.status as i64),
            reason: Some("promote-pem-to-200:suppressed"@),
        });
        assert(a[1] == owed_prack(ctx, resp));
    } else {
        assert(a[0] == RuleActionView::AddCdrEvent {
            event_type: CdrEventType::Provisional,
            leg_id: ctx.source_leg_id,
            status_code: Some(resp.status as i64),
            reason: Some("promote-pem-to-200:suppressed"@),
        });
    }
}

/// What the service promoted, and what it remembers beside.
pub open spec fn promotion(ctx: RuleContextView, s: PromotePemStateView) -> bool {
    ctx.call.promote_pem == Some(s)
}

/// A callee that answers a promoted call is taken, acknowledged and bridged without
/// a word to the caller; every other leg that still is up is destroyed. The caller
/// was answered with early media: where the callee's own description says something
/// else of the media, the caller is asked to take that one, the body of the answer,
/// and it is remembered under which number; where it says the same, nothing is left
/// to do.
pub proof fn a_promoted_caller_is_brought_in_line(
    ctx: RuleContextView,
    resp: SipResponseView,
    s: PromotePemStateView,
)
    requires
        ctx.response() == Some(resp),
        promotion(ctx, s),
    ensures
        handled(Handler::ConfirmPromoted, ctx) is Some,
        ({
            let a = handled(Handler::ConfirmPromoted, ctx)->0.actions;
            let b = ctx.source_leg_id;
            &&& a.contains(
                RuleActionView::UpdateLegState {
                    leg_id: b,
                    state: LegState::Confirmed,
                    disposition: Some(LegDisposition::Bridged),
                },
            )
            &&& a.contains(RuleActionView::ConfirmDialog { leg_id: b })
            &&& a.contains(
                RuleActionView::AckLeg { leg_id: b, body: Seq::empty(), content_type: None },
            )
            &&& a.contains(RuleActionView::Merge { leg_a: ctx.call.a_leg.leg_id, leg_b: b })
            &&& a.contains(
                RuleActionView::CancelTimer { id: timer_key(TimerTypeView::NoAnswer, Some(b)) },
            )
            &&& a.contains(
                RuleActionView::ScheduleTimer {
                    timer_type: TimerTypeView::GlobalDuration,
                    delay_sec: match ctx.call.features {
                        Some(f) => f.platform.max_duration_sec,
                        None => 3600i64,
                    },
                    leg_id: None,
                },
            )
            &&& a.contains(
                RuleActionView::ScheduleTimer {
                    timer_type: TimerTypeView::Keepalive,
                    delay_sec: ctx.config.keepalive_interval_sec,
                    leg_id: None,
                },
            )
            &&& a.contains(
                RuleActionView::AddCdrEvent {
                    event_type: CdrEventType::Answer,
                    leg_id: b,
                    status_code: Some(200),
                    reason: None,
                },
            )
            &&& forall|i: int|
                0 <= i < ctx.call.b_legs.len() && (#[trigger] ctx.call.b_legs[i]).leg_id != b
                    && ctx.call.b_legs[i].state != LegState::Terminated ==> a.contains(
                    RuleActionView::DestroyLeg { leg_id: ctx.call.b_legs[i].leg_id },
                )
            &&& forall|i: int|
                0 <= i < a.len() ==> !((#[trigger] a[i]) is RelayToPeer) && !(a[i] is RelayToLeg)
                    && a[i] != (RuleActionView::DestroyLeg { leg_id: b })
            &&& media_equivalent(s.promoted_sdp, resp.body) ==> {
                &&& a.last() == (RuleActionView::SetPromotePem { state: None })
                &&& forall|i: int| 0 <= i < a.len() ==> !((#[trigger] a[i]) is SendReinvite)
            }
            &&& !media_equivalent(s.promoted_sdp, resp.body) ==> {
                &&& a.len() >= 3
                &&& a[a.len() - 3] is SendReinvite
                &&& forall|i: int|
                    0 <= i < a.len() && (#[trigger] a[i]) is SendReinvite ==> {
                        &&& i == a.len() - 3
                        &&& a[i]->SendReinvite_leg_id == ctx.call.a_leg.leg_id
                        &&& a[i]->SendReinvite_body == resp.body
                        &&& advertises(a[i]->SendReinvite_add_headers)
                    }
                &&& a[a.len() - 2] == (RuleActionView::AddCdrEvent {
                    event_type: CdrEventType::Provisional,
                    leg_id: "a"@,
                    status_code: Some(0),
                    reason: Some("promote-pem-to-200:resync-reinvite"@),
                })
                &&& a.last() is SetPromotePem
                &&& (a.last()->SetPromotePem_state matches Some(next) && {
                    &&& next.promoted == s.promoted
                    &&& next.promoted_sdp == s.promoted_sdp
                    &&& next.window_open == s.window_open
                    &&& next.resync_reinvite_cseq is Some
                    &&& ctx.call.a_leg.dialogs.len() > 0
                        && ctx.call.a_leg.dialogs[0].sip.local_cseq < i64::MAX
                        ==> next.resync_reinvite_cseq->0
                        == ctx.call.a_leg.dialogs[0].sip.local_cseq + 1
                })
            }
        }),
{
    reveal(handled);
    reveal(promoted_confirmed);
    let b = ctx.source_leg_id;
    let a = handled(Handler::ConfirmPromoted, ctx)->0.actions;
    let p0 = winner_mapped(ctx, tag_or_empty(resp.to_tag));
    let p1 = silently_bridged(ctx);
    let p2 = others_destroyed(ctx.call.b_legs, b);
    let p3 = answer_timers(ctx);
    let p4 = resync(ctx, resp.body);
    others_are_destroyed_only(ctx.call.b_legs, b);
    assert(a =~= p0 + p1 + p2 + p3 + p4);
    assert forall|y: RuleActionView|
        p1.contains(y) || p2.contains(y) || p3.contains(y) implies #[trigger] a.contains(y) by {
        either_holds(p0, p1, y);
        either_holds(p0 + p1, p2, y);
        either_holds(p0 + p1 + p2, p3, y);
        either_holds(p0 + p1 + p2 + p3, p4, y);
    }
    assert(p1.contains(p1[0]));
    assert(p1.contains(p1[1]));
    assert(p1.contains(p1[2]));
    assert(p1.contains(p1[3]));
    assert(p3.contains(p3[0]));
    assert(p3.contains(p3[1]));
    assert(p3.contains(p3[2]));
    assert(p3.contains(p3[3]));
    assert forall|i: int|
        0 <= i < ctx.call.b_legs.len() && (#[trigger] ctx.call.b_legs[i]).leg_id != b
            && ctx.call.b_legs[i].state != LegState::Terminated implies a.contains(
        RuleActionView::DestroyLeg { leg_id: ctx.call.b_legs[i].leg_id },
    ) by {
        each_other_is_destroyed(ctx.call.b_legs, b, i);
    }
    let n = (p0 + p1 + p2 + p3).len();
    assert forall|i: int| 0 <= i < a.len() implies a[i] == if i < p0.len() {
        p0[i]
    } else if i < p0.len() + 4 {
        p1[i - p0.len()]
    } else if i < p0.len() + 4 + p2.len() {
        p2[i - p0.len() - 4]
    } else if i < n {
        p3[i - p0.len() - 4 - p2.len()]
    } else {
        p4[i - n]
    } by {}
    assert(n == p0.len() + 8 + p2.len());
    assert(a.last() == p4.last());
}

proof fn others_are_destroyed_only(ls: Seq<LegView>, b: Seq<char>)
    ensures
        forall|i: int|
            0 <= i < others_destroyed(ls, b).len() ==> (#[trigger] others_destroyed(
                ls,
                b,
            )[i]) is DestroyLeg && others_destroyed(ls, b)[i]->DestroyLeg_leg_id != b,
    decreases ls.len(),
{
    if ls.len() > 0 {
        others_are_destroyed_only(ls.drop_last(), b);
    }
}

proof fn each_other_is_destroyed(ls: Seq<LegView>, b: Seq<char>, i: int)
    requires
        0 <= i < ls.len(),
        ls[i].leg_id != b,
        ls[i].state != LegState::Terminated,
    ensures
        others_destroyed(ls, b).contains(RuleActionView::DestroyLeg { leg_id: ls[i].leg_id }),
    decreases ls.len(),
{
    let t = ls.drop_last();
    let y = RuleActionView::DestroyLeg { leg_id: ls[i].leg_id };
    if i < t.len() {
        each_other_is_destroyed(t, b, i);
        let k = choose|k: int|
            0 <= k < others_destroyed(t, b).len() && others_destroyed(t, b)[k] == y;
        assert(others_destroyed(ls, b)[k] == y);
    } else {
        assert(others_destroyed(ls, b)[others_destroyed(t, b).len() as int] == y);
    }
}

/// Two answers of different bodies, neither like what was promoted, ask the caller
/// to take different descriptions.
pub proof fn the_resync_follows_the_answer(
    ctx1: RuleContextView,
    ctx2: RuleContextView,
    r1: SipResponseView,
    r2: SipResponseView,
    s: PromotePemStateView,
)
    requires
        ctx1.response() == Some(r1),
        ctx2.response() == Some(r2),
        promotion(ctx1, s),
        promotion(ctx2, s),
        !media_equivalent(s.promoted_sdp, r1.body),
        !media_equivalent(s.promoted_sdp, r2.body),
        r1.body != r2.body,
    ensures
        ({
            let a1 = handled(Handler::ConfirmPromoted, ctx1)->0.actions;
            let a2 = handled(Handler::ConfirmPromoted, ctx2)->0.actions;
            a1[a1.len() - 3]->SendReinvite_body != a2[a2.len() - 3]->SendReinvite_body
        }),
{
    a_promoted_caller_is_brought_in_line(ctx1, r1, s);
    a_promoted_caller_is_brought_in_line(ctx2, r2, s);
}

/// The winning dialog of a leg that the caller was shown goes by the one tag the
/// caller holds.
pub proof fn the_winner_goes_by_the_tag_the_caller_holds(
    ctx: RuleContextView,
    resp: SipResponseView,
    tag: Seq<char>,
    m: TagMappingView,
)
    requires
        ctx.response() == Some(resp),
        resp.to_tag == Some(tag),
        ctx.call.by_b_tag(ctx.source_leg_id, tag) is None,
        find_where(ctx.call.tag_map, mapping_on_leg(ctx.source_leg_id)) == Some(m),
    ensures
        handled(Handler::ConfirmPromoted, ctx) is Some,
        handled(Handler::ConfirmPromoted, ctx)->0.actions.len() > 0,
        handled(Handler::ConfirmPromoted, ctx)->0.actions[0] == (RuleActionView::AddTagMapping {
            mapping: TagMappingView { a_tag: m.a_tag, b_leg_id: ctx.source_leg_id, b_tag: tag },
        }),
{
    reveal(handled);
    reveal(promoted_confirmed);
}

/// The cause a failure is stated under: its status, and its phrase without quotes.
pub open spec fn stated_as(status: u16, phrase: Seq<char>, cause: Seq<char>) -> bool {
    exists|said: Seq<char>|
        cause == #[trigger] quoted_cause(status, said) && (forall|i: int|
            0 <= i < said.len() ==> #[trigger] said[i] != '"') && ((forall|i: int|
            0 <= i < phrase.len() ==> #[trigger] phrase[i] != '"') && phrase.len() > 0 ==> said
            == phrase)
}

pub open spec fn quoted_cause(status: u16, said: Seq<char>) -> Seq<char> {
    "SIP ;cause="@ + decimal_text(status as nat) + ";text=\""@ + said + "\""@
}

/// The cause of a teardown states the status and the phrase of the failure, within
/// quotes that the phrase does not break.
pub proof fn a_cause_states_its_failure(status: u16, phrase: Seq<char>)
    ensures
        stated_as(status, phrase, reason_of(status, phrase)),
{
    let bare = keep(phrase, not_quote());
    keep_sound(phrase, not_quote());
    reveal_strlit("Unspecified");
    let said = if bare.len() == 0 {
        "Unspecified"@
    } else {
        bare
    };
    if (forall|i: int| 0 <= i < phrase.len() ==> #[trigger] phrase[i] != '"') {
        keep_whole(phrase, not_quote());
    }
    assert forall|i: int| 0 <= i < said.len() implies #[trigger] said[i] != '"' by {
        if bare.len() > 0 {
            assert(not_quote()(bare[i]));
        }
    }
    assert(reason_of(status, phrase) == quoted_cause(status, said));
}

/// A provisional to the re-INVITE that brings the caller in line is nothing.
pub proof fn a_provisional_to_the_resync_is_nothing(
    ctx: RuleContextView,
    resp: SipResponseView,
)
    requires
        ctx.response() == Some(resp),
        resp.status < 200,
    ensures
        handled(Handler::ResyncAnswered, ctx) is Some,
        ({
            let a = handled(Handler::ResyncAnswered, ctx)->0.actions;
            &&& a.len() == 0
        }),
{
    reveal(handled);
    reveal(resync_answered);
    let a = handled(Handler::ResyncAnswered, ctx)->0.actions;
}

/// A caller that takes the callee's description is acknowledged, and nothing is left
/// to bring in line.
pub proof fn a_caller_in_line_is_acknowledged(
    ctx: RuleContextView,
    resp: SipResponseView,
)
    requires
        ctx.response() == Some(resp),
        200 <= resp.status < 300,
    ensures
        handled(Handler::ResyncAnswered, ctx) is Some,
        ({
            let a = handled(Handler::ResyncAnswered, ctx)->0.actions;
            &&& a.contains(
                RuleActionView::AckLeg { leg_id: "a"@, body: Seq::empty(), content_type: None },
            )
            &&& a.contains(
                RuleActionView::AddCdrEvent {
                    event_type: CdrEventType::Answer,
                    leg_id: "a"@,
                    status_code: Some(resp.status as i64),
                    reason: Some("promote-pem-to-200:resync-success"@),
                },
            )
            &&& a.contains(
                RuleActionView::SetPromotePem { state: None },
            )
            &&& a.len() == 3
        }),
{
    reveal(handled);
    reveal(resync_answered);
    let a = handled(Handler::ResyncAnswered, ctx)->0.actions;
    assert(a[0] == RuleActionView::AckLeg { leg_id: "a"@, body: Seq::empty(), content_type: None });
    assert(a[1] == RuleActionView::AddCdrEvent {
        event_type: CdrEventType::Answer,
        leg_id: "a"@,
        status_code: Some(resp.status as i64),
        reason: Some("promote-pem-to-200:resync-success"@),
    });
    assert(a[2] == RuleActionView::SetPromotePem { state: None });
}

/// A caller that refuses the callee's description ends the call, under the cause of
/// its refusal.
pub proof fn a_caller_that_stays_out_of_line_is_hung_up_on(
    ctx: RuleContextView,
    resp: SipResponseView,
)
    requires
        ctx.response() == Some(resp),
        resp.status >= 300,
    ensures
        handled(Handler::ResyncAnswered, ctx) is Some,
        ({
            let a = handled(Handler::ResyncAnswered, ctx)->0.actions;
            &&& a.contains(
                RuleActionView::AddCdrEvent {
                    event_type: CdrEventType::Reject,
                    leg_id: "a"@,
                    status_code: Some(resp.status as i64),
                    reason: Some(
                        "promote-pem-to-200:resync-failed:"@ + reason_of(resp.status, resp.reason),
                    ),
                },
            )
            &&& a.contains(
                RuleActionView::SetPromotePem { state: None },
            )
            &&& a.contains(
                RuleActionView::BeginTermination {
                    reason: Some(reason_of(resp.status, resp.reason)),
                },
            )
            &&& a.len() == 3
        }),
{
    reveal(handled);
    reveal(resync_answered);
    let a = handled(Handler::ResyncAnswered, ctx)->0.actions;
    assert(a[0] == RuleActionView::AddCdrEvent {
        event_type: CdrEventType::Reject,
        leg_id: "a"@,
        status_code: Some(resp.status as i64),
        reason: Some("promote-pem-to-200:resync-failed:"@ + reason_of(resp.status, resp.reason)),
    });
    assert(a[1] == RuleActionView::SetPromotePem { state: None });
    assert(a[2] == RuleActionView::BeginTermination {
        reason: Some(reason_of(resp.status, resp.reason)),
    });
}

/// The caller's ACK of the promoted answer is recorded, and goes no further.
pub proof fn the_ack_of_the_promoted_answer_stays_here(
    ctx: RuleContextView,
)
    ensures
        handled(Handler::AbsorbPromotedAck, ctx) is Some,
        ({
            let a = handled(Handler::AbsorbPromotedAck, ctx)->0.actions;
            &&& a.contains(
                RuleActionView::AddCdrEvent {
                    event_type: CdrEventType::Provisional,
                    leg_id: "a"@,
                    status_code: Some(0),
                    reason: Some("promote-pem-to-200:ack-absorbed"@),
                },
            )
            &&& a.len() == 1
        }),
{
    reveal(handled);
    reveal(ack_absorbed);
    let a = handled(Handler::AbsorbPromotedAck, ctx)->0.actions;
    assert(a[0] == RuleActionView::AddCdrEvent {
        event_type: CdrEventType::Provisional,
        leg_id: "a"@,
        status_code: Some(0),
        reason: Some("promote-pem-to-200:ack-absorbed"@),
    });
}

/// A callee that fails after the promotion ends the call, already answered, under the
/// cause of its failure.
pub proof fn a_promoted_call_that_fails_is_hung_up_on(
    ctx: RuleContextView,
    resp: SipResponseView,
)
    requires
        ctx.response() == Some(resp),
    ensures
        handled(Handler::PromotedFailure, ctx) is Some,
        ({
            let a = handled(Handler::PromotedFailure, ctx)->0.actions;
            &&& a.contains(
                RuleActionView::AddCdrEvent {
                    event_type: CdrEventType::Reject,
                    leg_id: ctx.source_leg_id,
                    status_code: Some(resp.status as i64),
                    reason: Some(
                        "promote-pem-to-200:b-failed:"@ + reason_of(resp.status, resp.reason),
                    ),
                },
            )
            &&& a.contains(
                RuleActionView::TerminateLeg {
                    leg_id: ctx.source_leg_id,
                    bye_disposition: Some(ByeDisposition::Rejected),
                },
            )
            &&& a.contains(
                RuleActionView::SetPromotePem { state: None },
            )
            &&& a.contains(
                RuleActionView::BeginTermination {
                    reason: Some(reason_of(resp.status, resp.reason)),
                },
            )
            &&& a.len() == 4
        }),
{
    reveal(handled);
    reveal(promoted_failed);
    let a = handled(Handler::PromotedFailure, ctx)->0.actions;
    assert(a[0] == RuleActionView::AddCdrEvent {
        event_type: CdrEventType::Reject,
        leg_id: ctx.source_leg_id,
        status_code: Some(resp.status as i64),
        reason: Some("promote-pem-to-200:b-failed:"@ + reason_of(resp.status, resp.reason)),
    });
    assert(a[1] == RuleActionView::TerminateLeg {
        leg_id: ctx.source_leg_id,
        bye_disposition: Some(ByeDisposition::Rejected),
    });
    assert(a[2] == RuleActionView::SetPromotePem { state: None });
    assert(a[3] == RuleActionView::BeginTermination {
        reason: Some(reason_of(resp.status, resp.reason)),
    });
}

} // verus!
