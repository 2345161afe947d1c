use b2bua_rules::actions::{ActionExecutor, Work};
use b2bua_rules::call::{
    Answers, Call, CallModelState, Config, Destination, Dialog, DialogExt, Direction, Emission,
    FeatureActivations, InviteSnapshot, KeepaliveActivation, LadderClass, Leg, LegDisposition,
    LegState, MaxDurationAnchor, Obligation, PeerPair, PlatformActivations, ReliableProvisional, ResponsePlan,
    StackDialog, TimerType, Unacked2xx,
};
use b2bua_rules::defaults::compose::default_rules;
use b2bua_rules::effects::{HandlerEffects, HandlerResult, OutboundBody};
use b2bua_rules::executor::{run_turn, Turn};
use b2bua_rules::ids::IdGen;
use b2bua_rules::model::{CallEvent, RuleContext};
use b2bua_rules::wire::{Method, SipHeader, SipRequest, SipResponse};

fn header(name: &str, value: &str) -> SipHeader {
    SipHeader { name: name.to_string(), value: value.to_string() }
}

fn config() -> Config {
    Config {
        keepalive_interval_sec: 300,
        keepalive_timeout_sec: 32,
        ack_timeout_ms: 32_000,
        limiter_refresh_sec: 60,
        refer_subscription_expiry_sec: 60,
        refer_overall_safety_sec: 120,
        refer_reinvite_answer_sec: 32,
        no_answer_ceiling_sec: 170,
        outbound_proxy: None,
        worker_allowed_target_suffixes: vec![],
        reserved_ext: Vec::new(),
        keepalive_cseq_reuse: false,
    }
}

fn dialog(call_id: &str, local: &str, remote: &str) -> Dialog {
    Dialog {
        sip: StackDialog {
            call_id: call_id.to_string(),
            local_tag: local.to_string(),
            remote_tag: remote.to_string(),
            local_uri: "sip:svc@10.0.0.9".to_string(),
            remote_uri: "sip:peer@10.0.0.1".to_string(),
            remote_target: "sip:peer@10.0.0.1:5060".to_string(),
            local_cseq: 1,
            route_set: vec![],
        },
        ext: DialogExt {
            remote_cseq: None,
            inbound_pending_requests: vec![],
            ack_branch: None,
            emitted_ack: None,
            pending_invite_txn: None,
            cached_sdp: None,
            answered_2xx: None,
            pending_reinvite_2xx: None,
            awaited_ack_cseq: None,
        },
    }
}

fn leg(id: &str, state: LegState, dialogs: Vec<Dialog>) -> Leg {
    Leg {
        leg_id: id.to_string(),
        call_id: format!("cid-{id}"),
        from_tag: format!("ft-{id}"),
        local_uri: None,
        remote_uri: None,
        state,
        disposition: if state == LegState::Confirmed {
            LegDisposition::Bridged
        } else {
            LegDisposition::Pending
        },
        bye_disposition: None,
        kind: None,
        adopted: true,
        offers_sdp: true,
        invite_final_sent: None,
        dialogs,
    }
}

fn call(a: Leg, b: Vec<Leg>) -> Call {
    Call {
        call_ref: "call-1".to_string(),
        emergency: None,
        state: CallModelState::Active,
        a_leg: a,
        b_legs: b,
        a_leg_invite: InviteSnapshot {
            cseq: 7,
            from_uri: "sip:alice@10.0.0.1".to_string(),
            to_uri: "sip:svc@10.0.0.9".to_string(),
            headers: vec![
                header("Via", "SIP/2.0/UDP 10.0.0.1:5060;branch=z9hG4bKa"),
                header("Contact", "<sip:alice@10.0.0.1:5060>"),
            ],
            body: vec![],
            held_sdp: None,
        },
        active_peer: None,
        tag_map: vec![],
        timers: vec![],
        cdr_events: vec![],
        sm_cursors: vec![],
        features: None,
        callback_context: None,
        policy_update_body: None,
        transfer: None,
        promote_pem: None,
        relay_first_18x: None,
        reliable_provisionals: vec![],
        pracked_provisionals: vec![],
        limiter_entries: vec![],
        ext: vec![],
        failure_headers: vec![],
        subscriptions: vec![],
        reroute: None,
        deactivated_rules: vec![],
        termination: None,
    }
}

/// A call that is up between the caller and one callee.
fn bridged() -> Call {
    let mut c = call(
        leg("a", LegState::Confirmed, vec![dialog("cid-a", "at", "alice")]),
        vec![leg("b-1", LegState::Confirmed, vec![dialog("cid-b-1", "ft-b-1", "bob")])],
    );
    c.active_peer = Some(PeerPair { leg_a: "a".to_string(), leg_b: "b-1".to_string() });
    c
}

fn features() -> FeatureActivations {
    FeatureActivations {
        platform: PlatformActivations {
            max_duration_sec: 3_600,
            max_duration_anchor: MaxDurationAnchor::Creation,
            keepalive: KeepaliveActivation { interval_sec: 30, max_missed: 2 },
        },
        refer: false,
        relay_first_18x_to_180: None,
        no_answer_timeout_sec: None,
        advertise_capabilities: None,
        charging_vector: None,
        option_tags: Vec::new(),
    }
}

fn request(method: Method, cseq: i64) -> SipRequest {
    SipRequest {
        method,
        cseq,
        to_tag: Some("at".to_string()),
        headers: vec![header("Via", "SIP/2.0/UDP 10.0.0.1:5060;branch=z9hG4bKr")],
        relayable: vec![],
        hops: 69,
        body: vec![],
    }
}

fn response(status: u16, reason: &str, method: Method, cseq: i64) -> SipResponse {
    SipResponse {
        status,
        reason: reason.to_string(),
        cseq,
        method,
        to_tag: Some("bob".to_string()),
        headers: vec![header("Contact", "<sip:bob@10.0.0.2:5060>")],
        relayable: vec![],
        body: vec![],
    }
}

fn ids() -> IdGen {
    IdGen { seed: "t".to_string(), next: 1 }
}

fn timer(t: TimerType, leg_id: Option<&str>) -> CallEvent {
    CallEvent::Timer { timer_type: t, leg_id: leg_id.map(str::to_string) }
}

fn event_direction(source: &str) -> Direction {
    if source == "a" {
        Direction::FromA
    } else {
        Direction::FromB
    }
}

/// One turn of the default rules.
fn turn(c: &Call, event: &CallEvent, source: &str) -> Turn {
    let cfg = config();
    let source = source.to_string();
    let ctx = RuleContext {
        call: c,
        event,
        source_leg_id: &source,
        direction: event_direction(&source),
        now_ms: 1_000,
        config: &cfg,
        discharged: None,
    };
    let exec = ActionExecutor { config: &cfg, now_ms: 1_000 };
    run_turn(&default_rules(), c, &ctx, &exec, &mut ids())
}

fn rule_of(t: &Turn) -> &str {
    t.report.as_ref().map(|r| r.rule_id.as_str()).unwrap_or("")
}

fn requests(t: &Turn) -> Vec<(Option<&str>, Method)> {
    t.result
        .effects
        .outbound
        .iter()
        .filter_map(|e| match &e.body {
            OutboundBody::Request { request } => Some((e.leg_id.as_deref(), request.method.clone())),
            OutboundBody::Ack { .. } => Some((e.leg_id.as_deref(), Method::Ack)),
            OutboundBody::Cancel { .. } => Some((e.leg_id.as_deref(), Method::Cancel)),
            OutboundBody::Invite { .. } => Some((e.leg_id.as_deref(), Method::Invite)),
            _ => None,
        })
        .collect()
}

fn retained(tag: &str, cseq: i64) -> Unacked2xx {
    Unacked2xx {
        dialog_tag: tag.to_string(),
        cseq,
        emission: Emission {
            response: ResponsePlan {
                status: 200,
                reason: "OK".to_string(),
                answers: Answers::ALegInvite,
                cseq,
                method: Method::Invite,
                to_tag: Some(tag.to_string()),
                contact: true,
                emergency: false,
                body: vec![],
                content_type: None,
                headers: vec![],
                redirects: vec![],
                source_body: None,
            },
            destination: Destination::TopVia,
            class: LadderClass::Final2xx,
            interval_ms: 500,
            elapsed_ms: 500,
        },
    }
}

/// An answered call whose answer the caller has not acknowledged yet.
fn unacknowledged() -> Call {
    let mut c = bridged();
    c.a_leg.dialogs[0].ext.answered_2xx = Some(retained("at", 7));
    c
}

fn owed() -> Obligation {
    Obligation::AckOf2xx { leg: "a".to_string(), dialog_tag: "at".to_string(), cseq: 7 }
}

fn work(c: Call) -> Work {
    Work { call: c, fx: HandlerEffects::new(), ids: ids() }
}

#[test]
fn a_rung_sends_the_answer_again_and_arms_the_next() {
    let cfg = config();
    let exec = ActionExecutor { config: &cfg, now_ms: 0 };
    let mut w = work(unacknowledged());
    exec.repeat(&mut w, &owed());
    assert_eq!(w.fx.outbound.len(), 1);
    assert!(matches!(&w.fx.outbound[0].body, OutboundBody::Repeat { response } if response.status == 200));
    assert_eq!(w.call.timers.len(), 1);
    assert_eq!(w.call.timers[0].fire_at, 1_000);
}

#[test]
fn an_ack_retires_its_ladder_and_a_second_one_names_nothing() {
    let cfg = config();
    let exec = ActionExecutor { config: &cfg, now_ms: 0 };
    let mut w = work(unacknowledged());
    exec.repeat(&mut w, &owed());
    let ack = CallEvent::Request { request: request(Method::Ack, 7) };
    assert_eq!(exec.discharge(&mut w, &ack, &"a".to_string()), Some(owed()));
    assert!(w.call.timers.is_empty());
    assert!(w.call.a_leg.dialogs[0].ext.answered_2xx.is_none());
    assert_eq!(exec.discharge(&mut w, &ack, &"a".to_string()), None);
    exec.repeat(&mut w, &owed());
    assert_eq!(w.fx.outbound.len(), 1, "a spent rung sends nothing");
}

#[test]
fn an_ack_of_another_transaction_names_nothing() {
    let cfg = config();
    let exec = ActionExecutor { config: &cfg, now_ms: 0 };
    let mut w = work(unacknowledged());
    let ack = CallEvent::Request { request: request(Method::Ack, 8) };
    assert_eq!(exec.discharge(&mut w, &ack, &"a".to_string()), None);
    let bye = CallEvent::Request { request: request(Method::Bye, 7) };
    assert_eq!(exec.discharge(&mut w, &bye, &"a".to_string()), None);
    assert!(w.call.a_leg.dialogs[0].ext.answered_2xx.is_some());
}

#[test]
fn a_give_up_stops_the_ladder_and_keeps_the_answer_for_the_rules() {
    let cfg = config();
    let exec = ActionExecutor { config: &cfg, now_ms: 0 };
    let mut w = work(unacknowledged());
    exec.repeat(&mut w, &owed());
    exec.give_up(&mut w, &owed());
    assert!(w.call.timers.is_empty());
    assert!(w.call.a_leg.dialogs[0].ext.answered_2xx.is_some());
    let t = turn(&w.call, &timer(TimerType::RepeatGiveUp { obligation: owed() }, None), "a");
    assert_eq!(rule_of(&t), "unacked-2xx-give-up");
    assert_eq!(t.result.call.state, CallModelState::Terminating);
    assert_eq!(t.result.call.cdr_events[0].reason.as_deref(), Some("ack_timeout"));
    assert_eq!(
        requests(&t),
        vec![(Some("a"), Method::Bye), (Some("b-1"), Method::Bye)]
    );
}

#[test]
fn silence_after_an_answer_ends_the_session_whatever_the_rules_did() {
    let c = unacknowledged();
    let cfg = config();
    let event = timer(TimerType::RepeatGiveUp { obligation: owed() }, None);
    let source = "a".to_string();
    let ctx = RuleContext {
        call: &c,
        event: &event,
        source_leg_id: &source,
        direction: Direction::FromA,
        now_ms: 0,
        config: &cfg,
        discharged: None,
    };
    let exec = ActionExecutor { config: &cfg, now_ms: 0 };
    let left_up = HandlerResult { call: unacknowledged(), effects: HandlerEffects::new() };
    let r = exec.settle_give_up(left_up, &owed(), &ctx, &mut ids());
    assert_eq!(r.call.state, CallModelState::Terminating);
    assert!(r.call.a_leg.dialogs[0].ext.answered_2xx.is_none());
    assert_eq!(r.call.cdr_events[0].reason.as_deref(), Some("ack_timeout"));
    assert_eq!(r.effects.outbound.len(), 2);

    let mut ended = unacknowledged();
    ended.state = CallModelState::Terminating;
    let r = exec.settle_give_up(
        HandlerResult { call: ended, effects: HandlerEffects::new() },
        &owed(),
        &ctx,
        &mut ids(),
    );
    assert!(r.effects.outbound.is_empty());
    assert!(r.call.a_leg.dialogs[0].ext.answered_2xx.is_none());

    let prack = Obligation::PrackOf { a_tag: "at".to_string(), a_rseq: 1 };
    let kept = HandlerResult { call: unacknowledged(), effects: HandlerEffects::new() };
    let r = exec.settle_give_up(kept, &prack, &ctx, &mut ids());
    assert_eq!(r, HandlerResult { call: unacknowledged(), effects: HandlerEffects::new() });
}

#[test]
fn a_prack_retires_its_ladder_and_a_second_one_names_nothing() {
    let cfg = config();
    let exec = ActionExecutor { config: &cfg, now_ms: 0 };
    let mut c = bridged();
    c.reliable_provisionals = vec![ReliableProvisional {
        a_tag: "at".to_string(),
        a_rseq: 11,
        a_cseq: 7,
        b_leg_id: "b-1".to_string(),
        b_tag: "bob".to_string(),
        b_cseq: 1,
        b_rseq: 9001,
        emission: Some(retained("at", 7).emission),
    }];
    let owed = Obligation::PrackOf { a_tag: "at".to_string(), a_rseq: 11 };
    let mut w = work(c);
    exec.repeat(&mut w, &owed);
    assert_eq!(w.call.timers.len(), 1);
    let mut prack = request(Method::Prack, 8);
    prack.headers.push(header("RAck", "11 7 INVITE"));
    let prack = CallEvent::Request { request: prack };
    assert_eq!(exec.discharge(&mut w, &prack, &"a".to_string()), Some(owed));
    assert!(w.call.timers.is_empty());
    assert!(w.call.reliable_provisionals[0].emission.is_none());
    assert_eq!(exec.discharge(&mut w, &prack, &"a".to_string()), None);
}
