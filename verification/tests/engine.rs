use b2bua_rules::action::RuleAction;
use b2bua_rules::actions::ActionExecutor;
use b2bua_rules::call::{
    ByeDisposition, Call, CallModelState, CdrEventType, Config, Cursor, Destination, Dialog,
    DialogExt, Direction, FeatureActivations, InviteSnapshot, InviteTxn, KeepaliveActivation, Leg,
    LegDisposition, LegState, LimiterState, MaxDurationAnchor, PeerPair, PendingRequest,
    PlatformActivations, RelayFirst18xStrategy, StackDialog, TimerKind, TimerType,
};
use b2bua_rules::defaults::compose::{default_rules, default_rules_with, ComposeOptions};
use b2bua_rules::effects::{
    CriticalEffect, FailureOrigin, FireAndForget, HandlerEffects, HandlerResult, OutboundBody,
};
use b2bua_rules::executor::{
    check_declared_effects, check_declared_transition, cursor_moves, execute_rules, pick_ranked,
    run_turn, Turn,
};
use b2bua_rules::ids::IdGen;
use b2bua_rules::invariants::{enforce, finalize};
use b2bua_rules::model::{
    CallEvent, Effect, EffectKind, Handler, Match, RuleContext, RuleDefinition, Transition,
    CORE_LAYER, SERVICE_LAYER,
};
use b2bua_rules::wire::{Method, SipHeader, SipRequest, SipResponse};

fn header(name: &str, value: &str) -> SipHeader {
    SipHeader { name: name.to_string(), value: value.to_string() }
}

fn config() -> Config {
    Config {
        keepalive_interval_sec: 300,
        keepalive_timeout_sec: 32,
        ack_timeout_ms: 32_000,
        limiter_refresh_sec: 60,
        refer_subscription_expiry_sec: 60,
        refer_overall_safety_sec: 120,
        refer_reinvite_answer_sec: 32,
        no_answer_ceiling_sec: 170,
        outbound_proxy: None,
        worker_allowed_target_suffixes: vec![],
        reserved_ext: Vec::new(),
        keepalive_cseq_reuse: false,
    }
}

fn dialog(call_id: &str, local: &str, remote: &str) -> Dialog {
    Dialog {
        sip: StackDialog {
            call_id: call_id.to_string(),
            local_tag: local.to_string(),
            remote_tag: remote.to_string(),
            local_uri: "sip:svc@10.0.0.9".to_string(),
            remote_uri: "sip:peer@10.0.0.1".to_string(),
            remote_target: "sip:peer@10.0.0.1:5060".to_string(),
            local_cseq: 1,
            route_set: vec![],
        },
        ext: DialogExt {
            remote_cseq: None,
            inbound_pending_requests: vec![],
            ack_branch: None,
            emitted_ack: None,
            pending_invite_txn: None,
            cached_sdp: None,
            answered_2xx: None,
            pending_reinvite_2xx: None,
            awaited_ack_cseq: None,
        },
    }
}

fn leg(id: &str, state: LegState, dialogs: Vec<Dialog>) -> Leg {
    Leg {
        leg_id: id.to_string(),
        call_id: format!("cid-{id}"),
        from_tag: format!("ft-{id}"),
        local_uri: None,
        remote_uri: None,
        state,
        disposition: if state == LegState::Confirmed {
            LegDisposition::Bridged
        } else {
            LegDisposition::Pending
        },
        bye_disposition: None,
        kind: None,
        adopted: true,
        offers_sdp: true,
        invite_final_sent: None,
        dialogs,
    }
}

fn call(a: Leg, b: Vec<Leg>) -> Call {
    Call {
        call_ref: "call-1".to_string(),
        emergency: None,
        state: CallModelState::Active,
        a_leg: a,
        b_legs: b,
        a_leg_invite: InviteSnapshot {
            cseq: 7,
            from_uri: "sip:alice@10.0.0.1".to_string(),
            to_uri: "sip:svc@10.0.0.9".to_string(),
            headers: vec![
                header("Via", "SIP/2.0/UDP 10.0.0.1:5060;branch=z9hG4bKa"),
                header("Contact", "<sip:alice@10.0.0.1:5060>"),
            ],
            body: vec![],
            held_sdp: None,
        },
        active_peer: None,
        tag_map: vec![],
        timers: vec![],
        cdr_events: vec![],
        sm_cursors: vec![],
        features: None,
        callback_context: None,
        policy_update_body: None,
        transfer: None,
        promote_pem: None,
        relay_first_18x: None,
        reliable_provisionals: vec![],
        pracked_provisionals: vec![],
        limiter_entries: vec![],
        ext: vec![],
        failure_headers: vec![],
        subscriptions: vec![],
        reroute: None,
        deactivated_rules: vec![],
        termination: None,
    }
}

/// A call that rings: the caller waits, one callee was dialled.
fn ringing() -> Call {
    call(
        leg("a", LegState::Trying, vec![]),
        vec![leg("b-1", LegState::Trying, vec![dialog("cid-b-1", "ft-b-1", "")])],
    )
}

/// A call that is up between the caller and one callee.
fn bridged() -> Call {
    let mut c = call(
        leg("a", LegState::Confirmed, vec![dialog("cid-a", "at", "alice")]),
        vec![leg("b-1", LegState::Confirmed, vec![dialog("cid-b-1", "ft-b-1", "bob")])],
    );
    c.active_peer = Some(PeerPair { leg_a: "a".to_string(), leg_b: "b-1".to_string() });
    c
}

fn features() -> FeatureActivations {
    FeatureActivations {
        platform: PlatformActivations {
            max_duration_sec: 3_600,
            max_duration_anchor: MaxDurationAnchor::Creation,
            keepalive: KeepaliveActivation { interval_sec: 30, max_missed: 2 },
        },
        refer: false,
        relay_first_18x_to_180: None,
        no_answer_timeout_sec: None,
        advertise_capabilities: None,
        charging_vector: None,
        option_tags: Vec::new(),
    }
}

fn request(method: Method, cseq: i64) -> SipRequest {
    SipRequest {
        method,
        cseq,
        to_tag: Some("at".to_string()),
        headers: vec![header("Via", "SIP/2.0/UDP 10.0.0.1:5060;branch=z9hG4bKr")],
        relayable: vec![],
        hops: 69,
        body: vec![],
    }
}

fn response(status: u16, reason: &str, method: Method, cseq: i64) -> SipResponse {
    SipResponse {
        status,
        reason: reason.to_string(),
        cseq,
        method,
        to_tag: Some("bob".to_string()),
        headers: vec![header("Contact", "<sip:bob@10.0.0.2:5060>")],
        relayable: vec![],
        body: vec![],
    }
}

fn ids() -> IdGen {
    IdGen { seed: "t".to_string(), next: 1 }
}

fn timer(t: TimerType, leg_id: Option<&str>) -> CallEvent {
    CallEvent::Timer { timer_type: t, leg_id: leg_id.map(str::to_string) }
}

fn event_direction(source: &str) -> Direction {
    if source == "a" {
        Direction::FromA
    } else {
        Direction::FromB
    }
}

/// One turn of the default rules.
fn turn(c: &Call, event: &CallEvent, source: &str) -> Turn {
    let cfg = config();
    let source = source.to_string();
    let ctx = RuleContext {
        call: c,
        event,
        source_leg_id: &source,
        direction: event_direction(&source),
        now_ms: 1_000,
        config: &cfg,
        discharged: None,
    };
    let exec = ActionExecutor { config: &cfg, now_ms: 1_000 };
    run_turn(&default_rules(), c, &ctx, &exec, &mut ids())
}

fn rule_of(t: &Turn) -> &str {
    t.report.as_ref().map(|r| r.rule_id.as_str()).unwrap_or("")
}

fn statuses(t: &Turn) -> Vec<(Option<&str>, u16)> {
    t.result
        .effects
        .outbound
        .iter()
        .filter_map(|e| match &e.body {
            OutboundBody::Response { response } => Some((e.leg_id.as_deref(), response.status)),
            _ => None,
        })
        .collect()
}

fn requests(t: &Turn) -> Vec<(Option<&str>, Method)> {
    t.result
        .effects
        .outbound
        .iter()
        .filter_map(|e| match &e.body {
            OutboundBody::Request { request } => Some((e.leg_id.as_deref(), request.method.clone())),
            OutboundBody::Ack { .. } => Some((e.leg_id.as_deref(), Method::Ack)),
            OutboundBody::Cancel { .. } => Some((e.leg_id.as_deref(), Method::Cancel)),
            OutboundBody::Invite { .. } => Some((e.leg_id.as_deref(), Method::Invite)),
            _ => None,
        })
        .collect()
}

fn cursor<'a>(c: &'a Call, machine: &str) -> Option<&'a str> {
    c.sm_cursors.iter().find(|x| x.machine == machine).map(|x| x.state.as_str())
}

fn has_timer(c: &Call, id: &str) -> bool {
    c.timers.iter().any(|t| t.id == id)
}

fn critical_tail(t: &Turn) -> Option<&CriticalEffect> {
    t.result.effects.critical.last()
}

#[test]
fn a_provisional_is_relayed_to_the_caller() {
    let c = ringing();
    let t = turn(&c, &CallEvent::Response { response: response(180, "Ringing", Method::Invite, 1) }, "b-1");
    assert_eq!(rule_of(&t), "relay-provisional");
    assert_eq!(statuses(&t), vec![(Some("a"), 180)]);
    assert_eq!(t.result.call.b_legs[0].state, LegState::Early);
    assert_eq!(t.result.call.cdr_events[0].event_type, CdrEventType::Provisional);
    assert_eq!(cursor(&t.result.call, "global-call"), Some("Active"));
    assert!(t.report.unwrap().undeclared_effects.is_empty());
}

#[test]
fn an_answer_bridges_the_call() {
    let c = ringing();
    let t = turn(&c, &CallEvent::Response { response: response(200, "OK", Method::Invite, 1) }, "b-1");
    assert_eq!(rule_of(&t), "confirm-dialog");
    assert_eq!(statuses(&t), vec![(Some("a"), 200)]);
    assert_eq!(requests(&t), vec![(Some("b-1"), Method::Ack)]);
    let after = &t.result.call;
    assert_eq!(after.b_legs[0].state, LegState::Confirmed);
    assert_eq!(after.a_leg.state, LegState::Confirmed);
    assert_eq!(
        after.active_peer,
        Some(PeerPair { leg_a: "a".to_string(), leg_b: "b-1".to_string() })
    );
    assert!(has_timer(after, "GlobalDuration"));
    assert!(has_timer(after, "Keepalive"));
}

#[test]
fn a_bye_ends_the_call_in_two_steps() {
    let t = turn(&bridged(), &CallEvent::Request { request: request(Method::Bye, 5) }, "a");
    assert_eq!(rule_of(&t), "relay-bye");
    assert_eq!(statuses(&t), vec![(Some("a"), 200)]);
    assert_eq!(requests(&t), vec![(Some("b-1"), Method::Bye)]);
    let dying = t.result.call;
    assert_eq!(dying.state, CallModelState::Terminating);
    assert_eq!(cursor(&dying, "global-call"), Some("Terminating"));
    assert!(has_timer(&dying, "TerminatingTimeout"));
    assert_eq!(dying.a_leg.bye_disposition, Some(ByeDisposition::ByeReceived));
    assert_eq!(dying.b_legs[0].bye_disposition, Some(ByeDisposition::ByeSent));

    let t = turn(&dying, &CallEvent::Response { response: response(200, "OK", Method::Bye, 2) }, "b-1");
    assert_eq!(rule_of(&t), "resolve-bye-response");
    assert_eq!(t.result.call.state, CallModelState::Terminated);
    assert_eq!(cursor(&t.result.call, "global-call"), Some("Terminated"));
    assert!(t.result.call.timers.is_empty());
    assert_eq!(
        t.result.effects.critical,
        vec![
            CriticalEffect::CancelAllTimers,
            CriticalEffect::WriteCdr,
            CriticalEffect::RemoveCall,
        ]
    );
    assert!(t.result.effects.outbound.is_empty());
}

#[test]
fn a_failure_without_a_callback_is_the_callers() {
    let c = ringing();
    let t = turn(&c, &CallEvent::Response { response: response(486, "Busy Here", Method::Invite, 1) }, "b-1");
    assert_eq!(rule_of(&t), "route-failure");
    assert_eq!(statuses(&t), vec![(Some("a"), 486)]);
    assert_eq!(t.result.call.state, CallModelState::Terminated);
    assert_eq!(critical_tail(&t), Some(&CriticalEffect::RemoveCall));
}

#[test]
fn a_failure_with_a_callback_is_put_to_the_decision_layer() {
    let mut c = ringing();
    c.callback_context = Some("ctx".to_string());
    let mut resp = response(486, "Busy Here", Method::Invite, 1);
    resp.headers.push(header("X-Why", "busy"));
    let t = turn(&c, &CallEvent::Response { response: resp }, "b-1");
    assert!(statuses(&t).is_empty());
    match &t.result.effects.fire_and_forget[0] {
        FireAndForget::Failure { call_ref, request } => {
            assert_eq!(call_ref, "call-1");
            assert_eq!(request.callback_context, "ctx");
            assert_eq!(request.origin, FailureOrigin::External);
            assert_eq!(request.sip_code, Some(486));
            assert_eq!(request.failed_leg_id, "b-1");
            assert!(request.sip_headers.contains(&header("X-Why", "busy")));
        }
        other => panic!("expected a consult, got {other:?}"),
    }
    assert_eq!(t.result.call.state, CallModelState::Active);
}

#[test]
fn a_cancelled_call_cancels_its_callee() {
    let mut c = ringing();
    c.b_legs[0].dialogs[0].ext.pending_invite_txn = Some(InviteTxn {
        branch: "z9hG4bKinv".to_string(),
        cseq: 1,
        destination: Destination::TopVia,
        emergency: false,
    });
    let event = CallEvent::Cancelled { in_dialog: false, invite_cseq: Some(7), relayable: vec![] };
    let t = turn(&c, &event, "a");
    assert_eq!(rule_of(&t), "handle-cancel");
    assert_eq!(requests(&t), vec![(Some("b-1"), Method::Cancel)]);
    assert!(statuses(&t).is_empty(), "the transaction layer answers the INVITE itself");
    assert_eq!(t.result.call.b_legs[0].disposition, LegDisposition::Cancelling);

    let t = turn(
        &t.result.call,
        &CallEvent::Response { response: response(487, "Request Terminated", Method::Invite, 1) },
        "b-1",
    );
    assert_eq!(rule_of(&t), "resolve-cancel-response");
    assert_eq!(t.result.call.state, CallModelState::Terminated);
    assert!(statuses(&t).is_empty(), "a caller that cancelled is not answered again");
}

#[test]
fn a_caller_left_waiting_gets_a_final() {
    let mut c = ringing();
    c.a_leg.state = LegState::Early;
    c.b_legs[0].state = LegState::Early;
    let event = CallEvent::Internal {
        topic: "reaper".to_string(),
        outcome: "stale".to_string(),
        payload: serde_json::Value::Null,
        features: None,
        subscriptions: None,
    };
    let t = turn(&c, &event, "a");
    assert_eq!(rule_of(&t), "reaper-stale");
    assert_eq!(t.result.call.state, CallModelState::Terminated);
    assert_eq!(statuses(&t), vec![(Some("a"), 503)]);
    let last = t.result.call.cdr_events.last().unwrap();
    assert_eq!(last.event_type, CdrEventType::Reject);
    assert_eq!(last.status_code, Some(503));
    assert_eq!(last.reason.as_deref(), Some("unanswered_at_termination"));
}

#[test]
fn held_slots_are_released_once() {
    let slot = |id: &str, held: bool| LimiterState {
        limiter_id: id.to_string(),
        limit: 10,
        origin_window: 3,
        increment_succeeded: held,
    };
    let mut c = ringing();
    c.state = CallModelState::Terminated;
    c.limiter_entries = vec![slot("x", true), slot("y", false), slot("z", true)];
    let mut before = c.clone();
    before.state = CallModelState::Active;
    before.a_leg.state = LegState::Confirmed;
    let fx = HandlerEffects {
        outbound: vec![],
        critical: vec![
            CriticalEffect::RemoveCall,
            CriticalEffect::DecrementLimiter { limiter_id: "z".to_string(), window: 3 },
        ],
        fire_and_forget: vec![],
    };
    let r = enforce(&before, HandlerResult { call: c, effects: fx }, 5, true);
    assert_eq!(
        r.effects.critical,
        vec![
            CriticalEffect::CancelAllTimers,
            CriticalEffect::DecrementLimiter { limiter_id: "z".to_string(), window: 3 },
            CriticalEffect::WriteCdr,
            CriticalEffect::DecrementLimiter { limiter_id: "x".to_string(), window: 3 },
            CriticalEffect::RemoveCall,
        ]
    );
}

#[test]
fn cleaning_up_twice_changes_nothing() {
    let before = ringing();
    let mut after = ringing();
    after.state = CallModelState::Terminated;
    let again = |r: HandlerResult| enforce(&before, r, 9, true);
    let once = again(HandlerResult { call: after.clone(), effects: HandlerEffects::new() });
    let twice = again(again(HandlerResult { call: after, effects: HandlerEffects::new() }));
    assert_eq!(once, twice);
    assert_eq!(once.effects.outbound.len(), 1);
}

#[test]
fn a_call_taken_over_to_be_buried_is_not_answered() {
    let before = ringing();
    let mut after = ringing();
    after.state = CallModelState::Terminated;
    let r = enforce(&before, HandlerResult { call: after, effects: HandlerEffects::new() }, 9, false);
    assert!(r.effects.outbound.is_empty());
    assert_eq!(r.effects.critical.last(), Some(&CriticalEffect::RemoveCall));
}

#[test]
fn a_living_call_is_left_alone() {
    let c = bridged();
    let r = enforce(&c, HandlerResult { call: bridged(), effects: HandlerEffects::new() }, 9, true);
    assert_eq!(r, HandlerResult { call: bridged(), effects: HandlerEffects::new() });
}

#[test]
fn finalizing_shows_where_the_call_stands() {
    let mut c = bridged();
    c.sm_cursors = vec![Cursor { machine: "other".to_string(), state: "X".to_string() }];
    c.features = Some(FeatureActivations {
        relay_first_18x_to_180: Some(RelayFirst18xStrategy::DropSdp),
        ..features()
    });
    let once = finalize(HandlerResult { call: c, effects: HandlerEffects::new() });
    assert_eq!(cursor(&once.call, "global-call"), Some("Active"));
    assert_eq!(cursor(&once.call, "relayFirst18x"), Some("Masking"));
    assert_eq!(cursor(&once.call, "transfer"), None);
    assert_eq!(cursor(&once.call, "other"), Some("X"));
    let twice = finalize(HandlerResult { call: once.call.clone(), effects: HandlerEffects::new() });
    assert_eq!(once, twice);
}

#[test]
fn a_terminating_call_ends_with_its_last_leg() {
    let mut c = bridged();
    c.state = CallModelState::Terminating;
    c.a_leg.bye_disposition = Some(ByeDisposition::ByeReceived);
    let waiting = finalize(HandlerResult { call: c.clone(), effects: HandlerEffects::new() });
    assert_eq!(waiting.call.state, CallModelState::Terminating);
    c.b_legs[0].bye_disposition = Some(ByeDisposition::ByeConfirmed);
    let over = finalize(HandlerResult { call: c, effects: HandlerEffects::new() });
    assert_eq!(over.call.state, CallModelState::Terminated);
}

#[test]
fn an_event_nobody_handles_changes_nothing() {
    let c = bridged();
    let event = CallEvent::Internal {
        topic: "weather".to_string(),
        outcome: "rain".to_string(),
        payload: serde_json::Value::Null,
        features: None,
        subscriptions: None,
    };
    let t = turn(&c, &event, "a");
    assert!(t.report.is_none());
    assert_eq!(t.result, HandlerResult { call: bridged(), effects: HandlerEffects::new() });
}

fn plain(id: &str, layer: u32, overrides: Vec<&str>) -> RuleDefinition {
    RuleDefinition::core_rule(
        id,
        layer,
        overrides,
        Match::request().method(Method::Info),
        Handler::Absorb,
    )
}

fn picked(rules: Vec<RuleDefinition>, c: &Call) -> Vec<String> {
    let cfg = config();
    let source = "a".to_string();
    let event = CallEvent::Request { request: request(Method::Info, 5) };
    let ctx = RuleContext {
        call: c,
        event: &event,
        source_leg_id: &source,
        direction: Direction::FromA,
        now_ms: 0,
        config: &cfg,
        discharged: None,
    };
    pick_ranked(&rules, c, &ctx).iter().map(|r| r.id.clone()).collect()
}

#[test]
fn higher_layers_come_first_and_registration_breaks_ties() {
    let rules = vec![
        plain("core-1", CORE_LAYER, vec![]),
        plain("service-1", SERVICE_LAYER, vec![]),
        plain("core-2", CORE_LAYER, vec![]),
        plain("service-2", SERVICE_LAYER, vec![]),
    ];
    assert_eq!(picked(rules, &bridged()), vec!["service-1", "service-2", "core-1", "core-2"]);
}

#[test]
fn an_overridden_rule_is_out_only_where_its_rival_applies() {
    let mut rival = plain("rival", CORE_LAYER, vec!["base"]);
    let rules = vec![plain("base", CORE_LAYER, vec![]), plain("rival", CORE_LAYER, vec!["base"])];
    assert_eq!(picked(rules, &bridged()), vec!["rival"]);
    rival.matcher = Match::request().method(Method::Bye);
    assert_eq!(picked(vec![plain("base", CORE_LAYER, vec![]), rival], &bridged()), vec!["base"]);
}

#[test]
fn a_method_without_a_variant_goes_by_its_name() {
    let other = |name: &str| Method::Other { name: name.to_string() };
    let mut rule = plain("publish", CORE_LAYER, vec![]);
    rule.matcher = Match::request().method(other("PUBLISH"));
    let rules = vec![rule];
    let cfg = config();
    let source = "a".to_string();
    let c = bridged();
    let picked = |m: Method| {
        let event = CallEvent::Request { request: request(m, 5) };
        let ctx = RuleContext {
            call: &c,
            event: &event,
            source_leg_id: &source,
            direction: Direction::FromA,
            now_ms: 0,
            config: &cfg,
            discharged: None,
        };
        pick_ranked(&rules, &c, &ctx).len()
    };
    assert_eq!(picked(other("PUBLISH")), 1);
    assert_eq!(picked(other("FETCH")), 0);
    assert_eq!(picked(Method::Info), 0);
}

#[test]
fn a_turn_keeps_the_order_of_the_machines() {
    let mut c = bridged();
    c.emergency = Some(true);
    c.sm_cursors = vec![
        Cursor { machine: "aa".to_string(), state: "On".to_string() },
        Cursor { machine: "zz".to_string(), state: "On".to_string() },
    ];
    let names = |x: &Call| -> Vec<String> {
        x.sm_cursors.iter().map(|k| k.machine.clone()).collect()
    };
    let info = CallEvent::Request { request: request(Method::Info, 5) };
    let after = turn(&c, &info, "a").result.call;
    assert_eq!(names(&after), vec!["aa", "global-call", "zz"]);
    let bye = CallEvent::Request { request: request(Method::Bye, 6) };
    let ended = turn(&after, &bye, "a").result.call;
    assert_eq!(names(&ended), vec!["global-call"]);
    for x in [&after, &ended] {
        assert_eq!(x.call_ref, c.call_ref);
        assert_eq!(x.emergency, Some(true));
        assert_eq!(x.a_leg_invite, c.a_leg_invite);
    }
}

#[test]
fn the_rules_of_an_inactive_machine_are_dormant() {
    let rule = || {
        let mut r = plain("m-rule", SERVICE_LAYER, vec![]);
        r.machine = Some("m".to_string());
        r.active_states = vec!["On".to_string()];
        r
    };
    let mut c = bridged();
    assert!(picked(vec![rule()], &c).is_empty());
    c.sm_cursors = vec![Cursor { machine: "m".to_string(), state: "Off".to_string() }];
    assert!(picked(vec![rule()], &c).is_empty());
    c.sm_cursors = vec![Cursor { machine: "m".to_string(), state: "On".to_string() }];
    assert_eq!(picked(vec![rule()], &c), vec!["m-rule"]);
}

#[test]
fn what_a_machine_does_without_declaring_it_is_reported() {
    let mut rule = plain("m-rule", SERVICE_LAYER, vec![]);
    let actions = vec![
        RuleAction::relay(),
        RuleAction::cancel_timer(&TimerType::Keepalive, None),
        RuleAction::AddCdrEvent {
            event_type: CdrEventType::Bye,
            leg_id: "a".to_string(),
            status_code: None,
            reason: None,
        },
    ];
    assert!(check_declared_effects(&rule, &actions).is_empty(), "a rule of no machine is free");
    rule.machine = Some("m".to_string());
    assert_eq!(
        check_declared_effects(&rule, &actions),
        vec![EffectKind::LegMessage, EffectKind::GuardTimer]
    );
    rule.effects =
        vec![Effect::GuardTimer { timer: TimerKind::Keepalive, label: "stop".to_string() }];
    assert_eq!(check_declared_effects(&rule, &actions), vec![EffectKind::LegMessage]);
}

#[test]
fn a_move_that_was_not_declared_is_reported() {
    let at = |s: Option<&str>| {
        let mut c = bridged();
        c.sm_cursors = s
            .map(|s| vec![Cursor { machine: "m".to_string(), state: s.to_string() }])
            .unwrap_or_default();
        c
    };
    let mut rule = plain("m-rule", SERVICE_LAYER, vec![]);
    rule.machine = Some("m".to_string());
    rule.transitions = vec![
        Transition { from: "A".to_string(), to: "B".to_string() },
        Transition { from: "B".to_string(), to: "[*]".to_string() },
    ];
    assert!(!check_declared_transition(&rule, &at(Some("A")), &at(Some("B"))));
    assert!(!check_declared_transition(&rule, &at(Some("B")), &at(None)));
    assert!(!check_declared_transition(&rule, &at(Some("A")), &at(Some("A"))));
    assert!(check_declared_transition(&rule, &at(Some("A")), &at(None)));
    assert!(check_declared_transition(&rule, &at(Some("B")), &at(Some("A"))));
    assert!(check_declared_transition(&rule, &at(None), &at(Some("A"))));
    let moves = cursor_moves(&at(Some("A")), &at(None));
    assert_eq!(moves.len(), 1);
    assert_eq!((moves[0].from.as_str(), moves[0].to.as_str()), ("A", "terminal"));
    let moves = cursor_moves(&at(None), &at(Some("A")));
    assert_eq!((moves[0].from.as_str(), moves[0].to.as_str()), ("", "A"));
    assert!(cursor_moves(&at(Some("A")), &at(Some("A"))).is_empty());
}

#[test]
fn the_default_set_without_transfer_is_the_rest_of_it() {
    let all = default_rules();
    let rest = default_rules_with(&ComposeOptions::default().without_core_refer_transfer());
    assert_eq!(all.len(), rest.len() + 4 + 19);
    assert!(rest.iter().all(|r| !r.id.starts_with("transfer-")));
    let kept: Vec<&str> =
        all.iter().map(|r| r.id.as_str()).filter(|id| !id.starts_with("transfer-")).collect();
    assert_eq!(kept, rest.iter().map(|r| r.id.as_str()).collect::<Vec<_>>());
    assert_eq!(all, default_rules_with(&ComposeOptions::default()));
}

#[test]
fn a_second_invite_meets_a_pending_one() {
    let mut c = bridged();
    c.a_leg.dialogs[0].ext.inbound_pending_requests.push(PendingRequest {
        method: Method::Invite,
        outbound_cseq: 3,
        inbound_cseq: 8,
        source_vias: vec!["SIP/2.0/UDP 10.0.0.2:5060;branch=z9hG4bKx".to_string()],
        source_call_id: "cid-b-1".to_string(),
        source_from: "<sip:bob@10.0.0.2>;tag=bob".to_string(),
        source_to: "<sip:svc@10.0.0.9>;tag=ft-b-1".to_string(),
        source_timestamp: None,
        offers_100rel: false,
        direction: Direction::FromB,
        cancelled: false,
    });
    let t = turn(&c, &CallEvent::Request { request: request(Method::Invite, 9) }, "a");
    assert_eq!(rule_of(&t), "reinvite-glare");
    assert_eq!(statuses(&t), vec![(Some("a"), 491)]);
    let t = turn(&bridged(), &CallEvent::Request { request: request(Method::Invite, 9) }, "a");
    assert_eq!(rule_of(&t), "relay-reinvite");
    assert_eq!(requests(&t), vec![(Some("b-1"), Method::Invite)]);
}

#[test]
fn a_request_after_the_bye_is_refused() {
    let mut c = bridged();
    c.state = CallModelState::Terminating;
    let t = turn(&c, &CallEvent::Request { request: request(Method::Info, 9) }, "a");
    assert_eq!(rule_of(&t), "post-bye-481");
    assert_eq!(statuses(&t), vec![(Some("a"), 481)]);
}

#[test]
fn a_keepalive_probes_both_ends() {
    let t = turn(&bridged(), &timer(TimerType::Keepalive, None), "a");
    assert_eq!(rule_of(&t), "keepalive");
    assert_eq!(
        requests(&t),
        vec![(Some("a"), Method::Options), (Some("b-1"), Method::Options)]
    );
    assert!(has_timer(&t.result.call, "KeepaliveTimeout:a"));
    assert!(has_timer(&t.result.call, "KeepaliveTimeout:b-1"));
    assert!(has_timer(&t.result.call, "Keepalive"));
}

#[test]
fn an_unanswered_probe_ends_the_call() {
    let t = turn(&bridged(), &timer(TimerType::KeepaliveTimeout, Some("b-1")), "b-1");
    assert_eq!(rule_of(&t), "keepalive-timeout");
    assert_eq!(t.result.call.state, CallModelState::Terminating);
    assert_eq!(requests(&t), vec![(Some("a"), Method::Bye)]);
}

#[test]
fn the_ceiling_ends_the_call() {
    let t = turn(&bridged(), &timer(TimerType::GlobalDuration, None), "a");
    assert_eq!(rule_of(&t), "max-duration");
    assert_eq!(t.result.call.termination.as_ref().unwrap().cause.as_deref(), Some("max-duration"));
}

#[test]
fn a_ring_that_is_not_answered_ends_the_leg_or_the_call() {
    let t = turn(&ringing(), &timer(TimerType::NoAnswer, Some("b-1")), "b-1");
    assert_eq!(rule_of(&t), "no-answer");
    assert_eq!(t.result.call.cdr_events[0].reason.as_deref(), Some("no_answer_timeout"));
    let mut c = ringing();
    c.callback_context = Some("ctx".to_string());
    let t = turn(&c, &timer(TimerType::NoAnswer, Some("b-1")), "b-1");
    assert_eq!(t.result.effects.fire_and_forget.len(), 1);
    assert_eq!(t.result.call.state, CallModelState::Active);
}

#[test]
fn a_setup_that_takes_too_long_is_answered_408() {
    let t = turn(&ringing(), &timer(TimerType::SetupTimeout, None), "a");
    assert_eq!(rule_of(&t), "setup-timeout");
    assert_eq!(statuses(&t), vec![(Some("a"), 408)]);
}

#[test]
fn a_denied_dialog_ends_the_call() {
    let t = turn(
        &bridged(),
        &CallEvent::Response { response: response(481, "Gone", Method::Info, 4) },
        "b-1",
    );
    assert_eq!(rule_of(&t), "handle-481");
    assert_eq!(t.result.call.state, CallModelState::Terminating);
    let t = turn(
        &bridged(),
        &CallEvent::Response { response: response(481, "Gone", Method::Prack, 4) },
        "b-1",
    );
    assert_eq!(rule_of(&t), "absorb-own-request-failure");
    assert_eq!(t.result.call.state, CallModelState::Active);
}

#[test]
fn execute_rules_is_the_turn_without_its_report() {
    let c = bridged();
    let cfg = config();
    let source = "a".to_string();
    let event = CallEvent::Request { request: request(Method::Bye, 5) };
    let ctx = RuleContext {
        call: &c,
        event: &event,
        source_leg_id: &source,
        direction: Direction::FromA,
        now_ms: 1_000,
        config: &cfg,
        discharged: None,
    };
    let exec = ActionExecutor { config: &cfg, now_ms: 1_000 };
    let r = execute_rules(&default_rules(), &c, &ctx, &exec, &mut ids());
    assert_eq!(r, turn(&c, &event, "a").result);
}
