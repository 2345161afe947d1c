use b2bua_rules::action::{MessageTransform, NewLeg, RuleAction};
use b2bua_rules::actions::ActionExecutor;
use b2bua_rules::call::{
    AckPlan, ByeDisposition, Call, CallModelState, Config, Destination, Dialog, DialogExt, Direction,
    FeatureActivations, InviteSnapshot, InviteTxn, KeepaliveActivation, Leg, LegDisposition, LegKind,
    LegState, MaxDurationAnchor, OptionTag, OptionTagUse, PeerPair, PlatformActivations,
    RelayFirst18xStrategy, ResponsePlan, StackDialog, TimerType,
};
use b2bua_rules::defaults::compose::default_rules;
use b2bua_rules::effects::{
    CriticalEffect, HandlerEffects, HandlerResult, InvitePlan, OutboundBody, RequestPlan,
};
use b2bua_rules::executor::{cursor_moves, run_turn, Turn};
use b2bua_rules::ids::IdGen;
use b2bua_rules::model::{CallEvent, RuleContext};
use b2bua_rules::wire::{HostPort, Method, SipHeader, SipRequest, SipResponse};

fn header(name: &str, value: &str) -> SipHeader {
    SipHeader { name: name.to_string(), value: value.to_string() }
}

fn config() -> Config {
    Config {
        keepalive_interval_sec: 300,
        keepalive_timeout_sec: 32,
        ack_timeout_ms: 32_000,
        limiter_refresh_sec: 60,
        refer_subscription_expiry_sec: 60,
        refer_overall_safety_sec: 120,
        refer_reinvite_answer_sec: 32,
        no_answer_ceiling_sec: 170,
        outbound_proxy: None,
        worker_allowed_target_suffixes: vec![],
        reserved_ext: Vec::new(),
        keepalive_cseq_reuse: false,
    }
}

fn dialog(call_id: &str, local: &str, remote: &str) -> Dialog {
    Dialog {
        sip: StackDialog {
            call_id: call_id.to_string(),
            local_tag: local.to_string(),
            remote_tag: remote.to_string(),
            local_uri: "sip:svc@10.0.0.9".to_string(),
            remote_uri: "sip:peer@10.0.0.1".to_string(),
            remote_target: "sip:peer@10.0.0.1:5060".to_string(),
            local_cseq: 1,
            route_set: vec![],
        },
        ext: DialogExt {
            remote_cseq: None,
            inbound_pending_requests: vec![],
            ack_branch: None,
            emitted_ack: None,
            pending_invite_txn: None,
            cached_sdp: None,
            answered_2xx: None,
            pending_reinvite_2xx: None,
            awaited_ack_cseq: None,
        },
    }
}

fn leg(id: &str, state: LegState, dialogs: Vec<Dialog>) -> Leg {
    Leg {
        leg_id: id.to_string(),
        call_id: format!("cid-{id}"),
        from_tag: format!("ft-{id}"),
        local_uri: None,
        remote_uri: None,
        state,
        disposition: if state == LegState::Confirmed {
            LegDisposition::Bridged
        } else {
            LegDisposition::Pending
        },
        bye_disposition: None,
        kind: None,
        adopted: true,
        offers_sdp: true,
        invite_final_sent: None,
        dialogs,
    }
}

fn call(a: Leg, b: Vec<Leg>) -> Call {
    Call {
        call_ref: "call-1".to_string(),
        emergency: None,
        state: CallModelState::Active,
        a_leg: a,
        b_legs: b,
        a_leg_invite: InviteSnapshot {
            cseq: 7,
            from_uri: "sip:alice@10.0.0.1".to_string(),
            to_uri: "sip:svc@10.0.0.9".to_string(),
            headers: vec![
                header("Via", "SIP/2.0/UDP 10.0.0.1:5060;branch=z9hG4bKa"),
                header("Contact", "<sip:alice@10.0.0.1:5060>"),
            ],
            body: vec![],
            held_sdp: None,
        },
        active_peer: None,
        tag_map: vec![],
        timers: vec![],
        cdr_events: vec![],
        sm_cursors: vec![],
        features: None,
        callback_context: None,
        policy_update_body: None,
        transfer: None,
        promote_pem: None,
        relay_first_18x: None,
        reliable_provisionals: vec![],
        pracked_provisionals: vec![],
        limiter_entries: vec![],
        ext: vec![],
        failure_headers: vec![],
        subscriptions: vec![],
        reroute: None,
        deactivated_rules: vec![],
        termination: None,
    }
}

/// A call that rings: the caller waits, one callee was dialled.
fn ringing() -> Call {
    call(
        leg("a", LegState::Trying, vec![]),
        vec![leg("b-1", LegState::Trying, vec![dialog("cid-b-1", "ft-b-1", "")])],
    )
}

/// A call that is up between the caller and one callee.
fn bridged() -> Call {
    let mut c = call(
        leg("a", LegState::Confirmed, vec![dialog("cid-a", "at", "alice")]),
        vec![leg("b-1", LegState::Confirmed, vec![dialog("cid-b-1", "ft-b-1", "bob")])],
    );
    c.active_peer = Some(PeerPair { leg_a: "a".to_string(), leg_b: "b-1".to_string() });
    c
}

fn features() -> FeatureActivations {
    FeatureActivations {
        platform: PlatformActivations {
            max_duration_sec: 3_600,
            max_duration_anchor: MaxDurationAnchor::Creation,
            keepalive: KeepaliveActivation { interval_sec: 30, max_missed: 2 },
        },
        refer: false,
        relay_first_18x_to_180: None,
        no_answer_timeout_sec: None,
        advertise_capabilities: None,
        charging_vector: None,
        option_tags: Vec::new(),
    }
}

fn request(method: Method, cseq: i64) -> SipRequest {
    SipRequest {
        method,
        cseq,
        to_tag: Some("at".to_string()),
        headers: vec![header("Via", "SIP/2.0/UDP 10.0.0.1:5060;branch=z9hG4bKr")],
        relayable: vec![],
        hops: 69,
        body: vec![],
    }
}

fn response(status: u16, reason: &str, method: Method, cseq: i64) -> SipResponse {
    SipResponse {
        status,
        reason: reason.to_string(),
        cseq,
        method,
        to_tag: Some("bob".to_string()),
        headers: vec![header("Contact", "<sip:bob@10.0.0.2:5060>")],
        relayable: vec![],
        body: vec![],
    }
}

fn ids() -> IdGen {
    IdGen { seed: "t".to_string(), next: 1 }
}

fn event_direction(source: &str) -> Direction {
    if source == "a" {
        Direction::FromA
    } else {
        Direction::FromB
    }
}

/// One turn of the default rules.
fn turn(c: &Call, event: &CallEvent, source: &str) -> Turn {
    turn_from(1, c, event, source)
}

/// One turn whose identifiers count from `next`.
fn turn_from(next: u64, c: &Call, event: &CallEvent, source: &str) -> Turn {
    let cfg = config();
    let source = source.to_string();
    let ctx = RuleContext {
        call: c,
        event,
        source_leg_id: &source,
        direction: event_direction(&source),
        now_ms: 1_000,
        config: &cfg,
        discharged: None,
    };
    let exec = ActionExecutor { config: &cfg, now_ms: 1_000 };
    let mut ids = IdGen { seed: "t".to_string(), next };
    run_turn(&default_rules(), c, &ctx, &exec, &mut ids)
}

/// Apply actions to a call on an event.
fn act(c: &Call, event: &CallEvent, source: &str, actions: Vec<RuleAction>) -> HandlerResult {
    act_with(&config(), c, event, source, actions)
}

fn act_with(
    cfg: &Config,
    c: &Call,
    event: &CallEvent,
    source: &str,
    actions: Vec<RuleAction>,
) -> HandlerResult {
    let source = source.to_string();
    let ctx = RuleContext {
        call: c,
        event,
        source_leg_id: &source,
        direction: event_direction(&source),
        now_ms: 1_000,
        config: cfg,
        discharged: None,
    };
    let exec = ActionExecutor { config: cfg, now_ms: 1_000 };
    exec.execute(&actions, c, &ctx, &mut ids())
}

fn answered(r: SipResponse) -> CallEvent {
    CallEvent::Response { response: r }
}

fn asked(r: SipRequest) -> CallEvent {
    CallEvent::Request { request: r }
}

/// A provisional of the callee's that asks to be acknowledged.
fn reliable(tag: &str, rseq: &str) -> SipResponse {
    let lines = vec![header("Require", "100rel"), header("RSeq", rseq)];
    SipResponse {
        to_tag: Some(tag.to_string()),
        headers: lines.clone(),
        relayable: lines,
        ..response(183, "Session Progress", Method::Invite, 1)
    }
}

fn shown(t: &Turn) -> Vec<&ResponsePlan> {
    t.result
        .effects
        .outbound
        .iter()
        .filter_map(|e| match &e.body {
            OutboundBody::Response { response } => Some(response),
            _ => None,
        })
        .collect()
}

fn sent(r: &HandlerResult) -> Vec<&RequestPlan> {
    r.effects
        .outbound
        .iter()
        .filter_map(|e| match &e.body {
            OutboundBody::Request { request } => Some(request),
            _ => None,
        })
        .collect()
}

fn line<'a>(p: &'a ResponsePlan, name: &str) -> Option<&'a str> {
    p.headers.iter().find(|h| h.name == name).map(|h| h.value.as_str())
}

fn as_it_is() -> MessageTransform {
    MessageTransform {
        status: None,
        reason: None,
        drop_body: false,
        remove_headers: vec![],
        add_headers: vec![],
    }
}

#[test]
fn a_reliable_provisional_is_shown_under_a_number_of_ours() {
    let first = turn(&ringing(), &answered(reliable("bob", "9001")), "b-1");
    let plan = shown(&first)[0].clone();
    let own: i64 = line(&plan, "RSeq").unwrap().parse().unwrap();
    assert_ne!(own, 9001);
    let after = &first.result.call;
    assert_eq!(after.reliable_provisionals[0].a_rseq, own);
    assert_eq!(after.reliable_provisionals[0].b_rseq, 9001);
    assert_eq!(plan.to_tag.as_deref(), Some(after.reliable_provisionals[0].a_tag.as_str()));
    assert!(after.timers.iter().any(|t| matches!(t.timer_type, TimerType::Rung { .. })));

    // The same datagram once more goes no further.
    let again = turn(after, &answered(reliable("bob", "9001")), "b-1");
    assert!(shown(&again).is_empty());
    assert_eq!(again.result.call.reliable_provisionals, after.reliable_provisionals);

    // The next one takes the next number.
    let next = turn(after, &answered(reliable("bob", "9002")), "b-1");
    let second: i64 = line(shown(&next)[0], "RSeq").unwrap().parse().unwrap();
    assert_eq!(second, own + 1);
}

#[test]
fn a_prack_names_the_responders_own_number_again() {
    let first = turn(&ringing(), &answered(reliable("bob", "9001")), "b-1");
    let after = first.result.call.clone();
    let shown = &after.reliable_provisionals[0];
    let mut prack = request(Method::Prack, 8);
    prack.to_tag = Some(shown.a_tag.clone());
    prack.headers.push(header("RAck", &format!("{} 7 INVITE", shown.a_rseq)));
    let t = turn(&after, &asked(prack), "a");
    let plans = sent(&t.result);
    assert_eq!(plans.len(), 1);
    assert_eq!(plans[0].method, Method::Prack);
    assert_eq!(plans[0].rack.as_deref(), Some("9001 1 INVITE"));
    assert_eq!(plans[0].dialog.remote_tag, "bob");
}

#[test]
fn each_dialog_of_a_callee_has_a_face_of_its_own() {
    let mut ring = response(180, "Ringing", Method::Invite, 1);
    let one = turn(&ringing(), &answered(ring.clone()), "b-1");
    let first = shown(&one)[0].to_tag.clone();
    ring.to_tag = Some("bob2".to_string());
    let two = turn_from(50, &one.result.call, &answered(ring.clone()), "b-1");
    let second = shown(&two)[0].to_tag.clone();
    assert_ne!(first, second);
    assert_eq!(two.result.call.tag_map.len(), 2);
    // The face a dialog was shown by is kept.
    let again = turn_from(90, &two.result.call, &answered(ring), "b-1");
    assert_eq!(shown(&again)[0].to_tag, second);
    assert_eq!(again.result.call.tag_map.len(), 2);
}

#[test]
fn the_answering_fork_answers_under_its_own_face() {
    let mut ring = response(180, "Ringing", Method::Invite, 1);
    let one = turn(&ringing(), &answered(ring.clone()), "b-1");
    ring.to_tag = Some("bob2".to_string());
    let two = turn_from(50, &one.result.call, &answered(ring), "b-1");
    let face = shown(&two)[0].to_tag.clone();
    assert_ne!(face, shown(&one)[0].to_tag);
    let mut ok = response(200, "OK", Method::Invite, 1);
    ok.to_tag = Some("bob2".to_string());
    let t = turn_from(90, &two.result.call, &answered(ok), "b-1");
    assert_eq!(shown(&t)[0].status, 200);
    assert_eq!(shown(&t)[0].to_tag, face);
    assert_eq!(t.result.call.b_legs[0].dialogs.len(), 1);
    assert_eq!(t.result.call.b_legs[0].dialogs[0].sip.remote_tag, "bob2");
}

#[test]
fn a_masked_callee_rings_in_the_callers_one_dialog() {
    let mut c = ringing();
    let mut f = features();
    f.relay_first_18x_to_180 = Some(RelayFirst18xStrategy::DropSdp);
    c.features = Some(f);
    c.b_legs.push(leg("b-2", LegState::Trying, vec![dialog("cid-b-2", "ft-b-2", "")]));
    let bare = |tag: &str, leg: &str| {
        vec![RuleAction::RelayFirstBare180 { leg_id: leg.to_string(), b_tag: tag.to_string() }]
    };
    let mut early = reliable("bob", "9001");
    early.relayable.push(header("P-Early-Media", "sendrecv"));
    early.body = b"v=0".to_vec();
    let one = act(&c, &answered(early.clone()), "b-1", bare("bob", "b-1"));
    let first = match &one.effects.outbound[0].body {
        OutboundBody::Response { response } => response.clone(),
        _ => panic!("no response"),
    };
    assert_eq!(first.status, 180);
    assert_eq!(first.reason, "Ringing");
    assert!(first.body.is_empty());
    assert!(first.headers.is_empty());
    assert!(one.call.reliable_provisionals.is_empty());
    early.to_tag = Some("carol".to_string());
    let two = act(&one.call, &answered(early), "b-2", bare("carol", "b-2"));
    match &two.effects.outbound[0].body {
        OutboundBody::Response { response } => assert_eq!(response.to_tag, first.to_tag),
        _ => panic!("no response"),
    }
    assert_eq!(two.call.relay_first_18x.as_ref().map(|s| s.values.clone()), Some(vec![183]));
}

#[test]
fn an_answer_goes_back_to_who_asked() {
    let mut info = request(Method::Info, 9);
    info.headers.push(header("From", "<sip:alice@10.0.0.1>;tag=alice"));
    info.headers.push(header("To", "<sip:svc@10.0.0.9>;tag=at"));
    info.headers.push(header("Call-ID", "cid-a"));
    let t = turn(&bridged(), &asked(info), "a");
    assert_eq!(sent(&t.result)[0].method, Method::Info);
    assert_eq!(sent(&t.result)[0].cseq, 2);
    let after = t.result.call;
    assert_eq!(after.b_legs[0].dialogs[0].ext.inbound_pending_requests.len(), 1);
    assert_eq!(after.a_leg.dialogs[0].ext.remote_cseq, Some(9));
    let t = turn(&after, &answered(response(200, "OK", Method::Info, 2)), "b-1");
    let plan = shown(&t)[0];
    assert_eq!((plan.status, plan.cseq, plan.method.clone()), (200, 9, Method::Info));
    assert!(t.result.call.b_legs[0].dialogs[0].ext.inbound_pending_requests.is_empty());
    // Nobody asked for this one.
    let t = turn(&t.result.call, &answered(response(200, "OK", Method::Info, 3)), "b-1");
    assert!(shown(&t).is_empty());
}

#[test]
fn a_gap_one_dialog_has_the_other_gets() {
    let mut c = bridged();
    c.a_leg.dialogs[0].ext.remote_cseq = Some(4);
    let t = turn(&c, &asked(request(Method::Info, 7)), "a");
    assert_eq!(sent(&t.result)[0].cseq, 4);
    assert_eq!(t.result.call.b_legs[0].dialogs[0].sip.local_cseq, 4);
}

#[test]
fn a_request_toward_a_leg_without_a_dialog_goes_nowhere() {
    let mut c = bridged();
    c.b_legs[0].dialogs[0].sip.remote_tag = String::new();
    let relay = RuleAction::RelayToLeg { leg_id: "b-1".to_string(), transform: as_it_is() };
    let r = act(&c, &asked(request(Method::Info, 9)), "a", vec![relay]);
    assert!(r.effects.outbound.is_empty());
    assert_eq!(r.call, c);
}

#[test]
fn every_leg_is_told_or_at_its_end() {
    let mut c = bridged();
    c.b_legs.push(leg("b-2", LegState::Early, vec![dialog("cid-b-2", "ft-b-2", "carol")]));
    c.b_legs.push(leg("b-3", LegState::Terminated, vec![]));
    let end = RuleAction::BeginTermination { reason: None };
    let r = act(&c, &asked(request(Method::Info, 9)), "a", vec![end]);
    assert_eq!(r.call.state, CallModelState::Terminating);
    assert_eq!(r.call.a_leg.bye_disposition, Some(ByeDisposition::ByeSent));
    assert_eq!(r.call.b_legs[0].bye_disposition, Some(ByeDisposition::ByeSent));
    assert_eq!(r.call.b_legs[1].state, LegState::Terminated);
    assert_eq!(r.call.b_legs[1].disposition, LegDisposition::Cancelling);
    assert_eq!(r.call.b_legs[2], c.b_legs[2]);
}

#[test]
fn nothing_waits_in_a_terminating_call() {
    let armed = vec![
        RuleAction::ScheduleTimer {
            timer_type: TimerType::NoAnswer,
            delay_sec: 30,
            leg_id: Some("b-1".to_string()),
        },
        RuleAction::ScheduleTimer {
            timer_type: TimerType::Service { name: "watch".to_string() },
            delay_sec: 30,
            leg_id: None,
        },
        RuleAction::ScheduleTimer {
            timer_type: TimerType::Keepalive,
            delay_sec: 3_000,
            leg_id: None,
        },
        RuleAction::BeginTermination { reason: Some("BYE".to_string()) },
    ];
    let r = act(&bridged(), &asked(request(Method::Info, 9)), "a", armed);
    let left: Vec<&str> = r.call.timers.iter().map(|t| t.id.as_str()).collect();
    assert_eq!(left, vec!["Keepalive", "TerminatingTimeout"]);
    // A keepalive fires within an interval, whatever delay is asked for.
    assert_eq!(r.call.timers[0].fire_at, 301_000);
    assert_eq!(r.call.timers[1].fire_at, 33_000);
}

#[test]
fn cancelling_undoes_arming() {
    let c = bridged();
    let arm = RuleAction::ScheduleTimer {
        timer_type: TimerType::SetupTimeout,
        delay_sec: 5,
        leg_id: None,
    };
    let id = TimerType::SetupTimeout.timer_id(&None);
    let once = act(&c, &asked(request(Method::Info, 9)), "a", vec![arm.clone(), arm.clone()]);
    assert_eq!(once.call.timers.len(), 1);
    assert_eq!(once.call.timers[0].fire_at, 6_000);
    let none = act(
        &c,
        &asked(request(Method::Info, 9)),
        "a",
        vec![arm, RuleAction::CancelTimer { id: id.clone() }],
    );
    assert_eq!(none.call, c);
    assert_eq!(none.effects.critical.last(), Some(&CriticalEffect::CancelTimer { id }));
}

#[test]
fn ending_a_call_at_once_ends_every_leg() {
    let r = act(&bridged(), &asked(request(Method::Info, 9)), "a", vec![RuleAction::TerminateCall]);
    assert_eq!(r.call.state, CallModelState::Terminated);
    assert_eq!(r.call.a_leg.state, LegState::Terminated);
    assert_eq!(r.call.b_legs[0].state, LegState::Terminated);
    assert!(r.effects.outbound.is_empty());
}

fn new_leg(host: &str, ruri: Option<&str>) -> NewLeg {
    NewLeg {
        destination: HostPort { host: host.to_string(), port: 5060 },
        new_ruri: ruri.map(str::to_string),
        new_from: None,
        new_to: None,
        no_answer_timeout_sec: Some(500),
        callback_context: None,
        body_override: None,
        header_updates: vec![],
        kind: None,
    }
}

#[test]
fn a_leg_is_created_or_the_call_ends() {
    let mut cfg = config();
    cfg.worker_allowed_target_suffixes = vec![".example.org".to_string()];
    let event = asked(request(Method::Info, 9));
    let create = |n: NewLeg| vec![RuleAction::CreateLeg { leg: n }];

    let r = act_with(&cfg, &bridged(), &event, "a", create(new_leg("sip.example.org", None)));
    assert_eq!(r.call.b_legs.len(), 2);
    assert_eq!(r.call.b_legs[1].leg_id, "b-2");
    assert_eq!(r.call.b_legs[1].state, LegState::Trying);
    // The ring deadline is held under the transaction's.
    assert_eq!(r.call.timers[0].fire_at, 171_000);
    assert_eq!(r.effects.outbound.len(), 1);

    let r = act_with(&cfg, &bridged(), &event, "a", create(new_leg("10.0.0.5", None)));
    assert_eq!(r.call.state, CallModelState::Terminated);
    assert!(r.effects.outbound.is_empty());
    assert_eq!(
        r.call.cdr_events[0].reason.as_deref(),
        Some("admission_reject host=10.0.0.5")
    );
    assert_eq!(r.call.cdr_events[0].status_code, Some(503));

    let bad = new_leg("sip.example.org", Some("nonsense"));
    let r = act_with(&cfg, &bridged(), &event, "a", create(bad));
    assert_eq!(r.call.state, CallModelState::Terminated);
    assert_eq!(
        r.call.cdr_events[0].reason.as_deref(),
        Some("unreadable_address field=new_ruri")
    );
    assert_eq!(r.call.cdr_events[0].status_code, Some(500));
}

#[test]
fn acks_of_one_answer_share_a_transaction() {
    let ack = RuleAction::AckLeg {
        leg_id: "b-1".to_string(),
        body: vec![],
        content_type: None,
    };
    let event = answered(response(200, "OK", Method::Invite, 1));
    let r = act(&bridged(), &event, "b-1", vec![ack.clone(), ack]);
    let branches: Vec<&str> = r
        .effects
        .outbound
        .iter()
        .filter_map(|e| match &e.body {
            OutboundBody::Ack { ack } => Some(ack.branch.as_str()),
            _ => None,
        })
        .collect();
    assert_eq!(branches.len(), 2);
    assert_eq!(branches[0], branches[1]);
}

fn acks(fx: &HandlerEffects) -> Vec<AckPlan> {
    fx.outbound
        .iter()
        .filter_map(|e| match &e.body {
            OutboundBody::Ack { ack } => Some(ack.clone()),
            _ => None,
        })
        .collect()
}

fn invites(fx: &HandlerEffects) -> Vec<InvitePlan> {
    fx.outbound
        .iter()
        .filter_map(|e| match &e.body {
            OutboundBody::Invite { invite } => Some(invite.clone()),
            _ => None,
        })
        .collect()
}

/// A call whose callee answered the INVITE of that number.
fn answered_call(cseq: i64) -> Call {
    let mut c = bridged();
    c.b_legs[0].dialogs[0].ext.pending_invite_txn = Some(InviteTxn {
        branch: "z9hG4bKi".to_string(),
        cseq,
        destination: Destination::Address {
            at: HostPort { host: "10.0.0.2".to_string(), port: 5060 },
        },
        emergency: false,
    });
    c
}

#[test]
fn a_repeated_answer_draws_the_ack_it_drew_first() {
    let mut ack = request(Method::Ack, 7);
    ack.body = b"v=0".to_vec();
    ack.headers.push(header("Content-Type", "application/sdp"));
    let first = turn(&answered_call(1), &asked(ack), "a");
    let sent = acks(&first.result.effects);
    assert_eq!(sent.len(), 1);
    assert_eq!(sent[0].body, b"v=0".to_vec());
    assert_eq!(sent[0].cseq, 1);
    let after = first.result.call;
    assert_eq!(after.b_legs[0].dialogs[0].ext.emitted_ack, Some(sent[0].clone()));

    // The answer comes again: the answer it carried rides the repeat.
    let again =
        turn_from(50, &after, &answered(response(200, "OK", Method::Invite, 1)), "b-1");
    assert_eq!(acks(&again.result.effects), sent);
    assert_eq!(again.result.call.b_legs, after.b_legs);
}

#[test]
fn an_ack_on_a_retained_branch_is_bare_where_none_was_sent() {
    let mut c = answered_call(1);
    c.b_legs[0].dialogs[0].ext.ack_branch = Some("z9hG4bKk".to_string());
    let t = turn(&c, &answered(response(200, "OK", Method::Invite, 1)), "b-1");
    let sent = acks(&t.result.effects);
    assert_eq!(sent.len(), 1);
    assert_eq!(sent[0].branch, "z9hG4bKk");
    assert!(sent[0].body.is_empty());
    // An ACK with something to say is not held back by it.
    let ack = RuleAction::AckLeg {
        leg_id: "b-1".to_string(),
        body: b"v=0".to_vec(),
        content_type: None,
    };
    let event = answered(response(200, "OK", Method::Invite, 1));
    let r = act(&t.result.call, &event, "b-1", vec![ack]);
    assert_eq!(acks(&r.effects)[0].body, b"v=0".to_vec());
    assert_eq!(acks(&r.effects)[0].branch, "z9hG4bKk");
}

#[test]
fn a_new_invite_has_an_ack_of_its_own() {
    let mut ack = request(Method::Ack, 7);
    ack.body = b"v=0".to_vec();
    let mut c = turn(&answered_call(1), &asked(ack), "a").result.call;
    c.b_legs[0].dialogs[0].ext.awaited_ack_cseq = Some(5);

    // A relayed one takes its ACK's branch off, and nothing else.
    let relayed = turn_from(50, &c, &asked(request(Method::Invite, 9)), "a").result.call;
    let ext = &relayed.b_legs[0].dialogs[0].ext;
    assert_eq!(ext.ack_branch, None);
    assert_eq!(ext.awaited_ack_cseq, Some(5));
    let bare = RuleAction::AckLeg { leg_id: "b-1".to_string(), body: vec![], content_type: None };
    let event = answered(response(200, "OK", Method::Invite, 2));
    let r = act(&relayed, &event, "b-1", vec![bare]);
    assert!(acks(&r.effects)[0].body.is_empty());
    assert_eq!(acks(&r.effects)[0].cseq, 2);

    // One of this stack's own forgets the ACK before it altogether.
    let own = RuleAction::SendReinvite {
        leg_id: "b-1".to_string(),
        body: vec![],
        add_headers: vec![],
    };
    let r = act(&c, &event, "b-1", vec![own]);
    let ext = &r.call.b_legs[0].dialogs[0].ext;
    assert_eq!((&ext.ack_branch, &ext.emitted_ack, ext.awaited_ack_cseq), (&None, &None, None));
}

#[test]
fn requests_in_a_row_are_numbered_on() {
    let info = RuleAction::SendRequestToLeg {
        leg_id: "b-1".to_string(),
        method: Method::Info,
        body: vec![],
        content_type: None,
        headers: vec![],
    };
    let event = asked(request(Method::Info, 9));
    let r = act(&bridged(), &event, "a", vec![info.clone(), info]);
    let numbers: Vec<i64> = sent(&r).iter().map(|p| p.cseq).collect();
    assert_eq!(numbers, vec![2, 3]);
    assert_eq!(r.call.b_legs[0].dialogs[0].sip.local_cseq, 3);
}

#[test]
fn every_message_of_an_emergency_call_is_marked() {
    let create = RuleAction::CreateLeg { leg: new_leg("10.0.0.5", None) };
    let ack = RuleAction::AckLeg { leg_id: "b-1".to_string(), body: vec![], content_type: None };
    let end = RuleAction::BeginTermination { reason: None };
    let event = asked(request(Method::Info, 9));
    for (emergency, marked) in vec![(Some(true), true), (Some(false), false), (None, false)] {
        let mut c = bridged();
        c.emergency = emergency;
        let r = act(&c, &event, "a", vec![create.clone(), ack.clone(), end.clone()]);
        assert_eq!(invites(&r.effects)[0].emergency, marked);
        let opened = r.call.b_legs[1].dialogs[0].ext.pending_invite_txn.clone();
        assert_eq!(opened.map(|x| x.emergency), Some(marked));
        assert_eq!(acks(&r.effects)[0].emergency, marked);
        let byes = sent(&r);
        assert_eq!(byes.len(), 2);
        assert!(byes.iter().all(|p| p.method == Method::Bye && p.emergency == marked));
        let t = turn(&c, &event, "a");
        assert_eq!(sent(&t.result)[0].emergency, marked);
        let answer = turn(&t.result.call, &answered(response(200, "OK", Method::Update, 2)), "b-1");
        assert!(shown(&answer).iter().all(|p| p.emergency == marked));

        let mut c = ringing();
        c.emergency = emergency;
        let ring = turn(&c, &answered(response(180, "Ringing", Method::Invite, 1)), "b-1");
        assert!(shown(&ring)[0].contact);
        assert_eq!(shown(&ring)[0].emergency, marked);
    }
}

#[test]
fn the_invite_of_a_leg_states_what_the_features_say() {
    let tag = |tag: &str, usage: OptionTagUse, kind: Option<LegKind>, offers_sdp: Option<bool>| {
        OptionTag { tag: tag.to_string(), usage, kind, offers_sdp }
    };
    let vector: serde_json::Value = serde_json::from_str("{\"icid\":\"x1\"}").unwrap();
    let mut f = features();
    f.charging_vector = Some(vector.clone());
    f.option_tags = vec![
        tag("100rel", OptionTagUse::Withheld, None, None),
        tag("timer", OptionTagUse::Withheld, None, Some(true)),
        tag("replaces", OptionTagUse::Withheld, None, Some(false)),
        tag("norefersub", OptionTagUse::Withheld, Some(LegKind::Media), None),
        tag("precondition", OptionTagUse::Offered, None, Some(true)),
    ];
    let mut c = bridged();
    let event = asked(request(Method::Info, 9));
    let opened = |c: &Call, leg: NewLeg| {
        invites(&act(c, &event, "a", vec![RuleAction::CreateLeg { leg }]).effects)[0].clone()
    };

    let plain = opened(&c, new_leg("10.0.0.5", None));
    assert_eq!(plain.charging_vector, None);
    assert!(plain.withheld_option_tags.is_empty() && plain.offered_option_tags.is_empty());

    c.features = Some(f);
    let without = opened(&c, new_leg("10.0.0.5", None));
    assert_eq!(without.charging_vector, Some(vector));
    assert_eq!(without.withheld_option_tags, vec!["100rel", "replaces"]);
    assert_eq!(without.offered_option_tags, vec!["precondition"]);

    let mut offering = new_leg("10.0.0.5", None);
    offering.body_override = Some(b"v=0".to_vec());
    assert_eq!(opened(&c, offering).withheld_option_tags, vec!["100rel", "timer"]);

    let mut media = new_leg("10.0.0.5", None);
    media.kind = Some(LegKind::Media);
    let media = opened(&c, media);
    assert_eq!(media.withheld_option_tags, vec!["norefersub"]);
    assert!(media.offered_option_tags.is_empty());
}

#[test]
fn a_teardown_describes_no_body() {
    let mut bye = request(Method::Bye, 9);
    bye.body = b"x".to_vec();
    bye.relayable = vec![
        header("content-disposition", "session"),
        header("X-Why", "done"),
        header("Content-Encoding", "gzip"),
        header("MIME-Version", "1.0"),
    ];
    let t = turn(&bridged(), &asked(bye), "a");
    let plans = sent(&t.result);
    assert_eq!(plans[0].method, Method::Bye);
    let names: Vec<&str> = plans[0].headers.iter().map(|h| h.name.as_str()).collect();
    assert_eq!(names, vec!["X-Why"]);
}

#[test]
fn the_lines_of_a_body_go_the_way_it_goes() {
    let mut ring = response(183, "Session Progress", Method::Invite, 1);
    ring.body = b"v=0".to_vec();
    ring.relayable = vec![
        header("Content-Disposition", "session"),
        header("Content-Language", "en"),
        header("X-Why", "early"),
    ];
    let names = |c: &Call, transform: MessageTransform| -> Vec<String> {
        let relay = RuleAction::RelayToPeer { transform };
        let r = act(c, &answered(ring.clone()), "b-1", vec![relay]);
        match &r.effects.outbound[0].body {
            OutboundBody::Response { response } => {
                response.headers.iter().map(|h| h.name.clone()).collect()
            }
            _ => panic!("no response"),
        }
    };
    let c = ringing();
    assert_eq!(names(&c, as_it_is()), vec!["Content-Disposition", "Content-Language", "X-Why"]);
    let mut dropped = as_it_is();
    dropped.drop_body = true;
    assert_eq!(names(&c, dropped), vec!["X-Why"]);
    let mut staged = ringing();
    staged.policy_update_body = Some(b"v=1".to_vec());
    assert_eq!(names(&staged, as_it_is()), vec!["Content-Disposition", "X-Why"]);
}

#[test]
fn machines_stand_in_the_order_of_their_names() {
    let put = |m: &str, to: &str| RuleAction::SetState { machine: m.to_string(), to: to.to_string() };
    let event = asked(request(Method::Info, 9));
    let actions = vec![
        put("zeta", "On"),
        put("alpha", "On"),
        put("mid", "On"),
        put("zeta", "Off"),
        put("alpha", "Off"),
        RuleAction::ClearState { machine: "mid".to_string() },
        put("beta", "On"),
    ];
    let r = act(&bridged(), &event, "a", actions);
    let machines: Vec<(&str, &str)> =
        r.call.sm_cursors.iter().map(|c| (c.machine.as_str(), c.state.as_str())).collect();
    assert_eq!(machines, vec![("alpha", "Off"), ("beta", "On"), ("zeta", "Off")]);
    let moves: Vec<String> =
        cursor_moves(&bridged(), &r.call).iter().map(|m| m.machine.clone()).collect();
    assert_eq!(moves, vec!["alpha", "beta", "zeta"]);
}
