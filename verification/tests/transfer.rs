use b2bua_rules::actions::ActionExecutor;
use b2bua_rules::call::{
    Call, CallModelState, Config, Dialog, DialogExt, Direction, FeatureActivations, InviteSnapshot,
    KeepaliveActivation, Leg, LegDisposition, LegState, MaxDurationAnchor, PeerPair,
    PlatformActivations, StackDialog, TimerType, TransferPhase,
};
use b2bua_rules::defaults::compose::default_rules;
use b2bua_rules::docgen::check_registry;
use b2bua_rules::effects::{FireAndForget, OutboundBody};
use b2bua_rules::executor::{run_turn, Turn};
use b2bua_rules::ids::IdGen;
use b2bua_rules::model::{CallEvent, RuleContext};
use b2bua_rules::refer_transfer::machine::{
    project_cursor, transfer_rules, transfer_service_def,
};
use b2bua_rules::refer_transfer::seed::transfer_seed_rules;
use b2bua_rules::wire::{Method, SipHeader, SipRequest, SipResponse};

fn header(name: &str, value: &str) -> SipHeader {
    SipHeader { name: name.to_string(), value: value.to_string() }
}

fn config() -> Config {
    Config {
        keepalive_interval_sec: 300,
        keepalive_timeout_sec: 32,
        ack_timeout_ms: 32_000,
        limiter_refresh_sec: 60,
        refer_subscription_expiry_sec: 60,
        refer_overall_safety_sec: 120,
        refer_reinvite_answer_sec: 32,
        no_answer_ceiling_sec: 170,
        outbound_proxy: None,
        worker_allowed_target_suffixes: vec![],
        reserved_ext: Vec::new(),
        keepalive_cseq_reuse: false,
    }
}

fn dialog(call_id: &str, local: &str, remote: &str) -> Dialog {
    Dialog {
        sip: StackDialog {
            call_id: call_id.to_string(),
            local_tag: local.to_string(),
            remote_tag: remote.to_string(),
            local_uri: "sip:svc@10.0.0.9".to_string(),
            remote_uri: "sip:peer@10.0.0.1".to_string(),
            remote_target: "sip:peer@10.0.0.1:5060".to_string(),
            local_cseq: 1,
            route_set: vec![],
        },
        ext: DialogExt {
            remote_cseq: None,
            inbound_pending_requests: vec![],
            ack_branch: None,
            emitted_ack: None,
            pending_invite_txn: None,
            cached_sdp: None,
            answered_2xx: None,
            pending_reinvite_2xx: None,
            awaited_ack_cseq: None,
        },
    }
}

fn leg(id: &str, state: LegState, dialogs: Vec<Dialog>) -> Leg {
    Leg {
        leg_id: id.to_string(),
        call_id: format!("cid-{id}"),
        from_tag: format!("ft-{id}"),
        local_uri: None,
        remote_uri: None,
        state,
        disposition: if state == LegState::Confirmed {
            LegDisposition::Bridged
        } else {
            LegDisposition::Pending
        },
        bye_disposition: None,
        kind: None,
        adopted: true,
        offers_sdp: true,
        invite_final_sent: None,
        dialogs,
    }
}

fn call(a: Leg, b: Vec<Leg>) -> Call {
    Call {
        call_ref: "call-1".to_string(),
        emergency: None,
        state: CallModelState::Active,
        a_leg: a,
        b_legs: b,
        a_leg_invite: InviteSnapshot {
            cseq: 7,
            from_uri: "sip:alice@10.0.0.1".to_string(),
            to_uri: "sip:svc@10.0.0.9".to_string(),
            headers: vec![
                header("Via", "SIP/2.0/UDP 10.0.0.1:5060;branch=z9hG4bKa"),
                header("Contact", "<sip:alice@10.0.0.1:5060>"),
            ],
            body: vec![],
            held_sdp: None,
        },
        active_peer: None,
        tag_map: vec![],
        timers: vec![],
        cdr_events: vec![],
        sm_cursors: vec![],
        features: None,
        callback_context: None,
        policy_update_body: None,
        transfer: None,
        promote_pem: None,
        relay_first_18x: None,
        reliable_provisionals: vec![],
        pracked_provisionals: vec![],
        limiter_entries: vec![],
        ext: vec![],
        failure_headers: vec![],
        subscriptions: vec![],
        reroute: None,
        deactivated_rules: vec![],
        termination: None,
    }
}

/// A call that is up between the caller and one callee.
fn bridged() -> Call {
    let mut c = call(
        leg("a", LegState::Confirmed, vec![dialog("cid-a", "at", "alice")]),
        vec![leg("b-1", LegState::Confirmed, vec![dialog("cid-b-1", "ft-b-1", "bob")])],
    );
    c.active_peer = Some(PeerPair { leg_a: "a".to_string(), leg_b: "b-1".to_string() });
    c
}

fn features() -> FeatureActivations {
    FeatureActivations {
        platform: PlatformActivations {
            max_duration_sec: 3_600,
            max_duration_anchor: MaxDurationAnchor::Creation,
            keepalive: KeepaliveActivation { interval_sec: 30, max_missed: 2 },
        },
        refer: false,
        relay_first_18x_to_180: None,
        no_answer_timeout_sec: None,
        advertise_capabilities: None,
        charging_vector: None,
        option_tags: Vec::new(),
    }
}

fn request(method: Method, cseq: i64) -> SipRequest {
    SipRequest {
        method,
        cseq,
        to_tag: Some("at".to_string()),
        headers: vec![header("Via", "SIP/2.0/UDP 10.0.0.1:5060;branch=z9hG4bKr")],
        relayable: vec![],
        hops: 69,
        body: vec![],
    }
}

fn response(status: u16, reason: &str, method: Method, cseq: i64) -> SipResponse {
    SipResponse {
        status,
        reason: reason.to_string(),
        cseq,
        method,
        to_tag: Some("bob".to_string()),
        headers: vec![header("Contact", "<sip:bob@10.0.0.2:5060>")],
        relayable: vec![],
        body: vec![],
    }
}

fn ids() -> IdGen {
    IdGen { seed: "t".to_string(), next: 1 }
}

fn timer(t: TimerType, leg_id: Option<&str>) -> CallEvent {
    CallEvent::Timer { timer_type: t, leg_id: leg_id.map(str::to_string) }
}

fn event_direction(source: &str) -> Direction {
    if source == "a" {
        Direction::FromA
    } else {
        Direction::FromB
    }
}

/// One turn of the default rules.
fn turn(c: &Call, event: &CallEvent, source: &str) -> Turn {
    let cfg = config();
    let source = source.to_string();
    let ctx = RuleContext {
        call: c,
        event,
        source_leg_id: &source,
        direction: event_direction(&source),
        now_ms: 1_000,
        config: &cfg,
        discharged: None,
    };
    let exec = ActionExecutor { config: &cfg, now_ms: 1_000 };
    run_turn(&default_rules(), c, &ctx, &exec, &mut ids())
}

fn rule_of(t: &Turn) -> &str {
    t.report.as_ref().map(|r| r.rule_id.as_str()).unwrap_or("")
}

fn statuses(t: &Turn) -> Vec<(Option<&str>, u16)> {
    t.result
        .effects
        .outbound
        .iter()
        .filter_map(|e| match &e.body {
            OutboundBody::Response { response } => Some((e.leg_id.as_deref(), response.status)),
            _ => None,
        })
        .collect()
}

fn requests(t: &Turn) -> Vec<(Option<&str>, Method)> {
    t.result
        .effects
        .outbound
        .iter()
        .filter_map(|e| match &e.body {
            OutboundBody::Request { request } => Some((e.leg_id.as_deref(), request.method.clone())),
            OutboundBody::Ack { .. } => Some((e.leg_id.as_deref(), Method::Ack)),
            OutboundBody::Cancel { .. } => Some((e.leg_id.as_deref(), Method::Cancel)),
            OutboundBody::Invite { .. } => Some((e.leg_id.as_deref(), Method::Invite)),
            _ => None,
        })
        .collect()
}

fn cursor<'a>(c: &'a Call, machine: &str) -> Option<&'a str> {
    c.sm_cursors.iter().find(|x| x.machine == machine).map(|x| x.state.as_str())
}

fn has_timer(c: &Call, id: &str) -> bool {
    c.timers.iter().any(|t| t.id == id)
}

/// A bridged call whose route directs REFER to be processed here.
fn local() -> Call {
    let mut c = bridged();
    c.features = Some(FeatureActivations { refer: true, ..features() });
    c
}

fn refer(to: &str) -> CallEvent {
    let mut r = request(Method::Refer, 9);
    r.to_tag = Some("ft-b-1".to_string());
    r.headers.push(header("Refer-To", to));
    r.headers.push(header("Referred-By", "<sip:bob@10.0.0.2>"));
    r.headers.push(header("X-Trace", "1"));
    r.headers.push(header("X-Trace", "2"));
    CallEvent::Request { request: r }
}

fn result_of(outcome: &str, payload: &str) -> CallEvent {
    CallEvent::Internal {
        topic: "refer-http-result".to_string(),
        outcome: outcome.to_string(),
        payload: serde_json::from_str(payload).expect("valid"),
        features: None,
        subscriptions: None,
    }
}

fn reports(t: &Turn) -> Vec<(String, String)> {
    t.result
        .effects
        .outbound
        .iter()
        .filter_map(|e| match &e.body {
            OutboundBody::Request { request } if request.method == Method::Notify => Some((
                request.subscription_state.clone().unwrap_or_default(),
                String::from_utf8(request.body.clone()).expect("text"),
            )),
            _ => None,
        })
        .collect()
}

fn report(state: &str, line: &str) -> Vec<(String, String)> {
    vec![(state.to_string(), line.to_string())]
}

const TARGET: &str = "<sip:carol@10.0.0.3:5060>";
const ALLOW: &str = "{\"destination\":{\"host\":\"10.0.0.3\",\"port\":5070},\"callback_context\":\"cb2\",\"no_answer_timeout_sec\":20}";

/// A transfer whose target rings.
fn dialled() -> Call {
    let begun = turn(&local(), &refer(TARGET), "b-1").result.call;
    turn(&begun, &result_of("allow", ALLOW), "a").result.call
}

fn from_target(status: u16, reason: &str, cseq: i64) -> CallEvent {
    let mut r = response(status, reason, Method::Invite, cseq);
    r.to_tag = Some("carol".to_string());
    CallEvent::Response { response: r }
}

/// A transfer whose target answered and is asked to take the caller's description.
fn realigning() -> Call {
    turn(&dialled(), &from_target(200, "OK", 1), "b-2").result.call
}

#[test]
fn a_transfer_begins_with_an_accepted_refer() {
    let t = turn(&local(), &refer(TARGET), "b-1");
    assert_eq!(rule_of(&t), "transfer-intercept-refer");
    assert_eq!(statuses(&t), vec![(Some("b-1"), 202)]);
    assert_eq!(reports(&t), report("active;expires=60", "SIP/2.0 100 Trying\r\n"));
    let st = t.result.call.transfer.as_ref().expect("begun");
    assert_eq!(st.phase, TransferPhase::ReferAuthorizing);
    assert_eq!(st.referrer_leg_id, "b-1");
    assert_eq!(st.refer_cseq, Some(9));
    assert_eq!(cursor(&t.result.call, "transfer"), Some("ReferAuthorizing"));
    assert!(has_timer(&t.result.call, "ReferSubscriptionExpiry"));
    assert!(has_timer(&t.result.call, "ReferOverallSafety"));
    match &t.result.effects.fire_and_forget[0] {
        FireAndForget::Refer { request, .. } => {
            assert_eq!(request.call_id, "cid-a");
            assert_eq!(request.dialog_id, "cid-b-1;to-tag=bob;from-tag=ft-b-1");
            assert_eq!(request.refer_to, TARGET);
            assert_eq!(request.referred_by.as_deref(), Some("<sip:bob@10.0.0.2>"));
            assert_eq!(request.sip_headers, vec![header("X-Trace", "2")]);
        }
        other => panic!("expected a consult, got {other:?}"),
    }
}

#[test]
fn an_allowed_transfer_dials_its_target() {
    let begun = turn(&local(), &refer(TARGET), "b-1").result.call;
    let t = turn(&begun, &result_of("allow", ALLOW), "a");
    assert_eq!(rule_of(&t), "transfer-http-allow");
    let c = &t.result.call;
    assert_eq!(c.b_legs.len(), 2);
    assert_eq!(c.b_legs[1].leg_id, "b-2");
    assert_eq!(cursor(c, "transfer"), Some("CRinging"));
    let st = c.transfer.as_ref().expect("under way");
    assert_eq!(st.c_leg_id.as_deref(), Some("b-2"));
    assert_eq!(st.effective_refer_to_uri.as_deref(), Some("sip:carol@10.0.0.3:5060"));
    assert_eq!(st.callback_context.as_deref(), Some("cb2"));
    assert_eq!(requests(&t), vec![(Some("b-2"), Method::Invite)]);
    match &t.result.effects.outbound[0].body {
        OutboundBody::Invite { invite } => {
            assert_eq!(invite.new_ruri.as_deref(), Some("sip:carol@10.0.0.3:5060"));
            assert_eq!(invite.body_override, Some(vec![]), "nothing to hold, so no body");
        }
        other => panic!("expected an INVITE, got {other:?}"),
    }
}

#[test]
fn a_denied_transfer_is_over_and_the_call_goes_on() {
    let begun = turn(&local(), &refer(TARGET), "b-1").result.call;
    let t = turn(
        &begun,
        &result_of("reject", "{\"reject_code\":403,\"reject_reason\":\"Forbidden\"}"),
        "a",
    );
    assert_eq!(rule_of(&t), "transfer-http-reject");
    assert_eq!(reports(&t), report("terminated;reason=noresource", "SIP/2.0 403 Forbidden\r\n"));
    assert!(t.result.call.transfer.is_none());
    assert_eq!(cursor(&t.result.call, "transfer"), None);
    assert!(!has_timer(&t.result.call, "ReferOverallSafety"));
    assert_eq!(t.result.call.state, CallModelState::Active);

    let t = turn(&begun, &result_of("reject", "{}"), "a");
    assert_eq!(reports(&t), report("terminated;reason=noresource", "SIP/2.0 603 Declined\r\n"));
    let t = turn(&begun, &result_of("error", "{}"), "a");
    assert_eq!(
        reports(&t),
        report("terminated;reason=noresource", "SIP/2.0 500 Server Internal Error\r\n")
    );
}

#[test]
fn a_target_nobody_reads_ends_the_transfer() {
    let begun = turn(&local(), &refer(TARGET), "b-1").result.call;
    let t = turn(
        &begun,
        &result_of("allow", "{\"destination\":{\"host\":\"10.0.0.3\",\"port\":70000}}"),
        "a",
    );
    assert_eq!(
        reports(&t),
        report(
            "terminated;reason=noresource",
            "SIP/2.0 502 Unreadable Transfer Target (destination.port)\r\n"
        )
    );
    let said = t.report.as_ref().expect("handled");
    assert_eq!(said.diagnostics[0].field, "destination.port");
    assert_eq!(said.diagnostics[0].reason, "not a port number in 1..=65535");
    assert!(t.result.call.transfer.is_none());

    let t = turn(
        &begun,
        &result_of("allow", "{\"destination\":{\"host\":\"h\"},\"new_refer_to\":\"nonsense\"}"),
        "a",
    );
    assert_eq!(t.report.as_ref().expect("handled").diagnostics[0].field, "refer_to");
    let t = turn(&begun, &result_of("allow", "{}"), "a");
    assert!(t.report.is_none(), "an answer without a host is left to nobody");
}

#[test]
fn a_consult_that_hangs_times_the_transfer_out() {
    let begun = turn(&local(), &refer(TARGET), "b-1").result.call;
    let t = turn(&begun, &timer(TimerType::ReferSubscriptionExpiry, None), "a");
    assert_eq!(rule_of(&t), "transfer-http-timeout");
    assert_eq!(
        reports(&t),
        report("terminated;reason=timeout", "SIP/2.0 500 Server Internal Error\r\n")
    );
    assert!(t.result.call.transfer.is_none());
}

#[test]
fn the_referrer_hears_of_progress_once() {
    let c = dialled();
    let t = turn(&c, &from_target(180, "Ringing", 1), "b-2");
    assert_eq!(rule_of(&t), "transfer-c-1xx-to-notify");
    assert_eq!(reports(&t), report("active;expires=60", "SIP/2.0 180 Ringing\r\n"));
    assert_eq!(t.result.call.b_legs[1].state, LegState::Early);
    let again = turn(&t.result.call, &from_target(180, "Ringing", 1), "b-2");
    assert!(reports(&again).is_empty());
    let other = turn(&again.result.call, &from_target(183, "Session Progress", 1), "b-2");
    assert_eq!(reports(&other), report("active;expires=60", "SIP/2.0 183 Session Progress\r\n"));
}

#[test]
fn a_subscription_that_is_over_is_silent() {
    let c = dialled();
    let t = turn(
        &c,
        &CallEvent::Response { response: response(481, "Gone", Method::Notify, 3) },
        "b-1",
    );
    assert_eq!(rule_of(&t), "transfer-notify-481");
    assert!(t.result.call.transfer.as_ref().expect("goes on").subscription_terminated);
    assert_eq!(t.result.call.state, CallModelState::Active);
    let t = turn(&t.result.call, &from_target(180, "Ringing", 1), "b-2");
    assert!(reports(&t).is_empty());
}

#[test]
fn a_transfer_runs_to_its_end() {
    let t = turn(&dialled(), &from_target(200, "OK", 1), "b-2");
    assert_eq!(rule_of(&t), "transfer-c-200-initial");
    assert_eq!(reports(&t), report("terminated;reason=noresource", "SIP/2.0 200 OK\r\n"));
    assert_eq!(cursor(&t.result.call, "transfer"), Some("CRealigning"));
    assert!(has_timer(&t.result.call, "ReferReinviteAnswer:b-2"));
    assert!(requests(&t).contains(&(Some("b-2"), Method::Ack)));
    assert!(requests(&t).contains(&(Some("b-2"), Method::Invite)));

    let mut answer = response(200, "OK", Method::Invite, 2);
    answer.to_tag = Some("carol".to_string());
    answer.body = b"v=0".to_vec();
    let t = turn(&t.result.call, &CallEvent::Response { response: answer }, "b-2");
    assert_eq!(rule_of(&t), "transfer-c-realign-200");
    assert_eq!(cursor(&t.result.call, "transfer"), Some("ARealigning"));
    assert!(has_timer(&t.result.call, "ReferReinviteAnswer:a"));
    assert!(!has_timer(&t.result.call, "ReferReinviteAnswer:b-2"));
    let offered = t.result.effects.outbound.iter().any(|e| {
        matches!(&e.body, OutboundBody::Request { request }
            if request.method == Method::Invite && request.body == b"v=0".to_vec())
    });
    assert!(offered, "the caller is offered what the target just answered with");

    let t = turn(
        &t.result.call,
        &CallEvent::Response { response: response(200, "OK", Method::Invite, 2) },
        "a",
    );
    assert_eq!(rule_of(&t), "transfer-a-realign-200");
    assert!(t.result.call.transfer.is_none());
    assert_eq!(cursor(&t.result.call, "transfer"), None);
    assert_eq!(
        t.result.call.active_peer,
        Some(PeerPair { leg_a: "a".to_string(), leg_b: "b-2".to_string() })
    );
    assert!(t.result.call.timers.iter().all(|t| !t.id.starts_with("Refer")));
    assert!(t.report.expect("handled").undeclared_effects.is_empty());
}

#[test]
fn a_target_that_fails_or_never_answers_ends_the_transfer() {
    let t = turn(&dialled(), &from_target(486, "Busy Here", 1), "b-2");
    assert_eq!(rule_of(&t), "transfer-c-fail-initial");
    assert_eq!(reports(&t), report("terminated;reason=noresource", "SIP/2.0 486 Busy Here\r\n"));
    assert!(t.result.call.transfer.is_none());
    assert_eq!(t.result.call.b_legs[1].state, LegState::Terminated);

    let t = turn(&dialled(), &timer(TimerType::NoAnswer, Some("b-2")), "b-2");
    assert_eq!(rule_of(&t), "transfer-c-no-answer");
    assert_eq!(reports(&t), report("terminated;reason=timeout", "SIP/2.0 408 Request Timeout\r\n"));
    assert!(t.result.call.transfer.is_none());
}

#[test]
fn a_realignment_that_fails_rolls_the_call_back() {
    let t = turn(&realigning(), &from_target(488, "Not Acceptable Here", 2), "b-2");
    assert_eq!(rule_of(&t), "transfer-c-realign-fail");
    assert_eq!(t.result.call.state, CallModelState::Terminating);
    let t = turn(&realigning(), &timer(TimerType::ReferReinviteAnswer, Some("b-2")), "b-2");
    assert_eq!(rule_of(&t), "transfer-c-realign-timeout");
    assert_eq!(t.result.call.state, CallModelState::Terminating);
    let t = turn(&realigning(), &timer(TimerType::ReferOverallSafety, None), "a");
    assert_eq!(rule_of(&t), "transfer-overall-timeout");
    assert_eq!(t.result.call.state, CallModelState::Terminating);
    assert_eq!(t.result.call.cdr_events.last().unwrap().reason.as_deref(), Some("transfer-overall-timeout"));

    let second = turn(&realigning(), &from_target(200, "OK", 2), "b-2").result.call;
    let t = turn(
        &second,
        &CallEvent::Response { response: response(488, "Not Acceptable Here", Method::Invite, 2) },
        "a",
    );
    assert_eq!(rule_of(&t), "transfer-a-realign-fail");
    let t = turn(&second, &timer(TimerType::ReferReinviteAnswer, Some("a")), "a");
    assert_eq!(rule_of(&t), "transfer-a-realign-timeout");
}

#[test]
fn requests_wait_or_fail_while_the_ends_are_realigned() {
    let c = realigning();
    let t = turn(&c, &CallEvent::Request { request: request(Method::Invite, 20) }, "b-2");
    assert_eq!((rule_of(&t), statuses(&t)), ("transfer-c-glare-reinvite", vec![(Some("b-2"), 491)]));
    let t = turn(&c, &CallEvent::Request { request: request(Method::Invite, 20) }, "a");
    assert_eq!((rule_of(&t), statuses(&t)), ("transfer-a-glare-reinvite", vec![(Some("a"), 491)]));
    let t = turn(&c, &CallEvent::Request { request: request(Method::Info, 20) }, "b-1");
    assert_eq!((rule_of(&t), statuses(&t)), ("transfer-b-in-cre-are-reject", vec![(Some("b-1"), 481)]));
    let t = turn(&c, &CallEvent::Request { request: request(Method::Bye, 20) }, "b-1");
    assert_eq!(rule_of(&t), "relay-bye");
}

#[test]
fn a_second_refer_waits_and_an_attended_one_is_not_known() {
    let c = dialled();
    let t = turn(&c, &refer(TARGET), "b-1");
    assert_eq!((rule_of(&t), statuses(&t)), ("transfer-reject-second-refer", vec![(Some("b-1"), 491)]));
    let t = turn(&c, &refer("<sip:carol@10.0.0.3?Replaces=abc>"), "b-1");
    assert_eq!((rule_of(&t), statuses(&t)), ("transfer-reject-replaces", vec![(Some("b-1"), 501)]));
}

#[test]
fn a_refer_that_is_no_blind_transfer_is_refused() {
    let t = turn(&local(), &refer("<sip:carol@10.0.0.3?Replaces=abc>"), "b-1");
    assert_eq!(rule_of(&t), "transfer-reject-replaces");
    let t = turn(&local(), &refer("nonsense"), "b-1");
    assert_eq!((rule_of(&t), statuses(&t)), ("transfer-refuse-unreadable-refer-to", vec![(Some("b-1"), 400)]));
    let t = turn(&local(), &refer(TARGET), "a");
    assert_eq!((rule_of(&t), statuses(&t)), ("transfer-reject-a-leg-refer", vec![(Some("a"), 501)]));
}

#[test]
fn a_refer_that_is_not_processed_here_is_relayed() {
    let t = turn(&bridged(), &refer(TARGET), "b-1");
    assert_eq!(rule_of(&t), "relay-refer");
    assert_eq!(requests(&t), vec![(Some("a"), Method::Refer)]);
    assert!(t.result.call.transfer.is_none());
}

#[test]
fn the_cursor_follows_the_phase() {
    let mut c = dialled();
    c.transfer.as_mut().expect("under way").phase = TransferPhase::ARealigning;
    project_cursor(&mut c);
    assert_eq!(cursor(&c, "transfer"), Some("ARealigning"));
    c.transfer = None;
    project_cursor(&mut c);
    assert_eq!(cursor(&c, "transfer"), None);
}

#[test]
fn the_rules_of_a_transfer_stand_where_they_should() {
    assert_eq!(transfer_seed_rules().len(), 4);
    assert!(transfer_seed_rules().iter().all(|r| r.machine.is_none()));
    assert_eq!(transfer_rules().len(), 19);
    assert!(transfer_rules().iter().all(|r| r.machine.as_deref() == Some("transfer")));
}

#[test]
fn the_machine_is_dormant_until_it_is_seeded() {
    let def = transfer_service_def();
    assert_eq!(def.id, "transfer");
    assert_eq!(def.init(&bridged()), None);
    assert!(check_registry(&[def]).is_empty());
}

#[test]
fn a_refer_to_a_port_nobody_reads_is_a_bad_request() {
    let t = turn(&local(), &refer("<sip:carol@10.0.0.3:70596>"), "b-1");
    assert_eq!(statuses(&t), vec![(Some("b-1"), 400)]);
    assert!(t.result.call.transfer.is_none());
}

#[test]
fn the_target_is_behind_the_display_name() {
    let begun = turn(&local(), &refer("\"<sip:mallory@10.0.0.9>\" <sip:carol@10.0.0.3:5060>"), "b-1");
    let t = turn(&begun.result.call, &result_of("allow", ALLOW), "a");
    let dialled: Vec<Option<String>> = t
        .result
        .effects
        .outbound
        .iter()
        .filter_map(|e| match &e.body {
            OutboundBody::Invite { invite } => Some(invite.new_ruri.clone()),
            _ => None,
        })
        .collect();
    assert_eq!(dialled, vec![Some("sip:carol@10.0.0.3:5060".to_string())]);
}
