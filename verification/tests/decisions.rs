use b2bua_rules::actions::ActionExecutor;
use b2bua_rules::call::{
    ByeDisposition, Call, CallModelState, Config, Dialog, DialogExt, Direction, FeatureActivations,
    InviteSnapshot, KeepaliveActivation, Leg, LegDisposition, LegState, MaxDurationAnchor, PeerPair,
    PlatformActivations, ReleaseEventKind, StackDialog,
};
use b2bua_rules::defaults::compose::default_rules;
use b2bua_rules::defaults::route_fold::{parse_contacts, parse_route_fold, read_stated_port};
use b2bua_rules::effects::OutboundBody;
use b2bua_rules::executor::{run_turn, Turn};
use b2bua_rules::headers::{has_replaces, tag_of, to_bare_uri, unwrap_angle, via_sent_by};
use b2bua_rules::ids::IdGen;
use b2bua_rules::json::{read_i64, read_text, read_u64};
use b2bua_rules::model::{CallEvent, RuleContext};
use b2bua_rules::text::{decimal, eq_ignore_case, join, less, signed, split, trim, words};
use b2bua_rules::wire::{HeaderUpdate, HostPort, Method, SipHeader, SipRequest, SipResponse};

fn header(name: &str, value: &str) -> SipHeader {
    SipHeader { name: name.to_string(), value: value.to_string() }
}

fn config() -> Config {
    Config {
        keepalive_interval_sec: 300,
        keepalive_timeout_sec: 32,
        ack_timeout_ms: 32_000,
        limiter_refresh_sec: 60,
        refer_subscription_expiry_sec: 60,
        refer_overall_safety_sec: 120,
        refer_reinvite_answer_sec: 32,
        no_answer_ceiling_sec: 170,
        outbound_proxy: None,
        worker_allowed_target_suffixes: vec![],
        reserved_ext: Vec::new(),
        keepalive_cseq_reuse: false,
    }
}

fn dialog(call_id: &str, local: &str, remote: &str) -> Dialog {
    Dialog {
        sip: StackDialog {
            call_id: call_id.to_string(),
            local_tag: local.to_string(),
            remote_tag: remote.to_string(),
            local_uri: "sip:svc@10.0.0.9".to_string(),
            remote_uri: "sip:peer@10.0.0.1".to_string(),
            remote_target: "sip:peer@10.0.0.1:5060".to_string(),
            local_cseq: 1,
            route_set: vec![],
        },
        ext: DialogExt {
            remote_cseq: None,
            inbound_pending_requests: vec![],
            ack_branch: None,
            emitted_ack: None,
            pending_invite_txn: None,
            cached_sdp: None,
            answered_2xx: None,
            pending_reinvite_2xx: None,
            awaited_ack_cseq: None,
        },
    }
}

fn leg(id: &str, state: LegState, dialogs: Vec<Dialog>) -> Leg {
    Leg {
        leg_id: id.to_string(),
        call_id: format!("cid-{id}"),
        from_tag: format!("ft-{id}"),
        local_uri: None,
        remote_uri: None,
        state,
        disposition: if state == LegState::Confirmed {
            LegDisposition::Bridged
        } else {
            LegDisposition::Pending
        },
        bye_disposition: None,
        kind: None,
        adopted: true,
        offers_sdp: true,
        invite_final_sent: None,
        dialogs,
    }
}

fn call(a: Leg, b: Vec<Leg>) -> Call {
    Call {
        call_ref: "call-1".to_string(),
        emergency: None,
        state: CallModelState::Active,
        a_leg: a,
        b_legs: b,
        a_leg_invite: InviteSnapshot {
            cseq: 7,
            from_uri: "sip:alice@10.0.0.1".to_string(),
            to_uri: "sip:svc@10.0.0.9".to_string(),
            headers: vec![
                header("Via", "SIP/2.0/UDP 10.0.0.1:5060;branch=z9hG4bKa"),
                header("Contact", "<sip:alice@10.0.0.1:5060>"),
            ],
            body: vec![],
            held_sdp: None,
        },
        active_peer: None,
        tag_map: vec![],
        timers: vec![],
        cdr_events: vec![],
        sm_cursors: vec![],
        features: None,
        callback_context: None,
        policy_update_body: None,
        transfer: None,
        promote_pem: None,
        relay_first_18x: None,
        reliable_provisionals: vec![],
        pracked_provisionals: vec![],
        limiter_entries: vec![],
        ext: vec![],
        failure_headers: vec![],
        subscriptions: vec![],
        reroute: None,
        deactivated_rules: vec![],
        termination: None,
    }
}

/// A call that rings: the caller waits, one callee was dialled.
fn ringing() -> Call {
    call(
        leg("a", LegState::Trying, vec![]),
        vec![leg("b-1", LegState::Trying, vec![dialog("cid-b-1", "ft-b-1", "")])],
    )
}

/// A call that is up between the caller and one callee.
fn bridged() -> Call {
    let mut c = call(
        leg("a", LegState::Confirmed, vec![dialog("cid-a", "at", "alice")]),
        vec![leg("b-1", LegState::Confirmed, vec![dialog("cid-b-1", "ft-b-1", "bob")])],
    );
    c.active_peer = Some(PeerPair { leg_a: "a".to_string(), leg_b: "b-1".to_string() });
    c
}

fn features() -> FeatureActivations {
    FeatureActivations {
        platform: PlatformActivations {
            max_duration_sec: 3_600,
            max_duration_anchor: MaxDurationAnchor::Creation,
            keepalive: KeepaliveActivation { interval_sec: 30, max_missed: 2 },
        },
        refer: false,
        relay_first_18x_to_180: None,
        no_answer_timeout_sec: None,
        advertise_capabilities: None,
        charging_vector: None,
        option_tags: Vec::new(),
    }
}

fn request(method: Method, cseq: i64) -> SipRequest {
    SipRequest {
        method,
        cseq,
        to_tag: Some("at".to_string()),
        headers: vec![header("Via", "SIP/2.0/UDP 10.0.0.1:5060;branch=z9hG4bKr")],
        relayable: vec![],
        hops: 69,
        body: vec![],
    }
}

fn response(status: u16, reason: &str, method: Method, cseq: i64) -> SipResponse {
    SipResponse {
        status,
        reason: reason.to_string(),
        cseq,
        method,
        to_tag: Some("bob".to_string()),
        headers: vec![header("Contact", "<sip:bob@10.0.0.2:5060>")],
        relayable: vec![],
        body: vec![],
    }
}

fn ids() -> IdGen {
    IdGen { seed: "t".to_string(), next: 1 }
}

fn event_direction(source: &str) -> Direction {
    if source == "a" {
        Direction::FromA
    } else {
        Direction::FromB
    }
}

/// One turn of the default rules.
fn turn(c: &Call, event: &CallEvent, source: &str) -> Turn {
    let cfg = config();
    let source = source.to_string();
    let ctx = RuleContext {
        call: c,
        event,
        source_leg_id: &source,
        direction: event_direction(&source),
        now_ms: 1_000,
        config: &cfg,
        discharged: None,
    };
    let exec = ActionExecutor { config: &cfg, now_ms: 1_000 };
    run_turn(&default_rules(), c, &ctx, &exec, &mut ids())
}

fn rule_of(t: &Turn) -> &str {
    t.report.as_ref().map(|r| r.rule_id.as_str()).unwrap_or("")
}

fn statuses(t: &Turn) -> Vec<(Option<&str>, u16)> {
    t.result
        .effects
        .outbound
        .iter()
        .filter_map(|e| match &e.body {
            OutboundBody::Response { response } => Some((e.leg_id.as_deref(), response.status)),
            _ => None,
        })
        .collect()
}

fn requests(t: &Turn) -> Vec<(Option<&str>, Method)> {
    t.result
        .effects
        .outbound
        .iter()
        .filter_map(|e| match &e.body {
            OutboundBody::Request { request } => Some((e.leg_id.as_deref(), request.method.clone())),
            OutboundBody::Ack { .. } => Some((e.leg_id.as_deref(), Method::Ack)),
            OutboundBody::Cancel { .. } => Some((e.leg_id.as_deref(), Method::Cancel)),
            OutboundBody::Invite { .. } => Some((e.leg_id.as_deref(), Method::Invite)),
            _ => None,
        })
        .collect()
}

fn has_timer(c: &Call, id: &str) -> bool {
    c.timers.iter().any(|t| t.id == id)
}

fn json(s: &str) -> serde_json::Value {
    serde_json::from_str(s).expect("valid")
}

fn decided(outcome: &str, payload: &str) -> CallEvent {
    CallEvent::Internal {
        topic: "call-failure-result".to_string(),
        outcome: outcome.to_string(),
        payload: json(payload),
        features: None,
        subscriptions: None,
    }
}

#[test]
fn members_are_read_by_kind() {
    let v = json("{\"t\":\"x\",\"n\":-3,\"u\":9,\"f\":1.5,\"z\":null}");
    assert_eq!(read_text(&v, "t").as_deref(), Some("x"));
    assert_eq!(read_text(&v, "n"), None);
    assert_eq!(read_text(&v, "absent"), None);
    assert_eq!(read_i64(&v, "n"), Some(-3));
    assert_eq!(read_i64(&v, "u"), Some(9));
    assert_eq!(read_i64(&v, "f"), None);
    assert_eq!(read_u64(&v, "u"), Some(9));
    assert_eq!(read_u64(&v, "n"), None);
    assert_eq!(read_text(&json("[]"), "t"), None);
}

#[test]
fn a_port_is_one_to_the_last() {
    assert_eq!(read_stated_port(None), Some(5060));
    assert_eq!(read_stated_port(Some(&json("5070"))), Some(5070));
    assert_eq!(read_stated_port(Some(&json("65535"))), Some(65535));
    assert_eq!(read_stated_port(Some(&json("0"))), None);
    assert_eq!(read_stated_port(Some(&json("65536"))), None);
    assert_eq!(read_stated_port(Some(&json("\"5070\""))), None);
    assert_eq!(read_stated_port(Some(&json("null"))), None);
}

#[test]
fn a_route_is_read_whole() {
    let v = json(
        "{\"destination\":{\"host\":\"h\"},\"new_ruri\":\"sip:n@h\",\"new_from\":\"f\",\"new_to\":\"t\",\
         \"no_answer_timeout_sec\":12,\"callback_context\":\"cb\",\
         \"update_headers\":{\"X-B\":\"2\",\"X-A\":null},\
         \"service_ext\":{\"svc\":{\"k\":1}},\"update_body\":\"hi\",\
         \"call_limiter\":{\"window\":4,\"entries\":[{\"id\":\"l\",\"limit\":2},{\"id\":3},{\"id\":\"m\",\"limit\":5}]}}",
    );
    let f = parse_route_fold(&v, &Some(features()), &Some(vec![ReleaseEventKind::MaxCallDuration]), &Vec::new())
        .expect("a route");
    assert_eq!(f.destination, HostPort { host: "h".to_string(), port: 5060 });
    assert_eq!(f.new_ruri.as_deref(), Some("sip:n@h"));
    assert_eq!(f.new_from.as_deref(), Some("f"));
    assert_eq!(f.new_to.as_deref(), Some("t"));
    assert_eq!(f.no_answer, Some(12));
    assert_eq!(f.callback_context.as_deref(), Some("cb"));
    assert_eq!(
        f.header_updates,
        vec![
            HeaderUpdate { name: "X-A".to_string(), value: None },
            HeaderUpdate { name: "X-B".to_string(), value: Some("2".to_string()) },
        ]
    );
    assert_eq!(f.service_ext.len(), 1);
    assert_eq!(f.service_ext[0].service_id, "svc");
    assert_eq!(f.service_ext[0].value, json("{\"k\":1}"));
    assert_eq!(f.body_override, Some(b"hi".to_vec()));
    let holds = f.limiter_holds.expect("held");
    assert_eq!(holds.window, 4);
    assert_eq!(holds.entries.len(), 2);
    assert_eq!(holds.entries[1].limiter_id, "m");
    assert_eq!(f.subscriptions, Some(vec![ReleaseEventKind::MaxCallDuration]));
}

#[test]
fn a_decision_writes_no_key_of_the_core() {
    let v = json(
        "{\"destination\":{\"host\":\"h\"},\
         \"service_ext\":{\"core\":{\"k\":1},\"svc\":{\"k\":2},\"zz\":3}}",
    );
    let reserved = vec!["core".to_string()];
    let f = parse_route_fold(&v, &None, &None, &reserved).expect("a route");
    let ids: Vec<&str> = f.service_ext.iter().map(|e| e.service_id.as_str()).collect();
    assert_eq!(ids, vec!["svc", "zz"]);
    assert_eq!(f.service_ext[0].value, json("{\"k\":2}"));
    let all = parse_route_fold(&v, &None, &None, &Vec::new()).expect("a route");
    assert_eq!(all.service_ext.len(), 3);
}

#[test]
fn a_route_without_a_destination_is_none() {
    assert!(parse_route_fold(&json("{}"), &None, &None, &Vec::new()).is_none());
    assert!(parse_route_fold(&json("{\"destination\":{}}"), &None, &None, &Vec::new()).is_none());
    assert!(parse_route_fold(&json("{\"destination\":{\"host\":\"h\",\"port\":0}}"), &None, &None, &Vec::new()).is_none());
    let f = parse_route_fold(&json("{\"destination\":{\"host\":\"h\"},\"update_body\":null}"), &None, &None, &Vec::new())
        .expect("a route");
    assert_eq!(f.body_override, Some(vec![]));
    let f = parse_route_fold(&json("{\"destination\":{\"host\":\"h\"}}"), &None, &None, &Vec::new()).expect("a route");
    assert_eq!(f.body_override, None);
}

#[test]
fn redirect_targets_are_those_that_name_one() {
    let v = json("{\"contacts\":[{\"uri\":\"sip:x\",\"q\":0.5},{\"q\":1},{\"uri\":\"sip:y\",\"q\":\"high\"}]}");
    let list = parse_contacts(&v);
    assert_eq!(list.len(), 2);
    assert_eq!(list[0].uri, "sip:x");
    assert_eq!(list[0].q, Some(json("0.5")));
    assert_eq!(list[1].uri, "sip:y");
    assert_eq!(list[1].q, None);
    assert!(parse_contacts(&json("{}")).is_empty());
}

#[test]
fn a_reroute_creates_a_leg_for_a_failed_one() {
    let mut c = ringing();
    c.callback_context = Some("ctx".to_string());
    let failed = turn(
        &c,
        &CallEvent::Response { response: response(503, "Down", Method::Invite, 1) },
        "b-1",
    )
    .result
    .call;
    let t = turn(
        &failed,
        &decided("failover", "{\"destination\":{\"host\":\"10.0.0.4\"},\"failed_leg_id\":\"b-1\",\"no_answer_timeout_sec\":15}"),
        "a",
    );
    assert_eq!(rule_of(&t), "failover-create-leg");
    assert_eq!(t.result.call.b_legs.len(), 2);
    assert_eq!(requests(&t), vec![(Some("b-2"), Method::Invite)]);
    assert!(has_timer(&t.result.call, "NoAnswer:b-2"));
}

#[test]
fn a_declined_reroute_hands_the_failure_to_the_caller() {
    let t = turn(&ringing(), &decided("terminate", "{\"status\":503,\"reason\":\"Gone\"}"), "a");
    assert_eq!(rule_of(&t), "failover-terminate");
    assert_eq!(statuses(&t), vec![(Some("a"), 503)]);
    let t = turn(&ringing(), &decided("reject", "{\"code\":404,\"reason\":\"Nowhere\"}"), "a");
    assert_eq!((rule_of(&t), statuses(&t)), ("failover-reject", vec![(Some("a"), 404)]));
    let t = turn(&ringing(), &decided("redirect", "{\"contacts\":[{\"uri\":\"sip:x@y\"}]}"), "a");
    assert_eq!((rule_of(&t), statuses(&t)), ("failover-redirect", vec![(Some("a"), 302)]));
}

#[test]
fn a_redirect_to_a_port_nobody_reads_is_refused() {
    let v = "{\"contacts\":[{\"uri\":\"sip:x@y\"},{\"uri\":\"sip:x@y:70596\"}]}";
    let t = turn(&ringing(), &decided("redirect", v), "a");
    assert_eq!((rule_of(&t), statuses(&t)), ("failover-redirect", vec![(Some("a"), 500)]));
}

#[test]
fn a_decision_on_a_call_going_away_does_nothing() {
    let mut c = bridged();
    c.state = CallModelState::Terminating;
    c.b_legs[0].bye_disposition = Some(ByeDisposition::ByeSent);
    for outcome in ["failover", "terminate", "reject", "redirect"] {
        let t = turn(&c, &decided(outcome, "{\"destination\":{\"host\":\"h\"}}"), "a");
        assert!(t.report.is_some());
        assert!(t.result.effects.outbound.is_empty());
        assert_eq!(t.result.call.b_legs.len(), 1);
    }
}

#[test]
fn addresses_are_read_or_not() {
    assert_eq!(to_bare_uri("\"C\" <sip:carol@h:5060;x=1?Replaces=a>;tag=t").as_deref(), Some("sip:carol@h:5060;x=1"));
    assert_eq!(to_bare_uri("nonsense"), None);
    assert!(has_replaces("<sip:c@h?X=1&replaces=a>"));
    assert!(!has_replaces("<sip:c@h?X=1>"));
    assert_eq!(unwrap_angle("\"C\" <sip:c@h>;tag=1"), "sip:c@h");
    // A display name is skipped whole, whatever stands in its quotes.
    assert_eq!(unwrap_angle("\"a <sip:x@y> b\" <sip:c@h>"), "sip:c@h");
    assert_eq!(unwrap_angle("\"a \\\" <sip:x@y>\" <sip:c@h>"), "sip:c@h");
    assert_eq!(tag_of("\"a>;tag=no\" <sip:c@h>;tag=t").as_deref(), Some("t"));
    // A port is a 16-bit number.
    assert_eq!(to_bare_uri("<sip:c@h:65535>").as_deref(), Some("sip:c@h:65535"));
    assert_eq!(to_bare_uri("<sip:c@h:70596>"), None);
    assert_eq!(to_bare_uri("sip:+1;x=y@h:70596;transport=udp"), None);
    assert_eq!(to_bare_uri("sip:c:secret@h").as_deref(), Some("sip:c:secret@h"));
    assert_eq!(to_bare_uri("tel:+15551234").as_deref(), Some("tel:+15551234"));
    assert_eq!(to_bare_uri("<sip:c@h"), None);
    assert_eq!(
        via_sent_by("SIP/2.0/UDP 10.0.0.1:5070;branch=z"),
        Some(HostPort { host: "10.0.0.1".to_string(), port: 5070 })
    );
    assert_eq!(via_sent_by("SIP/2.0/UDP"), None);
}

#[test]
fn texts_are_taken_apart_and_put_together() {
    assert_eq!(split("a,,b", ','), vec!["a", "", "b"]);
    assert_eq!(words("  a  b\tc "), vec!["a", "b", "c"]);
    assert_eq!(trim(" a b "), "a b");
    assert_eq!(decimal(0), "0");
    assert_eq!(decimal(18_446_744_073_709_551_615), "18446744073709551615");
    assert_eq!(signed(-9_223_372_036_854_775_808), "-9223372036854775808");
    assert_eq!(join(&vec!["a".to_string(), "b".to_string()], "-"), "a-b");
    assert!(eq_ignore_case("ReFeR", "rEfEr"));
    assert!(less("a", "b") && less("a", "aa") && !less("b", "a") && !less("a", "a"));
}
