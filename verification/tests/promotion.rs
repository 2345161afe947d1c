use b2bua_rules::actions::ActionExecutor;
use b2bua_rules::call::{
    Call, CallModelState, Config, Dialog, DialogExt, Direction, FeatureActivations, InviteSnapshot,
    KeepaliveActivation, Leg, LegDisposition, LegState, MaxDurationAnchor, PlatformActivations,
    PromotePemState, RelayFirst18xStrategy, StackDialog,
};
use b2bua_rules::defaults::compose::default_rules;
use b2bua_rules::effects::OutboundBody;
use b2bua_rules::executor::{run_turn, Turn};
use b2bua_rules::ids::IdGen;
use b2bua_rules::model::{CallEvent, RuleContext};
use b2bua_rules::promote_pem::{promote_pem_rules, reason_header};
use b2bua_rules::sdp::sdp_media_equivalent;
use b2bua_rules::wire::{Method, SipHeader, SipRequest, SipResponse};

fn header(name: &str, value: &str) -> SipHeader {
    SipHeader { name: name.to_string(), value: value.to_string() }
}

fn config() -> Config {
    Config {
        keepalive_interval_sec: 300,
        keepalive_timeout_sec: 32,
        ack_timeout_ms: 32_000,
        limiter_refresh_sec: 60,
        refer_subscription_expiry_sec: 60,
        refer_overall_safety_sec: 120,
        refer_reinvite_answer_sec: 32,
        no_answer_ceiling_sec: 170,
        outbound_proxy: None,
        worker_allowed_target_suffixes: vec![],
        reserved_ext: Vec::new(),
        keepalive_cseq_reuse: false,
    }
}

fn dialog(call_id: &str, local: &str, remote: &str) -> Dialog {
    Dialog {
        sip: StackDialog {
            call_id: call_id.to_string(),
            local_tag: local.to_string(),
            remote_tag: remote.to_string(),
            local_uri: "sip:svc@10.0.0.9".to_string(),
            remote_uri: "sip:peer@10.0.0.1".to_string(),
            remote_target: "sip:peer@10.0.0.1:5060".to_string(),
            local_cseq: 1,
            route_set: vec![],
        },
        ext: DialogExt {
            remote_cseq: None,
            inbound_pending_requests: vec![],
            ack_branch: None,
            emitted_ack: None,
            pending_invite_txn: None,
            cached_sdp: None,
            answered_2xx: None,
            pending_reinvite_2xx: None,
            awaited_ack_cseq: None,
        },
    }
}

fn leg(id: &str, state: LegState, dialogs: Vec<Dialog>) -> Leg {
    Leg {
        leg_id: id.to_string(),
        call_id: format!("cid-{id}"),
        from_tag: format!("ft-{id}"),
        local_uri: None,
        remote_uri: None,
        state,
        disposition: if state == LegState::Confirmed {
            LegDisposition::Bridged
        } else {
            LegDisposition::Pending
        },
        bye_disposition: None,
        kind: None,
        adopted: true,
        offers_sdp: true,
        invite_final_sent: None,
        dialogs,
    }
}

fn call(a: Leg, b: Vec<Leg>) -> Call {
    Call {
        call_ref: "call-1".to_string(),
        emergency: None,
        state: CallModelState::Active,
        a_leg: a,
        b_legs: b,
        a_leg_invite: InviteSnapshot {
            cseq: 7,
            from_uri: "sip:alice@10.0.0.1".to_string(),
            to_uri: "sip:svc@10.0.0.9".to_string(),
            headers: vec![
                header("Via", "SIP/2.0/UDP 10.0.0.1:5060;branch=z9hG4bKa"),
                header("Contact", "<sip:alice@10.0.0.1:5060>"),
            ],
            body: vec![],
            held_sdp: None,
        },
        active_peer: None,
        tag_map: vec![],
        timers: vec![],
        cdr_events: vec![],
        sm_cursors: vec![],
        features: None,
        callback_context: None,
        policy_update_body: None,
        transfer: None,
        promote_pem: None,
        relay_first_18x: None,
        reliable_provisionals: vec![],
        pracked_provisionals: vec![],
        limiter_entries: vec![],
        ext: vec![],
        failure_headers: vec![],
        subscriptions: vec![],
        reroute: None,
        deactivated_rules: vec![],
        termination: None,
    }
}

/// A call that rings: the caller waits, one callee was dialled.
fn ringing() -> Call {
    call(
        leg("a", LegState::Trying, vec![]),
        vec![leg("b-1", LegState::Trying, vec![dialog("cid-b-1", "ft-b-1", "")])],
    )
}

fn features() -> FeatureActivations {
    FeatureActivations {
        platform: PlatformActivations {
            max_duration_sec: 3_600,
            max_duration_anchor: MaxDurationAnchor::Creation,
            keepalive: KeepaliveActivation { interval_sec: 30, max_missed: 2 },
        },
        refer: false,
        relay_first_18x_to_180: None,
        no_answer_timeout_sec: None,
        advertise_capabilities: None,
        charging_vector: None,
        option_tags: Vec::new(),
    }
}

fn request(method: Method, cseq: i64) -> SipRequest {
    SipRequest {
        method,
        cseq,
        to_tag: Some("at".to_string()),
        headers: vec![header("Via", "SIP/2.0/UDP 10.0.0.1:5060;branch=z9hG4bKr")],
        relayable: vec![],
        hops: 69,
        body: vec![],
    }
}

fn response(status: u16, reason: &str, method: Method, cseq: i64) -> SipResponse {
    SipResponse {
        status,
        reason: reason.to_string(),
        cseq,
        method,
        to_tag: Some("bob".to_string()),
        headers: vec![header("Contact", "<sip:bob@10.0.0.2:5060>")],
        relayable: vec![],
        body: vec![],
    }
}

fn ids() -> IdGen {
    IdGen { seed: "t".to_string(), next: 1 }
}

fn event_direction(source: &str) -> Direction {
    if source == "a" {
        Direction::FromA
    } else {
        Direction::FromB
    }
}

/// One turn of the default rules.
fn turn(c: &Call, event: &CallEvent, source: &str) -> Turn {
    let cfg = config();
    let source = source.to_string();
    let ctx = RuleContext {
        call: c,
        event,
        source_leg_id: &source,
        direction: event_direction(&source),
        now_ms: 1_000,
        config: &cfg,
        discharged: None,
    };
    let exec = ActionExecutor { config: &cfg, now_ms: 1_000 };
    run_turn(&default_rules(), c, &ctx, &exec, &mut ids())
}

fn rule_of(t: &Turn) -> &str {
    t.report.as_ref().map(|r| r.rule_id.as_str()).unwrap_or("")
}

fn statuses(t: &Turn) -> Vec<(Option<&str>, u16)> {
    t.result
        .effects
        .outbound
        .iter()
        .filter_map(|e| match &e.body {
            OutboundBody::Response { response } => Some((e.leg_id.as_deref(), response.status)),
            _ => None,
        })
        .collect()
}

fn requests(t: &Turn) -> Vec<(Option<&str>, Method)> {
    t.result
        .effects
        .outbound
        .iter()
        .filter_map(|e| match &e.body {
            OutboundBody::Request { request } => Some((e.leg_id.as_deref(), request.method.clone())),
            OutboundBody::Ack { .. } => Some((e.leg_id.as_deref(), Method::Ack)),
            OutboundBody::Cancel { .. } => Some((e.leg_id.as_deref(), Method::Cancel)),
            OutboundBody::Invite { .. } => Some((e.leg_id.as_deref(), Method::Invite)),
            _ => None,
        })
        .collect()
}

const OFFER: &[u8] = b"v=0\r\nc=IN IP4 10.0.0.2\r\nm=audio 4000 RTP/AVP 0\r\n";
const OTHER: &[u8] = b"v=0\r\nc=IN IP4 10.0.0.2\r\nm=audio 5000 RTP/AVP 8\r\n";

fn promoting() -> Call {
    let mut c = ringing();
    c.features = Some(FeatureActivations {
        relay_first_18x_to_180: Some(RelayFirst18xStrategy::PromotePemTo200),
        ..features()
    });
    c
}

fn early_media(reliable: bool) -> CallEvent {
    let mut r = response(183, "Session Progress", Method::Invite, 1);
    r.headers.push(header("P-Early-Media", "sendrecv"));
    r.headers.push(header("Content-Type", "application/sdp"));
    if reliable {
        r.headers.push(header("Require", "100rel"));
        r.headers.push(header("RSeq", " 41 "));
    }
    r.body = OFFER.to_vec();
    CallEvent::Response { response: r }
}

fn answer(body: &[u8]) -> CallEvent {
    let mut r = response(200, "OK", Method::Invite, 1);
    r.headers.push(header("Content-Type", "application/sdp"));
    r.body = body.to_vec();
    CallEvent::Response { response: r }
}

fn promoted() -> Call {
    turn(&promoting(), &early_media(false), "b-1").result.call
}

#[test]
fn early_media_answers_the_caller() {
    let t = turn(&promoting(), &early_media(false), "b-1");
    assert_eq!(rule_of(&t), "promote-183-pem");
    assert_eq!(statuses(&t), vec![(Some("a"), 200)]);
    assert!(requests(&t).is_empty());
    let c = &t.result.call;
    assert_eq!(c.a_leg.state, LegState::Confirmed);
    assert_eq!(
        c.promote_pem,
        Some(PromotePemState {
            promoted: true,
            promoted_sdp: OFFER.to_vec(),
            window_open: true,
            resync_reinvite_cseq: None,
        })
    );
}

#[test]
fn a_reliable_one_is_acknowledged_too() {
    let t = turn(&promoting(), &early_media(true), "b-1");
    assert_eq!(requests(&t), vec![(Some("b-1"), Method::Prack)]);
}

#[test]
fn without_the_header_nothing_is_promoted() {
    let t = turn(
        &promoting(),
        &CallEvent::Response { response: response(183, "Session Progress", Method::Invite, 1) },
        "b-1",
    );
    assert_eq!(rule_of(&t), "relay-provisional");
}

#[test]
fn the_caller_hears_no_provisional_after_its_answer() {
    let t = turn(&promoted(), &early_media(false), "b-1");
    assert_eq!(rule_of(&t), "suppress-post-promote-18x");
    assert!(statuses(&t).is_empty());
}

#[test]
fn an_answer_that_says_the_same_bridges_silently() {
    let t = turn(&promoted(), &answer(OFFER), "b-1");
    assert_eq!(rule_of(&t), "confirm-after-promote");
    assert!(statuses(&t).is_empty());
    assert_eq!(requests(&t), vec![(Some("b-1"), Method::Ack)]);
    assert!(t.result.call.promote_pem.is_none());
    assert!(t.result.call.active_peer.is_some());
}

#[test]
fn an_answer_that_differs_brings_the_caller_in_line() {
    let t = turn(&promoted(), &answer(OTHER), "b-1");
    assert_eq!(
        requests(&t),
        vec![(Some("b-1"), Method::Ack), (Some("a"), Method::Invite)]
    );
    let state = t.result.call.promote_pem.as_ref().expect("waits");
    let cseq = state.resync_reinvite_cseq.expect("sent");
    assert_eq!(cseq, t.result.call.a_leg.dialogs[0].sip.local_cseq);

    let mut r = response(200, "OK", Method::Invite, cseq);
    r.to_tag = Some("alice".to_string());
    let done = turn(&t.result.call, &CallEvent::Response { response: r }, "a");
    assert_eq!(rule_of(&done), "promote-resync-reinvite-response");
    assert_eq!(requests(&done), vec![(Some("a"), Method::Ack)]);
    assert!(done.result.call.promote_pem.is_none());

    let refused = turn(
        &t.result.call,
        &CallEvent::Response { response: response(488, "No \"way\"", Method::Invite, cseq) },
        "a",
    );
    assert_eq!(refused.result.call.state, CallModelState::Terminating);
    assert_eq!(
        refused.result.call.termination.as_ref().unwrap().cause.as_deref(),
        Some("SIP ;cause=488;text=\"No way\"")
    );
}

#[test]
fn the_callers_requests_wait_for_the_callee() {
    let c = promoted();
    let t = turn(&c, &CallEvent::Request { request: request(Method::Update, 8) }, "a");
    assert_eq!((rule_of(&t), statuses(&t)), ("promote-reject-a-reinvite-update", vec![(Some("a"), 491)]));
    let t = turn(&c, &CallEvent::Request { request: request(Method::Message, 8) }, "a");
    assert_eq!((rule_of(&t), statuses(&t)), ("promote-reject-a-other-indialog", vec![(Some("a"), 488)]));
    let t = turn(&c, &CallEvent::Request { request: request(Method::Ack, 7) }, "a");
    assert_eq!(rule_of(&t), "promote-absorb-a-ack");
    assert!(t.result.effects.outbound.is_empty());
}

#[test]
fn a_callee_that_fails_after_all_ends_the_answered_call() {
    let t = turn(
        &promoted(),
        &CallEvent::Response { response: response(486, "Busy Here", Method::Invite, 1) },
        "b-1",
    );
    assert_eq!(rule_of(&t), "promote-b-fails-post-promote");
    assert_eq!(requests(&t), vec![(Some("a"), Method::Bye)]);
    assert_eq!(
        t.result.call.termination.as_ref().unwrap().cause.as_deref(),
        Some("SIP ;cause=486;text=\"Busy Here\"")
    );
}

#[test]
fn a_cause_without_words_says_so() {
    assert_eq!(reason_header(500, ""), "SIP ;cause=500;text=\"Unspecified\"");
    assert_eq!(reason_header(500, "\"\""), "SIP ;cause=500;text=\"Unspecified\"");
}

#[test]
fn descriptions_are_compared_by_their_media() {
    assert!(sdp_media_equivalent(&OFFER.to_vec(), &OFFER.to_vec()));
    assert!(!sdp_media_equivalent(&OFFER.to_vec(), &OTHER.to_vec()));
    assert!(sdp_media_equivalent(
        &b"v=0\r\no=- 1 1\r\nm=audio 1 RTP/AVP 0\r\n".to_vec(),
        &b"v=0\no=- 2 2\nm=audio 1 RTP/AVP 0\n".to_vec()
    ));
}

#[test]
fn the_rules_are_dormant_until_the_route_switches_the_service_on() {
    assert_eq!(promote_pem_rules().len(), 8);
    let t = turn(&ringing(), &early_media(false), "b-1");
    assert_eq!(rule_of(&t), "relay-provisional");
}
