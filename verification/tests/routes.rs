use b2bua_rules::call::{Config, InviteSnapshot};
use b2bua_rules::routes::{
    dialog_route_set, read_rack, restate_rack, rewrite_rack, split_top_level_commas,
    uac_route_set, uas_route_set,
};
use b2bua_rules::wire::{HostPort, Method, SipHeader, SipResponse};

const PROXY_ROUTE: &str = "<sip:10.0.0.9:5060;lr>";

/// A port no reader accepts: the message parses, the recorded route does not.
const UNREADABLE_RR: &str = "<sip:10.0.0.9:70596;lr>";

fn header(name: &str, value: &str) -> SipHeader {
    SipHeader { name: name.to_string(), value: value.to_string() }
}

fn ok_200(record_route: &str) -> SipResponse {
    SipResponse {
        status: 200,
        reason: "OK".to_string(),
        cseq: 1,
        method: Method::Invite,
        to_tag: Some("bob".to_string()),
        headers: vec![
            header("Via", "SIP/2.0/UDP 10.244.1.5:5060;branch=z9hG4bKb"),
            header("From", "<sip:svc@10.0.0.9:5060>;tag=svc"),
            header("To", "<sip:bob@10.244.2.7:5060>;tag=bob"),
            header("Call-ID", "c1@x"),
            header("CSeq", "1 INVITE"),
            header("Record-Route", record_route),
            header("Contact", "<sip:bob@10.244.2.7:5060>"),
            header("Content-Length", "0"),
        ],
        relayable: vec![],
        body: vec![],
    }
}

fn invite(record_route: &str) -> InviteSnapshot {
    InviteSnapshot {
        cseq: 1,
        from_uri: "sip:alice@10.0.0.1:5060".to_string(),
        to_uri: "sip:svc@10.0.0.9:5060".to_string(),
        headers: vec![
            header("Via", "SIP/2.0/UDP 10.0.0.9:5060;branch=z9hG4bKa"),
            header("Max-Forwards", "70"),
            header("From", "<sip:alice@10.0.0.1:5060>;tag=alice"),
            header("To", "<sip:svc@10.0.0.9:5060>"),
            header("Call-ID", "c1@x"),
            header("CSeq", "1 INVITE"),
            header("Record-Route", record_route),
            header("Contact", "<sip:alice@10.0.0.1:5060>"),
            header("Content-Length", "0"),
        ],
        body: vec![],
        held_sdp: None,
    }
}

fn direct_config() -> Config {
    Config {
        keepalive_interval_sec: 300,
        keepalive_timeout_sec: 32,
        ack_timeout_ms: 32_000,
        limiter_refresh_sec: 60,
        refer_subscription_expiry_sec: 60,
        refer_overall_safety_sec: 120,
        refer_reinvite_answer_sec: 32,
        no_answer_ceiling_sec: 170,
        outbound_proxy: None,
        worker_allowed_target_suffixes: vec![],
        reserved_ext: Vec::new(),
        keepalive_cseq_reuse: false,
    }
}

fn proxied_config() -> Config {
    Config {
        outbound_proxy: Some(HostPort { host: "10.0.0.9".to_string(), port: 5060 }),
        ..direct_config()
    }
}

#[test]
fn an_unreadable_record_route_never_yields_an_empty_route_set() {
    let config = proxied_config();

    let resp = ok_200(UNREADABLE_RR);
    assert!(uac_route_set(&resp).is_err(), "the fixture's recorded route must not read");
    assert_eq!(
        dialog_route_set(&config, uac_route_set(&resp)),
        vec![PROXY_ROUTE.to_string()],
        "UAC side: an unreadable recorded route routes via the front proxy, not pod-direct",
    );

    let req = invite(UNREADABLE_RR);
    assert!(uas_route_set(&req).is_err(), "the fixture's recorded route must not read");
    assert_eq!(
        dialog_route_set(&config, uas_route_set(&req)),
        vec![PROXY_ROUTE.to_string()],
        "UAS side: same fallback",
    );
}

#[test]
fn without_a_front_proxy_the_fallback_is_empty_but_the_read_still_fails() {
    let config = direct_config();
    let resp = ok_200(UNREADABLE_RR);
    assert!(uac_route_set(&resp).is_err());
    assert!(dialog_route_set(&config, uac_route_set(&resp)).is_empty());
}

#[test]
fn readable_recorded_routes_keep_their_dialog_order() {
    let config = proxied_config();
    let combined = "<sip:10.0.0.9:5060;outbound;lr>,<sip:10.0.0.9:5060;target=1;lr>";

    let resp = ok_200(combined);
    assert_eq!(
        dialog_route_set(&config, uac_route_set(&resp)),
        vec![
            "<sip:10.0.0.9:5060;target=1;lr>".to_string(),
            "<sip:10.0.0.9:5060;outbound;lr>".to_string(),
        ],
    );

    let req = invite(combined);
    assert_eq!(
        dialog_route_set(&config, uas_route_set(&req)),
        vec![
            "<sip:10.0.0.9:5060;outbound;lr>".to_string(),
            "<sip:10.0.0.9:5060;target=1;lr>".to_string(),
        ],
    );
}

#[test]
fn commas_inside_brackets_and_quotes_separate_nothing() {
    assert_eq!(
        split_top_level_commas("\"a,b\" <sip:x>,<sip:y,z>"),
        vec!["\"a,b\" <sip:x>".to_string(), "<sip:y,z>".to_string()]
    );
}

#[test]
fn a_rack_is_read_and_restated() {
    let t = read_rack("7 3 INVITE").expect("reads");
    assert_eq!((t.rseq, t.cseq, t.names_invite), (7, 3, true));
    assert!(!read_rack("7 3 UPDATE").expect("reads").names_invite);
    assert!(read_rack("seven 3 INVITE").is_none());
    assert!(read_rack("7 3").is_none());
    assert_eq!(rewrite_rack("7 3 INVITE", 9), "7 9 INVITE");
    assert_eq!(restate_rack("7 3 INVITE", Some(5), 9), "5 9 INVITE");
}
