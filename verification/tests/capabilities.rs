use b2bua_rules::call::{
    AdvertiseCapabilitiesFeature, AdvertisedCapabilities, FeatureActivations, KeepaliveActivation,
    MaxDurationAnchor, PlatformActivations,
};
use b2bua_rules::capabilities::{
    declared_advert_headers, declared_in, relaying_in, Face, HeaderName,
};
use b2bua_rules::wire::{CapabilitySet, SipHeader};

/// Feature activations declaring `caps` toward the originated face only.
fn declaring(caps: AdvertisedCapabilities) -> FeatureActivations {
    FeatureActivations {
        platform: PlatformActivations {
            max_duration_sec: 3_600,
            max_duration_anchor: MaxDurationAnchor::Creation,
            keepalive: KeepaliveActivation { interval_sec: 30, max_missed: 2 },
        },
        refer: false,
        relay_first_18x_to_180: None,
        no_answer_timeout_sec: None,
        advertise_capabilities: Some(AdvertiseCapabilitiesFeature {
            toward_originator: None,
            toward_originated: Some(caps),
        }),
        charging_vector: None,
        option_tags: Vec::new(),
    }
}

fn originated(features: &FeatureActivations) -> CapabilitySet {
    declared_in(Some(features), Face::Originated).expect("the face is declared")
}

#[test]
fn declaring_the_method_half_alone_leaves_the_option_tags_unstated() {
    let features = declaring(AdvertisedCapabilities {
        allow: Some(vec!["INVITE".into(), "ACK".into(), "CANCEL".into(), "BYE".into()]),
        supported: None,
    });
    let caps = originated(&features);
    assert_eq!(caps.allow_text().as_deref(), Some("INVITE, ACK, CANCEL, BYE"));
    assert_eq!(caps.supported, None);
    assert_eq!(declared_advert_headers(Some(&features), Face::Originated), [HeaderName::Allow]);
}

#[test]
fn declaring_the_option_tag_half_alone_leaves_the_methods_unstated() {
    let features =
        declaring(AdvertisedCapabilities { allow: None, supported: Some(vec!["timer".into()]) });
    let caps = originated(&features);
    assert_eq!(caps.allow, None);
    assert_eq!(caps.supported_text().as_deref(), Some("timer"));
    assert_eq!(declared_advert_headers(Some(&features), Face::Originated), [HeaderName::Supported]);
}

#[test]
fn an_empty_half_states_the_empty_set_where_an_absent_half_states_no_line() {
    let empty = declaring(AdvertisedCapabilities {
        allow: Some(Vec::new()),
        supported: Some(Vec::new()),
    });
    let caps = originated(&empty);
    assert_eq!(caps.allow_text().as_deref(), Some(""));
    assert_eq!(caps.supported_text().as_deref(), Some(""));

    let absent = declaring(AdvertisedCapabilities { allow: None, supported: None });
    assert_eq!(originated(&absent), CapabilitySet::silent());
}

#[test]
fn a_declared_token_that_is_not_a_token_is_dropped_before_any_mint_point() {
    let features = declaring(AdvertisedCapabilities {
        allow: Some(vec!["INVITE".into(), "ACK\r\nX-Evil: injected".into()]),
        supported: None,
    });
    assert_eq!(originated(&features).allow_text().as_deref(), Some("INVITE"));
}

#[test]
fn an_undeclared_face_states_nothing_of_its_own() {
    let features = declaring(AdvertisedCapabilities { allow: None, supported: None });
    assert_eq!(declared_in(Some(&features), Face::Originator), None);
    assert_eq!(declared_in(None, Face::Originated), None);
    assert!(declared_advert_headers(None, Face::Originated).is_empty());
    assert_eq!(relaying_in(None, Face::Originator, &vec![]), CapabilitySet::silent());
    let peer = vec![
        SipHeader { name: "Allow".into(), value: "INVITE, ACK, BYE".into() },
        SipHeader { name: "Accept".into(), value: "application/sdp, application/isup".into() },
    ];
    let relayed = relaying_in(None, Face::Originator, &peer);
    assert_eq!(relayed.allow_text().as_deref(), Some("INVITE, ACK, BYE"));
    assert_eq!(relayed.supported, None);
    assert_eq!(relayed.accept_text().as_deref(), Some("application/sdp, application/isup"));
}

#[test]
fn a_declared_half_stands_over_the_relayed_one() {
    let features = declaring(AdvertisedCapabilities {
        allow: Some(vec!["INVITE".into(), "ACK".into(), "BYE".into()]),
        supported: None,
    });
    let peer = vec![
        SipHeader { name: "Allow".into(), value: "INVITE, ACK, BYE, REFER".into() },
        SipHeader { name: "Supported".into(), value: "timer".into() },
    ];
    let caps = relaying_in(Some(&features), Face::Originated, &peer);
    assert_eq!(caps.allow_text().as_deref(), Some("INVITE, ACK, BYE"));
    assert_eq!(caps.supported_text().as_deref(), Some("timer"));
    assert_eq!(caps.accept, None);
}

#[test]
fn the_callers_leg_is_the_originators_face() {
    assert_eq!(Face::of_leg("a"), Face::Originator);
    assert_eq!(Face::of_leg("b-1"), Face::Originated);
    assert_eq!(Face::of_leg(""), Face::Originated);
}
