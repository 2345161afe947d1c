use b2bua_rules::call::{Direction, LegState, TimerKind};
use b2bua_rules::docgen::{
    check_registry, render_mermaid, render_registry, render_registry_html, sanitize_label,
    service_graph, Edge,
};
use b2bua_rules::model::{
    Effect, Guard, Handler, Match, RuleDefinition, ServiceDef, ServiceInit, Transition,
    SERVICE_LAYER,
};
use b2bua_rules::refer_transfer::machine::transfer_service_def;
use b2bua_rules::wire::Method;

fn stub_rules() -> Vec<RuleDefinition> {
    vec![RuleDefinition {
        id: "stub-advance".to_string(),
        layer: SERVICE_LAYER,
        overrides: vec![],
        matcher: Match::request().method(Method::Info),
        handler: Handler::Absorb,
        machine: Some("stub".to_string()),
        active_states: vec!["S0".to_string()],
        transitions: vec![Transition { from: "S0".to_string(), to: "S1".to_string() }],
        effects: vec![],
        runs_while_terminating: false,
    }]
}

fn stub_def() -> ServiceDef {
    ServiceDef { id: "stub".to_string(), init: ServiceInit::Dormant, rules: stub_rules() }
}

fn assert_well_formed_mermaid(md: &str, machine: &str) {
    assert!(md.starts_with(&format!("# State machine: `{machine}`")), "title");
    assert!(md.contains("```mermaid\nstateDiagram-v2\n"), "mermaid fence + diagram type");
    assert!(md.trim_end().ends_with("```"), "closing fence");
}

#[test]
fn label_semicolon_is_neutralised() {
    assert_eq!(sanitize_label("terminated;timeout"), "terminated,timeout");
    assert_eq!(sanitize_label("a\nb\rc"), "a b c");
}

#[test]
fn stub_service_diagram_is_derived_from_rules() {
    let g = service_graph(&stub_def());
    assert_eq!(g.id, "stub");
    assert_eq!(g.states, vec!["S0", "S1"]);
    assert_eq!(
        g.edges,
        vec![
            Edge { from: "S0".into(), to: "S1".into(), label: "INFO".into() },
            Edge { from: "[*]".into(), to: "S0".into(), label: String::new() },
        ]
    );
    let md = render_mermaid(&g);
    assert_well_formed_mermaid(&md, "stub");
    assert!(md.contains("S0 --> S1 : INFO"));
    assert!(md.contains("[*] --> S0"));
}

#[test]
fn render_registry_is_service_machines_only() {
    let rendered = render_registry(&[stub_def()]);
    let ids: Vec<&str> = rendered.iter().map(|(id, _)| id.as_str()).collect();
    assert_eq!(ids, vec!["stub"]);
}

#[test]
fn check_registry_flags_foreign_machine() {
    let bad = ServiceDef { id: "other".to_string(), init: ServiceInit::Dormant, rules: stub_rules() };
    let errs = check_registry(&[bad]);
    assert_eq!(errs.len(), 1, "foreign-machine rule flagged");
    assert!(check_registry(&[stub_def()]).is_empty());
}

#[test]
fn violations_name_service_rule_and_machine() {
    let bad = ServiceDef { id: "other".to_string(), init: ServiceInit::Dormant, rules: stub_rules() };
    assert_eq!(
        check_registry(&[bad]),
        vec!["service 'other' contributes rule 'stub-advance' bound to a foreign machine 'stub'"]
    );
    let mut rules = stub_rules();
    rules[0].machine = None;
    let free = ServiceDef { id: "stub".to_string(), init: ServiceInit::Dormant, rules };
    assert_eq!(
        check_registry(&[free]),
        vec!["service 'stub' contributes machine-less rule 'stub-advance' (use a core rule instead)"]
    );
}

#[test]
fn a_clean_label_stays_as_it_is() {
    assert_eq!(sanitize_label(&sanitize_label("a;b\nc")), "a,b c");
    assert_eq!(sanitize_label("plain"), "plain");
    assert_eq!(sanitize_label(""), "");
}

#[test]
fn a_rule_without_moves_loops_in_each_of_its_states() {
    let mut rules = stub_rules();
    rules[0].transitions = vec![];
    rules[0].active_states = vec!["B".to_string(), "A".to_string(), "B".to_string()];
    let g = service_graph(&ServiceDef { id: "stub".to_string(), init: ServiceInit::Dormant, rules });
    assert_eq!(g.states, vec!["A", "B"]);
    assert_eq!(
        g.edges,
        vec![
            Edge { from: "A".into(), to: "A".into(), label: "INFO".into() },
            Edge { from: "B".into(), to: "B".into(), label: "INFO".into() },
            Edge { from: "[*]".into(), to: "A".into(), label: String::new() },
            Edge { from: "[*]".into(), to: "B".into(), label: String::new() },
        ]
    );
}

#[test]
fn the_end_of_a_machine_is_no_state() {
    let mut rules = stub_rules();
    rules[0].transitions = vec![Transition { from: "S0".to_string(), to: "[*]".to_string() }];
    let g = service_graph(&ServiceDef { id: "stub".to_string(), init: ServiceInit::Dormant, rules });
    assert_eq!(g.states, vec!["S0"]);
    assert_eq!(g.edges[0].to, "[*]");
}

#[test]
fn rules_of_other_machines_are_not_drawn() {
    let mut rules = stub_rules();
    rules[0].machine = Some("foreign".to_string());
    let g = service_graph(&ServiceDef { id: "stub".to_string(), init: ServiceInit::Dormant, rules });
    assert!(g.states.is_empty());
    assert!(g.edges.is_empty());
}

#[test]
fn labels_read_input_then_output() {
    let mut rules = stub_rules();
    rules[0].matcher = Match::response()
        .methods(vec![Method::Invite, Method::Update])
        .status_class(2)
        .direction(Direction::FromB)
        .leg_states(vec![LegState::Trying, LegState::Early])
        .filter(Guard::FromTarget);
    rules[0].effects = vec![
        Effect::Originate { method: Method::Ack, label: "ACK".to_string() },
        Effect::LifecycleCommand { label: "merge".to_string() },
    ];
    let g = service_graph(&ServiceDef { id: "stub".to_string(), init: ServiceInit::Dormant, rules });
    assert_eq!(
        g.edges[0].label,
        "INVITE/UPDATE 2xx (B) [leg Trying/Early] [guard] ⇒ ACK · merge"
    );
}

#[test]
fn triggers_of_every_kind_have_a_name() {
    let label = |m: Match| {
        let mut rules = stub_rules();
        rules[0].matcher = m;
        service_graph(&ServiceDef { id: "stub".to_string(), init: ServiceInit::Dormant, rules }).edges[0].label.clone()
    };
    assert_eq!(label(Match::request()), "request");
    let publish = Method::Other { name: "PUBLISH".to_string() };
    assert_eq!(label(Match::request().methods(vec![publish, Method::Info])), "PUBLISH/INFO");
    assert_eq!(label(Match::request().direction(Direction::FromA)), "request (A)");
    assert_eq!(label(Match::response().status_code(481)), "response 481");
    assert_eq!(label(Match::timer().timer_type(TimerKind::NoAnswer)), "timer NoAnswer");
    assert_eq!(label(Match::timer()), "timer ");
    assert_eq!(label(Match::timeout()), "timeout ");
    assert_eq!(label(Match::cancelled()), "CANCEL");
    assert_eq!(label(Match::internal_event()), "event");
    assert_eq!(label(Match::internal_event().topic("t")), "t");
    assert_eq!(label(Match::internal_event().topic("t").outcome("o")), "t/o");
}

#[test]
fn the_transfer_machine_is_drawn_whole() {
    let def = transfer_service_def();
    assert_eq!(def.id, "transfer");
    assert_eq!(def.rules.len(), 19);
    assert!(check_registry(&[transfer_service_def()]).is_empty());
    let g = service_graph(&def);
    assert_eq!(g.states, vec!["ARealigning", "CRealigning", "CRinging", "ReferAuthorizing"]);
    let md = render_mermaid(&g);
    assert_well_formed_mermaid(&md, "transfer");
    assert!(md.contains("[*] --> ReferAuthorizing\n"));
    assert!(md.contains("NOTIFY terminated,timeout → referrer"), "no semicolon is left in a label");
    assert!(md.contains("    CRealigning --> ARealigning : INVITE 2xx (B) [leg Confirmed] [guard] ⇒ ACK → C (c-realign answered) · re-INVITE → A (a-realign, C's active SDP) · cancel C / arm A re-INVITE watchdog\n"));
}

#[test]
fn the_page_draws_every_machine() {
    let page = render_registry_html(&[stub_def(), transfer_service_def()]);
    assert!(page.starts_with("<!DOCTYPE html>\n<html lang=\"en\">\n"));
    assert!(page.ends_with("</script>\n</body>\n</html>\n"));
    assert!(page.contains("    <h2><code>stub</code></h2>\n    <pre class=\"mermaid\">\nstateDiagram-v2\n    S0\n    S1\n    S0 --> S1 : INFO\n    [*] --> S0\n    </pre>\n"));
    assert!(page.contains("<h2><code>transfer</code></h2>"));
    assert_eq!(page.matches("<section>").count(), 2);
    assert_eq!(page.matches("<pre class=\"mermaid\">").count(), 2);
    assert!(page.find("<code>stub</code>") < page.find("<code>transfer</code>"));
    assert!(!render_registry_html(&[]).contains("<pre class=\"mermaid\">"));
}

#[test]
fn a_document_has_its_title_and_fence() {
    let md = render_mermaid(&service_graph(&stub_def()));
    assert_eq!(
        md,
        "# State machine: `stub`\n\n<!-- GENERATED by `cargo run -p xtask -- state-machine-docs` from the composed\n     service registry (ADR-0016). Do not edit by hand; regenerate instead. -->\n\n```mermaid\nstateDiagram-v2\n    S0\n    S1\n    S0 --> S1 : INFO\n    [*] --> S0\n```\n"
    );
}
