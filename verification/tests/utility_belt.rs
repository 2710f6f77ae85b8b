use grok_core::utility_belt::{
    build_registry, fallback_for_request, CapabilityReport, CapabilityState, CoreUtilityBeltRegistry,
    PermissionMode, UtilityBeltFacts,
};
use serde_json::Value;

fn find<'a>(reg: &'a CoreUtilityBeltRegistry, name: &str) -> &'a CapabilityReport {
    reg.capabilities
        .iter()
        .find(|c| c.capability == name)
        .expect("capability report must exist")
}

fn baseline() -> UtilityBeltFacts {
    UtilityBeltFacts {
        has_web_search: true,
        has_x_search: true,
        has_execute: true,
        has_read: true,
        has_web_fetch: true,
        has_search_tool: true,
        has_use_tool: true,
        has_image_generation: true,
        permission_mode: PermissionMode::BypassPermissions,
    }
}

fn state_json(state: CapabilityState) -> &'static str {
    match state {
        CapabilityState::Available => "AVAILABLE",
        CapabilityState::Unavailable => "UNAVAILABLE",
        CapabilityState::Degraded => "DEGRADED",
        CapabilityState::PermissionRequired => "PERMISSION_REQUIRED",
    }
}

fn registry_json(reg: &CoreUtilityBeltRegistry) -> String {
    let mut caps = Vec::new();
    for c in &reg.capabilities {
        let mut m = serde_json::Map::new();
        m.insert("capability".to_string(), Value::String(c.capability.clone()));
        m.insert("state".to_string(), Value::String(state_json(c.state).to_string()));
        if let Some(p) = &c.provider {
            m.insert("provider".to_string(), Value::String(p.clone()));
        }
        if let Some(r) = &c.reason {
            m.insert("reason".to_string(), Value::String(r.clone()));
        }
        if let Some(r) = &c.remediation {
            m.insert("remediation".to_string(), Value::String(r.clone()));
        }
        if !c.provenance.is_empty() {
            m.insert(
                "provenance".to_string(),
                Value::Array(c.provenance.iter().cloned().map(Value::String).collect()),
            );
        }
        m.insert("freshness_aware".to_string(), Value::Bool(c.freshness_aware));
        caps.push(Value::Object(m));
    }
    let mut top = serde_json::Map::new();
    top.insert("capabilities".to_string(), Value::Array(caps));
    serde_json::to_string(&Value::Object(top)).expect("registry serializes")
}

#[test]
fn available_web_capability_reports_available() {
    let reg = build_registry(baseline());
    assert_eq!(find(&reg, "web_live_search").state, CapabilityState::Available);
}

#[test]
fn unavailable_live_search_reports_unavailable_not_success() {
    let mut facts = baseline();
    facts.has_web_search = false;
    let reg = build_registry(facts);
    assert_eq!(find(&reg, "web_live_search").state, CapabilityState::Unavailable);
    let fallback = fallback_for_request(&reg, "web_live_search", "search latest", &[]);
    assert!(!fallback.executed);
    assert!(fallback.blocked);
}

#[test]
fn python_execution_availability_is_reported() {
    let reg = build_registry(baseline());
    assert_eq!(find(&reg, "python_execution").state, CapabilityState::Available);
}

#[test]
fn research_open_page_capability_is_represented() {
    let reg = build_registry(baseline());
    let report = find(&reg, "research_multitool");
    assert!(matches!(report.state, CapabilityState::Available | CapabilityState::Degraded));
}

#[test]
fn vision_capability_is_represented() {
    let reg = build_registry(baseline());
    assert_eq!(find(&reg, "vision_analysis").state, CapabilityState::Available);
}

#[test]
fn permission_required_is_distinct_from_unavailable() {
    let mut facts = baseline();
    facts.permission_mode = PermissionMode::Default;
    let reg = build_registry(facts);
    assert_eq!(find(&reg, "python_execution").state, CapabilityState::PermissionRequired);
    assert_ne!(find(&reg, "python_execution").state, CapabilityState::Unavailable);
}

#[test]
fn degraded_is_distinct_from_unavailable() {
    let mut facts = baseline();
    facts.has_x_search = false;
    let reg = build_registry(facts);
    assert_eq!(find(&reg, "x_live_search").state, CapabilityState::Degraded);
    assert_ne!(find(&reg, "x_live_search").state, CapabilityState::Unavailable);
}

#[test]
fn fallback_never_claims_execution_when_primary_unavailable() {
    let mut facts = baseline();
    facts.has_web_search = false;
    let reg = build_registry(facts);
    let decision = fallback_for_request(&reg, "web_live_search", "live query", &["web_fetch"]);
    assert!(!decision.executed);
    assert_eq!(decision.used_alternative.as_deref(), Some("web_fetch"));
}

#[test]
fn registry_output_is_deterministic() {
    let facts = baseline();
    let a = build_registry(facts.clone());
    let b = build_registry(facts);
    assert_eq!(a, b);
}

#[test]
fn reports_do_not_leak_secrets_or_private_paths() {
    let reg = build_registry(baseline());
    let serialized = registry_json(&reg);
    for forbidden in [
        "api_key",
        "secret",
        "token",
        "operator-research-private",
        "C:\\\\Users\\\\",
    ] {
        assert!(
            !serialized
                .to_ascii_lowercase()
                .contains(&forbidden.to_ascii_lowercase()),
            "registry leaked forbidden marker: {forbidden}"
        );
    }
}

#[test]
fn available_capabilities_do_not_require_fallback_interception() {
    let reg = build_registry(baseline());
    let decision = fallback_for_request(&reg, "web_live_search", "search", &["web_fetch"]);
    assert!(decision.executed);
    assert!(!decision.blocked);
    assert!(decision.used_alternative.is_none());
}

// Further cases.

#[test]
fn fallback_messages_name_the_state_and_the_alternative() {
    let mut facts = baseline();
    facts.has_execute = true;
    facts.permission_mode = PermissionMode::Plan;
    let reg = build_registry(facts);
    let d = fallback_for_request(&reg, "python_execution", "run", &["explain", "other"]);
    assert_eq!(
        d.message,
        "Requested capability 'python_execution' is PermissionRequired; primary action was not executed. Use 'explain' instead."
    );
    let d = fallback_for_request(&reg, "teleport", "go", &[]);
    assert_eq!(d.message, "Requested capability 'teleport' is Unavailable; no valid fallback is available.");
    assert!(d.blocked);
}

#[test]
fn research_and_vision_degrade_in_steps() {
    let mut facts = baseline();
    facts.has_web_fetch = false;
    facts.has_use_tool = false;
    facts.has_read = false;
    let reg = build_registry(facts.clone());
    let research = find(&reg, "research_multitool");
    assert_eq!(research.state, CapabilityState::Degraded);
    assert_eq!(research.provider.as_deref(), Some("mcp_partial"));
    assert_eq!(research.provenance, vec!["source".to_string()]);
    assert_eq!(find(&reg, "vision_analysis").provider.as_deref(), Some("generation_only"));
    facts.has_search_tool = false;
    facts.has_image_generation = false;
    let reg = build_registry(facts);
    assert_eq!(find(&reg, "research_multitool").state, CapabilityState::Unavailable);
    assert_eq!(find(&reg, "vision_analysis").state, CapabilityState::Unavailable);
    assert_eq!(reg.capabilities.len(), 7);
    assert_eq!(reg.capabilities[6].capability, "graceful_fallback");
}
