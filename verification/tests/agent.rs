use grok_core::agent::{
    core_utility_belt_fallback, core_utility_belt_registry, field_boots_requested_kinds,
    utility_belt_facts, HostedToolKind, ToolPresence,
};
use grok_core::field_boots::FieldBootsRequest;
use grok_core::utility_belt::{CapabilityState, CoreUtilityBeltRegistry, PermissionMode};

fn nothing() -> ToolPresence {
    ToolPresence {
        web_search: false,
        execute: false,
        read: false,
        web_fetch: false,
        search_tool: false,
        use_tool: false,
        image_gen: false,
        image_to_video: false,
        reference_to_video: false,
    }
}

fn state(reg: &CoreUtilityBeltRegistry, name: &str) -> CapabilityState {
    reg.capabilities
        .iter()
        .find(|c| c.capability == name)
        .expect("capability listed")
        .state
}

#[test]
fn hosted_tools_count_as_search() {
    let facts = utility_belt_facts(
        &nothing(),
        &vec![HostedToolKind::WebSearch, HostedToolKind::XSearch],
        PermissionMode::Default,
    );
    assert!(facts.has_web_search);
    assert!(facts.has_x_search);
    assert!(!facts.has_execute);
    assert!(!facts.has_image_generation);
}

#[test]
fn video_generators_count_as_image_generation() {
    let mut p = nothing();
    p.reference_to_video = true;
    let facts = utility_belt_facts(&p, &vec![], PermissionMode::Plan);
    assert!(facts.has_image_generation);
    assert!(!facts.has_web_search);
    assert!(!facts.has_x_search);
    assert_eq!(facts.permission_mode, PermissionMode::Plan);
}

#[test]
fn registry_from_bridge_answers() {
    let mut p = nothing();
    p.web_search = true;
    let reg = core_utility_belt_registry(&p, &vec![HostedToolKind::Other], PermissionMode::Default);
    assert_eq!(state(&reg, "web_live_search"), CapabilityState::Available);
    let reg = core_utility_belt_registry(&nothing(), &vec![], PermissionMode::Default);
    assert_eq!(state(&reg, "web_live_search"), CapabilityState::Unavailable);
}

#[test]
fn fallback_when_search_missing() {
    let decision = core_utility_belt_fallback(
        &nothing(),
        &vec![],
        PermissionMode::Default,
        "web_live_search",
        "look up the release notes",
        &["web_fetch"],
    );
    assert!(!decision.executed);
    assert_eq!(decision.requested_capability, "web_live_search");
}

#[test]
fn requested_kinds_sorted_and_unique() {
    let mut request = FieldBootsRequest::new("build");
    request.required_tool_kinds = vec![
        "read".to_string(),
        "execute".to_string(),
        "read".to_string(),
    ];
    assert_eq!(
        field_boots_requested_kinds(&request),
        vec!["execute".to_string(), "read".to_string()]
    );
}
