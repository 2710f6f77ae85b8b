use grok_core::field_boots::{
    evaluate_field_boots, sanitize_public_text, ExecutionReadinessState, ExecutionRoute,
    FieldBootsDecision, FieldBootsRequest, KnownPrerequisite, TerrainInput,
};
use grok_core::utility_belt::{build_registry, PermissionMode, UtilityBeltFacts};
use serde_json::Value;

const OS: &str = "linux";
const ARCH: &str = "x86_64";

fn tools(keys: &[&str]) -> Vec<String> {
    keys.iter().map(|k| k.to_string()).collect()
}

fn evaluate(terrain: TerrainInput, request: FieldBootsRequest, available: &[&str]) -> FieldBootsDecision {
    evaluate_field_boots(terrain, request, &tools(available), OS, ARCH)
}

fn opt_str(m: &mut serde_json::Map<String, Value>, key: &str, v: &Option<String>) {
    if let Some(s) = v {
        m.insert(key.to_string(), Value::String(s.clone()));
    }
}

fn opt_bool(m: &mut serde_json::Map<String, Value>, key: &str, v: Option<bool>) {
    if let Some(b) = v {
        m.insert(key.to_string(), Value::Bool(b));
    }
}

fn strings(v: &[String]) -> Value {
    Value::Array(v.iter().cloned().map(Value::String).collect())
}

fn decision_json(d: &FieldBootsDecision) -> String {
    let t = &d.terrain_awareness;
    let mut terrain = serde_json::Map::new();
    terrain.insert("operating_system".into(), Value::String(t.operating_system.clone()));
    terrain.insert("architecture".into(), Value::String(t.architecture.clone()));
    let mut ws = serde_json::Map::new();
    ws.insert("workspace_label".into(), Value::String(t.workspace_context.workspace_label.clone()));
    ws.insert("repo_detected".into(), Value::Bool(t.workspace_context.repo_detected));
    terrain.insert("workspace_context".into(), Value::Object(ws));
    let mut ex = serde_json::Map::new();
    opt_bool(&mut ex, "remote_detected", t.execution_context.remote_detected);
    terrain.insert("execution_context".into(), Value::Object(ex));
    terrain.insert("shell_available".into(), Value::Bool(t.shell_available));
    terrain.insert("filesystem_available".into(), Value::Bool(t.filesystem_available));
    opt_bool(&mut terrain, "network_available", t.network_available);
    if !t.known_prerequisites.is_empty() {
        let list = t
            .known_prerequisites
            .iter()
            .map(|p| {
                let mut m = serde_json::Map::new();
                m.insert("name".into(), Value::String(p.name.clone()));
                m.insert("available".into(), Value::Bool(p.available));
                opt_str(&mut m, "source", &p.source);
                Value::Object(m)
            })
            .collect();
        terrain.insert("known_prerequisites".into(), Value::Array(list));
    }
    let mut top = serde_json::Map::new();
    top.insert("terrain_awareness".into(), Value::Object(terrain));
    let mut readiness = serde_json::Map::new();
    readiness.insert("action_class".into(), Value::String(d.readiness.action_class.clone()));
    readiness.insert("state".into(), Value::String(format!("{:?}", d.readiness.state)));
    readiness.insert("reason".into(), Value::String(d.readiness.reason.clone()));
    opt_str(&mut readiness, "remediation", &d.readiness.remediation);
    top.insert("readiness".into(), Value::Object(readiness));
    top.insert("traction_allowed".into(), Value::Bool(d.traction_allowed));
    let mut path = serde_json::Map::new();
    path.insert("chosen_route".into(), Value::String(format!("{:?}", d.pathfinder.chosen_route)));
    path.insert("reason".into(), Value::String(d.pathfinder.reason.clone()));
    top.insert("pathfinder".into(), Value::Object(path));
    let mut fp = serde_json::Map::new();
    fp.insert(
        "requested_action_class".into(),
        Value::String(d.evidence_footprint.requested_action_class.clone()),
    );
    fp.insert("result_state".into(), Value::String(d.evidence_footprint.result_state.clone()));
    top.insert("evidence_footprint".into(), Value::Object(fp));
    if !d.required_tools.is_empty() {
        top.insert("required_tools".into(), strings(&d.required_tools));
    }
    if !d.missing_prerequisites.is_empty() {
        top.insert("missing_prerequisites".into(), strings(&d.missing_prerequisites));
    }
    serde_json::to_string(&Value::Object(top)).expect("decision should serialize")
}

fn healthy_terrain() -> TerrainInput {
    TerrainInput {
        workspace_hint: Some("C:/Users/example/project".to_string()),
        repo_detected: true,
        remote_context_detected: Some(false),
        shell_available: true,
        filesystem_available: true,
        network_available: Some(true),
        known_prerequisites: vec![KnownPrerequisite {
            name: "rustc".to_string(),
            available: true,
            source: Some("doctor".to_string()),
        }],
        disk_healthy: Some(true),
        memory_healthy: Some(true),
    }
}

fn ready_request() -> FieldBootsRequest {
    let mut request = FieldBootsRequest::new("terminal_command");
    request.preview_supported = true;
    request.expensive_action = true;
    request
}

#[test]
fn healthy_local_environment_is_ready() {
    let decision = evaluate(healthy_terrain(), ready_request(), &["execute"]);
    assert_eq!(decision.readiness.state, ExecutionReadinessState::Ready);
}

#[test]
fn missing_execution_tool_is_unavailable() {
    let decision = evaluate(healthy_terrain(), ready_request(), &[]);
    assert_eq!(decision.readiness.state, ExecutionReadinessState::Unavailable);
}

#[test]
fn permission_gate_reports_permission_required() {
    let mut request = ready_request();
    request.permission_granted = false;
    let decision = evaluate(healthy_terrain(), request, &["execute"]);
    assert_eq!(decision.readiness.state, ExecutionReadinessState::PermissionRequired);
}

#[test]
fn missing_required_prerequisite_is_environment_blocked() {
    let mut request = ready_request();
    request.missing_prerequisites = vec!["nasm".to_string()];
    let decision = evaluate(healthy_terrain(), request, &["execute"]);
    assert_eq!(decision.readiness.state, ExecutionReadinessState::EnvironmentBlocked);
}

#[test]
fn constrained_resource_state_is_limited() {
    let mut request = ready_request();
    request.resource_constrained = true;
    let decision = evaluate(healthy_terrain(), request, &["execute"]);
    assert_eq!(decision.readiness.state, ExecutionReadinessState::Limited);
}

#[test]
fn local_route_is_selected_deterministically() {
    let decision = evaluate(healthy_terrain(), ready_request(), &["execute", "read"]);
    assert_eq!(decision.pathfinder.chosen_route, ExecutionRoute::Local);
}

#[test]
fn unavailable_local_route_does_not_claim_execution() {
    let decision = evaluate(healthy_terrain(), ready_request(), &[]);
    assert_eq!(decision.evidence_footprint.execution_started, false);
    assert_eq!(decision.pathfinder.chosen_route, ExecutionRoute::Blocked);
}

#[test]
fn alternate_route_is_selected_only_when_it_exists() {
    let mut request = ready_request();
    request.remote_route_available = true;
    let decision = evaluate(healthy_terrain(), request, &[]);
    assert_eq!(decision.pathfinder.chosen_route, ExecutionRoute::Remote);
    assert_eq!(decision.readiness.state, ExecutionReadinessState::Ready);
}

#[test]
fn no_available_route_is_blocked() {
    let decision = evaluate(healthy_terrain(), ready_request(), &[]);
    assert_eq!(decision.pathfinder.chosen_route, ExecutionRoute::Blocked);
    assert_eq!(decision.readiness.state, ExecutionReadinessState::Unavailable);
}

#[test]
fn preview_capability_is_represented_correctly() {
    let decision = evaluate(healthy_terrain(), ready_request(), &["execute"]);
    assert!(decision.safe_step_mode.preview_supported);
    assert!(decision.safe_step_mode.preview_recommended);
    assert!(!decision.safe_step_mode.preview_used);
}

#[test]
fn irreversible_review_required_state_is_preserved() {
    let mut request = ready_request();
    request.irreversible_action = true;
    request.preview_used = false;
    let decision = evaluate(healthy_terrain(), request, &["execute"]);
    assert!(decision.recovery_grip.irreversible_action_requires_review);
}

#[test]
fn checkpoint_and_recovery_availability_is_surfaced() {
    let mut request = ready_request();
    request.checkpoint_available = true;
    request.resume_available = true;
    request.rollback_available = true;
    let decision = evaluate(healthy_terrain(), request, &["execute"]);
    assert!(decision.recovery_grip.checkpoint_available);
    assert!(decision.recovery_grip.resume_available);
    assert!(decision.recovery_grip.rollback_available);
}

#[test]
fn execution_footprint_distinguishes_readiness_and_execution_progress() {
    let mut request = ready_request();
    request.execution_started = true;
    request.execution_completed = false;
    let in_progress = evaluate(healthy_terrain(), request, &["execute"]);
    assert_eq!(in_progress.evidence_footprint.result_state, "in_progress");

    let complete = evaluate(
        healthy_terrain(),
        FieldBootsRequest {
            execution_started: true,
            execution_completed: true,
            result_state: Some("succeeded".to_string()),
            ..ready_request()
        },
        &["execute"],
    );
    assert_eq!(complete.evidence_footprint.result_state, "succeeded");
}

#[test]
fn output_does_not_leak_secrets() {
    let mut request = ready_request();
    request.action_class = "run with TOKEN=abcd".to_string();
    request.result_state = Some("api_key leaked".to_string());
    let decision = evaluate(healthy_terrain(), request, &["execute"]);
    let json = decision_json(&decision);
    assert!(!json.to_ascii_lowercase().contains("token"));
    assert!(!json.to_ascii_lowercase().contains("api_key"));
}

#[test]
fn output_does_not_leak_private_paths() {
    let terrain = TerrainInput {
        workspace_hint: Some("C:/Users/chris/operator-research-private".to_string()),
        ..healthy_terrain()
    };
    let decision = evaluate(terrain, ready_request(), &["execute"]);
    let json = decision_json(&decision);
    assert!(!json.contains("operator-research-private"));
    assert!(!json.contains("C:/Users/chris/operator-research-private"));
}

#[test]
fn output_ordering_is_deterministic() {
    let mut request = ready_request();
    request.required_tool_kinds = tools(&["read", "execute", "read"]);
    request.missing_prerequisites = vec!["zlib".to_string(), "cmake".to_string()];
    let first = evaluate(healthy_terrain(), request.clone(), &["execute"]);
    let second = evaluate(healthy_terrain(), request, &["execute"]);
    assert_eq!(first, second);
    assert_eq!(first.required_tools, vec!["execute", "read"]);
}

#[test]
fn utility_belt_behavior_remains_unchanged() {
    let registry = build_registry(UtilityBeltFacts {
        has_web_search: true,
        has_x_search: true,
        has_execute: true,
        has_read: true,
        has_web_fetch: true,
        has_search_tool: true,
        has_use_tool: true,
        has_image_generation: true,
        permission_mode: PermissionMode::BypassPermissions,
    });
    assert_eq!(registry.capabilities.len(), 7);
    assert!(registry
        .capabilities
        .iter()
        .any(|c| c.capability == "tool_availability_registry"));
}

// Further cases.

#[test]
fn public_text_is_trimmed_or_redacted() {
    assert_eq!(sanitize_public_text("  cargo build \n"), "cargo build");
    assert_eq!(sanitize_public_text("My Secret plan"), "[redacted]");
    assert_eq!(sanitize_public_text("D:\\work\\repo"), "[redacted]");
    assert_eq!(sanitize_public_text("a/b:c"), "a/b:c");
}

#[test]
fn prerequisites_are_sorted_and_missing_ones_deduplicated() {
    let mut terrain = healthy_terrain();
    terrain.known_prerequisites = vec![
        KnownPrerequisite { name: "zlib".into(), available: true, source: None },
        KnownPrerequisite { name: "cmake".into(), available: false, source: Some("probe".into()) },
        KnownPrerequisite { name: "cmake".into(), available: true, source: None },
    ];
    let mut request = ready_request();
    request.missing_prerequisites = vec!["zlib".into(), " cmake ".into(), "zlib".into()];
    let d = evaluate(terrain, request, &["execute"]);
    let names: Vec<&str> = d.terrain_awareness.known_prerequisites.iter().map(|p| p.name.as_str()).collect();
    assert_eq!(names, vec!["cmake", "cmake", "zlib"]);
    assert!(!d.terrain_awareness.known_prerequisites[0].available);
    assert_eq!(d.missing_prerequisites, vec!["cmake".to_string(), "zlib".to_string()]);
    assert_eq!(d.readiness.reason, "Required runtime prerequisites are missing for this action.");
    assert!(!d.traction_allowed);
    assert_eq!(d.terrain_awareness.workspace_context.workspace_label, "project");
    assert_eq!(d.terrain_awareness.operating_system, "linux");
}

#[test]
fn workspace_label_is_the_last_path_segment() {
    assert_eq!(grok_core::field_boots::sanitize_workspace_label(Some("/home/dev/my-project")), "my-project");
    assert_eq!(grok_core::field_boots::sanitize_workspace_label(Some("repo")), "repo");
    assert_eq!(grok_core::field_boots::sanitize_workspace_label(Some("/srv/secret-stash")), "[redacted]");
    assert_eq!(grok_core::field_boots::sanitize_workspace_label(None), "workspace");
}

#[test]
fn workspace_label_of_a_drive_path_is_its_last_segment() {
    assert_eq!(grok_core::field_boots::sanitize_workspace_label(Some("C:/Users/example/project")), "project");
}
