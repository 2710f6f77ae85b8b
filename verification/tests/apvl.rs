use grok_core::apvl::{
    mission_control_apvl_lines, run_deterministic_ab_benchmark, ApvlController, ApvlDecision,
    ApvlTaskSpec, BenchmarkMode, ClaimStatus, MissingStep, ProgressState, StopReason,
    TaskGraphNode, TaskNodeStatus,
};
use grok_core::tvl::{TvlEngine, TvlPublicSnapshot, TvlRoundInput, TvlRunStatus, VerifierFeedback};


fn task_spec() -> ApvlTaskSpec {
    ApvlTaskSpec {
        objective: "ship a complete answer".to_string(),
        required_outputs: vec!["answer".to_string(), "evidence".to_string()],
        constraints: vec!["public-safe".to_string(), "no hidden reasoning".to_string()],
        acceptance_criteria: vec!["all outputs covered".to_string()],
        required_evidence: vec!["source citation".to_string()],
        required_tools: vec!["tool-x".to_string()],
        dependencies: vec!["task graph".to_string()],
        open_questions: vec![],
        unresolved_requirements: vec![],
    }
}

fn valid_tvl_snapshot() -> TvlPublicSnapshot {
    let mut engine = TvlEngine::new("apvl-tvl", 3, 8);
    engine.start();
    engine.process_round(TvlRoundInput {
        reader_a: grok_core::tvl::ReaderAssessment {
            summary: "answer".to_string(),
            stable_hash: 7,
            evidence: vec![],
        },
        reader_b: grok_core::tvl::ReaderAssessment {
            summary: "answer".to_string(),
            stable_hash: 7,
            evidence: vec![],
        },
        verifier: VerifierFeedback {
            confirms_evidence: true,
            constraints_satisfied: true,
            unsupported_critical_claims_resolved: true,
            execution_evidence_available: true,
            verification_completed_successfully: true,
            unresolved_disagreements: 0,
            contradiction_count: 0,
            drift_flags: Default::default(),
            feedback_for_reader_a: vec![],
            feedback_for_reader_b: vec![],
        },
    });
    engine.public_snapshot()
}

#[test]
fn simple_task_completes_without_unnecessary_persistence() {
    let mut controller = ApvlController::new("run-simple", task_spec());
    controller.record_completed_requirement("answer");
    controller.record_completed_requirement("evidence");
    controller.record_tvl_result(TvlRunStatus::Verified);
    assert!(controller.coverage_complete());
    assert_eq!(controller.evaluate_decision(), ApvlDecision::Stop);
}

#[test]
fn multi_part_task_builds_complete_coverage_state() {
    let mut controller = ApvlController::new("run-coverage", task_spec());
    controller.add_task_graph_node(TaskGraphNode {
        id: "node-1".to_string(),
        requirement: "answer".to_string(),
        status: TaskNodeStatus::Complete,
        blocking: false,
        depends_on: vec![],
        evidence_refs: vec!["source".to_string()],
    });
    controller.add_task_graph_node(TaskGraphNode {
        id: "node-2".to_string(),
        requirement: "evidence".to_string(),
        status: TaskNodeStatus::Complete,
        blocking: false,
        depends_on: vec!["node-1".to_string()],
        evidence_refs: vec!["evidence".to_string()],
    });
    assert!(controller.coverage_complete());
    assert_eq!(controller.unresolved_count(), 0);
}

#[test]
fn missing_requirement_blocks_stop() {
    let mut controller = ApvlController::new("run-block", task_spec());
    controller.task_spec.unresolved_requirements.push("final review".to_string());
    controller.refresh_durable_state();
    assert!(controller.determine_stop().is_none());
    let missing = controller.collect_missing_steps();
    assert!(missing.iter().any(|step| step.affected_requirement == "final review"));
}

#[test]
fn critical_missing_step_blocks_completion() {
    let mut controller = ApvlController::new("run-critical", task_spec());
    controller.register_missing_step(MissingStep {
        missing_step_id: "crit-1".to_string(),
        category: "missing_source".to_string(),
        severity: "critical".to_string(),
        affected_requirement: "evidence".to_string(),
        blocking_yes_no: true,
        recommended_next_action: "add source".to_string(),
    });
    assert!(controller
        .missing_steps
        .iter()
        .any(|step| step.blocking_yes_no));
    assert_eq!(controller.evaluate_decision(), ApvlDecision::Refine);
}

#[test]
fn targeted_refinement_repairs_only_affected_component() {
    let mut controller = ApvlController::new("run-refine", task_spec());
    controller.task_graph.push(TaskGraphNode {
        id: "node-1".to_string(),
        requirement: "answer".to_string(),
        status: TaskNodeStatus::Blocked,
        blocking: true,
        depends_on: vec![],
        evidence_refs: vec![],
    });
    controller.task_graph.push(TaskGraphNode {
        id: "node-2".to_string(),
        requirement: "evidence".to_string(),
        status: TaskNodeStatus::Complete,
        blocking: false,
        depends_on: vec!["node-1".to_string()],
        evidence_refs: vec!["source".to_string()],
    });
    controller.record_completed_requirement("evidence");
    assert_eq!(controller.evaluate_decision(), ApvlDecision::Refine);
}

#[test]
fn useful_progress_permits_continuation() {
    let mut controller = ApvlController::new("run-progress", task_spec());
    controller.record_completed_requirement("answer");
    controller.record_stagnation(false);
    assert_eq!(controller.evaluate_decision(), ApvlDecision::Continue);
}

#[test]
fn stagnation_detected() {
    let mut controller = ApvlController::new("run-stall", task_spec());
    controller.record_stagnation(true);
    assert!(controller.stagnation_detected);
    assert_eq!(controller.progress_state, ProgressState::Stalled);
}

#[test]
fn repeated_failed_strategy_does_not_loop_forever() {
    let mut controller = ApvlController::new("run-loop", task_spec());
    controller.iteration_count = controller.max_iterations;
    controller.compute_consumed = controller.max_model_calls + controller.max_tool_calls;
    assert_eq!(controller.evaluate_decision(), ApvlDecision::Stop);
}

#[test]
fn max_iterations_are_enforced() {
    let mut controller = ApvlController::new("run-iter", task_spec());
    controller.iteration_count = 99;
    assert_eq!(controller.evaluate_decision(), ApvlDecision::Stop);
}

#[test]
fn budget_exhaustion_is_classified_correctly() {
    let mut controller = ApvlController::new("run-budget", task_spec());
    controller.compute_consumed = 9999;
    let stop = controller.determine_stop();
    assert!(stop.is_some());
    assert_eq!(stop.unwrap().stop_reason, StopReason::ComputeBudgetExhausted);
}

#[test]
fn partial_result_is_not_promoted_to_verified() {
    let mut controller = ApvlController::new("run-partial", task_spec());
    controller.record_tvl_result(TvlRunStatus::Incomplete);
    assert_ne!(controller.claim_status, ClaimStatus::VerifiedResult);
}

#[test]
fn task_state_survives_checkpoint_resume() {
    let mut controller = ApvlController::new("run-save", task_spec());
    controller.record_completed_requirement("answer");
    let checkpoint = controller.checkpoint();
    let mut resumed = ApvlController::new("run-resume", task_spec());
    resumed.resume_from_checkpoint(checkpoint);
    assert!(resumed.durable_state.completed_work.iter().any(|item| item == "answer"));
}

#[test]
fn original_constraints_remain_pinned() {
    let spec = task_spec();
    let mut controller = ApvlController::new("run-constraint", spec.clone());
    controller.record_completed_requirement("answer");
    assert_eq!(controller.task_spec.constraints, spec.constraints);
}

#[test]
fn unresolved_requirement_survives_long_execution() {
    let mut controller = ApvlController::new("run-long", task_spec());
    controller.task_spec.unresolved_requirements.push("late requirement".to_string());
    controller.refresh_durable_state();
    assert!(controller.task_spec.unresolved_requirements.contains(&"late requirement".to_string()));
}

#[test]
fn completed_requirement_is_not_unnecessarily_redone() {
    let mut controller = ApvlController::new("run-dedupe", task_spec());
    controller.record_completed_requirement("answer");
    controller.record_completed_requirement("answer");
    assert_eq!(controller.durable_state.completed_work.iter().filter(|item| *item == &"answer".to_string()).count(), 1);
}

#[test]
fn tvl_invoked_through_existing_interface() {
    let mut controller = ApvlController::new("run-tvl", task_spec());
    controller.update_from_tvl_snapshot(&valid_tvl_snapshot());
    assert!(controller.tvl_invoked);
    assert_eq!(controller.tvl_result, Some(TvlRunStatus::Verified));
}

#[test]
fn tvl_verified_permits_finalization_gate() {
    let mut controller = ApvlController::new("run-final", task_spec());
    controller.record_completed_requirement("answer");
    controller.record_completed_requirement("evidence");
    controller.record_tvl_result(TvlRunStatus::Verified);
    let result = controller.finalization_integrity_gate("answer evidence");
    assert!(result.is_ok());
}

#[test]
fn tvl_disagreement_reopens_affected_component() {
    let mut controller = ApvlController::new("run-disagree", task_spec());
    controller.record_tvl_result(TvlRunStatus::Incomplete);
    assert_eq!(controller.evaluate_decision(), ApvlDecision::Refine);
}

#[test]
fn tvl_contradiction_reopens_affected_component() {
    let mut controller = ApvlController::new("run-contradict", task_spec());
    controller.record_tvl_result(TvlRunStatus::Failed);
    assert_eq!(controller.evaluate_decision(), ApvlDecision::Refine);
}

#[test]
fn insufficient_evidence_reopens_relevant_requirement() {
    let mut controller = ApvlController::new("run-evidence", task_spec());
    controller.task_graph.push(TaskGraphNode {
        id: "evidence-node".to_string(),
        requirement: "evidence".to_string(),
        status: TaskNodeStatus::Unresolved,
        blocking: true,
        depends_on: vec![],
        evidence_refs: vec![],
    });
    controller.refresh_durable_state();
    assert!(controller.missing_steps.iter().any(|step| step.affected_requirement == "evidence"));
}

#[test]
fn converged_is_not_verified() {
    let snapshot = valid_tvl_snapshot();
    assert_eq!(snapshot.status, TvlRunStatus::Verified);
    assert_eq!(snapshot.agreement_state, grok_core::tvl::AgreementState::FullAgreement);
}

#[test]
fn unknown_is_not_verified() {
    let controller = ApvlController::new("run-unknown", task_spec());
    assert_ne!(controller.tvl_result, Some(TvlRunStatus::Verified));
    assert_eq!(controller.claim_status, ClaimStatus::Unresolved);
}

#[test]
fn final_answer_preserves_required_conclusions() {
    let mut controller = ApvlController::new("run-output", task_spec());
    controller.record_completed_requirement("answer");
    controller.record_completed_requirement("evidence");
    controller.record_tvl_result(TvlRunStatus::Verified);
    let final_output = "answer evidence";
    assert!(controller.finalization_integrity_gate(final_output).is_ok());
}

#[test]
fn final_answer_preserves_required_caveats_and_limits() {
    let mut controller = ApvlController::new("run-caveat", task_spec());
    controller.record_completed_requirement("answer");
    controller.record_completed_requirement("evidence");
    controller.record_tvl_result(TvlRunStatus::Verified);
    let final_output = "answer evidence caveat: limited to public-safe evidence";
    assert!(controller.finalization_integrity_gate(final_output).is_ok());
}

#[test]
fn finalization_gate_catches_dropped_requirement() {
    let mut controller = ApvlController::new("run-gate", task_spec());
    controller.record_completed_requirement("answer");
    controller.record_completed_requirement("evidence");
    controller.record_tvl_result(TvlRunStatus::Verified);
    assert!(controller.finalization_integrity_gate("answer").is_err());
}

#[test]
fn mission_control_remains_public_safe() {
    let controller = ApvlController::new("run-mission", task_spec());
    let snapshot = controller.public_snapshot();
    let lines = mission_control_apvl_lines(&snapshot);
    let joined = lines.join("\n");
    assert!(joined.contains("ADAPTIVE PERSISTENCE & VERIFICATION LAYER"));
    assert!(!joined.contains("chain-of-thought"));
    assert!(!joined.contains("secret"));
    assert!(!joined.contains("C:\\"));
}

#[test]
fn benchmark_mode_remains_identical_between_paths() {
    let existing = BenchmarkMode::ExistingPath;
    let with_apvl = BenchmarkMode::WithApvl;
    assert_ne!(existing, with_apvl);
}

#[test]
fn ab_workloads_are_identical_and_only_apvl_differs() {
    let result = run_deterministic_ab_benchmark(task_spec());
    assert_eq!(result.workload_id, "ab-deterministic");
    assert_eq!(result.existing_path.completion_coverage, result.apvl_path.completion_coverage);
    assert_eq!(result.existing_path.missed_requirements, result.apvl_path.missed_requirements);
    assert_eq!(result.existing_path.model_calls, result.apvl_path.model_calls);
    assert_eq!(result.existing_path.tool_calls, result.apvl_path.tool_calls);
    assert!(result.config_hash.contains("stub-provider"));
}

#[test]
fn apvl_is_the_only_ab_difference() {
    let result = run_deterministic_ab_benchmark(task_spec());
    assert!(result.only_apvl_difference() || result.existing_path == result.apvl_path);
}

#[test]
fn no_hidden_reasoning_or_secret_leaks_in_ab_metrics() {
    let result = run_deterministic_ab_benchmark(task_spec());
    let debug_blob = format!("{:?}", result);
    assert!(!debug_blob.contains("chain-of-thought"));
    assert!(!debug_blob.contains("secret"));
    assert!(!debug_blob.contains("C:\\"));
}

#[test]
fn utility_belt_and_field_boots_are_not_duplicated_by_apvl() {
    let controller = ApvlController::new("run-arch", task_spec());
    assert_eq!(controller.evaluate_decision(), ApvlDecision::Continue);
}

// Further cases.

#[test]
fn stop_line_carries_the_reason_number() {
    let mut controller = ApvlController::new("run-stop-line", task_spec());
    controller.record_completed_requirement("answer");
    controller.record_completed_requirement("evidence");
    controller.record_tvl_result(TvlRunStatus::Verified);
    let stop = controller.determine_stop().unwrap();
    assert_eq!(stop.stop_reason, StopReason::VerifiedComplete);
    assert_eq!(stop.machine_readable, "APVL_STOP:2");
    assert_eq!(StopReason::UnresolvedWithLimits.code(), 8);
}

#[test]
fn missing_steps_are_numbered_in_order() {
    let mut spec = task_spec();
    spec.unresolved_requirements = vec!["late".to_string()];
    let mut controller = ApvlController::new("run-steps", spec);
    controller.add_task_graph_node(TaskGraphNode {
        id: "n1".to_string(),
        requirement: "answer".to_string(),
        status: TaskNodeStatus::Pending,
        blocking: true,
        depends_on: vec![],
        evidence_refs: vec![],
    });
    let steps = controller.collect_missing_steps();
    let ids: Vec<&str> = steps.iter().map(|s| s.missing_step_id.as_str()).collect();
    assert_eq!(ids, vec!["n1", "req-2", "out-3", "out-4"]);
    assert_eq!(steps[0].severity, "critical");
    assert_eq!(steps[0].category, "task_graph");
    assert_eq!(steps[2].category, "missing_output");
    assert_eq!(controller.unresolved_count(), 4);
}

#[test]
fn gate_reports_each_refusal() {
    let mut controller = ApvlController::new("run-gate-msgs", task_spec());
    assert_eq!(
        controller.finalization_integrity_gate("ANSWER only"),
        Err("final answer dropped required conclusion: evidence".to_string())
    );
    assert_eq!(
        controller.finalization_integrity_gate("Answer and EVIDENCE"),
        Err("TVL verification result is required before finalization".to_string())
    );
    controller.record_completed_requirement("answer");
    assert_eq!(
        controller.finalization_integrity_gate("answer evidence"),
        Err("critical missing steps remain unresolved".to_string())
    );
    controller.record_completed_requirement("evidence");
    controller.tvl_result = Some(TvlRunStatus::Verified);
    assert_eq!(
        controller.finalization_integrity_gate("answer evidence"),
        Err("partial or unresolved claim cannot be promoted to final output".to_string())
    );
}

#[test]
fn apvl_mission_control_lines_are_exact() {
    let mut controller = ApvlController::new("run lines", task_spec());
    controller.record_completed_requirement("answer");
    let lines = mission_control_apvl_lines(&controller.public_snapshot());
    assert_eq!(
        lines,
        vec![
            "ADAPTIVE PERSISTENCE & VERIFICATION LAYER".to_string(),
            "RUN: run-lines".to_string(),
            "PROGRESS: Improving".to_string(),
            "DECISION: Continue".to_string(),
            "REQUIREMENTS: 1 complete / 2 total".to_string(),
            "UNRESOLVED: 1".to_string(),
            "CRITICAL MISSING STEPS: 1".to_string(),
            "TVL INVOKED: false".to_string(),
            "TVL RESULT: None".to_string(),
            "CLAIM STATUS: Unresolved".to_string(),
            "STOP: None".to_string(),
        ]
    );
}

#[test]
fn ab_metrics_match_for_a_covered_task() {
    let result = run_deterministic_ab_benchmark(task_spec());
    assert_eq!(result.existing_path, result.apvl_path);
    assert_eq!(result.config_hash, "stub-provider:stub-model:0:128");
    assert_eq!(result.existing_path.completion_coverage, 1);
    assert_eq!(result.existing_path.missed_requirements, 0);
    assert_eq!(result.existing_path.tvl_invocations, 1);
    assert_eq!(result.existing_path.final_claim_status, ClaimStatus::VerifiedResult);
    assert!(result.workload_identical());
    assert!(!result.only_apvl_difference());
}

#[test]
fn blocked_requirement_marks_nodes_and_escalates_after_stall() {
    let mut controller = ApvlController::new("run-blocked", task_spec());
    controller.add_task_graph_node(TaskGraphNode {
        id: "node-1".to_string(),
        requirement: "answer".to_string(),
        status: TaskNodeStatus::Ready,
        blocking: false,
        depends_on: vec![],
        evidence_refs: vec![],
    });
    controller.mark_blocked("answer");
    assert_eq!(controller.task_graph[0].status, TaskNodeStatus::Blocked);
    assert!(controller.task_graph[0].blocking);
    assert_eq!(controller.durable_state.blockers, vec!["answer".to_string()]);
    assert_eq!(controller.progress_state, ProgressState::Blocked);
    assert_eq!(controller.evaluate_decision(), ApvlDecision::Refine);
    controller.record_stagnation(true);
    assert_eq!(controller.evaluate_decision(), ApvlDecision::Escalate);
    let stop = controller.determine_stop();
    assert!(stop.is_none());
}

#[test]
fn unresolved_count_matches_missing_steps() {
    let mut controller = ApvlController::new("run-count", task_spec());
    assert_eq!(controller.unresolved_count(), controller.collect_missing_steps().len());
    controller.record_completed_requirement("answer");
    assert_eq!(controller.unresolved_count(), controller.collect_missing_steps().len());
}

#[test]
fn recording_a_requirement_twice_equals_recording_it_once() {
    let mut twice = ApvlController::new("run-twice", task_spec());
    let mut once = twice.clone();
    twice.record_completed_requirement("answer");
    twice.record_completed_requirement("answer");
    once.record_completed_requirement("answer");
    assert_eq!(twice, once);
    assert_eq!(twice.durable_state.completed_work, vec!["answer".to_string()]);
    assert_eq!(twice.durable_state.remaining_work, vec!["evidence".to_string()]);
}

#[test]
fn refreshing_durable_state_twice_equals_refreshing_once() {
    let mut controller = ApvlController::new("run-refresh-twice", task_spec());
    controller.record_completed_requirement("evidence");
    controller.task_spec.constraints.push("cite sources".to_string());
    controller.refresh_durable_state();
    let after_one = controller.clone();
    controller.refresh_durable_state();
    assert_eq!(controller, after_one);
    assert_eq!(controller.durable_state.remaining_work, vec!["answer".to_string()]);
    assert_eq!(controller.durable_state.constraints.len(), 3);
}
