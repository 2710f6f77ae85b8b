use grok_core::staged::{
    StageDefinition, StageExecutionClass, StageStatus, StagedOperation, StagedOperationError,
};

fn stage(id: &str, prerequisites: &[&str], class: StageExecutionClass) -> StageDefinition {
    StageDefinition {
        stage_id: id.to_string(),
        prerequisites: prerequisites.iter().map(|v| v.to_string()).collect(),
        execution_class: class,
        checkpoint_ref: None,
        compensation_action: if class == StageExecutionClass::Reversible {
            Some(format!("undo_{id}"))
        } else {
            None
        },
    }
}

fn op(defs: Vec<StageDefinition>) -> StagedOperation {
    StagedOperation::new("op-1".to_string(), "sess-1".to_string(), defs).expect("valid op")
}

fn deployment_stage(
    id: &str,
    prerequisites: &[&str],
    class: StageExecutionClass,
    checkpoint_ref: Option<&str>,
    compensation_action: Option<&str>,
) -> StageDefinition {
    StageDefinition {
        stage_id: id.to_string(),
        prerequisites: prerequisites.iter().map(|v| v.to_string()).collect(),
        execution_class: class,
        checkpoint_ref: checkpoint_ref.map(str::to_string),
        compensation_action: compensation_action.map(str::to_string),
    }
}

fn deployment_definitions() -> Vec<StageDefinition> {
    vec![
        deployment_stage(
            "validate-configuration",
            &[],
            StageExecutionClass::Reversible,
            Some("checkpoint:config-validated"),
            Some("rollback-config-validation"),
        ),
        deployment_stage(
            "build-application",
            &["validate-configuration"],
            StageExecutionClass::Reversible,
            None,
            Some("rollback-build"),
        ),
        deployment_stage(
            "run-safety-checks",
            &["build-application"],
            StageExecutionClass::Reversible,
            Some("checkpoint:safety-passed"),
            Some("rollback-safety-checks"),
        ),
        deployment_stage(
            "publish-release-artifact",
            &["run-safety-checks"],
            StageExecutionClass::Irreversible,
            None,
            None,
        ),
        deployment_stage(
            "update-production-routing",
            &["publish-release-artifact"],
            StageExecutionClass::Reversible,
            None,
            Some("rollback-production-routing"),
        ),
        deployment_stage(
            "verify-production-health",
            &["update-production-routing"],
            StageExecutionClass::Reversible,
            None,
            Some("rollback-health-verification"),
        ),
    ]
}

fn deployment_op(operation_id: &str) -> StagedOperation {
    StagedOperation::new(
        operation_id.to_string(),
        "demo-owner".to_string(),
        deployment_definitions(),
    )
    .expect("valid staged deployment")
}

fn status_name(status: StageStatus) -> &'static str {
    match status {
        StageStatus::Pending => "PENDING",
        StageStatus::Ready => "READY",
        StageStatus::Running => "RUNNING",
        StageStatus::Succeeded => "SUCCEEDED",
        StageStatus::Failed => "FAILED",
        StageStatus::Blocked => "BLOCKED",
        StageStatus::Compensating => "COMPENSATING",
        StageStatus::Compensated => "COMPENSATED",
        StageStatus::Cancelled => "CANCELLED",
        StageStatus::ReviewRequired => "REVIEW_REQUIRED",
    }
}

fn fmt_list(values: &[String]) -> String {
    if values.is_empty() {
        "none".to_string()
    } else {
        values.join(", ")
    }
}

fn line(report: &mut String, text: &str) {
    report.push_str(text);
    report.push('\n');
}

fn push_snapshot(report: &mut String, operation: &StagedOperation, action: &str) {
    let snapshots = operation.snapshot();
    let next = operation.legal_next_stages();
    for stage in snapshots {
        let prereqs = if stage.prerequisites.is_empty() {
            "none".to_string()
        } else {
            stage.prerequisites.join(", ")
        };
        let blocked_reason = stage.blocked_reason.unwrap_or_else(|| "none".to_string());
        let checkpoint = stage.checkpoint_ref.unwrap_or_else(|| "none".to_string());
        let reversible = if stage.execution_class == StageExecutionClass::Reversible {
            "YES"
        } else {
            "NO"
        };
        let recovery_action = stage
            .compensation_action
            .unwrap_or_else(|| "none".to_string());
        line(report, &format!("OPERATION: {}", stage.operation_id));
        line(report, &format!("STAGE: {}", stage.stage_id));
        line(report, &format!("STATUS: {}", status_name(stage.status)));
        line(report, &format!("PREREQUISITES: {}", prereqs));
        line(report, &format!("BLOCKED REASON: {}", blocked_reason));
        line(report, &format!("CHECKPOINT: {}", checkpoint));
        line(report, &format!("REVERSIBLE: {}", reversible));
        line(report, &format!("ACTION: {}", action));
        line(report, &format!("RECOVERY ACTION: {}", recovery_action));
        line(report, &format!("NEXT LEGAL STAGES: {}", fmt_list(&next)));
        line(report, "");
    }
}

fn operation_final_state(operation: &StagedOperation) -> &'static str {
    let snapshots = operation.snapshot();
    if snapshots
        .iter()
        .any(|s| s.status == StageStatus::ReviewRequired)
    {
        return "REVIEW_REQUIRED";
    }
    if snapshots.iter().any(|s| s.status == StageStatus::Failed) {
        return "FAILED";
    }
    if snapshots.iter().all(|s| {
        matches!(
            s.status,
            StageStatus::Succeeded | StageStatus::Compensated | StageStatus::Cancelled
        )
    }) {
        return "SUCCEEDED";
    }
    "IN_PROGRESS"
}

fn render_staged_execution_demo_report() -> String {
    let mut report = String::new();

    line(&mut report, "CASE A - NORMAL SUCCESS");
    let mut case_a = deployment_op("deploy-case-a");
    push_snapshot(&mut report, &case_a, "initial state");

    let case_a_order = [
        "validate-configuration",
        "build-application",
        "run-safety-checks",
        "publish-release-artifact",
        "update-production-routing",
        "verify-production-health",
    ];
    let mut checkpoint_counter = 1;
    for stage_id in case_a_order {
        case_a
            .start_stage(stage_id, "demo-owner", format!("a:start:{stage_id}"))
            .expect("stage should be startable in case A");
        case_a
            .complete_stage(stage_id, format!("a:done:{stage_id}"))
            .expect("stage should complete in case A");
        if case_a
            .snapshot()
            .iter()
            .any(|s| s.stage_id == stage_id && s.checkpoint_ref.is_some())
        {
            let cp = case_a.create_checkpoint(
                format!("case-a-cp-{checkpoint_counter}"),
                format!("a:checkpoint:{checkpoint_counter}"),
            );
            checkpoint_counter += 1;
            line(&mut report, &format!("CHECKPOINT CAPTURED: {}", cp.checkpoint_id));
        }
        push_snapshot(
            &mut report,
            &case_a,
            &format!("completed stage {stage_id} in case A"),
        );
    }
    line(&mut report, &format!("FINAL STATE: {}", operation_final_state(&case_a)));
    line(&mut report, "");

    line(&mut report, "CASE B - FORCED FAILURE AND RECOVERY");
    let mut case_b = deployment_op("deploy-case-b");
    for stage_id in [
        "validate-configuration",
        "build-application",
        "run-safety-checks",
        "publish-release-artifact",
        "update-production-routing",
    ] {
        case_b
            .start_stage(stage_id, "demo-owner", format!("b:start:{stage_id}"))
            .expect("stage should start in case B preamble");
        case_b
            .complete_stage(stage_id, format!("b:done:{stage_id}"))
            .expect("stage should complete in case B preamble");
    }
    case_b
        .start_stage(
            "verify-production-health",
            "demo-owner",
            "b:start:verify-production-health".to_string(),
        )
        .expect("health stage should start in case B");
    case_b
        .fail_stage(
            "verify-production-health",
            "b:failed:verify-production-health".to_string(),
            "forced failure: health endpoint returned 503".to_string(),
        )
        .expect("health stage should fail in case B");
    push_snapshot(&mut report, &case_b, "forced verify-production-health failure");

    case_b.prepare_recovery("forced production health failure");
    let mut recovery_order: Vec<String> = Vec::new();
    while let Some(stage_id) = case_b.start_next_compensation(
        "demo-owner",
        format!("b:comp:start:{}", recovery_order.len()),
    ) {
        recovery_order.push(stage_id.clone());
        case_b
            .finish_compensation(
                &stage_id,
                format!("b:comp:done:{stage_id}"),
                true,
                Some(format!("compensated {stage_id}")),
            )
            .expect("compensation should complete in case B");
    }
    line(&mut report, &format!("RECOVERY ORDER: {}", fmt_list(&recovery_order)));
    push_snapshot(&mut report, &case_b, "post-recovery snapshot");
    line(&mut report, &format!("FINAL STATE: {}", operation_final_state(&case_b)));
    line(&mut report, "");

    line(&mut report, "CASE C - INTERRUPTION AND RESUME");
    let mut case_c = deployment_op("deploy-case-c");
    for stage_id in ["validate-configuration", "build-application", "run-safety-checks"] {
        case_c
            .start_stage(stage_id, "demo-owner", format!("c:start:{stage_id}"))
            .expect("stage should start before interruption");
        case_c
            .complete_stage(stage_id, format!("c:done:{stage_id}"))
            .expect("stage should complete before interruption");
    }
    let resume_cp = case_c.create_checkpoint(
        "case-c-safety-checkpoint".to_string(),
        "c:checkpoint".to_string(),
    );
    line(&mut report, &format!("CHECKPOINT CAPTURED: {}", resume_cp.checkpoint_id));

    let mut resumed = deployment_op("deploy-case-c");
    resumed
        .restore_checkpoint(&resume_cp)
        .expect("resume checkpoint should restore");
    push_snapshot(
        &mut report,
        &resumed,
        "resumed from safety checkpoint; completed stages must not repeat",
    );

    for stage_id in [
        "publish-release-artifact",
        "update-production-routing",
        "verify-production-health",
    ] {
        resumed
            .start_stage(stage_id, "demo-owner", format!("c:resume:start:{stage_id}"))
            .expect("resumed stage should start");
        resumed
            .complete_stage(stage_id, format!("c:resume:done:{stage_id}"))
            .expect("resumed stage should complete");
    }
    push_snapshot(&mut report, &resumed, "resumed execution completed");
    line(&mut report, &format!("FINAL STATE: {}", operation_final_state(&resumed)));
    line(&mut report, "");

    line(&mut report, "CASE D - DRY RUN");
    let case_d = deployment_op("deploy-case-d");
    let dry = case_d.dry_run_plan();
    line(&mut report, &format!("OPERATION: {}", dry.operation_id));
    line(&mut report, "ACTION: dry-run only (no stage execution)");
    line(&mut report, &format!("ORDERED STAGES: {}", fmt_list(&dry.ordered_stages)));
    line(&mut report, &format!("NEXT LEGAL STAGES: {}", fmt_list(&dry.ready_stages)));
    line(&mut report, &format!("REVERSIBLE STAGES: {}", fmt_list(&dry.reversible_stages)));
    line(&mut report, &format!("IRREVERSIBLE STAGES: {}", fmt_list(&dry.irreversible_stages)));
    line(&mut report, &format!("CHECKPOINT LOCATIONS: {}", fmt_list(&dry.checkpoint_candidates)));
    line(&mut report, &format!("EXPECTED COMPENSATION ORDER: {}", fmt_list(&dry.recovery_sequence)));
    for (stage_id, reason) in &dry.blocked_stages {
        line(&mut report, &format!("STAGE: {stage_id}"));
        line(&mut report, "STATUS: BLOCKED");
        line(&mut report, &format!("BLOCKED REASON: {reason}"));
    }
    line(&mut report, &format!("FINAL STATE: {}", operation_final_state(&case_d)));

    report
}

#[test]
fn linear_three_stage_operation_completes_in_order() {
    let mut op = op(vec![
        stage("a", &[], StageExecutionClass::Reversible),
        stage("b", &["a"], StageExecutionClass::Reversible),
        stage("c", &["b"], StageExecutionClass::Reversible),
    ]);
    assert_eq!(op.legal_next_stages(), vec!["a".to_string()]);
    op.start_stage("a", "sess-1", "t1".to_string()).unwrap();
    op.complete_stage("a", "t2".to_string()).unwrap();
    assert_eq!(op.legal_next_stages(), vec!["b".to_string()]);
    op.start_stage("b", "sess-1", "t3".to_string()).unwrap();
    op.complete_stage("b", "t4".to_string()).unwrap();
    assert_eq!(op.legal_next_stages(), vec!["c".to_string()]);
    op.start_stage("c", "sess-1", "t5".to_string()).unwrap();
    op.complete_stage("c", "t6".to_string()).unwrap();
    assert!(op.legal_next_stages().is_empty());
}

#[test]
fn downstream_stage_cannot_start_before_prerequisite() {
    let mut op = op(vec![
        stage("a", &[], StageExecutionClass::Reversible),
        stage("b", &["a"], StageExecutionClass::Reversible),
    ]);
    let err = op.start_stage("b", "sess-1", "t1".to_string()).unwrap_err();
    assert!(matches!(err, StagedOperationError::StageNotExecutable(_)));
}

#[test]
fn independent_stages_can_proceed_without_blocking() {
    let op = op(vec![
        stage("a", &[], StageExecutionClass::Reversible),
        stage("b", &[], StageExecutionClass::Reversible),
    ]);
    assert_eq!(op.legal_next_stages(), vec!["a".to_string(), "b".to_string()]);
}

#[test]
fn duplicate_execution_of_same_stage_is_prevented() {
    let mut op = op(vec![stage("a", &[], StageExecutionClass::Reversible)]);
    op.start_stage("a", "sess-1", "t1".to_string()).unwrap();
    let err = op.start_stage("a", "sess-1", "t2".to_string()).unwrap_err();
    assert!(matches!(err, StagedOperationError::StageAlreadyRunning(_)));
}

#[test]
fn failed_prerequisite_blocks_dependent_stages() {
    let mut op = op(vec![
        stage("a", &[], StageExecutionClass::Reversible),
        stage("b", &["a"], StageExecutionClass::Reversible),
    ]);
    op.start_stage("a", "sess-1", "t1".to_string()).unwrap();
    op.fail_stage("a", "t2".to_string(), "boom".to_string()).unwrap();
    let b = op.snapshot().into_iter().find(|s| s.stage_id == "b").unwrap();
    assert_eq!(b.status, StageStatus::Blocked);
}

#[test]
fn cancellation_compensates_reversible_stages_in_reverse_order() {
    let mut op = op(vec![
        stage("a", &[], StageExecutionClass::Reversible),
        stage("b", &["a"], StageExecutionClass::Reversible),
    ]);
    op.start_stage("a", "sess-1", "t1".to_string()).unwrap();
    op.complete_stage("a", "t2".to_string()).unwrap();
    op.start_stage("b", "sess-1", "t3".to_string()).unwrap();
    op.complete_stage("b", "t4".to_string()).unwrap();

    op.prepare_recovery("cancelled");
    let first = op.start_next_compensation("sess-1", "t5".to_string()).unwrap();
    let second = op.start_next_compensation("sess-1", "t6".to_string()).unwrap();
    assert_eq!(first, "b");
    assert_eq!(second, "a");
}

#[test]
fn irreversible_completed_stage_is_never_automatically_compensated() {
    let mut op = op(vec![stage("a", &[], StageExecutionClass::Irreversible)]);
    op.start_stage("a", "sess-1", "t1".to_string()).unwrap();
    op.complete_stage("a", "t2".to_string()).unwrap();
    op.prepare_recovery("cancelled");
    assert!(op.start_next_compensation("sess-1", "t3".to_string()).is_none());
    let a = op.snapshot().into_iter().find(|s| s.stage_id == "a").unwrap();
    assert_eq!(a.status, StageStatus::ReviewRequired);
}

#[test]
fn compensation_failure_is_preserved_and_reported() {
    let mut op = op(vec![stage("a", &[], StageExecutionClass::Reversible)]);
    op.start_stage("a", "sess-1", "t1".to_string()).unwrap();
    op.complete_stage("a", "t2".to_string()).unwrap();
    op.prepare_recovery("cancelled");
    let stage_id = op.start_next_compensation("sess-1", "t3".to_string()).unwrap();
    op.finish_compensation(&stage_id, "t4".to_string(), false, Some("undo failed".to_string()))
        .unwrap();
    let snap = op.snapshot().into_iter().find(|s| s.stage_id == "a").unwrap();
    assert_eq!(snap.status, StageStatus::ReviewRequired);
    assert_eq!(snap.failure_details.as_deref(), Some("undo failed"));
}

#[test]
fn checkpoint_restores_completed_stage_state() {
    let mut operation = op(vec![stage("a", &[], StageExecutionClass::Reversible)]);
    operation.start_stage("a", "sess-1", "t1".to_string()).unwrap();
    operation.complete_stage("a", "t2".to_string()).unwrap();

    let cp = operation.create_checkpoint("cp-1".to_string(), "t3".to_string());

    let mut restored = op(vec![stage("a", &[], StageExecutionClass::Reversible)]);
    restored.restore_checkpoint(&cp).unwrap();
    let snap = restored.snapshot().into_iter().find(|s| s.stage_id == "a").unwrap();
    assert_eq!(snap.status, StageStatus::Succeeded);
}

#[test]
fn successful_stages_are_not_repeated_after_resumption() {
    let mut operation = op(vec![
        stage("a", &[], StageExecutionClass::Reversible),
        stage("b", &["a"], StageExecutionClass::Reversible),
    ]);
    operation.start_stage("a", "sess-1", "t1".to_string()).unwrap();
    operation.complete_stage("a", "t2".to_string()).unwrap();
    let cp = operation.create_checkpoint("cp-1".to_string(), "t3".to_string());

    let mut restored = op(vec![
        stage("a", &[], StageExecutionClass::Reversible),
        stage("b", &["a"], StageExecutionClass::Reversible),
    ]);
    restored.restore_checkpoint(&cp).unwrap();
    assert_eq!(restored.legal_next_stages(), vec!["b".to_string()]);
}

#[test]
fn stale_running_stage_is_detected_after_owner_loss() {
    let mut op = op(vec![stage("a", &[], StageExecutionClass::Reversible)]);
    op.start_stage("a", "owner-1", "t1".to_string()).unwrap();
    op.mark_stale_running_without_owner(&Vec::new(), "t2".to_string());
    let snap = op.snapshot().into_iter().find(|s| s.stage_id == "a").unwrap();
    assert_eq!(snap.status, StageStatus::Failed);
}

#[test]
fn interrupted_irreversible_stage_requires_review() {
    let mut op = op(vec![stage("a", &[], StageExecutionClass::Irreversible)]);
    op.start_stage("a", "owner-1", "t1".to_string()).unwrap();
    op.mark_stale_running_without_owner(&Vec::new(), "t2".to_string());
    let snap = op.snapshot().into_iter().find(|s| s.stage_id == "a").unwrap();
    assert_eq!(snap.status, StageStatus::ReviewRequired);
}

#[test]
fn dry_run_reports_plan_without_execution() {
    let op = op(vec![
        stage("a", &[], StageExecutionClass::Reversible),
        stage("b", &["a"], StageExecutionClass::Irreversible),
    ]);
    let plan = op.dry_run_plan();
    assert_eq!(plan.ordered_stages, vec!["a".to_string(), "b".to_string()]);
    let a = op.snapshot().into_iter().find(|s| s.stage_id == "a").unwrap();
    assert_eq!(a.status, StageStatus::Ready);
}

#[test]
fn dependency_cycle_is_detected_and_rejected() {
    let err = StagedOperation::new(
        "op-1".to_string(),
        "sess-1".to_string(),
        vec![
            stage("a", &["b"], StageExecutionClass::Reversible),
            stage("b", &["a"], StageExecutionClass::Reversible),
        ],
    )
    .err()
    .unwrap();
    assert_eq!(err, StagedOperationError::DependencyCycle);
}

#[test]
fn missing_prerequisite_reference_is_rejected() {
    let err = StagedOperation::new(
        "op-1".to_string(),
        "sess-1".to_string(),
        vec![stage("a", &["missing"], StageExecutionClass::Reversible)],
    )
    .err()
    .unwrap();
    assert!(matches!(err, StagedOperationError::MissingPrerequisite { .. }));
}

#[test]
fn operation_state_remains_deterministic_across_repeated_reads() {
    let op = op(vec![
        stage("a", &[], StageExecutionClass::Reversible),
        stage("b", &["a"], StageExecutionClass::Reversible),
        stage("c", &["a"], StageExecutionClass::Reversible),
    ]);
    let first = op.snapshot();
    let second = op.snapshot();
    assert_eq!(first, second);
}

#[test]
fn simulation_normal_success_completes_all_stages() {
    let mut op = deployment_op("sim-success");
    for stage_id in [
        "validate-configuration",
        "build-application",
        "run-safety-checks",
        "publish-release-artifact",
        "update-production-routing",
        "verify-production-health",
    ] {
        op.start_stage(stage_id, "demo-owner", format!("sim:start:{stage_id}")).unwrap();
        op.complete_stage(stage_id, format!("sim:done:{stage_id}")).unwrap();
    }
    assert!(op.snapshot().iter().all(|s| s.status == StageStatus::Succeeded));
    assert_eq!(operation_final_state(&op), "SUCCEEDED");
}

#[test]
fn simulation_blocked_prerequisite_reporting() {
    let mut op = deployment_op("sim-blocked");
    let err = op
        .start_stage("build-application", "demo-owner", "sim:block:start".to_string())
        .unwrap_err();
    assert!(matches!(err, StagedOperationError::StageNotExecutable(_)));
    let stage = op
        .snapshot()
        .into_iter()
        .find(|s| s.stage_id == "build-application")
        .unwrap();
    assert_eq!(stage.status, StageStatus::Blocked);
    assert!(stage
        .blocked_reason
        .as_deref()
        .is_some_and(|r| r.contains("validate-configuration")));
}

#[test]
fn simulation_forced_failure_triggers_ordered_recovery() {
    let mut op = deployment_op("sim-recovery");
    for stage_id in [
        "validate-configuration",
        "build-application",
        "run-safety-checks",
        "publish-release-artifact",
        "update-production-routing",
    ] {
        op.start_stage(stage_id, "demo-owner", format!("sim-r:start:{stage_id}")).unwrap();
        op.complete_stage(stage_id, format!("sim-r:done:{stage_id}")).unwrap();
    }
    op.start_stage(
        "verify-production-health",
        "demo-owner",
        "sim-r:start:verify-production-health".to_string(),
    )
    .unwrap();
    op.fail_stage(
        "verify-production-health",
        "sim-r:fail:verify-production-health".to_string(),
        "forced verification failure".to_string(),
    )
    .unwrap();

    op.prepare_recovery("forced verification failure");
    let mut compensation_order: Vec<String> = Vec::new();
    while let Some(stage_id) = op.start_next_compensation(
        "demo-owner",
        format!("sim-r:comp:start:{}", compensation_order.len()),
    ) {
        compensation_order.push(stage_id.clone());
        op.finish_compensation(
            &stage_id,
            format!("sim-r:comp:done:{stage_id}"),
            true,
            Some("simulated rollback".to_string()),
        )
        .unwrap();
    }

    assert_eq!(
        compensation_order.first().map(String::as_str),
        Some("update-production-routing")
    );
    let publish = op
        .snapshot()
        .into_iter()
        .find(|s| s.stage_id == "publish-release-artifact")
        .unwrap();
    assert_eq!(publish.status, StageStatus::ReviewRequired);
    assert_eq!(operation_final_state(&op), "REVIEW_REQUIRED");
}

#[test]
fn simulation_checkpoint_resume_does_not_repeat_completed() {
    let mut before = deployment_op("sim-resume");
    for stage_id in ["validate-configuration", "build-application", "run-safety-checks"] {
        before
            .start_stage(stage_id, "demo-owner", format!("sim-c:start:{stage_id}"))
            .unwrap();
        before.complete_stage(stage_id, format!("sim-c:done:{stage_id}")).unwrap();
    }
    let cp = before.create_checkpoint("sim-cp".to_string(), "sim-c:checkpoint".to_string());

    let mut resumed = deployment_op("sim-resume");
    resumed.restore_checkpoint(&cp).unwrap();
    assert_eq!(
        resumed.legal_next_stages(),
        vec!["publish-release-artifact".to_string()]
    );

    for stage_id in ["validate-configuration", "build-application", "run-safety-checks"] {
        let stage = resumed
            .snapshot()
            .into_iter()
            .find(|s| s.stage_id == stage_id)
            .unwrap();
        assert_eq!(stage.status, StageStatus::Succeeded);
        assert_eq!(stage.attempt_count, 1);
    }
}

#[test]
fn simulation_dry_run_performs_no_execution() {
    let op = deployment_op("sim-dry-run");
    let plan = op.dry_run_plan();
    assert_eq!(plan.ready_stages, vec!["validate-configuration".to_string()]);
    let snapshots = op.snapshot();
    assert!(snapshots.iter().all(|s| s.attempt_count == 0));
    assert!(snapshots.iter().all(|s| s.started_at.is_none()));
    assert!(snapshots.iter().all(|s| s.completed_at.is_none()));
}

#[test]
fn simulation_demo_report_covers_success_failure_resume_and_dry_run() {
    let report = render_staged_execution_demo_report();
    assert!(report.contains("CASE A - NORMAL SUCCESS"));
    assert!(report.contains("CASE B - FORCED FAILURE AND RECOVERY"));
    assert!(report.contains("CASE C - INTERRUPTION AND RESUME"));
    assert!(report.contains("CASE D - DRY RUN"));
}

// Further cases.

#[test]
fn duplicate_stage_id_is_rejected() {
    let err = StagedOperation::new(
        "op-1".to_string(),
        "sess-1".to_string(),
        vec![
            stage("a", &[], StageExecutionClass::Reversible),
            stage("a", &[], StageExecutionClass::Reversible),
        ],
    )
    .err()
    .unwrap();
    assert_eq!(err, StagedOperationError::DuplicateStage("a".to_string()));
    assert_eq!(err.message(), "duplicate stage id: a");
}

#[test]
fn unknown_stage_is_reported() {
    let mut op = op(vec![stage("a", &[], StageExecutionClass::Reversible)]);
    let err = op.start_stage("zzz", "sess-1", "t1".to_string()).unwrap_err();
    assert_eq!(err, StagedOperationError::StageNotFound("zzz".to_string()));
    assert_eq!(err.message(), "stage not found: zzz");
}

#[test]
fn completing_a_stage_that_is_not_running_is_an_invalid_transition() {
    let mut op = op(vec![stage("a", &[], StageExecutionClass::Reversible)]);
    let err = op.complete_stage("a", "t1".to_string()).unwrap_err();
    assert_eq!(
        err,
        StagedOperationError::InvalidTransition {
            stage: "a".to_string(),
            from: StageStatus::Ready,
            to: StageStatus::Succeeded,
        }
    );
    assert_eq!(err.message(), "invalid stage transition for 'a': Ready -> Succeeded");
}

#[test]
fn blocked_reason_names_the_failed_prerequisite() {
    let mut op = op(vec![
        stage("a", &[], StageExecutionClass::Reversible),
        stage("b", &["a"], StageExecutionClass::Reversible),
    ]);
    op.start_stage("a", "sess-1", "t1".to_string()).unwrap();
    op.fail_stage("a", "t2".to_string(), "boom".to_string()).unwrap();
    let plan = op.dry_run_plan();
    assert_eq!(
        plan.blocked_stages,
        vec![(
            "b".to_string(),
            "prerequisite 'a' did not succeed; stage cannot run".to_string()
        )]
    );
}

#[test]
fn dry_run_plan_lists_classes_checkpoints_and_compensation_order() {
    let mut op = deployment_op("plan");
    for stage_id in ["validate-configuration", "build-application"] {
        op.start_stage(stage_id, "demo-owner", "t".to_string()).unwrap();
        op.complete_stage(stage_id, "t".to_string()).unwrap();
    }
    let plan = op.dry_run_plan();
    assert_eq!(plan.operation_id, "plan");
    assert_eq!(
        plan.ordered_stages,
        vec![
            "validate-configuration".to_string(),
            "build-application".to_string(),
            "run-safety-checks".to_string(),
            "publish-release-artifact".to_string(),
            "update-production-routing".to_string(),
            "verify-production-health".to_string(),
        ]
    );
    assert_eq!(plan.ready_stages, vec!["run-safety-checks".to_string()]);
    assert_eq!(plan.irreversible_stages, vec!["publish-release-artifact".to_string()]);
    assert_eq!(plan.reversible_stages.len(), 5);
    assert_eq!(
        plan.checkpoint_candidates,
        vec!["validate-configuration".to_string(), "run-safety-checks".to_string()]
    );
    assert_eq!(
        plan.recovery_sequence,
        vec!["build-application".to_string(), "validate-configuration".to_string()]
    );
    assert_eq!(
        plan.blocked_stages[0],
        (
            "publish-release-artifact".to_string(),
            "waiting for prerequisite 'run-safety-checks' to complete".to_string()
        )
    );
}

#[test]
fn restoring_a_checkpoint_of_another_operation_is_refused() {
    let mut a = deployment_op("one");
    let cp = a.create_checkpoint("cp".to_string(), "t".to_string());
    a.start_stage("validate-configuration", "o", "t".to_string()).unwrap();
    let mut b = deployment_op("two");
    assert_eq!(b.restore_checkpoint(&cp), Err(StagedOperationError::CheckpointMismatch));
    let own = a.create_checkpoint("cp2".to_string(), "t2".to_string());
    assert!(own.running_stage.as_deref() == Some("validate-configuration"));
    assert!(a.restore_checkpoint(&own).is_ok());
}

#[test]
fn live_owner_keeps_its_running_stage() {
    let mut op = op(vec![stage("a", &[], StageExecutionClass::Reversible)]);
    op.start_stage("a", "owner-1", "t1".to_string()).unwrap();
    op.mark_stale_running_without_owner(&vec!["owner-1".to_string()], "t2".to_string());
    let snap = op.snapshot().into_iter().find(|s| s.stage_id == "a").unwrap();
    assert_eq!(snap.status, StageStatus::Running);
}

#[test]
fn dry_run_recovery_reverses_the_plan_order() {
    let mut op = op(vec![
        stage("a", &[], StageExecutionClass::Reversible),
        stage("b", &["a"], StageExecutionClass::Reversible),
        stage("c", &["b"], StageExecutionClass::Irreversible),
    ]);
    op.start_stage("a", "sess-1", "t1".to_string()).unwrap();
    op.complete_stage("a", "t2".to_string()).unwrap();
    op.start_stage("b", "sess-1", "t3".to_string()).unwrap();
    op.complete_stage("b", "t4".to_string()).unwrap();
    let plan = op.dry_run_plan();
    assert_eq!(plan.ordered_stages, vec!["a", "b", "c"]);
    assert_eq!(plan.recovery_sequence, vec!["b", "a"]);
}

#[test]
fn checkpoint_restores_onto_a_fresh_operation() {
    let defs = || {
        vec![
            stage("a", &[], StageExecutionClass::Reversible),
            stage("b", &["a"], StageExecutionClass::Reversible),
        ]
    };
    let mut first = op(defs());
    first.start_stage("a", "sess-1", "t1".to_string()).unwrap();
    first.complete_stage("a", "t2".to_string()).unwrap();
    let cp = first.create_checkpoint("cp-1".to_string(), "t3".to_string());
    let mut second = op(defs());
    assert_eq!(second.restore_checkpoint(&cp), Ok(()));
    assert_eq!(second.legal_next_stages(), first.legal_next_stages());
    assert_eq!(second.legal_next_stages(), vec!["b".to_string()]);
}

#[test]
fn cyclic_definitions_are_rejected() {
    let result = StagedOperation::new(
        "op-1".to_string(),
        "sess-1".to_string(),
        vec![
            stage("a", &["b"], StageExecutionClass::Reversible),
            stage("b", &["a"], StageExecutionClass::Reversible),
        ],
    );
    assert!(matches!(result, Err(StagedOperationError::DependencyCycle)));
}

#[test]
fn resuming_a_checkpoint_on_a_fresh_operation_reproduces_every_stage() {
    let defs = || {
        vec![
            stage("a", &[], StageExecutionClass::Reversible),
            stage("b", &["a"], StageExecutionClass::Reversible),
            stage("c", &["a"], StageExecutionClass::Irreversible),
            stage("d", &["b", "c"], StageExecutionClass::Reversible),
        ]
    };
    let mut operation = op(defs());
    operation.start_stage("a", "sess-1", "t1".to_string()).unwrap();
    operation.complete_stage("a", "t2".to_string()).unwrap();
    operation.start_stage("b", "sess-1", "t3".to_string()).unwrap();
    operation.fail_stage("b", "t4".to_string(), "boom".to_string()).unwrap();
    operation.start_stage("c", "sess-2", "t5".to_string()).unwrap();
    let cp = operation.create_checkpoint("cp-1".to_string(), "t6".to_string());

    let mut restored = op(defs());
    assert_eq!(restored.restore_checkpoint(&cp), Ok(()));
    assert_eq!(restored.snapshot(), operation.snapshot());
    assert_eq!(restored.legal_next_stages(), operation.legal_next_stages());
    let a = restored.snapshot().into_iter().find(|s| s.stage_id == "a").unwrap();
    assert_eq!(a.status, StageStatus::Succeeded);
    assert_eq!(a.attempt_count, 1);
}

#[test]
fn compensation_calls_take_the_whole_queue_then_stop() {
    let mut op = op(vec![
        stage("a", &[], StageExecutionClass::Reversible),
        stage("b", &["a"], StageExecutionClass::Reversible),
        stage("c", &["b"], StageExecutionClass::Reversible),
        stage("x", &[], StageExecutionClass::Irreversible),
    ]);
    for (id, t) in [("a", "t1"), ("b", "t2"), ("c", "t3"), ("x", "t4")] {
        op.start_stage(id, "sess-1", t.to_string()).unwrap();
        op.complete_stage(id, t.to_string()).unwrap();
    }
    op.prepare_recovery("cancelled");
    assert_eq!(op.start_next_compensation("sess-1", "t5".to_string()), Some("c".to_string()));
    assert_eq!(op.start_next_compensation("sess-2", "t6".to_string()), Some("b".to_string()));
    assert_eq!(op.start_next_compensation("sess-3", "t7".to_string()), Some("a".to_string()));
    assert_eq!(op.start_next_compensation("sess-4", "t8".to_string()), None);
    let snaps = op.snapshot();
    let status_of = |id: &str| snaps.iter().find(|s| s.stage_id == id).unwrap().status;
    assert_eq!(status_of("a"), StageStatus::Compensating);
    assert_eq!(status_of("c"), StageStatus::Compensating);
    assert_eq!(status_of("x"), StageStatus::ReviewRequired);
}
