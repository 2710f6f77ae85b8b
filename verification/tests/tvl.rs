use grok_core::tvl::{
    sanitize_run_id,
    mission_control_tvl_lines, AgreementState, DriftFlag, FieldBootsStatus, ReaderAssessment,
    TvlEngine, TvlEventKind, TvlEvidenceKind, TvlEvidenceRecord, TvlRoundInput, TvlRunStatus,
    TvlTermination, UtilityBeltStatus, VerificationState, VerifierFeedback,
};


fn assessment(summary: &str, stable_hash: u64, supported: bool) -> ReaderAssessment {
    ReaderAssessment {
        summary: summary.to_string(),
        stable_hash,
        evidence: vec![TvlEvidenceRecord {
            kind: TvlEvidenceKind::Claim,
            label: "c1".to_string(),
            supported,
        }],
    }
}

fn feedback(
    confirms_evidence: bool,
    unresolved_disagreements: usize,
    contradiction_count: usize,
    drift_flags: &[DriftFlag],
) -> VerifierFeedback {
    VerifierFeedback {
        confirms_evidence,
        constraints_satisfied: true,
        unsupported_critical_claims_resolved: true,
        execution_evidence_available: true,
        verification_completed_successfully: true,
        unresolved_disagreements,
        contradiction_count,
        drift_flags: drift_flags.iter().map(|f| f.code()).collect(),
        feedback_for_reader_a: vec!["narrow claim".to_string()],
        feedback_for_reader_b: vec!["supply evidence".to_string()],
    }
}

#[test]
fn agree_and_evidence_confirmed_yields_verified() {
    let mut engine = TvlEngine::new("run-1", 3, 16);
    engine.start();
    engine.process_round(TvlRoundInput {
        reader_a: assessment("ok", 7, true),
        reader_b: assessment("ok", 7, true),
        verifier: feedback(true, 0, 0, &[]),
    });
    assert_eq!(engine.public_snapshot().status, TvlRunStatus::Verified);
}

#[test]
fn disagreement_requests_another_round() {
    let mut engine = TvlEngine::new("run-2", 3, 16);
    engine.start();
    engine.process_round(TvlRoundInput {
        reader_a: assessment("a", 1, true),
        reader_b: assessment("b", 2, true),
        verifier: feedback(true, 1, 0, &[]),
    });
    assert_eq!(engine.public_snapshot().status, TvlRunStatus::Verifying);
    assert!(
        engine
            .timeline_events(8)
            .iter()
            .any(|e| e.kind == TvlEventKind::RevisionRequested)
    );
}

#[test]
fn partial_agreement_classified() {
    let mut engine = TvlEngine::new("run-3", 3, 16);
    engine.start();
    engine.process_round(TvlRoundInput {
        reader_a: assessment("a", 1, true),
        reader_b: assessment("b", 2, true),
        verifier: feedback(true, 1, 0, &[]),
    });
    assert_eq!(
        engine.public_snapshot().agreement_state,
        AgreementState::PartialAgreement
    );
}

#[test]
fn factual_disagreement_classified() {
    let mut engine = TvlEngine::new("run-4", 3, 16);
    engine.start();
    engine.process_round(TvlRoundInput {
        reader_a: assessment("a", 1, true),
        reader_b: assessment("a", 1, true),
        verifier: feedback(true, 0, 1, &[]),
    });
    assert_eq!(
        engine.public_snapshot().agreement_state,
        AgreementState::FactualDisagreement
    );
}

#[test]
fn evidence_disagreement_classified() {
    let mut engine = TvlEngine::new("run-5", 3, 16);
    engine.start();
    engine.process_round(TvlRoundInput {
        reader_a: assessment("a", 1, true),
        reader_b: assessment("a", 1, true),
        verifier: feedback(false, 0, 0, &[]),
    });
    assert_eq!(
        engine.public_snapshot().agreement_state,
        AgreementState::EvidenceDisagreement
    );
}

#[test]
fn insufficient_evidence_prevents_verified() {
    let mut engine = TvlEngine::new("run-6", 3, 16);
    engine.start();
    engine.process_round(TvlRoundInput {
        reader_a: assessment("a", 1, true),
        reader_b: assessment("a", 1, true),
        verifier: feedback(false, 0, 0, &[]),
    });
    assert_ne!(engine.public_snapshot().status, TvlRunStatus::Verified);
}

#[test]
fn contradiction_prevents_verified() {
    let mut engine = TvlEngine::new("run-7", 3, 16);
    engine.start();
    engine.process_round(TvlRoundInput {
        reader_a: assessment("a", 1, true),
        reader_b: assessment("a", 1, true),
        verifier: feedback(true, 0, 2, &[]),
    });
    assert_ne!(engine.public_snapshot().status, TvlRunStatus::Verified);
}

#[test]
fn feedback_reaches_next_round_buffers() {
    let mut engine = TvlEngine::new("run-8", 3, 16);
    engine.start();
    engine.process_round(TvlRoundInput {
        reader_a: assessment("a", 1, true),
        reader_b: assessment("b", 2, true),
        verifier: feedback(true, 1, 0, &[]),
    });
    assert_eq!(engine.consume_feedback_for_reader_a(), vec!["narrow claim"]);
    assert_eq!(
        engine.consume_feedback_for_reader_b(),
        vec!["supply evidence"]
    );
}

#[test]
fn reader_initial_assessments_stay_isolated() {
    let mut engine = TvlEngine::new("run-9", 3, 16);
    engine.start();
    engine.process_round(TvlRoundInput {
        reader_a: assessment("a", 10, true),
        reader_b: assessment("b", 20, true),
        verifier: feedback(true, 1, 0, &[]),
    });
    assert_eq!(engine.reader_a_last_initial(), Some(10));
    assert_eq!(engine.reader_b_last_initial(), Some(20));
}

#[test]
fn max_rounds_enforced() {
    let mut engine = TvlEngine::new("run-10", 1, 16);
    engine.start();
    engine.process_round(TvlRoundInput {
        reader_a: assessment("a", 1, true),
        reader_b: assessment("b", 2, true),
        verifier: feedback(true, 1, 0, &[]),
    });
    assert_eq!(engine.public_snapshot().status, TvlRunStatus::Incomplete);
}

#[test]
fn unresolved_at_max_rounds_incomplete() {
    let mut engine = TvlEngine::new("run-11", 1, 16);
    engine.start();
    engine.process_round(TvlRoundInput {
        reader_a: assessment("a", 1, true),
        reader_b: assessment("b", 2, true),
        verifier: feedback(true, 2, 0, &[]),
    });
    assert_eq!(engine.public_snapshot().status, TvlRunStatus::Incomplete);
}

#[test]
fn verified_result_exits_early() {
    let mut engine = TvlEngine::new("run-12", 3, 16);
    engine.start();
    engine.process_round(TvlRoundInput {
        reader_a: assessment("a", 1, true),
        reader_b: assessment("a", 1, true),
        verifier: feedback(true, 0, 0, &[]),
    });
    let rounds = engine.public_snapshot().round_count;
    engine.process_round(TvlRoundInput {
        reader_a: assessment("a", 1, true),
        reader_b: assessment("a", 1, true),
        verifier: feedback(true, 0, 0, &[]),
    });
    assert_eq!(engine.public_snapshot().round_count, rounds);
}

#[test]
fn failed_reader_handled_safely() {
    let mut engine = TvlEngine::new("run-13", 3, 16);
    engine.start();
    engine.mark_reader_failed(true);
    assert_eq!(engine.public_snapshot().status, TvlRunStatus::Failed);
}

#[test]
fn blocked_reader_handled_safely() {
    let mut engine = TvlEngine::new("run-14", 3, 16);
    engine.start();
    engine.mark_reader_blocked(false);
    assert_eq!(engine.public_snapshot().status, TvlRunStatus::Blocked);
}

#[test]
fn cancelled_run_terminates_safely() {
    let mut engine = TvlEngine::new("run-15", 3, 16);
    engine.start();
    engine.terminate(TvlTermination::Cancelled);
    assert_eq!(engine.public_snapshot().status, TvlRunStatus::Blocked);
}

#[test]
fn timeout_terminates_safely() {
    let mut engine = TvlEngine::new("run-16", 3, 16);
    engine.start();
    engine.terminate(TvlTermination::Timeout);
    assert_eq!(engine.public_snapshot().status, TvlRunStatus::Failed);
}

#[test]
fn utility_belt_unavailable_respected() {
    let mut engine = TvlEngine::new("run-17", 3, 16);
    engine.set_readiness(UtilityBeltStatus::Unavailable, FieldBootsStatus::Ready);
    engine.start();
    assert_eq!(engine.public_snapshot().status, TvlRunStatus::Blocked);
}

#[test]
fn utility_belt_permission_required_respected() {
    let mut engine = TvlEngine::new("run-18", 3, 16);
    engine.set_readiness(
        UtilityBeltStatus::PermissionRequired,
        FieldBootsStatus::Ready,
    );
    engine.start();
    assert_eq!(engine.public_snapshot().status, TvlRunStatus::Blocked);
}

#[test]
fn field_boots_environment_blocked_respected() {
    let mut engine = TvlEngine::new("run-19", 3, 16);
    engine.set_readiness(
        UtilityBeltStatus::Available,
        FieldBootsStatus::EnvironmentBlocked,
    );
    engine.start();
    assert_eq!(engine.public_snapshot().status, TvlRunStatus::Blocked);
}

#[test]
fn objective_drift_detected() {
    let mut engine = TvlEngine::new("run-20", 3, 16);
    engine.start();
    engine.process_round(TvlRoundInput {
        reader_a: assessment("a", 1, true),
        reader_b: assessment("a", 1, true),
        verifier: feedback(true, 0, 0, &[DriftFlag::Objective]),
    });
    assert!(
        engine
            .public_snapshot()
            .drift_flags
            .contains(&DriftFlag::Objective.code())
    );
}

#[test]
fn claim_drift_detected() {
    let mut engine = TvlEngine::new("run-21", 3, 16);
    engine.start();
    engine.process_round(TvlRoundInput {
        reader_a: assessment("a", 1, true),
        reader_b: assessment("a", 1, true),
        verifier: feedback(true, 0, 0, &[DriftFlag::Claim]),
    });
    assert!(
        engine
            .public_snapshot()
            .drift_flags
            .contains(&DriftFlag::Claim.code())
    );
}

#[test]
fn evidence_drift_detected() {
    let mut engine = TvlEngine::new("run-22", 3, 16);
    engine.start();
    engine.process_round(TvlRoundInput {
        reader_a: assessment("a", 1, true),
        reader_b: assessment("a", 1, true),
        verifier: feedback(true, 0, 0, &[DriftFlag::Evidence]),
    });
    assert!(
        engine
            .public_snapshot()
            .drift_flags
            .contains(&DriftFlag::Evidence.code())
    );
}

#[test]
fn constraint_drift_detected() {
    let mut engine = TvlEngine::new("run-23", 3, 16);
    engine.start();
    engine.process_round(TvlRoundInput {
        reader_a: assessment("a", 1, true),
        reader_b: assessment("a", 1, true),
        verifier: feedback(true, 0, 0, &[DriftFlag::Constraint]),
    });
    assert!(
        engine
            .public_snapshot()
            .drift_flags
            .contains(&DriftFlag::Constraint.code())
    );
}

#[test]
fn stable_run_has_no_false_drift() {
    let mut engine = TvlEngine::new("run-24", 3, 16);
    engine.start();
    engine.process_round(TvlRoundInput {
        reader_a: assessment("a", 9, true),
        reader_b: assessment("a", 9, true),
        verifier: feedback(true, 0, 0, &[]),
    });
    assert!(engine.public_snapshot().drift_flags.is_empty());
}

#[test]
fn convergence_not_equal_verification_when_evidence_insufficient() {
    let mut engine = TvlEngine::new("run-25", 3, 16);
    engine.start();
    engine.process_round(TvlRoundInput {
        reader_a: assessment("a", 9, true),
        reader_b: assessment("a", 9, true),
        verifier: feedback(false, 0, 0, &[]),
    });
    assert_eq!(
        engine.public_snapshot().agreement_state,
        AgreementState::EvidenceDisagreement
    );
    assert_ne!(engine.public_snapshot().status, TvlRunStatus::Verified);
}

#[test]
fn readers_agree_without_execution_evidence_not_verified() {
    let mut engine = TvlEngine::new("run-exec-evidence", 3, 16);
    engine.start();
    let mut v = feedback(true, 0, 0, &[]);
    v.execution_evidence_available = false;
    engine.process_round(TvlRoundInput {
        reader_a: assessment("a", 3, true),
        reader_b: assessment("a", 3, true),
        verifier: v,
    });
    assert_ne!(engine.public_snapshot().status, TvlRunStatus::Verified);
}

#[test]
fn readers_agree_without_constraints_not_verified() {
    let mut engine = TvlEngine::new("run-constraints", 3, 16);
    engine.start();
    let mut v = feedback(true, 0, 0, &[]);
    v.constraints_satisfied = false;
    engine.process_round(TvlRoundInput {
        reader_a: assessment("a", 3, true),
        reader_b: assessment("a", 3, true),
        verifier: v,
    });
    assert_ne!(engine.public_snapshot().status, TvlRunStatus::Verified);
}

#[test]
fn readers_agree_with_unsupported_critical_claims_not_verified() {
    let mut engine = TvlEngine::new("run-unsupported", 3, 16);
    engine.start();
    let mut v = feedback(true, 0, 0, &[]);
    v.unsupported_critical_claims_resolved = false;
    engine.process_round(TvlRoundInput {
        reader_a: assessment("a", 3, true),
        reader_b: assessment("a", 3, true),
        verifier: v,
    });
    assert_ne!(engine.public_snapshot().status, TvlRunStatus::Verified);
}

#[test]
fn started_not_verified() {
    let mut engine = TvlEngine::new("run-started", 3, 16);
    engine.start();
    assert_ne!(engine.public_snapshot().status, TvlRunStatus::Verified);
}

#[test]
fn unknown_cannot_be_verified() {
    let engine = TvlEngine::new("run-26", 3, 16);
    let snap = engine.public_snapshot();
    assert_eq!(snap.verification_state, VerificationState::Unknown);
    assert_ne!(snap.status, TvlRunStatus::Verified);
}

#[test]
fn deterministic_ordering() {
    let mut engine = TvlEngine::new("run-27", 3, 16);
    engine.start();
    engine.process_round(TvlRoundInput {
        reader_a: assessment("a", 1, true),
        reader_b: assessment("a", 1, true),
        verifier: feedback(true, 0, 0, &[]),
    });
    let mut events = engine.timeline_events(16);
    events.reverse();
    let kinds: Vec<TvlEventKind> = events.into_iter().map(|e| e.kind).collect();
    assert_eq!(
        kinds,
        vec![
            TvlEventKind::TvlStarted,
            TvlEventKind::RoundStarted,
            TvlEventKind::ReaderAComplete,
            TvlEventKind::ReaderBComplete,
            TvlEventKind::VerifierStarted,
            TvlEventKind::VerifierComplete,
            TvlEventKind::ConvergenceReached,
            TvlEventKind::VerificationPassed,
            TvlEventKind::TvlCompleted,
        ]
    );
}

#[test]
fn bounded_state_history_behavior() {
    let mut engine = TvlEngine::new("run-28", 6, 2);
    engine.start();
    for i in 0..4 {
        engine.process_round(TvlRoundInput {
            reader_a: assessment("a", i, true),
            reader_b: assessment("b", i + 1, true),
            verifier: feedback(true, 1, 0, &[]),
        });
    }
    assert!(engine.recent_operations(10).len() <= 2);
    assert!(engine.timeline_events(10).len() <= 2);
}

#[test]
fn mission_control_lines_are_public_safe() {
    let mut engine = TvlEngine::new("run-29", 3, 16);
    engine.start();
    engine.process_round(TvlRoundInput {
        reader_a: assessment("a", 7, true),
        reader_b: assessment("a", 7, true),
        verifier: feedback(true, 0, 0, &[]),
    });
    let lines = mission_control_tvl_lines(&engine.public_snapshot());
    let joined = lines.join("\n");
    assert!(joined.contains("TRIANGULAR VERIFICATION LOOP"));
    assert!(!joined.contains("summary"));
}

#[test]
fn no_secret_or_private_path_leak_in_public_snapshot() {
    let mut engine = TvlEngine::new("C:\\private\\secrets\\sk-prod-token", 3, 16);
    engine.start();
    engine.process_round(TvlRoundInput {
        reader_a: assessment("a", 7, true),
        reader_b: assessment("a", 7, true),
        verifier: feedback(true, 0, 0, &[]),
    });
    let debug = format!("{:?}", engine.public_snapshot());
    assert!(!debug.contains("C:\\"));
    assert!(!debug.contains("sk-prod-token"));
    assert!(!debug.to_ascii_lowercase().contains("token"));
}

#[test]
fn mission_control_lines_do_not_leak_hidden_reasoning_or_prompts() {
    let mut engine = TvlEngine::new("run-31", 3, 16);
    engine.start();
    engine.process_round(TvlRoundInput {
        reader_a: assessment("chain-of-thought: hidden", 4, true),
        reader_b: assessment("prompt: raw verifier prompt", 4, true),
        verifier: feedback(true, 0, 0, &[]),
    });
    let joined = mission_control_tvl_lines(&engine.public_snapshot()).join("\n");
    assert!(!joined.contains("chain-of-thought"));
    assert!(!joined.contains("prompt:"));
}

#[test]
fn event_ordering_exists_for_ledger_integration() {
    let mut engine = TvlEngine::new("run-31", 3, 16);
    engine.start();
    engine.process_round(TvlRoundInput {
        reader_a: assessment("a", 1, true),
        reader_b: assessment("b", 2, true),
        verifier: feedback(true, 1, 0, &[]),
    });
    let mut events = engine.timeline_events(16);
    events.reverse();
    let seqs: Vec<u64> = events.iter().map(|e| e.seq).collect();
    assert!(seqs.windows(2).all(|w| w[0] < w[1]));
}

// Further cases.

#[test]
fn run_ids_are_collapsed_trimmed_and_defaulted() {
    assert_eq!(sanitize_run_id("  my run//id!! "), "my-run-id");
    assert_eq!(sanitize_run_id("keep-this_one"), "keep-this_one");
    assert_eq!(sanitize_run_id("-a--b-"), "a--b");
    assert_eq!(sanitize_run_id("///"), "run-unknown");
    assert_eq!(sanitize_run_id(""), "run-unknown");
    assert_eq!(sanitize_run_id("MY_PASSWORD_run"), "run-redacted");
    assert_eq!(sanitize_run_id("sk-abc"), "run-redacted");
}

#[test]
fn last_round_without_unresolved_disagreement_fails() {
    let mut engine = TvlEngine::new("run-f", 1, 16);
    engine.start();
    engine.process_round(TvlRoundInput {
        reader_a: assessment("a", 1, true),
        reader_b: assessment("a", 1, true),
        verifier: feedback(false, 0, 0, &[]),
    });
    let snap = engine.public_snapshot();
    assert_eq!(snap.status, TvlRunStatus::Failed);
    assert_eq!(snap.verification_state, VerificationState::Failed);
    assert!(snap.final_result_available);
}

#[test]
fn round_after_max_rounds_ends_incomplete_without_a_new_round() {
    let mut engine = TvlEngine::new("run-m", 0, 16);
    assert_eq!(engine.public_snapshot().max_rounds, 1);
    engine.start();
    engine.process_round(TvlRoundInput {
        reader_a: assessment("a", 1, true),
        reader_b: assessment("b", 2, true),
        verifier: feedback(true, 0, 0, &[]),
    });
    assert_eq!(engine.public_snapshot().status, TvlRunStatus::Verified);
    let mut second = TvlEngine::new("run-m2", 1, 16);
    second.start();
    second.process_round(TvlRoundInput {
        reader_a: assessment("a", 1, true),
        reader_b: assessment("b", 2, true),
        verifier: feedback(true, 1, 0, &[]),
    });
    assert_eq!(second.public_snapshot().round_count, 1);
    assert_eq!(second.public_snapshot().status, TvlRunStatus::Incomplete);
}

#[test]
fn tvl_mission_control_lines_are_exact() {
    let mut engine = TvlEngine::new("run-lines", 3, 16);
    engine.start();
    engine.process_round(TvlRoundInput {
        reader_a: assessment("a", 1, true),
        reader_b: assessment("b", 2, true),
        verifier: feedback(true, 2, 0, &[DriftFlag::Claim, DriftFlag::Evidence]),
    });
    let lines = mission_control_tvl_lines(&engine.public_snapshot());
    assert_eq!(
        lines,
        vec![
            "TRIANGULAR VERIFICATION LOOP".to_string(),
            "STATUS: Verifying".to_string(),
            "ROUND: 1 / 3".to_string(),
            "READER A: Complete".to_string(),
            "READER B: Complete".to_string(),
            "VERIFIER C: Complete".to_string(),
            "AGREEMENT: PartialAgreement".to_string(),
            "UNRESOLVED: 2 · CONTRADICTIONS: 0".to_string(),
            "DRIFT FLAGS: 2".to_string(),
            "EVIDENCE: Sufficient".to_string(),
            "FINAL: Pending".to_string(),
        ]
    );
}

#[test]
fn history_keeps_the_newest_records_with_consecutive_numbers() {
    let mut engine = TvlEngine::new("run-h", 6, 3);
    engine.start();
    for i in 0..2 {
        engine.process_round(TvlRoundInput {
            reader_a: assessment("a", i, true),
            reader_b: assessment("b", i + 1, true),
            verifier: feedback(true, 1, 0, &[]),
        });
    }
    let ops = engine.recent_operations(10);
    assert_eq!(ops.len(), 3);
    assert_eq!(ops[0].operation_id, 3);
    assert_eq!(ops[0].round, 2);
    assert_eq!(ops[2].operation_id, 1);
    let events = engine.timeline_events(2);
    assert_eq!(events.len(), 2);
    assert_eq!(events[0].kind, TvlEventKind::RevisionRequested);
    assert_eq!(events[0].summary, "revision requested");
    assert_eq!(events[1].kind, TvlEventKind::DisagreementFound);
    assert_eq!(events[0].seq, events[1].seq + 1);
    assert_eq!(engine.consume_feedback_for_reader_a(), vec!["narrow claim"]);
    assert!(engine.consume_feedback_for_reader_a().is_empty());
}
