//! The triangular verification loop: two readers assess the same material, a verifier
//! compares them, and the loop runs rounds until the result is verified, fails, runs out
//! of rounds, or is blocked. A run is verified only when every check of the verifier holds.

use vstd::prelude::*;
use std::collections::{BTreeSet, VecDeque};
use crate::text::{
    chars_of, concat3, contains_seq, decimal, lower_contains, lower_seq, owned, push_char,
    u64_to_decimal, views,
};

verus! {

#[derive(Debug, Clone, Copy, PartialEq, Eq, Structural)]
pub enum TvlLifecycleState {
    Planned,
    ReadinessChecked,
    Started,
    Observed,
    Verified,
    Failed,
    Incomplete,
    Blocked,
    Unknown,
}

#[derive(Debug, Clone, Copy, PartialEq, Eq, Structural)]
pub enum TvlRunStatus {
    Idle,
    Verifying,
    Verified,
    Failed,
    Incomplete,
    Blocked,
}

#[derive(Debug, Clone, Copy, PartialEq, Eq, Structural)]
pub enum ActorStatus {
    Idle,
    Active,
    Complete,
    Failed,
    Blocked,
}

#[derive(Debug, Clone, Copy, PartialEq, Eq, Structural)]
pub enum AgreementState {
    Unknown,
    FullAgreement,
    PartialAgreement,
    FactualDisagreement,
    EvidenceDisagreement,
}

/// A kind of drift the verifier can report. Sets of drift flags hold their codes
/// (see [`DriftFlag::code`]), so that a set's size is the number of flags it holds.
#[derive(Debug, Clone, Copy, PartialEq, Eq, PartialOrd, Ord, Structural)]
pub enum DriftFlag {
    Objective,
    Claim,
    Evidence,
    Constraint,
}

/// The code of a drift flag, in declaration order.
pub open spec fn drift_code(f: DriftFlag) -> u8 {
    match f {
        DriftFlag::Objective => 0,
        DriftFlag::Claim => 1,
        DriftFlag::Evidence => 2,
        DriftFlag::Constraint => 3,
    }
}

impl DriftFlag {
    /// The code under which this flag is held in a set of drift flags.
    pub fn code(self) -> (c: u8)
        ensures
            c == drift_code(self),
    {
        match self {
            DriftFlag::Objective => 0,
            DriftFlag::Claim => 1,
            DriftFlag::Evidence => 2,
            DriftFlag::Constraint => 3,
        }
    }
}

#[derive(Debug, Clone, Copy, PartialEq, Eq, Structural)]
pub enum EvidenceStatus {
    Unknown,
    Sufficient,
    Insufficient,
}

#[derive(Debug, Clone, Copy, PartialEq, Eq, Structural)]
pub enum VerificationState {
    Unknown,
    Pending,
    Passed,
    Failed,
}

#[derive(Debug, Clone, Copy, PartialEq, Eq, Structural)]
pub enum UtilityBeltStatus {
    Available,
    Unavailable,
    Degraded,
    PermissionRequired,
}

#[derive(Debug, Clone, Copy, PartialEq, Eq, Structural)]
pub enum FieldBootsStatus {
    Ready,
    Limited,
    PermissionRequired,
    EnvironmentBlocked,
    Unavailable,
}

#[derive(Debug, Clone, Copy, PartialEq, Eq, Structural)]
pub enum TvlEventKind {
    TvlStarted,
    RoundStarted,
    ReaderAComplete,
    ReaderBComplete,
    VerifierStarted,
    VerifierComplete,
    DisagreementFound,
    DriftDetected,
    RevisionRequested,
    ConvergenceReached,
    VerificationPassed,
    VerificationFailed,
    TvlCompleted,
}

#[derive(Debug, Clone, Copy, PartialEq, Eq, Structural)]
pub enum TvlEvidenceKind {
    Objective,
    Claim,
    Constraint,
    Contradiction,
    Citation,
}

#[derive(Debug, Clone, PartialEq, Eq)]
pub struct TvlEvidenceRecord {
    pub kind: TvlEvidenceKind,
    pub label: String,
    pub supported: bool,
}

#[derive(Debug, Clone, PartialEq, Eq)]
pub struct ReaderAssessment {
    pub summary: String,
    pub stable_hash: u64,
    pub evidence: Vec<TvlEvidenceRecord>,
}

#[derive(Debug, Clone, PartialEq, Eq)]
pub struct VerifierFeedback {
    pub confirms_evidence: bool,
    pub constraints_satisfied: bool,
    pub unsupported_critical_claims_resolved: bool,
    pub execution_evidence_available: bool,
    pub verification_completed_successfully: bool,
    pub unresolved_disagreements: usize,
    pub contradiction_count: usize,
    pub drift_flags: BTreeSet<u8>,
    pub feedback_for_reader_a: Vec<String>,
    pub feedback_for_reader_b: Vec<String>,
}

#[derive(Debug, Clone, PartialEq, Eq)]
pub struct TvlRoundInput {
    pub reader_a: ReaderAssessment,
    pub reader_b: ReaderAssessment,
    pub verifier: VerifierFeedback,
}

#[derive(Debug, Clone, PartialEq, Eq)]
pub struct TvlOperationRecord {
    pub operation_id: u64,
    pub round: usize,
    pub lifecycle_state: TvlLifecycleState,
    pub verification_state: VerificationState,
    pub agreement_state: AgreementState,
    pub evidence_status: EvidenceStatus,
    pub unresolved_disagreements: usize,
    pub contradiction_count: usize,
    pub drift_flags: BTreeSet<u8>,
}

#[derive(Debug, Clone, PartialEq, Eq)]
pub struct TvlEvent {
    pub seq: u64,
    pub round: Option<usize>,
    pub kind: TvlEventKind,
    pub summary: String,
}

#[derive(Debug, Clone, PartialEq, Eq)]
pub struct TvlPublicSnapshot {
    pub run_id: String,
    pub round_count: usize,
    pub max_rounds: usize,
    pub status: TvlRunStatus,
    pub reader_a_status: ActorStatus,
    pub reader_b_status: ActorStatus,
    pub verifier_status: ActorStatus,
    pub agreement_state: AgreementState,
    pub unresolved_disagreements: usize,
    pub contradiction_count: usize,
    pub drift_flags: BTreeSet<u8>,
    pub evidence_status: EvidenceStatus,
    pub verification_state: VerificationState,
    pub final_result_available: bool,
}

#[derive(Debug, Clone, Copy, PartialEq, Eq, Structural)]
pub enum TvlTermination {
    Cancelled,
    Timeout,
}

#[derive(Debug, Clone, PartialEq, Eq)]
pub struct TvlEngine {
    run_id: String,
    max_rounds: usize,
    history_cap: usize,
    lifecycle_state: TvlLifecycleState,
    status: TvlRunStatus,
    reader_a_status: ActorStatus,
    reader_b_status: ActorStatus,
    verifier_status: ActorStatus,
    agreement_state: AgreementState,
    unresolved_disagreements: usize,
    contradiction_count: usize,
    drift_flags: BTreeSet<u8>,
    evidence_status: EvidenceStatus,
    constraints_satisfied: bool,
    unsupported_critical_claims_resolved: bool,
    execution_evidence_available: bool,
    verification_completed_successfully: bool,
    verification_state: VerificationState,
    round_count: usize,
    op_seq: u64,
    event_seq: u64,
    utility_belt_status: UtilityBeltStatus,
    field_boots_status: FieldBootsStatus,
    operation_history: VecDeque<TvlOperationRecord>,
    timeline: VecDeque<TvlEvent>,
    reader_a_last_initial: Option<u64>,
    reader_b_last_initial: Option<u64>,
    reader_a_feedback_buffer: Vec<String>,
    reader_b_feedback_buffer: Vec<String>,
}

// ---------------------------------------------------------------------------
// Views.
// ---------------------------------------------------------------------------

/// A timeline event, with its summary as characters.
pub struct EventView {
    pub seq: u64,
    pub round: Option<usize>,
    pub kind: TvlEventKind,
    pub summary: Seq<char>,
}

impl View for TvlEvent {
    type V = EventView;

    open spec fn view(&self) -> EventView {
        EventView { seq: self.seq, round: self.round, kind: self.kind, summary: self.summary@ }
    }
}

/// An operation record, with its drift flags as a set.
pub struct OperationView {
    pub operation_id: u64,
    pub round: usize,
    pub lifecycle_state: TvlLifecycleState,
    pub verification_state: VerificationState,
    pub agreement_state: AgreementState,
    pub evidence_status: EvidenceStatus,
    pub unresolved_disagreements: usize,
    pub contradiction_count: usize,
    pub drift_flags: Set<u8>,
}

impl View for TvlOperationRecord {
    type V = OperationView;

    open spec fn view(&self) -> OperationView {
        OperationView {
            operation_id: self.operation_id,
            round: self.round,
            lifecycle_state: self.lifecycle_state,
            verification_state: self.verification_state,
            agreement_state: self.agreement_state,
            evidence_status: self.evidence_status,
            unresolved_disagreements: self.unresolved_disagreements,
            contradiction_count: self.contradiction_count,
            drift_flags: self.drift_flags@,
        }
    }
}

/// What the loop reads of a verifier's feedback.
pub struct FeedbackView {
    pub confirms_evidence: bool,
    pub constraints_satisfied: bool,
    pub unsupported_critical_claims_resolved: bool,
    pub execution_evidence_available: bool,
    pub verification_completed_successfully: bool,
    pub unresolved_disagreements: usize,
    pub contradiction_count: usize,
    pub drift_flags: Set<u8>,
    pub feedback_for_reader_a: Seq<Seq<char>>,
    pub feedback_for_reader_b: Seq<Seq<char>>,
}

impl View for VerifierFeedback {
    type V = FeedbackView;

    open spec fn view(&self) -> FeedbackView {
        FeedbackView {
            confirms_evidence: self.confirms_evidence,
            constraints_satisfied: self.constraints_satisfied,
            unsupported_critical_claims_resolved: self.unsupported_critical_claims_resolved,
            execution_evidence_available: self.execution_evidence_available,
            verification_completed_successfully: self.verification_completed_successfully,
            unresolved_disagreements: self.unresolved_disagreements,
            contradiction_count: self.contradiction_count,
            drift_flags: self.drift_flags@,
            feedback_for_reader_a: views(self.feedback_for_reader_a@),
            feedback_for_reader_b: views(self.feedback_for_reader_b@),
        }
    }
}

/// What the loop reads of one round: the readers' assessment hashes and the feedback.
pub struct RoundView {
    pub reader_a_hash: u64,
    pub reader_b_hash: u64,
    pub verifier: FeedbackView,
}

impl View for TvlRoundInput {
    type V = RoundView;

    open spec fn view(&self) -> RoundView {
        RoundView {
            reader_a_hash: self.reader_a.stable_hash,
            reader_b_hash: self.reader_b.stable_hash,
            verifier: self.verifier@,
        }
    }
}

/// The whole state of an engine.
pub struct TvlState {
    pub run_id: Seq<char>,
    pub max_rounds: usize,
    pub history_cap: usize,
    pub lifecycle_state: TvlLifecycleState,
    pub status: TvlRunStatus,
    pub reader_a_status: ActorStatus,
    pub reader_b_status: ActorStatus,
    pub verifier_status: ActorStatus,
    pub agreement_state: AgreementState,
    pub unresolved_disagreements: usize,
    pub contradiction_count: usize,
    pub drift_flags: Set<u8>,
    pub evidence_status: EvidenceStatus,
    pub constraints_satisfied: bool,
    pub unsupported_critical_claims_resolved: bool,
    pub execution_evidence_available: bool,
    pub verification_completed_successfully: bool,
    pub verification_state: VerificationState,
    pub round_count: usize,
    pub op_seq: u64,
    pub event_seq: u64,
    pub utility_belt_status: UtilityBeltStatus,
    pub field_boots_status: FieldBootsStatus,
    pub operations: Seq<OperationView>,
    pub timeline: Seq<EventView>,
    pub reader_a_last_initial: Option<u64>,
    pub reader_b_last_initial: Option<u64>,
    pub reader_a_feedback: Seq<Seq<char>>,
    pub reader_b_feedback: Seq<Seq<char>>,
}

impl View for TvlEngine {
    type V = TvlState;

    closed spec fn view(&self) -> TvlState {
        TvlState {
            run_id: self.run_id@,
            max_rounds: self.max_rounds,
            history_cap: self.history_cap,
            lifecycle_state: self.lifecycle_state,
            status: self.status,
            reader_a_status: self.reader_a_status,
            reader_b_status: self.reader_b_status,
            verifier_status: self.verifier_status,
            agreement_state: self.agreement_state,
            unresolved_disagreements: self.unresolved_disagreements,
            contradiction_count: self.contradiction_count,
            drift_flags: self.drift_flags@,
            evidence_status: self.evidence_status,
            constraints_satisfied: self.constraints_satisfied,
            unsupported_critical_claims_resolved: self.unsupported_critical_claims_resolved,
            execution_evidence_available: self.execution_evidence_available,
            verification_completed_successfully: self.verification_completed_successfully,
            verification_state: self.verification_state,
            round_count: self.round_count,
            op_seq: self.op_seq,
            event_seq: self.event_seq,
            utility_belt_status: self.utility_belt_status,
            field_boots_status: self.field_boots_status,
            operations: self.operation_history@.map_values(|r: TvlOperationRecord| r@),
            timeline: self.timeline@.map_values(|e: TvlEvent| e@),
            reader_a_last_initial: self.reader_a_last_initial,
            reader_b_last_initial: self.reader_b_last_initial,
            reader_a_feedback: views(self.reader_a_feedback_buffer@),
            reader_b_feedback: views(self.reader_b_feedback_buffer@),
        }
    }
}

// ---------------------------------------------------------------------------
// The state machine, as spec functions.
// ---------------------------------------------------------------------------

/// The last `cap` elements of `s` (all of `s` when it is shorter).
pub open spec fn keep_last<T>(s: Seq<T>, cap: nat) -> Seq<T> {
    if s.len() > cap {
        s.subrange(s.len() - cap, s.len() as int)
    } else {
        s
    }
}

/// The state after one event is appended to the bounded timeline.
pub open spec fn emitted(st: TvlState, kind: TvlEventKind, round: Option<usize>, summary: Seq<char>) -> TvlState {
    let seq = (st.event_seq + 1) as u64;
    TvlState {
        event_seq: seq,
        timeline: keep_last(
            st.timeline.push(EventView { seq, round, kind, summary }),
            st.history_cap as nat,
        ),
        ..st
    }
}

/// The record of the current state that `push_operation` appends.
pub open spec fn operation_of(st: TvlState, id: u64) -> OperationView {
    OperationView {
        operation_id: id,
        round: st.round_count,
        lifecycle_state: st.lifecycle_state,
        verification_state: st.verification_state,
        agreement_state: st.agreement_state,
        evidence_status: st.evidence_status,
        unresolved_disagreements: st.unresolved_disagreements,
        contradiction_count: st.contradiction_count,
        drift_flags: st.drift_flags,
    }
}

/// The state after the current state is recorded in the bounded operation history.
pub open spec fn recorded(st: TvlState) -> TvlState {
    let id = (st.op_seq + 1) as u64;
    TvlState {
        op_seq: id,
        operations: keep_last(st.operations.push(operation_of(st, id)), st.history_cap as nat),
        ..st
    }
}

/// A terminal outcome: status, lifecycle and a failed verification, announced by a
/// failure event and a completion event, then recorded.
pub open spec fn concluded(
    st: TvlState,
    status: TvlRunStatus,
    lifecycle: TvlLifecycleState,
    round: Option<usize>,
    why: Seq<char>,
    done: Seq<char>,
) -> TvlState {
    let s1 = TvlState {
        status,
        lifecycle_state: lifecycle,
        verification_state: VerificationState::Failed,
        ..st
    };
    recorded(emitted(emitted(s1, TvlEventKind::VerificationFailed, round, why), TvlEventKind::TvlCompleted, round, done))
}

/// The readiness statuses that block a run.
pub open spec fn readiness_blocks(u: UtilityBeltStatus, f: FieldBootsStatus) -> bool {
    u == UtilityBeltStatus::Unavailable || u == UtilityBeltStatus::PermissionRequired
        || f == FieldBootsStatus::PermissionRequired || f == FieldBootsStatus::EnvironmentBlocked
        || f == FieldBootsStatus::Unavailable
}

/// The state after the readiness of the tools is reported.
pub open spec fn with_readiness(st: TvlState, u: UtilityBeltStatus, f: FieldBootsStatus) -> TvlState {
    let s1 = TvlState {
        utility_belt_status: u,
        field_boots_status: f,
        lifecycle_state: TvlLifecycleState::ReadinessChecked,
        ..st
    };
    if readiness_blocks(u, f) {
        let s2 = TvlState {
            status: TvlRunStatus::Blocked,
            reader_a_status: ActorStatus::Blocked,
            reader_b_status: ActorStatus::Blocked,
            verifier_status: ActorStatus::Blocked,
            verification_state: VerificationState::Failed,
            lifecycle_state: TvlLifecycleState::Blocked,
            ..s1
        };
        recorded(emitted(emitted(s2, TvlEventKind::VerificationFailed, None, "readiness blocked"@),
            TvlEventKind::TvlCompleted, None, "tvl blocked"@))
    } else {
        s1
    }
}

/// The state after the run is started; a blocked run stays as it is.
pub open spec fn started(st: TvlState) -> TvlState {
    if st.status == TvlRunStatus::Blocked {
        st
    } else {
        recorded(emitted(
            TvlState {
                lifecycle_state: TvlLifecycleState::Started,
                status: TvlRunStatus::Verifying,
                verification_state: VerificationState::Pending,
                ..st
            },
            TvlEventKind::TvlStarted,
            None,
            "tvl started"@,
        ))
    }
}

/// How far the two readers agree, given what the verifier found.
pub open spec fn agreement_of(a: u64, b: u64, unresolved: usize, contradictions: usize, evidence: EvidenceStatus) -> AgreementState {
    if contradictions > 0 {
        AgreementState::FactualDisagreement
    } else if evidence == EvidenceStatus::Insufficient {
        AgreementState::EvidenceDisagreement
    } else if unresolved > 0 {
        AgreementState::PartialAgreement
    } else if a == b {
        AgreementState::FullAgreement
    } else {
        AgreementState::PartialAgreement
    }
}

/// The readers converged: full or partial agreement.
pub open spec fn converged(a: AgreementState) -> bool {
    a == AgreementState::FullAgreement || a == AgreementState::PartialAgreement
}

/// Every check that a verified result needs holds in this state.
pub open spec fn all_checks_hold(st: TvlState) -> bool {
    &&& st.verification_state != VerificationState::Unknown
    &&& st.reader_a_status == ActorStatus::Complete
    &&& st.reader_b_status == ActorStatus::Complete
    &&& st.verifier_status == ActorStatus::Complete
    &&& st.unresolved_disagreements == 0
    &&& st.contradiction_count == 0
    &&& st.drift_flags.is_empty()
    &&& st.evidence_status == EvidenceStatus::Sufficient
    &&& st.constraints_satisfied
    &&& st.unsupported_critical_claims_resolved
    &&& st.execution_evidence_available
    &&& st.verification_completed_successfully
    &&& converged(st.agreement_state)
}

/// The state once the readers and the verifier have reported for round `round`.
pub open spec fn observed(st: TvlState, input: RoundView, round: usize) -> TvlState {
    let fb = input.verifier;
    let evidence = if fb.confirms_evidence { EvidenceStatus::Sufficient } else { EvidenceStatus::Insufficient };
    TvlState {
        round_count: round,
        lifecycle_state: TvlLifecycleState::Observed,
        reader_a_status: ActorStatus::Complete,
        reader_b_status: ActorStatus::Complete,
        verifier_status: ActorStatus::Complete,
        unresolved_disagreements: fb.unresolved_disagreements,
        contradiction_count: fb.contradiction_count,
        drift_flags: fb.drift_flags,
        evidence_status: evidence,
        constraints_satisfied: fb.constraints_satisfied,
        unsupported_critical_claims_resolved: fb.unsupported_critical_claims_resolved,
        execution_evidence_available: fb.execution_evidence_available,
        verification_completed_successfully: fb.verification_completed_successfully,
        reader_a_last_initial: match st.reader_a_last_initial {
            Some(h) => Some(h),
            None => Some(input.reader_a_hash),
        },
        reader_b_last_initial: match st.reader_b_last_initial {
            Some(h) => Some(h),
            None => Some(input.reader_b_hash),
        },
        reader_a_feedback: fb.feedback_for_reader_a,
        reader_b_feedback: fb.feedback_for_reader_b,
        agreement_state: agreement_of(
            input.reader_a_hash,
            input.reader_b_hash,
            fb.unresolved_disagreements,
            fb.contradiction_count,
            evidence,
        ),
        ..st
    }
}

/// The events of a round up to the verifier's report.
pub open spec fn round_reported(st: TvlState, r: Option<usize>) -> TvlState {
    emitted(emitted(emitted(emitted(emitted(st,
        TvlEventKind::RoundStarted, r, "round started"@),
        TvlEventKind::ReaderAComplete, r, "reader a complete"@),
        TvlEventKind::ReaderBComplete, r, "reader b complete"@),
        TvlEventKind::VerifierStarted, r, "verifier started"@),
        TvlEventKind::VerifierComplete, r, "verifier complete"@)
}

/// The findings of a round: convergence, disagreement and drift events.
pub open spec fn findings_reported(st: TvlState, r: Option<usize>) -> TvlState {
    let s1 = if converged(st.agreement_state) {
        emitted(st, TvlEventKind::ConvergenceReached, r, "convergence reached"@)
    } else {
        st
    };
    let s2 = if st.unresolved_disagreements > 0 || st.agreement_state == AgreementState::FactualDisagreement
        || st.agreement_state == AgreementState::EvidenceDisagreement {
        emitted(s1, TvlEventKind::DisagreementFound, r, "disagreement found"@)
    } else {
        s1
    };
    if !st.drift_flags.is_empty() {
        emitted(s2, TvlEventKind::DriftDetected, r, "drift detected"@)
    } else {
        s2
    }
}

/// The outcome of a round: verified, out of rounds, or another round requested.
pub open spec fn decided(st: TvlState, r: Option<usize>) -> TvlState {
    if all_checks_hold(st) {
        let s1 = TvlState {
            status: TvlRunStatus::Verified,
            lifecycle_state: TvlLifecycleState::Verified,
            verification_state: VerificationState::Passed,
            ..st
        };
        emitted(emitted(s1, TvlEventKind::VerificationPassed, r, "verification passed"@),
            TvlEventKind::TvlCompleted, r, "tvl completed"@)
    } else if st.round_count >= st.max_rounds {
        let status = if st.unresolved_disagreements > 0 { TvlRunStatus::Incomplete } else { TvlRunStatus::Failed };
        let lifecycle = if st.unresolved_disagreements > 0 { TvlLifecycleState::Incomplete } else { TvlLifecycleState::Failed };
        let s1 = TvlState {
            status,
            lifecycle_state: lifecycle,
            verification_state: VerificationState::Failed,
            ..st
        };
        emitted(emitted(s1, TvlEventKind::VerificationFailed, r, "verification failed"@),
            TvlEventKind::TvlCompleted, r, "tvl completed"@)
    } else {
        let s1 = TvlState {
            status: TvlRunStatus::Verifying,
            verification_state: VerificationState::Pending,
            ..st
        };
        emitted(s1, TvlEventKind::RevisionRequested, r, "revision requested"@)
    }
}

/// The state after one round is processed. Only an idle or verifying run takes rounds;
/// an idle run is started first; a run that has used all its rounds ends incomplete.
pub open spec fn after_round(st: TvlState, input: RoundView) -> TvlState {
    if st.status != TvlRunStatus::Verifying && st.status != TvlRunStatus::Idle {
        st
    } else {
        let s1 = if st.status == TvlRunStatus::Idle { started(st) } else { st };
        if s1.round_count >= s1.max_rounds {
            concluded(s1, TvlRunStatus::Incomplete, TvlLifecycleState::Incomplete, None,
                "max rounds reached"@, "tvl incomplete"@)
        } else {
            let r = (s1.round_count + 1) as usize;
            let s2 = observed(s1, input, r);
            recorded(decided(findings_reported(round_reported(s2, Some(r)), Some(r)), Some(r)))
        }
    }
}

/// The state after a reader fails.
pub open spec fn reader_failed(st: TvlState, reader_a: bool) -> TvlState {
    let s1 = if reader_a {
        TvlState { reader_a_status: ActorStatus::Failed, ..st }
    } else {
        TvlState { reader_b_status: ActorStatus::Failed, ..st }
    };
    concluded(s1, TvlRunStatus::Failed, TvlLifecycleState::Failed, None, "reader failed"@, "tvl failed"@)
}

/// The state after a reader is blocked.
pub open spec fn reader_blocked(st: TvlState, reader_a: bool) -> TvlState {
    let s1 = if reader_a {
        TvlState { reader_a_status: ActorStatus::Blocked, ..st }
    } else {
        TvlState { reader_b_status: ActorStatus::Blocked, ..st }
    };
    concluded(s1, TvlRunStatus::Blocked, TvlLifecycleState::Blocked, None, "reader blocked"@, "tvl blocked"@)
}

/// The state after the run is cancelled or times out.
pub open spec fn terminated(st: TvlState, reason: TvlTermination) -> TvlState {
    match reason {
        TvlTermination::Cancelled => concluded(st, TvlRunStatus::Blocked, TvlLifecycleState::Blocked, None,
            "cancelled"@, "tvl cancelled"@),
        TvlTermination::Timeout => concluded(st, TvlRunStatus::Failed, TvlLifecycleState::Failed, None,
            "timeout"@, "tvl timeout"@),
    }
}

/// The event numbers in the timeline increase strictly and none exceeds the counter.
pub open spec fn seqs_increasing(tl: Seq<EventView>, last: u64) -> bool {
    &&& forall|i: int, j: int| 0 <= i < j < tl.len() ==> tl[i].seq < tl[j].seq
    &&& forall|i: int| 0 <= i < tl.len() ==> tl[i].seq <= last
}

/// The invariant of an engine's state.
pub open spec fn tvl_inv(st: TvlState) -> bool {
    &&& 1 <= st.max_rounds
    &&& 1 <= st.history_cap
    &&& st.round_count <= st.max_rounds
    &&& st.timeline.len() <= st.history_cap
    &&& st.operations.len() <= st.history_cap
    &&& seqs_increasing(st.timeline, st.event_seq)
    &&& st.status == TvlRunStatus::Verifying ==> st.verification_state == VerificationState::Pending
    &&& st.status == TvlRunStatus::Verified ==> verified_state_clean(st)
}

/// What a verified run shows: the verification passed, with sufficient evidence and
/// no open disagreement, contradiction or drift.
pub open spec fn verified_state_clean(st: TvlState) -> bool {
    &&& st.verification_state == VerificationState::Passed
    &&& st.unresolved_disagreements == 0
    &&& st.contradiction_count == 0
    &&& st.drift_flags.is_empty()
    &&& st.evidence_status == EvidenceStatus::Sufficient
}

/// The counters can take the events and records of any one call without overflow.
pub open spec fn has_room(st: TvlState) -> bool {
    st.event_seq <= u64::MAX - 16 && st.op_seq <= u64::MAX - 2
}


// ---------------------------------------------------------------------------
// Run ids.
// ---------------------------------------------------------------------------

/// Characters a run id keeps as they are.
pub open spec fn keep_char(c: char) -> bool {
    ('a' <= c && c <= 'z') || ('A' <= c && c <= 'Z') || ('0' <= c && c <= '9') || c == '_' || c == '-'
}

/// Left-to-right scan that keeps the kept characters and turns each run of other
/// characters into one dash; the flag says whether the last character written was
/// such a replacement dash.
pub open spec fn collapse_scan(s: Seq<char>) -> (Seq<char>, bool)
    decreases s.len(),
{
    if s.len() == 0 {
        (Seq::empty(), false)
    } else {
        let (out, dash) = collapse_scan(s.drop_last());
        let c = s.last();
        if keep_char(c) {
            (out.push(c), false)
        } else if !dash {
            (out.push('-'), true)
        } else {
            (out, true)
        }
    }
}

/// `s` without its leading dashes.
pub open spec fn trim_dashes_start(s: Seq<char>) -> Seq<char>
    decreases s.len(),
{
    if s.len() > 0 && s[0] == '-' {
        trim_dashes_start(s.drop_first())
    } else {
        s
    }
}

/// `s` without its trailing dashes.
pub open spec fn trim_dashes_end(s: Seq<char>) -> Seq<char>
    decreases s.len(),
{
    if s.len() > 0 && s.last() == '-' {
        trim_dashes_end(s.drop_last())
    } else {
        s
    }
}

/// The lower-cased id mentions a credential-like word.
pub open spec fn secret_like(lower: Seq<char>) -> bool {
    contains_seq(lower, "token"@) || contains_seq(lower, "secret"@) || contains_seq(lower, "api_key"@)
        || contains_seq(lower, "password"@) || contains_seq(lower, "sk-"@)
}

/// The public form of a run id: redacted when it looks like a credential, otherwise
/// reduced to letters, digits, `_` and `-` with other runs collapsed to one dash and
/// outer dashes trimmed; `run-unknown` when nothing is left.
pub open spec fn sanitized_run_id(raw: Seq<char>) -> Seq<char> {
    if secret_like(lower_seq(raw)) {
        "run-redacted"@
    } else {
        let t = trim_dashes_end(trim_dashes_start(collapse_scan(raw).0));
        if t.len() == 0 {
            "run-unknown"@
        } else {
            t
        }
    }
}

fn is_keep_char(c: char) -> (r: bool)
    ensures
        r == keep_char(c),
{
    ('a' <= c && c <= 'z') || ('A' <= c && c <= 'Z') || ('0' <= c && c <= '9') || c == '_' || c == '-'
}

/// Sanitizes a run id for public display.
pub fn sanitize_run_id(raw: &str) -> (r: String)
    ensures
        r@ == sanitized_run_id(raw@),
{
    if lower_contains(raw, "token") || lower_contains(raw, "secret") || lower_contains(raw, "api_key")
        || lower_contains(raw, "password") || lower_contains(raw, "sk-") {
        return owned("run-redacted");
    }
    let v = chars_of(raw);
    let mut out: Vec<char> = Vec::new();
    let mut last_dash = false;
    let mut i: usize = 0;
    while i < v.len()
        invariant
            v@ == raw@,
            i <= v.len(),
            (out@, last_dash) == collapse_scan(v@.subrange(0, i as int)),
        decreases v.len() - i,
    {
        proof {
            assert(v@.subrange(0, i + 1).drop_last() =~= v@.subrange(0, i as int));
        }
        let ch = v[i];
        if is_keep_char(ch) {
            out.push(ch);
            last_dash = false;
        } else if !last_dash {
            out.push('-');
            last_dash = true;
        }
        i += 1;
    }
    proof {
        assert(v@.subrange(0, i as int) =~= raw@);
    }
    let n = out.len();
    let mut a: usize = 0;
    proof {
        assert(out@.subrange(0, n as int) =~= out@);
    }
    while a < n && out[a] == '-'
        invariant
            n == out.len(),
            a <= n,
            trim_dashes_start(out@) == trim_dashes_start(out@.subrange(a as int, n as int)),
        decreases n - a,
    {
        proof {
            assert(out@.subrange(a as int, n as int).drop_first() =~= out@.subrange(a + 1, n as int));
        }
        a += 1;
    }
    proof {
        assert(trim_dashes_start(out@) == out@.subrange(a as int, n as int));
    }
    let mut b: usize = n;
    while b > a && out[b - 1] == '-'
        invariant
            n == out.len(),
            a <= b <= n,
            trim_dashes_end(out@.subrange(a as int, n as int)) == trim_dashes_end(out@.subrange(a as int, b as int)),
        decreases b - a,
    {
        proof {
            assert(out@.subrange(a as int, b as int).drop_last() =~= out@.subrange(a as int, b - 1));
        }
        b -= 1;
    }
    proof {
        assert(trim_dashes_end(out@.subrange(a as int, n as int)) == out@.subrange(a as int, b as int));
    }
    if a == b {
        return owned("run-unknown");
    }
    let mut r = String::new();
    let mut k: usize = a;
    while k < b
        invariant
            a <= k <= b <= n,
            n == out.len(),
            r@ == out@.subrange(a as int, k as int),
        decreases b - k,
    {
        push_char(&mut r, out[k]);
        proof {
            assert(r@ =~= out@.subrange(a as int, k + 1));
        }
        k += 1;
    }
    r
}

/// Classifies how far the readers agree.
fn classify_agreement(a: u64, b: u64, unresolved: usize, contradictions: usize, evidence_status: EvidenceStatus) -> (r: AgreementState)
    ensures
        r == agreement_of(a, b, unresolved, contradictions, evidence_status),
{
    if contradictions > 0 {
        return AgreementState::FactualDisagreement;
    }
    if evidence_status == EvidenceStatus::Insufficient {
        return AgreementState::EvidenceDisagreement;
    }
    if unresolved > 0 {
        return AgreementState::PartialAgreement;
    }
    if a == b {
        AgreementState::FullAgreement
    } else {
        AgreementState::PartialAgreement
    }
}


// ---------------------------------------------------------------------------
// Facts about the state machine.
// ---------------------------------------------------------------------------

proof fn lemma_keep_last_map<A, B>(s: Seq<A>, cap: nat, f: spec_fn(A) -> B)
    ensures
        keep_last(s, cap).map_values(f) == keep_last(s.map_values(f), cap),
{
    assert(keep_last(s, cap).map_values(f) =~= keep_last(s.map_values(f), cap));
}

proof fn lemma_emitted_inv(st: TvlState, kind: TvlEventKind, round: Option<usize>, summary: Seq<char>)
    requires
        tvl_inv(st),
        st.event_seq < u64::MAX,
    ensures
        tvl_inv(emitted(st, kind, round, summary)),
        emitted(st, kind, round, summary).event_seq == st.event_seq + 1,
{
    let e = emitted(st, kind, round, summary);
    let full = st.timeline.push(EventView { seq: e.event_seq, round, kind, summary });
    assert(seqs_increasing(full, e.event_seq));
    if full.len() > st.history_cap {
        let d = full.len() - st.history_cap;
        assert forall|i: int, j: int| 0 <= i < j < e.timeline.len() implies e.timeline[i].seq < e.timeline[j].seq by {
            assert(e.timeline[i] == full[i + d] && e.timeline[j] == full[j + d]);
        }
        assert forall|i: int| 0 <= i < e.timeline.len() implies e.timeline[i].seq <= e.event_seq by {
            assert(e.timeline[i] == full[i + d]);
        }
    }
}

proof fn lemma_recorded_inv(st: TvlState)
    requires
        tvl_inv(st),
        st.op_seq < u64::MAX,
    ensures
        tvl_inv(recorded(st)),
        recorded(st).op_seq == st.op_seq + 1,
        recorded(st).event_seq == st.event_seq,
{
}

proof fn lemma_concluded_inv(
    st: TvlState,
    status: TvlRunStatus,
    lifecycle: TvlLifecycleState,
    round: Option<usize>,
    why: Seq<char>,
    done: Seq<char>,
)
    requires
        tvl_inv(st),
        st.event_seq < u64::MAX - 1,
        st.op_seq < u64::MAX,
        status != TvlRunStatus::Verifying,
        status != TvlRunStatus::Verified,
    ensures
        tvl_inv(concluded(st, status, lifecycle, round, why, done)),
{
    let s1 = TvlState { status, lifecycle_state: lifecycle, verification_state: VerificationState::Failed, ..st };
    lemma_emitted_inv(s1, TvlEventKind::VerificationFailed, round, why);
    let s2 = emitted(s1, TvlEventKind::VerificationFailed, round, why);
    lemma_emitted_inv(s2, TvlEventKind::TvlCompleted, round, done);
    lemma_recorded_inv(emitted(s2, TvlEventKind::TvlCompleted, round, done));
}

proof fn lemma_started_inv(st: TvlState)
    requires
        tvl_inv(st),
        has_room(st),
    ensures
        tvl_inv(started(st)),
        started(st).event_seq <= st.event_seq + 1,
        started(st).op_seq <= st.op_seq + 1,
        started(st).round_count == st.round_count,
        started(st).max_rounds == st.max_rounds,
{
    if st.status != TvlRunStatus::Blocked {
        let s0 = TvlState {
            lifecycle_state: TvlLifecycleState::Started,
            status: TvlRunStatus::Verifying,
            verification_state: VerificationState::Pending,
            ..st
        };
        lemma_emitted_inv(s0, TvlEventKind::TvlStarted, None, "tvl started"@);
        lemma_recorded_inv(emitted(s0, TvlEventKind::TvlStarted, None, "tvl started"@));
    }
}

proof fn lemma_round_reported_inv(st: TvlState, r: Option<usize>)
    requires
        tvl_inv(st),
        st.event_seq <= u64::MAX - 5,
    ensures
        tvl_inv(round_reported(st, r)),
        round_reported(st, r).event_seq == st.event_seq + 5,
        round_reported(st, r).op_seq == st.op_seq,
{
    let a1 = emitted(st, TvlEventKind::RoundStarted, r, "round started"@);
    lemma_emitted_inv(st, TvlEventKind::RoundStarted, r, "round started"@);
    let a2 = emitted(a1, TvlEventKind::ReaderAComplete, r, "reader a complete"@);
    lemma_emitted_inv(a1, TvlEventKind::ReaderAComplete, r, "reader a complete"@);
    let a3 = emitted(a2, TvlEventKind::ReaderBComplete, r, "reader b complete"@);
    lemma_emitted_inv(a2, TvlEventKind::ReaderBComplete, r, "reader b complete"@);
    let a4 = emitted(a3, TvlEventKind::VerifierStarted, r, "verifier started"@);
    lemma_emitted_inv(a3, TvlEventKind::VerifierStarted, r, "verifier started"@);
    lemma_emitted_inv(a4, TvlEventKind::VerifierComplete, r, "verifier complete"@);
}

proof fn lemma_findings_inv(st: TvlState, r: Option<usize>)
    requires
        tvl_inv(st),
        st.event_seq <= u64::MAX - 3,
    ensures
        tvl_inv(findings_reported(st, r)),
        findings_reported(st, r).event_seq <= st.event_seq + 3,
        findings_reported(st, r).op_seq == st.op_seq,
{
    let b1 = if converged(st.agreement_state) {
        lemma_emitted_inv(st, TvlEventKind::ConvergenceReached, r, "convergence reached"@);
        emitted(st, TvlEventKind::ConvergenceReached, r, "convergence reached"@)
    } else {
        st
    };
    let b2 = if st.unresolved_disagreements > 0 || st.agreement_state == AgreementState::FactualDisagreement
        || st.agreement_state == AgreementState::EvidenceDisagreement {
        lemma_emitted_inv(b1, TvlEventKind::DisagreementFound, r, "disagreement found"@);
        emitted(b1, TvlEventKind::DisagreementFound, r, "disagreement found"@)
    } else {
        b1
    };
    if !st.drift_flags.is_empty() {
        lemma_emitted_inv(b2, TvlEventKind::DriftDetected, r, "drift detected"@);
    }
}

proof fn lemma_decided_inv(st: TvlState, r: Option<usize>)
    requires
        tvl_inv(st),
        st.event_seq <= u64::MAX - 2,
    ensures
        tvl_inv(decided(st, r)),
        decided(st, r).event_seq <= st.event_seq + 2,
        decided(st, r).op_seq == st.op_seq,
{
    if all_checks_hold(st) {
        let c1 = TvlState {
            status: TvlRunStatus::Verified,
            lifecycle_state: TvlLifecycleState::Verified,
            verification_state: VerificationState::Passed,
            ..st
        };
        lemma_emitted_inv(c1, TvlEventKind::VerificationPassed, r, "verification passed"@);
        lemma_emitted_inv(emitted(c1, TvlEventKind::VerificationPassed, r, "verification passed"@),
            TvlEventKind::TvlCompleted, r, "tvl completed"@);
    } else if st.round_count >= st.max_rounds {
        let status = if st.unresolved_disagreements > 0 { TvlRunStatus::Incomplete } else { TvlRunStatus::Failed };
        let lifecycle = if st.unresolved_disagreements > 0 { TvlLifecycleState::Incomplete } else { TvlLifecycleState::Failed };
        let c1 = TvlState { status, lifecycle_state: lifecycle, verification_state: VerificationState::Failed, ..st };
        lemma_emitted_inv(c1, TvlEventKind::VerificationFailed, r, "verification failed"@);
        lemma_emitted_inv(emitted(c1, TvlEventKind::VerificationFailed, r, "verification failed"@),
            TvlEventKind::TvlCompleted, r, "tvl completed"@);
    } else {
        let c1 = TvlState { status: TvlRunStatus::Verifying, verification_state: VerificationState::Pending, ..st };
        lemma_emitted_inv(c1, TvlEventKind::RevisionRequested, r, "revision requested"@);
    }
}

/// Processing a round keeps the engine's invariant: at most `history_cap` events and
/// records are kept, event numbers increase strictly, and no more than `max_rounds`
/// rounds run.
pub proof fn law_round_keeps_invariant(st: TvlState, input: RoundView)
    requires
        tvl_inv(st),
        has_room(st),
    ensures
        tvl_inv(after_round(st, input)),
{
    if st.status == TvlRunStatus::Verifying || st.status == TvlRunStatus::Idle {
        let s1 = if st.status == TvlRunStatus::Idle { started(st) } else { st };
        lemma_started_inv(st);
        if s1.round_count >= s1.max_rounds {
            lemma_concluded_inv(s1, TvlRunStatus::Incomplete, TvlLifecycleState::Incomplete, None,
                "max rounds reached"@, "tvl incomplete"@);
        } else {
            let r = (s1.round_count + 1) as usize;
            let s2 = observed(s1, input, r);
            assert(tvl_inv(s2));
            lemma_round_reported_inv(s2, Some(r));
            let s3 = round_reported(s2, Some(r));
            lemma_findings_inv(s3, Some(r));
            let s4 = findings_reported(s3, Some(r));
            lemma_decided_inv(s4, Some(r));
            lemma_recorded_inv(decided(s4, Some(r)));
        }
    }
}


// ---------------------------------------------------------------------------
// The engine.
// ---------------------------------------------------------------------------

/// Drops elements from the front of the queue until at most `cap` remain.
fn drop_oldest<T>(q: &mut VecDeque<T>, cap: usize)
    ensures
        final(q)@ == keep_last(old(q)@, cap as nat),
{
    let ghost full = q@;
    while q.len() > cap
        invariant
            q@.len() <= full.len(),
            q@ == full.subrange(full.len() - q@.len(), full.len() as int),
            q@.len() < full.len() ==> q@.len() >= cap,
        decreases q@.len(),
    {
        let ghost before = q@;
        let _ = q.pop_front();
        proof {
            assert(q@ =~= full.subrange(full.len() - q@.len(), full.len() as int));
        }
    }
}

/// A copy of an operation record.
fn copy_record(r: &TvlOperationRecord) -> (c: TvlOperationRecord)
    ensures
        c@ == r@,
{
    TvlOperationRecord {
        operation_id: r.operation_id,
        round: r.round,
        lifecycle_state: r.lifecycle_state,
        verification_state: r.verification_state,
        agreement_state: r.agreement_state,
        evidence_status: r.evidence_status,
        unresolved_disagreements: r.unresolved_disagreements,
        contradiction_count: r.contradiction_count,
        drift_flags: r.drift_flags.clone(),
    }
}

/// A copy of an event.
fn copy_event(e: &TvlEvent) -> (c: TvlEvent)
    ensures
        c@ == e@,
{
    TvlEvent { seq: e.seq, round: e.round, kind: e.kind, summary: e.summary.clone() }
}

/// The newest `limit` elements of `s`, newest first.
pub open spec fn newest_first<T>(s: Seq<T>, limit: nat) -> Seq<T> {
    let n = if limit < s.len() { limit } else { s.len() };
    Seq::new(n, |i: int| s[s.len() - 1 - i])
}

impl TvlEngine {
    /// A new engine for a run; at least one round and one history entry are kept.
    pub fn new(run_id: &str, max_rounds: usize, history_cap: usize) -> (e: TvlEngine)
        ensures
            e@ == (TvlState {
                run_id: sanitized_run_id(run_id@),
                max_rounds: if max_rounds < 1 { 1 } else { max_rounds },
                history_cap: if history_cap < 1 { 1 } else { history_cap },
                lifecycle_state: TvlLifecycleState::Planned,
                status: TvlRunStatus::Idle,
                reader_a_status: ActorStatus::Idle,
                reader_b_status: ActorStatus::Idle,
                verifier_status: ActorStatus::Idle,
                agreement_state: AgreementState::Unknown,
                unresolved_disagreements: 0,
                contradiction_count: 0,
                drift_flags: Set::empty(),
                evidence_status: EvidenceStatus::Unknown,
                constraints_satisfied: false,
                unsupported_critical_claims_resolved: false,
                execution_evidence_available: false,
                verification_completed_successfully: false,
                verification_state: VerificationState::Unknown,
                round_count: 0,
                op_seq: 0,
                event_seq: 0,
                utility_belt_status: UtilityBeltStatus::Available,
                field_boots_status: FieldBootsStatus::Ready,
                operations: Seq::empty(),
                timeline: Seq::empty(),
                reader_a_last_initial: None,
                reader_b_last_initial: None,
                reader_a_feedback: Seq::empty(),
                reader_b_feedback: Seq::empty(),
            }),
            tvl_inv(e@),
            has_room(e@),
    {
        let e = TvlEngine {
            run_id: sanitize_run_id(run_id),
            max_rounds: if max_rounds < 1 { 1 } else { max_rounds },
            history_cap: if history_cap < 1 { 1 } else { history_cap },
            lifecycle_state: TvlLifecycleState::Planned,
            status: TvlRunStatus::Idle,
            reader_a_status: ActorStatus::Idle,
            reader_b_status: ActorStatus::Idle,
            verifier_status: ActorStatus::Idle,
            agreement_state: AgreementState::Unknown,
            unresolved_disagreements: 0,
            contradiction_count: 0,
            drift_flags: BTreeSet::new(),
            evidence_status: EvidenceStatus::Unknown,
            constraints_satisfied: false,
            unsupported_critical_claims_resolved: false,
            execution_evidence_available: false,
            verification_completed_successfully: false,
            verification_state: VerificationState::Unknown,
            round_count: 0,
            op_seq: 0,
            event_seq: 0,
            utility_belt_status: UtilityBeltStatus::Available,
            field_boots_status: FieldBootsStatus::Ready,
            operation_history: VecDeque::new(),
            timeline: VecDeque::new(),
            reader_a_last_initial: None,
            reader_b_last_initial: None,
            reader_a_feedback_buffer: Vec::new(),
            reader_b_feedback_buffer: Vec::new(),
        };
        proof {
            assert(e@.operations =~= Seq::empty());
            assert(e@.timeline =~= Seq::empty());
            assert(e@.reader_a_feedback =~= Seq::empty());
            assert(e@.reader_b_feedback =~= Seq::empty());
        }
        e
    }

    /// Appends an event to the bounded timeline.
    fn emit(&mut self, kind: TvlEventKind, round: Option<usize>, summary: &str)
        requires
            old(self)@.event_seq < u64::MAX,
        ensures
            final(self)@ == emitted(old(self)@, kind, round, summary@),
    {
        self.event_seq = self.event_seq + 1;
        let ev = TvlEvent { seq: self.event_seq, round, kind, summary: owned(summary) };
        self.timeline.push_back(ev);
        let ghost pushed = self.timeline@;
        drop_oldest(&mut self.timeline, self.history_cap);
        proof {
            lemma_keep_last_map(pushed, self.history_cap as nat, |e: TvlEvent| e@);
            assert(pushed.map_values(|e: TvlEvent| e@) =~= old(self)@.timeline.push(ev@));
        }
    }

    /// Records the current state in the bounded operation history.
    fn push_operation(&mut self)
        requires
            old(self)@.op_seq < u64::MAX,
        ensures
            final(self)@ == recorded(old(self)@),
    {
        self.op_seq = self.op_seq + 1;
        let rec = TvlOperationRecord {
            operation_id: self.op_seq,
            round: self.round_count,
            lifecycle_state: self.lifecycle_state,
            verification_state: self.verification_state,
            agreement_state: self.agreement_state,
            evidence_status: self.evidence_status,
            unresolved_disagreements: self.unresolved_disagreements,
            contradiction_count: self.contradiction_count,
            drift_flags: self.drift_flags.clone(),
        };
        self.operation_history.push_back(rec);
        let ghost pushed = self.operation_history@;
        drop_oldest(&mut self.operation_history, self.history_cap);
        proof {
            lemma_keep_last_map(pushed, self.history_cap as nat, |r: TvlOperationRecord| r@);
            assert(pushed.map_values(|r: TvlOperationRecord| r@) =~= old(self)@.operations.push(
                operation_of(old(self)@, (old(self)@.op_seq + 1) as u64)));
        }
    }

    /// Ends the run with a failed verification: sets status and lifecycle, emits the
    /// failure and completion events and records the state.
    fn conclude(
        &mut self,
        status: TvlRunStatus,
        lifecycle: TvlLifecycleState,
        round: Option<usize>,
        why: &str,
        done: &str,
    )
        requires
            old(self)@.event_seq < u64::MAX - 1,
            old(self)@.op_seq < u64::MAX,
        ensures
            final(self)@ == concluded(old(self)@, status, lifecycle, round, why@, done@),
    {
        self.status = status;
        self.lifecycle_state = lifecycle;
        self.verification_state = VerificationState::Failed;
        self.emit(TvlEventKind::VerificationFailed, round, why);
        self.emit(TvlEventKind::TvlCompleted, round, done);
        self.push_operation();
    }
}


impl TvlEngine {
    /// Records the readiness of the tools; a blocking readiness ends the run as blocked.
    pub fn set_readiness(&mut self, utility_belt_status: UtilityBeltStatus, field_boots_status: FieldBootsStatus)
        requires
            tvl_inv(old(self)@),
            has_room(old(self)@),
        ensures
            final(self)@ == with_readiness(old(self)@, utility_belt_status, field_boots_status),
            tvl_inv(final(self)@),
    {
        self.utility_belt_status = utility_belt_status;
        self.field_boots_status = field_boots_status;
        self.lifecycle_state = TvlLifecycleState::ReadinessChecked;
        let blocks = utility_belt_status == UtilityBeltStatus::Unavailable
            || utility_belt_status == UtilityBeltStatus::PermissionRequired
            || field_boots_status == FieldBootsStatus::PermissionRequired
            || field_boots_status == FieldBootsStatus::EnvironmentBlocked
            || field_boots_status == FieldBootsStatus::Unavailable;
        if blocks {
            self.status = TvlRunStatus::Blocked;
            self.reader_a_status = ActorStatus::Blocked;
            self.reader_b_status = ActorStatus::Blocked;
            self.verifier_status = ActorStatus::Blocked;
            self.verification_state = VerificationState::Failed;
            self.lifecycle_state = TvlLifecycleState::Blocked;
            let ghost s2 = self@;
            self.emit(TvlEventKind::VerificationFailed, None, "readiness blocked");
            self.emit(TvlEventKind::TvlCompleted, None, "tvl blocked");
            self.push_operation();
            proof {
                lemma_emitted_inv(s2, TvlEventKind::VerificationFailed, None, "readiness blocked"@);
                lemma_emitted_inv(emitted(s2, TvlEventKind::VerificationFailed, None, "readiness blocked"@),
                    TvlEventKind::TvlCompleted, None, "tvl blocked"@);
                lemma_recorded_inv(emitted(emitted(s2, TvlEventKind::VerificationFailed, None, "readiness blocked"@),
                    TvlEventKind::TvlCompleted, None, "tvl blocked"@));
            }
        }
    }

    /// Starts the run, unless it is blocked.
    pub fn start(&mut self)
        requires
            tvl_inv(old(self)@),
            has_room(old(self)@),
        ensures
            final(self)@ == started(old(self)@),
            tvl_inv(final(self)@),
    {
        proof {
            lemma_started_inv(self@);
        }
        if self.status == TvlRunStatus::Blocked {
            return;
        }
        self.lifecycle_state = TvlLifecycleState::Started;
        self.status = TvlRunStatus::Verifying;
        self.verification_state = VerificationState::Pending;
        self.emit(TvlEventKind::TvlStarted, None, "tvl started");
        self.push_operation();
    }

    /// Every check that a verified result needs holds now.
    fn can_verify(&self) -> (r: bool)
        ensures
            r == all_checks_hold(self@),
    {
        if self.verification_state == VerificationState::Unknown {
            return false;
        }
        if self.reader_a_status != ActorStatus::Complete {
            return false;
        }
        if self.reader_b_status != ActorStatus::Complete {
            return false;
        }
        if self.verifier_status != ActorStatus::Complete {
            return false;
        }
        if self.unresolved_disagreements > 0 {
            return false;
        }
        if self.contradiction_count > 0 {
            return false;
        }
        if !self.drift_flags.is_empty() {
            return false;
        }
        if self.evidence_status != EvidenceStatus::Sufficient {
            return false;
        }
        if !self.constraints_satisfied {
            return false;
        }
        if !self.unsupported_critical_claims_resolved {
            return false;
        }
        if !self.execution_evidence_available {
            return false;
        }
        if !self.verification_completed_successfully {
            return false;
        }
        self.agreement_state == AgreementState::FullAgreement || self.agreement_state == AgreementState::PartialAgreement
    }

    /// Takes in the readers' and the verifier's reports for one round.
    fn observe(&mut self, input: TvlRoundInput, round: usize)
        ensures
            final(self)@ == observed(old(self)@, input@, round),
    {
        self.round_count = round;
        self.lifecycle_state = TvlLifecycleState::Observed;
        self.reader_a_status = ActorStatus::Complete;
        self.reader_b_status = ActorStatus::Complete;
        self.verifier_status = ActorStatus::Complete;
        let TvlRoundInput { reader_a, reader_b, verifier } = input;
        self.unresolved_disagreements = verifier.unresolved_disagreements;
        self.contradiction_count = verifier.contradiction_count;
        self.drift_flags = verifier.drift_flags.clone();
        self.evidence_status = if verifier.confirms_evidence {
            EvidenceStatus::Sufficient
        } else {
            EvidenceStatus::Insufficient
        };
        self.constraints_satisfied = verifier.constraints_satisfied;
        self.unsupported_critical_claims_resolved = verifier.unsupported_critical_claims_resolved;
        self.execution_evidence_available = verifier.execution_evidence_available;
        self.verification_completed_successfully = verifier.verification_completed_successfully;
        let initial_a = reader_a.stable_hash;
        let initial_b = reader_b.stable_hash;
        if self.reader_a_last_initial.is_none() {
            self.reader_a_last_initial = Some(initial_a);
        }
        if self.reader_b_last_initial.is_none() {
            self.reader_b_last_initial = Some(initial_b);
        }
        self.reader_a_feedback_buffer = verifier.feedback_for_reader_a;
        self.reader_b_feedback_buffer = verifier.feedback_for_reader_b;
        self.agreement_state = classify_agreement(
            initial_a,
            initial_b,
            self.unresolved_disagreements,
            self.contradiction_count,
            self.evidence_status,
        );
    }

    /// Processes one round. Only an idle or verifying run takes rounds; an idle run is
    /// started first. The run is verified only when every check holds; a run that has
    /// used all its rounds ends incomplete (unresolved disagreements) or failed;
    /// otherwise another round is requested.
    pub fn process_round(&mut self, input: TvlRoundInput)
        requires
            tvl_inv(old(self)@),
            has_room(old(self)@),
        ensures
            final(self)@ == after_round(old(self)@, input@),
            tvl_inv(final(self)@),
    {
        let ghost st = self@;
        let ghost inp = input@;
        proof {
            law_round_keeps_invariant(st, inp);
            lemma_started_inv(st);
        }
        if self.status != TvlRunStatus::Verifying && self.status != TvlRunStatus::Idle {
            return;
        }
        if self.status == TvlRunStatus::Idle {
            self.start();
        }
        let ghost s1 = self@;
        if self.round_count >= self.max_rounds {
            self.conclude(
                TvlRunStatus::Incomplete,
                TvlLifecycleState::Incomplete,
                None,
                "max rounds reached",
                "tvl incomplete",
            );
            return;
        }
        let round = self.round_count + 1;
        self.observe(input, round);
        let ghost s2 = self@;
        proof {
            lemma_round_reported_inv(s2, Some(round));
        }
        self.report_round(round);
        let ghost s3 = self@;
        proof {
            lemma_findings_inv(s3, Some(round));
        }
        self.report_findings(round);
        let ghost s4 = self@;
        proof {
            lemma_decided_inv(s4, Some(round));
        }
        self.decide(round);
        self.push_operation();
    }
}


impl TvlEngine {
    /// The events of a round up to the verifier's report.
    fn report_round(&mut self, round: usize)
        requires
            old(self)@.event_seq <= u64::MAX - 5,
        ensures
            final(self)@ == round_reported(old(self)@, Some(round)),
    {
        self.emit(TvlEventKind::RoundStarted, Some(round), "round started");
        self.emit(TvlEventKind::ReaderAComplete, Some(round), "reader a complete");
        self.emit(TvlEventKind::ReaderBComplete, Some(round), "reader b complete");
        self.emit(TvlEventKind::VerifierStarted, Some(round), "verifier started");
        self.emit(TvlEventKind::VerifierComplete, Some(round), "verifier complete");
    }

    /// The convergence, disagreement and drift events of a round.
    fn report_findings(&mut self, round: usize)
        requires
            old(self)@.event_seq <= u64::MAX - 3,
        ensures
            final(self)@ == findings_reported(old(self)@, Some(round)),
    {
        let ghost st = self@;
        let converged_now = self.agreement_state == AgreementState::FullAgreement
            || self.agreement_state == AgreementState::PartialAgreement;
        let disagreement = self.unresolved_disagreements > 0
            || self.agreement_state == AgreementState::FactualDisagreement
            || self.agreement_state == AgreementState::EvidenceDisagreement;
        let drift = !self.drift_flags.is_empty();
        if converged_now {
            self.emit(TvlEventKind::ConvergenceReached, Some(round), "convergence reached");
        }
        if disagreement {
            self.emit(TvlEventKind::DisagreementFound, Some(round), "disagreement found");
        }
        if drift {
            self.emit(TvlEventKind::DriftDetected, Some(round), "drift detected");
        }
    }

    /// The outcome of a round: verified, out of rounds, or another round requested.
    fn decide(&mut self, round: usize)
        requires
            old(self)@.event_seq <= u64::MAX - 2,
        ensures
            final(self)@ == decided(old(self)@, Some(round)),
    {
        if self.can_verify() {
            self.status = TvlRunStatus::Verified;
            self.lifecycle_state = TvlLifecycleState::Verified;
            self.verification_state = VerificationState::Passed;
            self.emit(TvlEventKind::VerificationPassed, Some(round), "verification passed");
            self.emit(TvlEventKind::TvlCompleted, Some(round), "tvl completed");
        } else if self.round_count >= self.max_rounds {
            self.status = if self.unresolved_disagreements > 0 {
                TvlRunStatus::Incomplete
            } else {
                TvlRunStatus::Failed
            };
            self.lifecycle_state = if self.status == TvlRunStatus::Incomplete {
                TvlLifecycleState::Incomplete
            } else {
                TvlLifecycleState::Failed
            };
            self.verification_state = VerificationState::Failed;
            self.emit(TvlEventKind::VerificationFailed, Some(round), "verification failed");
            self.emit(TvlEventKind::TvlCompleted, Some(round), "tvl completed");
        } else {
            self.status = TvlRunStatus::Verifying;
            self.verification_state = VerificationState::Pending;
            self.emit(TvlEventKind::RevisionRequested, Some(round), "revision requested");
        }
    }
}


/// The run has a final result: verified, failed, incomplete or blocked.
pub open spec fn final_result(status: TvlRunStatus) -> bool {
    status == TvlRunStatus::Verified || status == TvlRunStatus::Failed || status == TvlRunStatus::Incomplete
        || status == TvlRunStatus::Blocked
}

impl TvlEngine {
    /// Ends the run as failed because a reader failed.
    pub fn mark_reader_failed(&mut self, reader_a: bool)
        requires
            tvl_inv(old(self)@),
            has_room(old(self)@),
        ensures
            final(self)@ == reader_failed(old(self)@, reader_a),
            tvl_inv(final(self)@),
    {
        if reader_a {
            self.reader_a_status = ActorStatus::Failed;
        } else {
            self.reader_b_status = ActorStatus::Failed;
        }
        proof {
            lemma_concluded_inv(self@, TvlRunStatus::Failed, TvlLifecycleState::Failed, None, "reader failed"@, "tvl failed"@);
        }
        self.conclude(TvlRunStatus::Failed, TvlLifecycleState::Failed, None, "reader failed", "tvl failed");
    }

    /// Ends the run as blocked because a reader is blocked.
    pub fn mark_reader_blocked(&mut self, reader_a: bool)
        requires
            tvl_inv(old(self)@),
            has_room(old(self)@),
        ensures
            final(self)@ == reader_blocked(old(self)@, reader_a),
            tvl_inv(final(self)@),
    {
        if reader_a {
            self.reader_a_status = ActorStatus::Blocked;
        } else {
            self.reader_b_status = ActorStatus::Blocked;
        }
        proof {
            lemma_concluded_inv(self@, TvlRunStatus::Blocked, TvlLifecycleState::Blocked, None, "reader blocked"@, "tvl blocked"@);
        }
        self.conclude(TvlRunStatus::Blocked, TvlLifecycleState::Blocked, None, "reader blocked", "tvl blocked");
    }

    /// Ends the run: a cancelled run is blocked, a timed-out run has failed.
    pub fn terminate(&mut self, reason: TvlTermination)
        requires
            tvl_inv(old(self)@),
            has_room(old(self)@),
        ensures
            final(self)@ == terminated(old(self)@, reason),
            tvl_inv(final(self)@),
    {
        match reason {
            TvlTermination::Cancelled => {
                proof {
                    lemma_concluded_inv(self@, TvlRunStatus::Blocked, TvlLifecycleState::Blocked, None, "cancelled"@, "tvl cancelled"@);
                }
                self.conclude(TvlRunStatus::Blocked, TvlLifecycleState::Blocked, None, "cancelled", "tvl cancelled");
            },
            TvlTermination::Timeout => {
                proof {
                    lemma_concluded_inv(self@, TvlRunStatus::Failed, TvlLifecycleState::Failed, None, "timeout"@, "tvl timeout"@);
                }
                self.conclude(TvlRunStatus::Failed, TvlLifecycleState::Failed, None, "timeout", "tvl timeout");
            },
        }
    }

    /// The public view of the run: counts, statuses and verdicts, never the readers'
    /// summaries or the verifier's feedback.
    pub fn public_snapshot(&self) -> (r: TvlPublicSnapshot)
        ensures
            r.run_id@ == self@.run_id,
            r.round_count == self@.round_count,
            r.max_rounds == self@.max_rounds,
            r.status == self@.status,
            r.reader_a_status == self@.reader_a_status,
            r.reader_b_status == self@.reader_b_status,
            r.verifier_status == self@.verifier_status,
            r.agreement_state == self@.agreement_state,
            r.unresolved_disagreements == self@.unresolved_disagreements,
            r.contradiction_count == self@.contradiction_count,
            r.drift_flags@ == self@.drift_flags,
            r.evidence_status == self@.evidence_status,
            r.verification_state == self@.verification_state,
            r.final_result_available == final_result(self@.status),
    {
        TvlPublicSnapshot {
            run_id: self.run_id.clone(),
            round_count: self.round_count,
            max_rounds: self.max_rounds,
            status: self.status,
            reader_a_status: self.reader_a_status,
            reader_b_status: self.reader_b_status,
            verifier_status: self.verifier_status,
            agreement_state: self.agreement_state,
            unresolved_disagreements: self.unresolved_disagreements,
            contradiction_count: self.contradiction_count,
            drift_flags: self.drift_flags.clone(),
            evidence_status: self.evidence_status,
            verification_state: self.verification_state,
            final_result_available: self.status == TvlRunStatus::Verified || self.status == TvlRunStatus::Failed
                || self.status == TvlRunStatus::Incomplete || self.status == TvlRunStatus::Blocked,
        }
    }

    /// The newest `limit` operation records, newest first.
    pub fn recent_operations(&self, limit: usize) -> (r: Vec<TvlOperationRecord>)
        ensures
            r@.map_values(|x: TvlOperationRecord| x@) == newest_first(self@.operations, limit as nat),
    {
        let n = self.operation_history.len();
        let mut r: Vec<TvlOperationRecord> = Vec::new();
        let mut k: usize = 0;
        let ghost want = newest_first(self@.operations, limit as nat);
        while k < limit && k < n
            invariant
                n == self.operation_history@.len(),
                k <= n,
                k <= limit,
                want == newest_first(self@.operations, limit as nat),
                r@.map_values(|x: TvlOperationRecord| x@) == want.subrange(0, k as int),
            decreases n - k,
        {
            let c = copy_record(&self.operation_history[n - 1 - k]);
            let ghost before = r@.map_values(|x: TvlOperationRecord| x@);
            proof {
                assert(self@.operations[n - 1 - k] == self.operation_history@[n - 1 - k]@);
                assert(c@ == want[k as int]);
            }
            r.push(c);
            proof {
                assert(r@.map_values(|x: TvlOperationRecord| x@) =~= before.push(c@));
            }
            k += 1;
            proof {
                assert(r@.map_values(|x: TvlOperationRecord| x@) =~= want.subrange(0, k as int));
            }
        }
        proof {
            assert(want.subrange(0, k as int) =~= want);
        }
        r
    }

    /// The newest `limit` timeline events, newest first.
    pub fn timeline_events(&self, limit: usize) -> (r: Vec<TvlEvent>)
        ensures
            r@.map_values(|x: TvlEvent| x@) == newest_first(self@.timeline, limit as nat),
    {
        let n = self.timeline.len();
        let mut r: Vec<TvlEvent> = Vec::new();
        let mut k: usize = 0;
        let ghost want = newest_first(self@.timeline, limit as nat);
        while k < limit && k < n
            invariant
                n == self.timeline@.len(),
                k <= n,
                k <= limit,
                want == newest_first(self@.timeline, limit as nat),
                r@.map_values(|x: TvlEvent| x@) == want.subrange(0, k as int),
            decreases n - k,
        {
            let c = copy_event(&self.timeline[n - 1 - k]);
            let ghost before = r@.map_values(|x: TvlEvent| x@);
            proof {
                assert(self@.timeline[n - 1 - k] == self.timeline@[n - 1 - k]@);
                assert(c@ == want[k as int]);
            }
            r.push(c);
            proof {
                assert(r@.map_values(|x: TvlEvent| x@) =~= before.push(c@));
            }
            k += 1;
            proof {
                assert(r@.map_values(|x: TvlEvent| x@) =~= want.subrange(0, k as int));
            }
        }
        proof {
            assert(want.subrange(0, k as int) =~= want);
        }
        r
    }

    /// Hands out the verifier's feedback for reader A and empties its buffer.
    pub fn consume_feedback_for_reader_a(&mut self) -> (r: Vec<String>)
        ensures
            views(r@) == old(self)@.reader_a_feedback,
            final(self)@ == (TvlState { reader_a_feedback: Seq::empty(), ..old(self)@ }),
    {
        let mut out: Vec<String> = Vec::new();
        std::mem::swap(&mut out, &mut self.reader_a_feedback_buffer);
        proof {
            assert(views(self.reader_a_feedback_buffer@) =~= Seq::<Seq<char>>::empty());
        }
        out
    }

    /// Hands out the verifier's feedback for reader B and empties its buffer.
    pub fn consume_feedback_for_reader_b(&mut self) -> (r: Vec<String>)
        ensures
            views(r@) == old(self)@.reader_b_feedback,
            final(self)@ == (TvlState { reader_b_feedback: Seq::empty(), ..old(self)@ }),
    {
        let mut out: Vec<String> = Vec::new();
        std::mem::swap(&mut out, &mut self.reader_b_feedback_buffer);
        proof {
            assert(views(self.reader_b_feedback_buffer@) =~= Seq::<Seq<char>>::empty());
        }
        out
    }

    /// The hash of reader A's first assessment, kept for the whole run.
    pub fn reader_a_last_initial(&self) -> (r: Option<u64>)
        ensures
            r == self@.reader_a_last_initial,
    {
        self.reader_a_last_initial
    }

    /// The hash of reader B's first assessment, kept for the whole run.
    pub fn reader_b_last_initial(&self) -> (r: Option<u64>)
        ensures
            r == self@.reader_b_last_initial,
    {
        self.reader_b_last_initial
    }
}


// ---------------------------------------------------------------------------
// Mission-control lines.
// ---------------------------------------------------------------------------

pub open spec fn run_status_name(s: TvlRunStatus) -> Seq<char> {
    match s {
        TvlRunStatus::Idle => "Idle"@,
        TvlRunStatus::Verifying => "Verifying"@,
        TvlRunStatus::Verified => "Verified"@,
        TvlRunStatus::Failed => "Failed"@,
        TvlRunStatus::Incomplete => "Incomplete"@,
        TvlRunStatus::Blocked => "Blocked"@,
    }
}

pub open spec fn actor_status_name(s: ActorStatus) -> Seq<char> {
    match s {
        ActorStatus::Idle => "Idle"@,
        ActorStatus::Active => "Active"@,
        ActorStatus::Complete => "Complete"@,
        ActorStatus::Failed => "Failed"@,
        ActorStatus::Blocked => "Blocked"@,
    }
}

pub open spec fn agreement_name(s: AgreementState) -> Seq<char> {
    match s {
        AgreementState::Unknown => "Unknown"@,
        AgreementState::FullAgreement => "FullAgreement"@,
        AgreementState::PartialAgreement => "PartialAgreement"@,
        AgreementState::FactualDisagreement => "FactualDisagreement"@,
        AgreementState::EvidenceDisagreement => "EvidenceDisagreement"@,
    }
}

pub open spec fn evidence_name(s: EvidenceStatus) -> Seq<char> {
    match s {
        EvidenceStatus::Unknown => "Unknown"@,
        EvidenceStatus::Sufficient => "Sufficient"@,
        EvidenceStatus::Insufficient => "Insufficient"@,
    }
}

pub open spec fn verification_name(s: VerificationState) -> Seq<char> {
    match s {
        VerificationState::Unknown => "Unknown"@,
        VerificationState::Pending => "Pending"@,
        VerificationState::Passed => "Passed"@,
        VerificationState::Failed => "Failed"@,
    }
}

impl TvlRunStatus {
    /// The name of the status, as `{:?}` prints it.
    pub fn name(&self) -> (r: &'static str)
        ensures
            r@ == run_status_name(*self),
    {
        match self {
            TvlRunStatus::Idle => "Idle",
            TvlRunStatus::Verifying => "Verifying",
            TvlRunStatus::Verified => "Verified",
            TvlRunStatus::Failed => "Failed",
            TvlRunStatus::Incomplete => "Incomplete",
            TvlRunStatus::Blocked => "Blocked",
        }
    }
}

impl ActorStatus {
    /// The name of the status, as `{:?}` prints it.
    pub fn name(&self) -> (r: &'static str)
        ensures
            r@ == actor_status_name(*self),
    {
        match self {
            ActorStatus::Idle => "Idle",
            ActorStatus::Active => "Active",
            ActorStatus::Complete => "Complete",
            ActorStatus::Failed => "Failed",
            ActorStatus::Blocked => "Blocked",
        }
    }
}

impl AgreementState {
    /// The name of the state, as `{:?}` prints it.
    pub fn name(&self) -> (r: &'static str)
        ensures
            r@ == agreement_name(*self),
    {
        match self {
            AgreementState::Unknown => "Unknown",
            AgreementState::FullAgreement => "FullAgreement",
            AgreementState::PartialAgreement => "PartialAgreement",
            AgreementState::FactualDisagreement => "FactualDisagreement",
            AgreementState::EvidenceDisagreement => "EvidenceDisagreement",
        }
    }
}

impl EvidenceStatus {
    /// The name of the status, as `{:?}` prints it.
    pub fn name(&self) -> (r: &'static str)
        ensures
            r@ == evidence_name(*self),
    {
        match self {
            EvidenceStatus::Unknown => "Unknown",
            EvidenceStatus::Sufficient => "Sufficient",
            EvidenceStatus::Insufficient => "Insufficient",
        }
    }
}

impl VerificationState {
    /// The name of the state, as `{:?}` prints it.
    pub fn name(&self) -> (r: &'static str)
        ensures
            r@ == verification_name(*self),
    {
        match self {
            VerificationState::Unknown => "Unknown",
            VerificationState::Pending => "Pending",
            VerificationState::Passed => "Passed",
            VerificationState::Failed => "Failed",
        }
    }
}

/// The mission-control panel lines for a snapshot: only statuses and counts.
pub open spec fn tvl_panel(s: TvlPublicSnapshot) -> Seq<Seq<char>> {
    seq![
        "TRIANGULAR VERIFICATION LOOP"@,
        "STATUS: "@ + run_status_name(s.status),
        "ROUND: "@ + decimal(s.round_count as nat) + " / "@ + decimal(s.max_rounds as nat),
        "READER A: "@ + actor_status_name(s.reader_a_status),
        "READER B: "@ + actor_status_name(s.reader_b_status),
        "VERIFIER C: "@ + actor_status_name(s.verifier_status),
        "AGREEMENT: "@ + agreement_name(s.agreement_state),
        "UNRESOLVED: "@ + decimal(s.unresolved_disagreements as nat) + " · CONTRADICTIONS: "@
            + decimal(s.contradiction_count as nat),
        "DRIFT FLAGS: "@ + decimal(s.drift_flags@.len()),
        "EVIDENCE: "@ + evidence_name(s.evidence_status),
        "FINAL: "@ + verification_name(s.verification_state),
    ]
}

/// The length of a set of bytes is the number of bytes it holds.
proof fn lemma_byte_set_len(m: BTreeSet<u8>)
    ensures
        m.len() == m@.len(),
{
    broadcast use vstd::laws_cmp::group_laws_cmp, vstd::std_specs::btree::group_btree_axioms;
    assert(vstd::std_specs::btree::key_obeys_cmp_spec::<u8>());
}

/// `label` followed by `value`.
fn labelled(label: &str, value: &str) -> (r: String)
    ensures
        r@ == label@ + value@,
{
    let mut r = owned(label);
    r.append(value);
    r
}

/// The mission-control panel lines for a snapshot.
pub fn mission_control_tvl_lines(snapshot: &TvlPublicSnapshot) -> (r: Vec<String>)
    ensures
        views(r@) == tvl_panel(*snapshot),
{
    let mut r: Vec<String> = Vec::new();
    r.push(owned("TRIANGULAR VERIFICATION LOOP"));
    r.push(labelled("STATUS: ", snapshot.status.name()));
    let rounds = u64_to_decimal(snapshot.round_count as u64);
    let maxr = u64_to_decimal(snapshot.max_rounds as u64);
    r.push(concat3(labelled("ROUND: ", rounds.as_str()).as_str(), " / ", maxr.as_str()));
    r.push(labelled("READER A: ", snapshot.reader_a_status.name()));
    r.push(labelled("READER B: ", snapshot.reader_b_status.name()));
    r.push(labelled("VERIFIER C: ", snapshot.verifier_status.name()));
    r.push(labelled("AGREEMENT: ", snapshot.agreement_state.name()));
    let unresolved = u64_to_decimal(snapshot.unresolved_disagreements as u64);
    let contradictions = u64_to_decimal(snapshot.contradiction_count as u64);
    r.push(concat3(labelled("UNRESOLVED: ", unresolved.as_str()).as_str(), " · CONTRADICTIONS: ",
        contradictions.as_str()));
    proof {
        lemma_byte_set_len(snapshot.drift_flags);
    }
    let drift = u64_to_decimal(snapshot.drift_flags.len() as u64);
    r.push(labelled("DRIFT FLAGS: ", drift.as_str()));
    r.push(labelled("EVIDENCE: ", snapshot.evidence_status.name()));
    r.push(labelled("FINAL: ", snapshot.verification_state.name()));
    proof {
        assert(views(r@) =~= tvl_panel(*snapshot));
    }
    r
}


// ---------------------------------------------------------------------------
// Laws.
// ---------------------------------------------------------------------------

/// Every check of the verifier passes: evidence confirmed, nothing unresolved, no
/// contradiction, no drift, constraints satisfied, critical claims resolved, execution
/// evidence available and the verification completed.
pub open spec fn feedback_passes(fb: FeedbackView) -> bool {
    &&& fb.confirms_evidence
    &&& fb.unresolved_disagreements == 0
    &&& fb.contradiction_count == 0
    &&& fb.drift_flags.is_empty()
    &&& fb.constraints_satisfied
    &&& fb.unsupported_critical_claims_resolved
    &&& fb.execution_evidence_available
    &&& fb.verification_completed_successfully
}

proof fn lemma_reports_keep_fields(st: TvlState, r: Option<usize>)
    ensures
        findings_reported(round_reported(st, r), r) == (TvlState {
            timeline: findings_reported(round_reported(st, r), r).timeline,
            event_seq: findings_reported(round_reported(st, r), r).event_seq,
            ..st
        }),
{
}

/// The outcome of a round that the run can still take: it is verified exactly when every
/// check of the verifier passes; otherwise it ends incomplete (unresolved disagreements)
/// or failed when this was the last round, and asks for a revision when it was not.
pub proof fn law_round_verdict(st: TvlState, input: RoundView)
    requires
        tvl_inv(st),
        st.status == TvlRunStatus::Idle || st.status == TvlRunStatus::Verifying,
        st.round_count < st.max_rounds,
    ensures
        (after_round(st, input).status == TvlRunStatus::Verified) == feedback_passes(input.verifier),
        !feedback_passes(input.verifier) && st.round_count + 1 >= st.max_rounds ==> after_round(st, input).status == (
            if input.verifier.unresolved_disagreements > 0 { TvlRunStatus::Incomplete } else { TvlRunStatus::Failed }),
        !feedback_passes(input.verifier) && st.round_count + 1 < st.max_rounds ==> after_round(st, input).status
            == TvlRunStatus::Verifying,
        after_round(st, input).round_count == st.round_count + 1,
{
    let s1 = if st.status == TvlRunStatus::Idle { started(st) } else { st };
    let r = (s1.round_count + 1) as usize;
    let s2 = observed(s1, input, r);
    lemma_reports_keep_fields(s2, Some(r));
    let s4 = findings_reported(round_reported(s2, Some(r)), Some(r));
    assert(all_checks_hold(s4) == feedback_passes(input.verifier));
}

/// A run that has ended (verified, failed, incomplete or blocked) ignores further rounds.
pub proof fn law_finished_run_ignores_rounds(st: TvlState, input: RoundView)
    requires
        st.status != TvlRunStatus::Idle,
        st.status != TvlRunStatus::Verifying,
    ensures
        after_round(st, input) == st,
{
}

/// The hash of a reader's first assessment is kept once recorded; later rounds do not
/// replace it.
pub proof fn law_first_assessments_kept(st: TvlState, input: RoundView)
    ensures
        st.reader_a_last_initial is Some ==> after_round(st, input).reader_a_last_initial == st.reader_a_last_initial,
        st.reader_b_last_initial is Some ==> after_round(st, input).reader_b_last_initial == st.reader_b_last_initial,
{
    if st.status == TvlRunStatus::Idle || st.status == TvlRunStatus::Verifying {
        let s1 = if st.status == TvlRunStatus::Idle { started(st) } else { st };
        if s1.round_count < s1.max_rounds {
            let r = (s1.round_count + 1) as usize;
            lemma_reports_keep_fields(observed(s1, input, r), Some(r));
        }
    }
}

/// A blocking readiness report blocks the run: starting it and feeding it rounds change
/// nothing.
pub proof fn law_blocked_readiness_is_final(st: TvlState, u: UtilityBeltStatus, f: FieldBootsStatus, input: RoundView)
    requires
        readiness_blocks(u, f),
    ensures
        with_readiness(st, u, f).status == TvlRunStatus::Blocked,
        started(with_readiness(st, u, f)) == with_readiness(st, u, f),
        after_round(with_readiness(st, u, f), input) == with_readiness(st, u, f),
{
}


proof fn lemma_collapse_charset(s: Seq<char>)
    ensures
        forall|i: int| 0 <= i < collapse_scan(s).0.len() ==> keep_char(#[trigger] collapse_scan(s).0[i]),
    decreases s.len(),
{
    if s.len() > 0 {
        lemma_collapse_charset(s.drop_last());
        let prev = collapse_scan(s.drop_last()).0;
        let out = collapse_scan(s).0;
        assert forall|i: int| 0 <= i < out.len() implies keep_char(#[trigger] out[i]) by {
            if i < prev.len() {
                assert(out[i] == prev[i]);
            }
        }
    }
}

proof fn lemma_trim_start_part(s: Seq<char>)
    ensures
        exists|a: int| 0 <= a <= s.len() && trim_dashes_start(s) == s.subrange(a, s.len() as int),
    decreases s.len(),
{
    if s.len() > 0 && s[0] == '-' {
        lemma_trim_start_part(s.drop_first());
        let a = choose|a: int| 0 <= a <= s.drop_first().len() && trim_dashes_start(s.drop_first())
            == s.drop_first().subrange(a, s.drop_first().len() as int);
        assert(s.drop_first().subrange(a, s.drop_first().len() as int) =~= s.subrange(a + 1, s.len() as int));
    } else {
        assert(s.subrange(0, s.len() as int) =~= s);
    }
}

proof fn lemma_trim_end_part(s: Seq<char>)
    ensures
        exists|b: int| 0 <= b <= s.len() && trim_dashes_end(s) == s.subrange(0, b),
    decreases s.len(),
{
    if s.len() > 0 && s.last() == '-' {
        lemma_trim_end_part(s.drop_last());
        let b = choose|b: int| 0 <= b <= s.drop_last().len() && trim_dashes_end(s.drop_last()) == s.drop_last().subrange(0, b);
        assert(s.drop_last().subrange(0, b) =~= s.subrange(0, b));
    } else {
        assert(s.subrange(0, s.len() as int) =~= s);
    }
}

/// A public run id holds only ASCII letters, digits, `_` and `-`: no path separator,
/// space or other character of the raw id reaches it.
pub proof fn law_run_id_charset(raw: Seq<char>)
    ensures
        forall|i: int| 0 <= i < sanitized_run_id(raw).len() ==> keep_char(#[trigger] sanitized_run_id(raw)[i]),
{
    reveal_strlit("run-redacted");
    reveal_strlit("run-unknown");
    let c = collapse_scan(raw).0;
    lemma_collapse_charset(raw);
    lemma_trim_start_part(c);
    let t0 = trim_dashes_start(c);
    let a = choose|a: int| 0 <= a <= c.len() && t0 == c.subrange(a, c.len() as int);
    lemma_trim_end_part(t0);
    let t = trim_dashes_end(t0);
    let b = choose|b: int| 0 <= b <= t0.len() && t == t0.subrange(0, b);
    assert forall|i: int| 0 <= i < t.len() implies keep_char(#[trigger] t[i]) by {
        assert(t[i] == c[a + i]);
    }
}

/// In every state an engine can reach: the round count stays within the limit; a
/// final result is available exactly when the run has ended (not idle and not
/// verifying); and a verified run shows a passed verification with sufficient
/// evidence and no unresolved disagreement, contradiction or drift.
pub proof fn law_verified_run_is_clean(st: TvlState)
    requires
        tvl_inv(st),
    ensures
        st.round_count <= st.max_rounds,
        final_result(st.status) == (st.status != TvlRunStatus::Idle && st.status != TvlRunStatus::Verifying),
        st.status == TvlRunStatus::Verified ==> verified_state_clean(st),
{
}


/// How a round that the run can take classifies the readers' agreement: a contradiction
/// makes it a factual disagreement, else evidence the verifier does not confirm makes it an
/// evidence disagreement; otherwise the readers fully agree exactly when their hashes are
/// equal and nothing is left unresolved, and agree partly in every other case.
pub proof fn law_round_agreement(st: TvlState, input: RoundView)
    requires
        st.status == TvlRunStatus::Idle || st.status == TvlRunStatus::Verifying,
        st.round_count < st.max_rounds,
    ensures
        input.verifier.contradiction_count > 0 ==> after_round(st, input).agreement_state
            == AgreementState::FactualDisagreement,
        input.verifier.contradiction_count == 0 && !input.verifier.confirms_evidence
            ==> after_round(st, input).agreement_state == AgreementState::EvidenceDisagreement,
        input.verifier.contradiction_count == 0 && input.verifier.confirms_evidence ==> ((after_round(st, input).agreement_state
            == AgreementState::FullAgreement) == (input.verifier.unresolved_disagreements == 0
            && input.reader_a_hash == input.reader_b_hash)),
        input.verifier.contradiction_count == 0 && input.verifier.confirms_evidence && !(input.verifier.unresolved_disagreements == 0
            && input.reader_a_hash == input.reader_b_hash) ==> after_round(st, input).agreement_state
            == AgreementState::PartialAgreement,
{
    let s1 = if st.status == TvlRunStatus::Idle { started(st) } else { st };
    let r = (s1.round_count + 1) as usize;
    let s2 = observed(s1, input, r);
    lemma_reports_keep_fields(s2, Some(r));
}

/// Reporting readiness blocks the run when the Utility Belt is unavailable or needs
/// permission, or when Field Boots needs permission, is blocked by its environment or is
/// unavailable; any other report leaves the run's status as it was.
pub proof fn law_readiness_gates_run(st: TvlState, u: UtilityBeltStatus, f: FieldBootsStatus)
    ensures
        (u == UtilityBeltStatus::Unavailable || u == UtilityBeltStatus::PermissionRequired
            || f == FieldBootsStatus::PermissionRequired || f == FieldBootsStatus::EnvironmentBlocked
            || f == FieldBootsStatus::Unavailable) ==> with_readiness(st, u, f).status == TvlRunStatus::Blocked,
        (u == UtilityBeltStatus::Available || u == UtilityBeltStatus::Degraded) && (f == FieldBootsStatus::Ready
            || f == FieldBootsStatus::Limited) ==> with_readiness(st, u, f).status == st.status,
{
}

} // verus!
