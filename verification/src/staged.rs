//! Staged operations: a dependency graph of stages with per-stage runtime state,
//! checkpoints, owner-loss detection and compensation (rollback) of completed
//! reversible stages in reverse dependency order.

use vstd::prelude::*;
use crate::text::{
    clone_opt, clone_strings, concat3, contains_text, opt_view, owned, same_text, same_texts, views,
};
use crate::topo::{acyclic, graph_of, is_topological_order, kahn_order, well_indexed};

verus! {

#[derive(Debug, Clone, Copy, PartialEq, Eq, Structural)]
pub enum StageStatus {
    Pending,
    Ready,
    Running,
    Succeeded,
    Failed,
    Blocked,
    Compensating,
    Compensated,
    Cancelled,
    ReviewRequired,
}

#[derive(Debug, Clone, Copy, PartialEq, Eq, Structural)]
pub enum StageExecutionClass {
    Reversible,
    Irreversible,
}

#[derive(Debug, Clone, PartialEq, Eq)]
pub struct StageDefinition {
    pub stage_id: String,
    pub prerequisites: Vec<String>,
    pub execution_class: StageExecutionClass,
    pub checkpoint_ref: Option<String>,
    pub compensation_action: Option<String>,
}

#[derive(Debug, Clone, PartialEq, Eq)]
pub struct StageRuntime {
    pub status: StageStatus,
    pub blocked_reason: Option<String>,
    pub attempt_count: u32,
    pub started_at: Option<String>,
    pub completed_at: Option<String>,
    pub owner_session_id: Option<String>,
    pub failure_details: Option<String>,
}

/// The runtime state of a stage, with its strings taken as character sequences.
pub struct RuntimeView {
    pub status: StageStatus,
    pub blocked_reason: Option<Seq<char>>,
    pub attempt_count: u32,
    pub started_at: Option<Seq<char>>,
    pub completed_at: Option<Seq<char>>,
    pub owner_session_id: Option<Seq<char>>,
    pub failure_details: Option<Seq<char>>,
}

impl View for StageRuntime {
    type V = RuntimeView;

    open spec fn view(&self) -> RuntimeView {
        RuntimeView {
            status: self.status,
            blocked_reason: opt_view(self.blocked_reason),
            attempt_count: self.attempt_count,
            started_at: opt_view(self.started_at),
            completed_at: opt_view(self.completed_at),
            owner_session_id: opt_view(self.owner_session_id),
            failure_details: opt_view(self.failure_details),
        }
    }
}

#[derive(Debug, Clone, PartialEq, Eq)]
pub struct StageSnapshot {
    pub operation_id: String,
    pub stage_id: String,
    pub status: StageStatus,
    pub prerequisites: Vec<String>,
    pub blocked_reason: Option<String>,
    pub attempt_count: u32,
    pub started_at: Option<String>,
    pub completed_at: Option<String>,
    pub execution_class: StageExecutionClass,
    pub checkpoint_ref: Option<String>,
    pub compensation_action: Option<String>,
    pub failure_details: Option<String>,
    pub owner_session_id: Option<String>,
}

#[derive(Debug, Clone, PartialEq, Eq)]
pub struct CheckpointSnapshot {
    pub operation_id: String,
    pub owner_session_id: String,
    pub checkpoint_id: String,
    pub recorded_at: String,
    pub completed_stages: Vec<String>,
    pub remaining_stages: Vec<String>,
    pub running_stage: Option<String>,
    pub recovery_actions_available: Vec<String>,
    pub resume_safe: bool,
    pub stages: Vec<StageSnapshot>,
}

#[derive(Debug, Clone, PartialEq, Eq)]
pub struct DryRunPlan {
    pub operation_id: String,
    pub ordered_stages: Vec<String>,
    pub ready_stages: Vec<String>,
    pub blocked_stages: Vec<(String, String)>,
    pub reversible_stages: Vec<String>,
    pub irreversible_stages: Vec<String>,
    pub checkpoint_candidates: Vec<String>,
    pub recovery_sequence: Vec<String>,
}

#[derive(Debug, Clone, PartialEq, Eq)]
pub enum StagedOperationError {
    DuplicateStage(String),
    MissingPrerequisite { prerequisite: String, stage: String },
    DependencyCycle,
    StageNotFound(String),
    StageNotExecutable(String),
    StageAlreadyRunning(String),
    InvalidTransition { stage: String, from: StageStatus, to: StageStatus },
    CheckpointMismatch,
}

/// The name of a status, as `{:?}` prints it.
pub open spec fn status_name(s: StageStatus) -> Seq<char> {
    match s {
        StageStatus::Pending => "Pending"@,
        StageStatus::Ready => "Ready"@,
        StageStatus::Running => "Running"@,
        StageStatus::Succeeded => "Succeeded"@,
        StageStatus::Failed => "Failed"@,
        StageStatus::Blocked => "Blocked"@,
        StageStatus::Compensating => "Compensating"@,
        StageStatus::Compensated => "Compensated"@,
        StageStatus::Cancelled => "Cancelled"@,
        StageStatus::ReviewRequired => "ReviewRequired"@,
    }
}

impl StageStatus {
    /// The name of the status, as `{:?}` prints it.
    pub fn name(&self) -> (r: &'static str)
        ensures
            r@ == status_name(*self),
    {
        match self {
            StageStatus::Pending => "Pending",
            StageStatus::Ready => "Ready",
            StageStatus::Running => "Running",
            StageStatus::Succeeded => "Succeeded",
            StageStatus::Failed => "Failed",
            StageStatus::Blocked => "Blocked",
            StageStatus::Compensating => "Compensating",
            StageStatus::Compensated => "Compensated",
            StageStatus::Cancelled => "Cancelled",
            StageStatus::ReviewRequired => "ReviewRequired",
        }
    }
}

/// The message of an error.
pub open spec fn error_message(e: StagedOperationError) -> Seq<char> {
    match e {
        StagedOperationError::DuplicateStage(id) => "duplicate stage id: "@ + id@,
        StagedOperationError::MissingPrerequisite { prerequisite, stage } =>
            "missing prerequisite '"@ + prerequisite@ + "' for stage '"@ + stage@ + "'"@,
        StagedOperationError::DependencyCycle => "dependency cycle detected"@,
        StagedOperationError::StageNotFound(id) => "stage not found: "@ + id@,
        StagedOperationError::StageNotExecutable(m) => "stage is not currently executable: "@ + m@,
        StagedOperationError::StageAlreadyRunning(id) => "stage is already running: "@ + id@,
        StagedOperationError::InvalidTransition { stage, from, to } =>
            "invalid stage transition for '"@ + stage@ + "': "@ + status_name(from) + " -> "@ + status_name(to),
        StagedOperationError::CheckpointMismatch =>
            "checkpoint cannot be restored because it no longer matches stage definitions"@,
    }
}

impl StagedOperationError {
    /// The human-readable message of the error.
    pub fn message(&self) -> (r: String)
        ensures
            r@ == error_message(*self),
    {
        proof {
            reveal_strlit("");
        }
        match self {
            StagedOperationError::DuplicateStage(id) => concat3("duplicate stage id: ", id.as_str(), ""),
            StagedOperationError::MissingPrerequisite { prerequisite, stage } => {
                let head = concat3("missing prerequisite '", prerequisite.as_str(), "' for stage '");
                concat3(head.as_str(), stage.as_str(), "'")
            },
            StagedOperationError::DependencyCycle => owned("dependency cycle detected"),
            StagedOperationError::StageNotFound(id) => concat3("stage not found: ", id.as_str(), ""),
            StagedOperationError::StageNotExecutable(m) => concat3("stage is not currently executable: ", m.as_str(), ""),
            StagedOperationError::StageAlreadyRunning(id) => concat3("stage is already running: ", id.as_str(), ""),
            StagedOperationError::InvalidTransition { stage, from, to } => {
                let head = concat3("invalid stage transition for '", stage.as_str(), "': ");
                let mid = concat3(head.as_str(), from.name(), " -> ");
                concat3(mid.as_str(), to.name(), "")
            },
            StagedOperationError::CheckpointMismatch => owned(
                "checkpoint cannot be restored because it no longer matches stage definitions",
            ),
        }
    }
}

pub struct StagedOperation {
    operation_id: String,
    owner_session_id: String,
    defs: Vec<StageDefinition>,
    runtime: Vec<StageRuntime>,
    prereq_idx: Vec<Vec<usize>>,
    recovery_queue: Vec<usize>,
}

// ---------------------------------------------------------------------------
// Specifications of the stage table.
// ---------------------------------------------------------------------------

/// The stage ids, in definition order.
pub open spec fn ids_of(defs: Seq<StageDefinition>) -> Seq<Seq<char>> {
    Seq::new(defs.len(), |i: int| defs[i].stage_id@)
}

/// The stage at position `j` repeats an id defined earlier.
pub open spec fn dup_at(ids: Seq<Seq<char>>, j: int) -> bool {
    exists|i: int| 0 <= i < j && ids[i] == ids[j]
}

/// Some stage id is defined twice.
pub open spec fn has_dup(ids: Seq<Seq<char>>) -> bool {
    exists|j: int| 0 <= j < ids.len() && #[trigger] dup_at(ids, j)
}

/// `j` is the first position that repeats an earlier id.
pub open spec fn first_dup(ids: Seq<Seq<char>>, j: int) -> bool {
    &&& 0 <= j < ids.len()
    &&& dup_at(ids, j)
    &&& forall|j2: int| 0 <= j2 < j ==> !#[trigger] dup_at(ids, j2)
}

/// Prerequisite `k` of stage `j` names no defined stage.
pub open spec fn missing_at(defs: Seq<StageDefinition>, j: int, k: int) -> bool {
    &&& 0 <= j < defs.len()
    &&& 0 <= k < defs[j].prerequisites.len()
    &&& !ids_of(defs).contains(defs[j].prerequisites@[k]@)
}

/// Some prerequisite names no defined stage.
pub open spec fn has_missing(defs: Seq<StageDefinition>) -> bool {
    exists|j: int, k: int| #[trigger] missing_at(defs, j, k)
}

/// `(j, k)` is the first missing prerequisite, stages taken in order and each stage's
/// prerequisites in order.
pub open spec fn first_missing(defs: Seq<StageDefinition>, j: int, k: int) -> bool {
    &&& missing_at(defs, j, k)
    &&& forall|j2: int, k2: int| (j2 < j || (j2 == j && k2 < k)) ==> !#[trigger] missing_at(defs, j2, k2)
}

/// The dependency graph of the definitions: each prerequisite id resolved to the
/// position of the stage it names.
pub open spec fn def_graph(defs: Seq<StageDefinition>) -> Seq<Seq<usize>> {
    Seq::new(
        defs.len(),
        |i: int|
            Seq::new(
                defs[i].prerequisites@.len(),
                |k: int| ids_of(defs).index_of(defs[i].prerequisites@[k]@) as usize,
            ),
    )
}

/// The definitions are well formed: distinct ids, no missing prerequisite, no cycle.
pub open spec fn defs_valid(defs: Seq<StageDefinition>) -> bool {
    &&& !has_dup(ids_of(defs))
    &&& !has_missing(defs)
    &&& acyclic(def_graph(defs))
}

/// Statuses that a refresh leaves as they are.
pub open spec fn settled(s: StageStatus) -> bool {
    match s {
        StageStatus::Pending | StageStatus::Ready | StageStatus::Blocked => false,
        _ => true,
    }
}

/// Statuses of a prerequisite that block a dependent stage for good.
pub open spec fn failed_class(s: StageStatus) -> bool {
    match s {
        StageStatus::Failed | StageStatus::Cancelled | StageStatus::ReviewRequired
        | StageStatus::Compensating | StageStatus::Compensated => true,
        _ => false,
    }
}

/// Statuses of a prerequisite that the dependent stage still waits for.
pub open spec fn pending_class(s: StageStatus) -> bool {
    s != StageStatus::Succeeded && !failed_class(s)
}

/// Position, in `pv`, of the first prerequisite whose status is failed-class.
pub open spec fn first_failed(pv: Seq<usize>, st: Seq<StageStatus>) -> Option<int>
    decreases pv.len(),
{
    if pv.len() == 0 {
        None
    } else {
        match first_failed(pv.drop_last(), st) {
            Some(k) => Some(k),
            None => if failed_class(st[pv.last() as int]) {
                Some(pv.len() - 1)
            } else {
                None
            },
        }
    }
}

/// Position, in `pv`, of the last prerequisite whose status is pending-class.
pub open spec fn last_pending(pv: Seq<usize>, st: Seq<StageStatus>) -> Option<int>
    decreases pv.len(),
{
    if pv.len() == 0 {
        None
    } else if pending_class(st[pv.last() as int]) {
        Some(pv.len() - 1)
    } else {
        last_pending(pv.drop_last(), st)
    }
}

/// Blocked reason naming a prerequisite that did not succeed.
pub open spec fn failed_reason(p: Seq<char>) -> Seq<char> {
    "prerequisite '"@ + p + "' did not succeed; stage cannot run"@
}

/// Blocked reason naming a prerequisite still to complete.
pub open spec fn waiting_reason(p: Seq<char>) -> Seq<char> {
    "waiting for prerequisite '"@ + p + "' to complete"@
}

/// The statuses of a runtime table.
pub open spec fn statuses(rts: Seq<RuntimeView>) -> Seq<StageStatus> {
    Seq::new(rts.len(), |i: int| rts[i].status)
}

/// The state of stage `i` after a refresh: a settled stage is unchanged; otherwise the
/// stage is blocked by its first failed prerequisite, else waits for its last pending
/// prerequisite, else is ready.
pub open spec fn refreshed_view(
    defs: Seq<StageDefinition>,
    g: Seq<Seq<usize>>,
    rts: Seq<RuntimeView>,
    i: int,
) -> RuntimeView {
    let rt = rts[i];
    if settled(rt.status) {
        rt
    } else {
        match first_failed(g[i], statuses(rts)) {
            Some(k) => RuntimeView {
                status: StageStatus::Blocked,
                blocked_reason: Some(failed_reason(defs[i].prerequisites@[k]@)),
                ..rt
            },
            None => match last_pending(g[i], statuses(rts)) {
                Some(k) => RuntimeView {
                    status: StageStatus::Blocked,
                    blocked_reason: Some(waiting_reason(defs[i].prerequisites@[k]@)),
                    ..rt
                },
                None => RuntimeView { status: StageStatus::Ready, blocked_reason: None, ..rt },
            },
        }
    }
}

/// The whole runtime table after a refresh.
pub open spec fn refreshed(
    defs: Seq<StageDefinition>,
    g: Seq<Seq<usize>>,
    rts: Seq<RuntimeView>,
) -> Seq<RuntimeView> {
    Seq::new(rts.len(), |i: int| refreshed_view(defs, g, rts, i))
}

/// A fresh runtime entry: pending, never attempted.
pub open spec fn fresh_runtime() -> RuntimeView {
    RuntimeView {
        status: StageStatus::Pending,
        blocked_reason: None,
        attempt_count: 0,
        started_at: None,
        completed_at: None,
        owner_session_id: None,
        failure_details: None,
    }
}

/// The ids of the stages selected by `sel`, in stage order.
pub open spec fn select_ids(ids: Seq<Seq<char>>, sel: Seq<bool>) -> Seq<Seq<char>>
    decreases ids.len(),
{
    if ids.len() == 0 || sel.len() == 0 {
        Seq::empty()
    } else {
        let rest = select_ids(ids.drop_last(), sel.drop_last());
        if sel[ids.len() - 1] {
            rest.push(ids.last())
        } else {
            rest
        }
    }
}

/// `u32` increment that stops at the maximum.
pub open spec fn sat_inc(a: u32) -> u32 {
    if a < u32::MAX {
        (a + 1) as u32
    } else {
        a
    }
}

impl StagedOperation {
    /// The definitions, in stage order.
    pub closed spec fn spec_defs(&self) -> Seq<StageDefinition> {
        self.defs@
    }

    /// The runtime table, in stage order.
    pub closed spec fn spec_runtime(&self) -> Seq<RuntimeView> {
        Seq::new(self.runtime@.len(), |i: int| self.runtime@[i]@)
    }

    /// The compensation queue, as stage positions.
    pub closed spec fn spec_queue(&self) -> Seq<usize> {
        self.recovery_queue@
    }

    pub closed spec fn spec_operation_id(&self) -> Seq<char> {
        self.operation_id@
    }

    pub closed spec fn spec_owner(&self) -> Seq<char> {
        self.owner_session_id@
    }

    /// The stage ids, in stage order.
    pub open spec fn spec_ids(&self) -> Seq<Seq<char>> {
        ids_of(self.spec_defs())
    }

    /// The dependency graph over stage positions.
    pub open spec fn spec_graph(&self) -> Seq<Seq<usize>> {
        def_graph(self.spec_defs())
    }

    /// The operation is well formed.
    pub closed spec fn wf(&self) -> bool {
        &&& defs_valid(self.defs@)
        &&& self.runtime.len() == self.defs.len()
        &&& graph_of(self.prereq_idx@) == def_graph(self.defs@)
        &&& forall|i: int| 0 <= i < self.recovery_queue.len() ==> #[trigger] self.recovery_queue@[i] < self.defs.len()
    }

    /// The runtime table is one that a refresh leaves as it is: every unsettled stage
    /// already shows what its prerequisites make of it.
    pub open spec fn refresh_stable(&self) -> bool {
        refreshed(self.spec_defs(), self.spec_graph(), self.spec_runtime()) == self.spec_runtime()
    }
}

// ---------------------------------------------------------------------------
// Facts about valid definitions.
// ---------------------------------------------------------------------------

/// In valid definitions every prerequisite resolves to the stage with that id.
pub proof fn lemma_def_graph_resolves(defs: Seq<StageDefinition>, i: int, k: int)
    requires
        !has_dup(ids_of(defs)),
        !has_missing(defs),
        defs.len() <= usize::MAX,
        0 <= i < defs.len(),
        0 <= k < defs[i].prerequisites.len(),
    ensures
        (def_graph(defs)[i][k] as int) < defs.len(),
        ids_of(defs)[def_graph(defs)[i][k] as int] == defs[i].prerequisites@[k]@,
{
    let ids = ids_of(defs);
    let p = defs[i].prerequisites@[k]@;
    assert(!missing_at(defs, i, k));
    assert(ids.contains(p));
    let x = ids.index_of(p);
    assert(0 <= x < ids.len() && ids[x] == p);
    assert(def_graph(defs)[i][k] == x as usize);
}

/// In valid definitions the resolved graph only names stages.
pub proof fn lemma_def_graph_well_indexed(defs: Seq<StageDefinition>)
    requires
        !has_dup(ids_of(defs)),
        !has_missing(defs),
        defs.len() <= usize::MAX,
    ensures
        well_indexed(def_graph(defs)),
{
    assert forall|i: int, k: int| 0 <= i < def_graph(defs).len() && 0 <= k < def_graph(defs)[i].len() implies
        #[trigger] def_graph(defs)[i][k] < def_graph(defs).len() by {
        lemma_def_graph_resolves(defs, i, k);
    }
}

/// Distinct ids: equal ids at two positions means one position.
pub proof fn lemma_ids_unique(ids: Seq<Seq<char>>, a: int, b: int)
    requires
        !has_dup(ids),
        0 <= a < ids.len(),
        0 <= b < ids.len(),
        ids[a] == ids[b],
    ensures
        a == b,
{
    if a < b {
        assert(dup_at(ids, b));
    } else if b < a {
        assert(dup_at(ids, a));
    }
}

// ---------------------------------------------------------------------------
// Construction and refresh.
// ---------------------------------------------------------------------------

/// A runtime entry with a new status and blocked reason and the other fields kept.
fn with_status(rt: &StageRuntime, status: StageStatus, reason: Option<String>) -> (r: StageRuntime)
    ensures
        r@ == (RuntimeView { status: status, blocked_reason: opt_view(reason), ..rt@ }),
{
    StageRuntime {
        status: status,
        blocked_reason: reason,
        attempt_count: rt.attempt_count,
        started_at: clone_opt(&rt.started_at),
        completed_at: clone_opt(&rt.completed_at),
        owner_session_id: clone_opt(&rt.owner_session_id),
        failure_details: clone_opt(&rt.failure_details),
    }
}

/// A copy of a runtime entry.
fn copy_runtime(rt: &StageRuntime) -> (r: StageRuntime)
    ensures
        r@ == rt@,
{
    with_status(rt, rt.status, clone_opt(&rt.blocked_reason))
}

fn is_settled(s: StageStatus) -> (r: bool)
    ensures
        r == settled(s),
{
    match s {
        StageStatus::Pending | StageStatus::Ready | StageStatus::Blocked => false,
        _ => true,
    }
}

fn is_failed_class(s: StageStatus) -> (r: bool)
    ensures
        r == failed_class(s),
{
    match s {
        StageStatus::Failed | StageStatus::Cancelled | StageStatus::ReviewRequired
        | StageStatus::Compensating | StageStatus::Compensated => true,
        _ => false,
    }
}

/// Position of the stage with id `id` among `defs`.
fn find_in(defs: &Vec<StageDefinition>, id: &str) -> (r: Option<usize>)
    ensures
        match r {
            Some(i) => i < defs.len() && ids_of(defs@)[i as int] == id@,
            None => !ids_of(defs@).contains(id@),
        },
{
    let mut i: usize = 0;
    while i < defs.len()
        invariant
            i <= defs.len(),
            forall|j: int| 0 <= j < i ==> ids_of(defs@)[j] != id@,
        decreases defs.len() - i,
    {
        if same_text(defs[i].stage_id.as_str(), id) {
            return Some(i);
        }
        i += 1;
    }
    proof {
        if ids_of(defs@).contains(id@) {
            let j = choose|j: int| 0 <= j < ids_of(defs@).len() && ids_of(defs@)[j] == id@;
            assert(ids_of(defs@)[j] != id@);
        }
    }
    None
}

/// The scans return positions inside the list.
proof fn lemma_scan_bounds(pv: Seq<usize>, st: Seq<StageStatus>)
    ensures
        first_failed(pv, st) matches Some(k) ==> 0 <= k < pv.len(),
        last_pending(pv, st) matches Some(k) ==> 0 <= k < pv.len(),
    decreases pv.len(),
{
    if pv.len() > 0 {
        lemma_scan_bounds(pv.drop_last(), st);
    }
}

/// The position that `index_of` picks is the unique position holding the id.
proof fn lemma_index_of_unique(ids: Seq<Seq<char>>, x: int)
    requires
        !has_dup(ids),
        0 <= x < ids.len(),
    ensures
        ids.index_of(ids[x]) == x,
{
    assert(ids.contains(ids[x]));
    let y = ids.index_of(ids[x]);
    lemma_ids_unique(ids, x, y);
}

impl StagedOperation {
    /// Builds an operation from stage definitions. Fails with the first repeated stage id,
    /// else with the first prerequisite that names no stage, else when the prerequisites
    /// form a cycle; otherwise every stage starts pending and is then refreshed.
    pub fn new(
        operation_id: String,
        owner_session_id: String,
        definitions: Vec<StageDefinition>,
    ) -> (r: Result<Self, StagedOperationError>)
        ensures
            has_dup(ids_of(definitions@)) ==> r matches Err(StagedOperationError::DuplicateStage(_)),
            !has_dup(ids_of(definitions@)) && has_missing(definitions@) ==>
                r matches Err(StagedOperationError::MissingPrerequisite { .. }),
            r is Ok <==> defs_valid(definitions@),
            match r {
                Err(StagedOperationError::DuplicateStage(d)) => exists|j: int|
                    first_dup(ids_of(definitions@), j) && d@ == ids_of(definitions@)[j],
                Err(StagedOperationError::MissingPrerequisite { prerequisite, stage }) => {
                    &&& !has_dup(ids_of(definitions@))
                    &&& exists|j: int, k: int| first_missing(definitions@, j, k)
                        && prerequisite@ == definitions@[j].prerequisites@[k]@
                        && stage@ == ids_of(definitions@)[j]
                },
                Err(StagedOperationError::DependencyCycle) => {
                    &&& !has_dup(ids_of(definitions@))
                    &&& !has_missing(definitions@)
                    &&& !acyclic(def_graph(definitions@))
                },
                Ok(op) => {
                    &&& op.wf()
                    &&& op.spec_defs() == definitions@
                    &&& op.spec_operation_id() == operation_id@
                    &&& op.spec_owner() == owner_session_id@
                    &&& op.spec_queue() == Seq::<usize>::empty()
                    &&& op.spec_runtime() == refreshed(
                        definitions@,
                        def_graph(definitions@),
                        Seq::new(definitions@.len(), |i: int| fresh_runtime()),
                    )
                    &&& op.refresh_stable()
                },
                _ => false,
            },
    {
        let n = definitions.len();
        let ghost ids = ids_of(definitions@);
        // Repeated ids.
        let mut j: usize = 0;
        while j < n
            invariant
                n == definitions.len(),
                ids == ids_of(definitions@),
                j <= n,
                forall|j2: int| 0 <= j2 < j ==> !#[trigger] dup_at(ids, j2),
            decreases n - j,
        {
            let mut i: usize = 0;
            while i < j
                invariant
                    n == definitions.len(),
                    ids == ids_of(definitions@),
                    i <= j < n,
                    forall|i2: int| 0 <= i2 < i ==> ids[i2] != ids[j as int],
                    forall|j2: int| 0 <= j2 < j ==> !#[trigger] dup_at(ids, j2),
                decreases j - i,
            {
                if same_text(definitions[i].stage_id.as_str(), definitions[j].stage_id.as_str()) {
                    proof {
                        assert(ids[i as int] == ids[j as int]);
                        assert(dup_at(ids, j as int));
                        assert(first_dup(ids, j as int));
                    }
                    return Err(StagedOperationError::DuplicateStage(definitions[j].stage_id.clone()));
                }
                i += 1;
            }
            j += 1;
        }
        proof {
            assert forall|j2: int| 0 <= j2 < ids.len() implies !#[trigger] dup_at(ids, j2) by {}
        }
        // Missing prerequisites, resolving each one to a stage position.
        let mut prereq_idx: Vec<Vec<usize>> = Vec::new();
        let ghost dg = def_graph(definitions@);
        let mut j: usize = 0;
        while j < n
            invariant
                n == definitions.len(),
                ids == ids_of(definitions@),
                dg == def_graph(definitions@),
                !has_dup(ids),
                j <= n,
                prereq_idx.len() == j,
                forall|j2: int| 0 <= j2 < j ==> #[trigger] prereq_idx@[j2]@ == dg[j2],
                forall|j2: int, k2: int| j2 < j ==> !#[trigger] missing_at(definitions@, j2, k2),
            decreases n - j,
        {
            let mut row: Vec<usize> = Vec::new();
            let mut k: usize = 0;
            let m = definitions[j].prerequisites.len();
            while k < m
                invariant
                    n == definitions.len(),
                    ids == ids_of(definitions@),
                    dg == def_graph(definitions@),
                    !has_dup(ids),
                    j < n,
                    m == definitions@[j as int].prerequisites.len(),
                    k <= m,
                    row@ == dg[j as int].subrange(0, k as int),
                    forall|j2: int, k2: int| j2 < j ==> !#[trigger] missing_at(definitions@, j2, k2),
                    forall|k2: int| k2 < k ==> !#[trigger] missing_at(definitions@, j as int, k2),
                decreases m - k,
            {
                match find_in(&definitions, definitions[j].prerequisites[k].as_str()) {
                    Some(x) => {
                        proof {
                            lemma_index_of_unique(ids, x as int);
                            assert(dg[j as int][k as int] == x);
                            assert(row@.push(x) == dg[j as int].subrange(0, k + 1));
                        }
                        row.push(x);
                    },
                    None => {
                        proof {
                            assert(missing_at(definitions@, j as int, k as int));
                            assert(first_missing(definitions@, j as int, k as int));
                        }
                        return Err(StagedOperationError::MissingPrerequisite {
                            prerequisite: definitions[j].prerequisites[k].clone(),
                            stage: definitions[j].stage_id.clone(),
                        });
                    },
                }
                k += 1;
            }
            proof {
                assert(row@ == dg[j as int]);
                assert forall|k2: int| true implies !#[trigger] missing_at(definitions@, j as int, k2) by {}
            }
            prereq_idx.push(row);
            j += 1;
        }
        proof {
            assert(!has_missing(definitions@));
            assert(graph_of(prereq_idx@) == dg);
            lemma_def_graph_well_indexed(definitions@);
        }
        // Cycles.
        let order = kahn_order(&prereq_idx);
        if order.len() != n {
            return Err(StagedOperationError::DependencyCycle);
        }
        let mut runtime: Vec<StageRuntime> = Vec::new();
        let mut i: usize = 0;
        while i < n
            invariant
                i <= n,
                runtime.len() == i,
                forall|i2: int| 0 <= i2 < i ==> #[trigger] runtime@[i2]@ == fresh_runtime(),
            decreases n - i,
        {
            runtime.push(StageRuntime {
                status: StageStatus::Pending,
                blocked_reason: None,
                attempt_count: 0,
                started_at: None,
                completed_at: None,
                owner_session_id: None,
                failure_details: None,
            });
            i += 1;
        }
        let mut op = StagedOperation {
            operation_id,
            owner_session_id,
            defs: definitions,
            runtime,
            prereq_idx,
            recovery_queue: Vec::new(),
        };
        proof {
            assert(op.spec_runtime() == Seq::new(n as nat, |i: int| fresh_runtime()));
        }
        op.refresh_blocked_and_ready();
        Ok(op)
    }

    /// Re-derives the status of every unsettled stage from its prerequisites.
    fn refresh_blocked_and_ready(&mut self)
        requires
            old(self).wf(),
        ensures
            final(self).wf(),
            final(self).spec_defs() == old(self).spec_defs(),
            final(self).spec_queue() == old(self).spec_queue(),
            final(self).spec_operation_id() == old(self).spec_operation_id(),
            final(self).spec_owner() == old(self).spec_owner(),
            final(self).spec_runtime() == refreshed(
                old(self).spec_defs(),
                old(self).spec_graph(),
                old(self).spec_runtime(),
            ),
            final(self).refresh_stable(),
    {
        let n = self.runtime.len();
        let ghost rts0 = self.spec_runtime();
        let ghost g = self.spec_graph();
        let mut st: Vec<StageStatus> = Vec::new();
        let mut i: usize = 0;
        while i < n
            invariant
                n == self.runtime.len(),
                rts0 == self.spec_runtime(),
                i <= n,
                st@ == statuses(rts0).subrange(0, i as int),
            decreases n - i,
        {
            st.push(self.runtime[i].status);
            i += 1;
        }
        proof {
            assert(st@ == statuses(rts0));
        }
        let ghost defs = self.defs@;
        let mut i: usize = 0;
        while i < n
            invariant
                self.wf(),
                defs == self.defs@,
                g == def_graph(defs),
                n == self.runtime.len(),
                st@ == statuses(rts0),
                rts0.len() == n,
                i <= n,
                forall|x: int| 0 <= x < i ==> self.spec_runtime()[x] == refreshed_view(defs, g, rts0, x),
                forall|x: int| i <= x < n ==> self.spec_runtime()[x] == rts0[x],
                self.spec_queue() == old(self).spec_queue(),
                self.spec_operation_id() == old(self).spec_operation_id(),
                self.spec_owner() == old(self).spec_owner(),
            decreases n - i,
        {
            if is_settled(st[i]) {
                i += 1;
                continue;
            }
            let row = &self.prereq_idx[i];
            let ghost gv = g[i as int];
            proof {
                assert(row@ == gv);
                lemma_def_graph_well_indexed(defs);
            }
            let mut failed: Option<usize> = None;
            let mut pending: Option<usize> = None;
            let mut k: usize = 0;
            while k < row.len()
                invariant
                    row@ == gv,
                    well_indexed(g),
                    g.len() == n,
                    gv == g[i as int],
                    i < n,
                    st@ == statuses(rts0),
                    rts0.len() == n,
                    k <= row.len(),
                    failed == match first_failed(gv.subrange(0, k as int), st@) { Some(x) => Some(x as usize), None => None::<usize> },
                    pending == match last_pending(gv.subrange(0, k as int), st@) { Some(x) => Some(x as usize), None => None::<usize> },
                decreases row.len() - k,
            {
                proof {
                    lemma_scan_bounds(gv.subrange(0, k as int), st@);
                    assert(gv.subrange(0, k + 1).drop_last() == gv.subrange(0, k as int));
                    assert(gv.subrange(0, k + 1).last() == gv[k as int]);
                    assert(gv[k as int] < n);
                }
                let s = st[row[k]];
                if failed.is_none() && is_failed_class(s) {
                    failed = Some(k);
                }
                if s != StageStatus::Succeeded && !is_failed_class(s) {
                    pending = Some(k);
                }
                k += 1;
            }
            proof {
                assert(gv.subrange(0, row.len() as int) == gv);
                lemma_scan_bounds(gv, st@);
                assert(gv.len() == defs[i as int].prerequisites.len());
            }
            let new_rt = match failed {
                Some(k) => {
                    let reason = concat3(
                        "prerequisite '",
                        self.defs[i].prerequisites[k].as_str(),
                        "' did not succeed; stage cannot run",
                    );
                    with_status(&self.runtime[i], StageStatus::Blocked, Some(reason))
                },
                None => match pending {
                    Some(k) => {
                        let reason = concat3(
                            "waiting for prerequisite '",
                            self.defs[i].prerequisites[k].as_str(),
                            "' to complete",
                        );
                        with_status(&self.runtime[i], StageStatus::Blocked, Some(reason))
                    },
                    None => with_status(&self.runtime[i], StageStatus::Ready, None),
                },
            };
            self.runtime.set(i, new_rt);
            i += 1;
        }
        proof {
            assert(self.spec_runtime() =~= refreshed(defs, g, rts0));
            lemma_def_graph_well_indexed(defs);
            law_refresh_idempotent(defs, g, rts0);
        }
    }
}

// ---------------------------------------------------------------------------
// Stage execution.
// ---------------------------------------------------------------------------

/// The state of a stage once started by `owner` at `at`.
pub open spec fn started_view(rt: RuntimeView, owner: Seq<char>, at: Seq<char>) -> RuntimeView {
    RuntimeView {
        status: StageStatus::Running,
        blocked_reason: None,
        attempt_count: sat_inc(rt.attempt_count),
        started_at: Some(at),
        completed_at: None,
        owner_session_id: Some(owner),
        failure_details: None,
    }
}

/// The state of a stage completed successfully at `at`.
pub open spec fn completed_view(rt: RuntimeView, at: Seq<char>) -> RuntimeView {
    RuntimeView { status: StageStatus::Succeeded, completed_at: Some(at), blocked_reason: None, ..rt }
}

/// The state of a stage failed at `at` with `details`.
pub open spec fn failed_view(rt: RuntimeView, at: Seq<char>, details: Seq<char>) -> RuntimeView {
    RuntimeView {
        status: StageStatus::Failed,
        completed_at: Some(at),
        failure_details: Some(details),
        ..rt
    }
}

/// The message of a stage that is neither ready nor running.
pub open spec fn not_executable_message(rt: RuntimeView, id: Seq<char>) -> Seq<char> {
    match rt.blocked_reason {
        Some(r) => r,
        None => "stage '"@ + id + "' is not ready"@,
    }
}

/// Membership of stages in a selection, as booleans in stage order.
pub open spec fn status_is(rts: Seq<RuntimeView>, s: StageStatus) -> Seq<bool> {
    Seq::new(rts.len(), |i: int| rts[i].status == s)
}

impl StagedOperation {
    /// The ids of the selected stages, in stage order.
    fn select(&self, sel: &Vec<bool>) -> (r: Vec<String>)
        requires
            sel.len() == self.defs.len(),
        ensures
            views(r@) == select_ids(self.spec_ids(), sel@),
    {
        let mut r: Vec<String> = Vec::new();
        let mut i: usize = 0;
        while i < sel.len()
            invariant
                sel.len() == self.defs.len(),
                i <= sel.len(),
                views(r@) == select_ids(self.spec_ids().subrange(0, i as int), sel@.subrange(0, i as int)),
            decreases sel.len() - i,
        {
            proof {
                let ids = self.spec_ids();
                assert(ids.subrange(0, i + 1).drop_last() == ids.subrange(0, i as int));
                assert(sel@.subrange(0, i + 1).drop_last() == sel@.subrange(0, i as int));
            }
            if sel[i] {
                r.push(self.defs[i].stage_id.clone());
                proof {
                    assert(views(r@) == views(r@.drop_last()).push(r@.last()@));
                }
            }
            i += 1;
        }
        proof {
            assert(self.spec_ids().subrange(0, i as int) == self.spec_ids());
            assert(sel@.subrange(0, i as int) == sel@);
        }
        r
    }

    /// The operation id.
    pub fn operation_id(&self) -> (r: &str)
        ensures
            r@ == self.spec_operation_id(),
    {
        self.operation_id.as_str()
    }

    /// Ids of the stages that may start now, in stage order.
    pub fn legal_next_stages(&self) -> (r: Vec<String>)
        requires
            self.wf(),
        ensures
            views(r@) == select_ids(self.spec_ids(), status_is(self.spec_runtime(), StageStatus::Ready)),
    {
        let mut sel: Vec<bool> = Vec::new();
        let mut i: usize = 0;
        while i < self.runtime.len()
            invariant
                self.wf(),
                i <= self.runtime.len(),
                sel@ == status_is(self.spec_runtime(), StageStatus::Ready).subrange(0, i as int),
            decreases self.runtime.len() - i,
        {
            sel.push(self.runtime[i].status == StageStatus::Ready);
            i += 1;
        }
        proof {
            assert(sel@ == status_is(self.spec_runtime(), StageStatus::Ready));
        }
        self.select(&sel)
    }

    /// Starts a ready stage. The table is refreshed first; the stage must exist, must not
    /// be running already, and must then be ready.
    pub fn start_stage(&mut self, stage_id: &str, owner_session_id: &str, started_at: String) -> (r: Result<(), StagedOperationError>)
        requires
            old(self).wf(),
        ensures
            final(self).wf(),
            final(self).refresh_stable(),
            final(self).spec_defs() == old(self).spec_defs(),
            final(self).spec_queue() == old(self).spec_queue(),
            final(self).spec_operation_id() == old(self).spec_operation_id(),
            final(self).spec_owner() == old(self).spec_owner(),
            ({
                let rts1 = refreshed(old(self).spec_defs(), old(self).spec_graph(), old(self).spec_runtime());
                &&& !old(self).spec_ids().contains(stage_id@) ==> (r matches Err(StagedOperationError::StageNotFound(m)) && m@ == stage_id@
                    && final(self).spec_runtime() == rts1)
                &&& forall|i: int| 0 <= i < old(self).spec_ids().len() && old(self).spec_ids()[i] == stage_id@ ==> {
                    &&& rts1[i].status == StageStatus::Running ==> (r matches Err(StagedOperationError::StageAlreadyRunning(m))
                        && m@ == stage_id@ && final(self).spec_runtime() == rts1)
                    &&& (rts1[i].status != StageStatus::Running && rts1[i].status != StageStatus::Ready) ==> (r matches Err(
                        StagedOperationError::StageNotExecutable(m)) && m@ == not_executable_message(rts1[i], stage_id@)
                        && final(self).spec_runtime() == rts1)
                    &&& rts1[i].status == StageStatus::Ready ==> (r is Ok && final(self).spec_runtime() == rts1.update(
                        i, started_view(rts1[i], owner_session_id@, started_at@)))
                }
            }),
    {
        self.refresh_blocked_and_ready();
        let ghost rts1 = self.spec_runtime();
        proof {
            assert(self.spec_ids() == old(self).spec_ids());
        }
        match find_in(&self.defs, stage_id) {
            None => Err(StagedOperationError::StageNotFound(owned(stage_id))),
            Some(i) => {
                proof {
                    assert(self.spec_ids()[i as int] == stage_id@);
                    assert forall|i2: int| 0 <= i2 < self.spec_ids().len() && self.spec_ids()[i2] == stage_id@ implies i2 == i by {
                        lemma_ids_unique(self.spec_ids(), i2, i as int);
                    }
                    assert(self.runtime@[i as int]@ == rts1[i as int]);
                }
                let status = self.runtime[i].status;
                if status == StageStatus::Running {
                    return Err(StagedOperationError::StageAlreadyRunning(owned(stage_id)));
                }
                if status != StageStatus::Ready {
                    let msg = match &self.runtime[i].blocked_reason {
                        Some(reason) => reason.clone(),
                        None => concat3("stage '", stage_id, "' is not ready"),
                    };
                    return Err(StagedOperationError::StageNotExecutable(msg));
                }
                let old_rt = &self.runtime[i];
                let attempts = if old_rt.attempt_count < u32::MAX {
                    old_rt.attempt_count + 1
                } else {
                    old_rt.attempt_count
                };
                let new_rt = StageRuntime {
                    status: StageStatus::Running,
                    blocked_reason: None,
                    attempt_count: attempts,
                    started_at: Some(started_at),
                    completed_at: None,
                    owner_session_id: Some(owned(owner_session_id)),
                    failure_details: None,
                };
                self.runtime.set(i, new_rt);
                proof {
                    assert(self.spec_runtime() =~= rts1.update(i as int, started_view(rts1[i as int], owner_session_id@, started_at@)));
                    lemma_def_graph_well_indexed(self.spec_defs());
                    law_start_keeps_refresh_stable(
                        self.spec_defs(), self.spec_graph(), rts1, i as int, owner_session_id@, started_at@);
                }
                Ok(())
            },
        }
    }

    /// Marks a running stage as succeeded at `completed_at`, then refreshes the table.
    pub fn complete_stage(&mut self, stage_id: &str, completed_at: String) -> (r: Result<(), StagedOperationError>)
        requires
            old(self).wf(),
        ensures
            final(self).wf(),
            r is Ok ==> final(self).refresh_stable(),
            old(self).refresh_stable() ==> final(self).refresh_stable(),
            final(self).spec_defs() == old(self).spec_defs(),
            final(self).spec_queue() == old(self).spec_queue(),
            final(self).spec_operation_id() == old(self).spec_operation_id(),
            final(self).spec_owner() == old(self).spec_owner(),
            ({
                let rts = old(self).spec_runtime();
                &&& !old(self).spec_ids().contains(stage_id@) ==> (r matches Err(StagedOperationError::StageNotFound(m)) && m@ == stage_id@
                    && final(self).spec_runtime() == rts)
                &&& forall|i: int| 0 <= i < old(self).spec_ids().len() && old(self).spec_ids()[i] == stage_id@ ==> {
                    &&& rts[i].status != StageStatus::Running ==> (r matches Err(StagedOperationError::InvalidTransition { stage, from, to })
                        && stage@ == stage_id@ && from == rts[i].status && to == StageStatus::Succeeded
                        && final(self).spec_runtime() == rts)
                    &&& rts[i].status == StageStatus::Running ==> (r is Ok && final(self).spec_runtime() == refreshed(
                        old(self).spec_defs(), old(self).spec_graph(), rts.update(i, completed_view(rts[i], completed_at@))))
                }
            }),
    {
        let ghost rts = self.spec_runtime();
        match find_in(&self.defs, stage_id) {
            None => Err(StagedOperationError::StageNotFound(owned(stage_id))),
            Some(i) => {
                proof {
                    assert forall|i2: int| 0 <= i2 < self.spec_ids().len() && self.spec_ids()[i2] == stage_id@ implies i2 == i by {
                        lemma_ids_unique(self.spec_ids(), i2, i as int);
                    }
                    assert(self.runtime@[i as int]@ == rts[i as int]);
                }
                let status = self.runtime[i].status;
                if status != StageStatus::Running {
                    return Err(StagedOperationError::InvalidTransition {
                        stage: owned(stage_id),
                        from: status,
                        to: StageStatus::Succeeded,
                    });
                }
                let old_rt = &self.runtime[i];
                let new_rt = StageRuntime {
                    status: StageStatus::Succeeded,
                    blocked_reason: None,
                    attempt_count: old_rt.attempt_count,
                    started_at: clone_opt(&old_rt.started_at),
                    completed_at: Some(completed_at),
                    owner_session_id: clone_opt(&old_rt.owner_session_id),
                    failure_details: clone_opt(&old_rt.failure_details),
                };
                self.runtime.set(i, new_rt);
                proof {
                    assert(self.spec_runtime() =~= rts.update(i as int, completed_view(rts[i as int], completed_at@)));
                }
                self.refresh_blocked_and_ready();
                Ok(())
            },
        }
    }

    /// Marks a running stage as failed at `completed_at` with `failure_details`, then
    /// refreshes the table.
    pub fn fail_stage(&mut self, stage_id: &str, completed_at: String, failure_details: String) -> (r: Result<(), StagedOperationError>)
        requires
            old(self).wf(),
        ensures
            final(self).wf(),
            r is Ok ==> final(self).refresh_stable(),
            old(self).refresh_stable() ==> final(self).refresh_stable(),
            final(self).spec_defs() == old(self).spec_defs(),
            final(self).spec_queue() == old(self).spec_queue(),
            final(self).spec_operation_id() == old(self).spec_operation_id(),
            final(self).spec_owner() == old(self).spec_owner(),
            ({
                let rts = old(self).spec_runtime();
                &&& !old(self).spec_ids().contains(stage_id@) ==> (r matches Err(StagedOperationError::StageNotFound(m)) && m@ == stage_id@
                    && final(self).spec_runtime() == rts)
                &&& forall|i: int| 0 <= i < old(self).spec_ids().len() && old(self).spec_ids()[i] == stage_id@ ==> {
                    &&& rts[i].status != StageStatus::Running ==> (r matches Err(StagedOperationError::InvalidTransition { stage, from, to })
                        && stage@ == stage_id@ && from == rts[i].status && to == StageStatus::Failed
                        && final(self).spec_runtime() == rts)
                    &&& rts[i].status == StageStatus::Running ==> (r is Ok && final(self).spec_runtime() == refreshed(
                        old(self).spec_defs(), old(self).spec_graph(), rts.update(i, failed_view(rts[i], completed_at@, failure_details@))))
                }
            }),
    {
        let ghost rts = self.spec_runtime();
        match find_in(&self.defs, stage_id) {
            None => Err(StagedOperationError::StageNotFound(owned(stage_id))),
            Some(i) => {
                proof {
                    assert forall|i2: int| 0 <= i2 < self.spec_ids().len() && self.spec_ids()[i2] == stage_id@ implies i2 == i by {
                        lemma_ids_unique(self.spec_ids(), i2, i as int);
                    }
                    assert(self.runtime@[i as int]@ == rts[i as int]);
                }
                let status = self.runtime[i].status;
                if status != StageStatus::Running {
                    return Err(StagedOperationError::InvalidTransition {
                        stage: owned(stage_id),
                        from: status,
                        to: StageStatus::Failed,
                    });
                }
                let old_rt = &self.runtime[i];
                let new_rt = StageRuntime {
                    status: StageStatus::Failed,
                    blocked_reason: clone_opt(&old_rt.blocked_reason),
                    attempt_count: old_rt.attempt_count,
                    started_at: clone_opt(&old_rt.started_at),
                    completed_at: Some(completed_at),
                    owner_session_id: clone_opt(&old_rt.owner_session_id),
                    failure_details: Some(failure_details),
                };
                self.runtime.set(i, new_rt);
                proof {
                    assert(self.spec_runtime() =~= rts.update(i as int, failed_view(rts[i as int], completed_at@, failure_details@)));
                }
                self.refresh_blocked_and_ready();
                Ok(())
            },
        }
    }
}

// ---------------------------------------------------------------------------
// Snapshots, checkpoints and owner loss.
// ---------------------------------------------------------------------------

/// `s` reports stage definition `d` with runtime `rt` of operation `op_id`.
pub open spec fn snapshot_of(op_id: Seq<char>, d: StageDefinition, rt: RuntimeView, s: StageSnapshot) -> bool {
    &&& s.operation_id@ == op_id
    &&& s.stage_id@ == d.stage_id@
    &&& views(s.prerequisites@) == views(d.prerequisites@)
    &&& s.execution_class == d.execution_class
    &&& opt_view(s.checkpoint_ref) == opt_view(d.checkpoint_ref)
    &&& opt_view(s.compensation_action) == opt_view(d.compensation_action)
    &&& snap_view(s) == rt
}

/// The runtime state recorded in a snapshot.
pub open spec fn snap_view(s: StageSnapshot) -> RuntimeView {
    RuntimeView {
        status: s.status,
        blocked_reason: opt_view(s.blocked_reason),
        attempt_count: s.attempt_count,
        started_at: opt_view(s.started_at),
        completed_at: opt_view(s.completed_at),
        owner_session_id: opt_view(s.owner_session_id),
        failure_details: opt_view(s.failure_details),
    }
}

/// A snapshot names a defined stage with the same prerequisites and execution class.
pub open spec fn snap_fits(defs: Seq<StageDefinition>, s: StageSnapshot) -> bool {
    &&& ids_of(defs).contains(s.stage_id@)
    &&& views(defs[ids_of(defs).index_of(s.stage_id@)].prerequisites@) == views(s.prerequisites@)
    &&& defs[ids_of(defs).index_of(s.stage_id@)].execution_class == s.execution_class
}

/// A checkpoint can be restored onto an operation with these definitions and id.
pub open spec fn checkpoint_fits(defs: Seq<StageDefinition>, op_id: Seq<char>, cp: CheckpointSnapshot) -> bool {
    &&& cp.operation_id@ == op_id
    &&& cp.stages.len() == defs.len()
    &&& forall|j: int| 0 <= j < cp.stages.len() ==> #[trigger] snap_fits(defs, cp.stages@[j])
}

/// The runtime table after writing each snapshot, in order, onto the stage it names.
pub open spec fn apply_snaps(rts: Seq<RuntimeView>, ids: Seq<Seq<char>>, snaps: Seq<StageSnapshot>) -> Seq<RuntimeView>
    decreases snaps.len(),
{
    if snaps.len() == 0 {
        rts
    } else {
        apply_snaps(rts, ids, snaps.drop_last()).update(ids.index_of(snaps.last().stage_id@), snap_view(snaps.last()))
    }
}

/// Stages that a checkpoint counts as completed.
pub open spec fn completed_sel(rts: Seq<RuntimeView>) -> Seq<bool> {
    Seq::new(rts.len(), |i: int| rts[i].status == StageStatus::Succeeded || rts[i].status == StageStatus::Compensated)
}

/// Stages that a checkpoint counts as remaining.
pub open spec fn remaining_sel(rts: Seq<RuntimeView>) -> Seq<bool> {
    Seq::new(
        rts.len(),
        |i: int|
            !(rts[i].status == StageStatus::Succeeded || rts[i].status == StageStatus::Compensated
                || rts[i].status == StageStatus::Cancelled || rts[i].status == StageStatus::ReviewRequired),
    )
}

/// Succeeded reversible stages with a compensation action.
pub open spec fn recoverable_sel(defs: Seq<StageDefinition>, rts: Seq<RuntimeView>) -> Seq<bool> {
    Seq::new(
        rts.len(),
        |i: int|
            rts[i].status == StageStatus::Succeeded && defs[i].execution_class == StageExecutionClass::Reversible
                && defs[i].compensation_action is Some,
    )
}

/// Message recorded for a reversible stage whose owner disappeared while it ran.
pub open spec fn lost_owner_reversible() -> Seq<char> {
    "running stage lost owner; safe retry requires re-execution"@
}

/// Message recorded for an irreversible stage whose owner disappeared while it ran.
pub open spec fn lost_owner_irreversible() -> Seq<char> {
    "running irreversible stage lost owner; outcome unknown"@
}

/// The owner recorded for the stage is one of the live owners.
pub open spec fn owner_alive(rt: RuntimeView, live: Seq<Seq<char>>) -> bool {
    match rt.owner_session_id {
        Some(o) => live.contains(o),
        None => false,
    }
}

/// The state of a stage after owner-loss detection.
pub open spec fn stale_view(d: StageDefinition, rt: RuntimeView, live: Seq<Seq<char>>, at: Seq<char>) -> RuntimeView {
    if rt.status == StageStatus::Running && !owner_alive(rt, live) {
        match d.execution_class {
            StageExecutionClass::Reversible => RuntimeView {
                status: StageStatus::Failed,
                completed_at: Some(at),
                failure_details: Some(lost_owner_reversible()),
                ..rt
            },
            StageExecutionClass::Irreversible => RuntimeView {
                status: StageStatus::ReviewRequired,
                completed_at: Some(at),
                failure_details: Some(lost_owner_irreversible()),
                ..rt
            },
        }
    } else {
        rt
    }
}

fn runtime_from_snap(s: &StageSnapshot) -> (r: StageRuntime)
    ensures
        r@ == snap_view(*s),
{
    StageRuntime {
        status: s.status,
        blocked_reason: clone_opt(&s.blocked_reason),
        attempt_count: s.attempt_count,
        started_at: clone_opt(&s.started_at),
        completed_at: clone_opt(&s.completed_at),
        owner_session_id: clone_opt(&s.owner_session_id),
        failure_details: clone_opt(&s.failure_details),
    }
}

impl StagedOperation {
    /// One snapshot per stage, in stage order.
    pub fn snapshot(&self) -> (r: Vec<StageSnapshot>)
        requires
            self.wf(),
        ensures
            r.len() == self.spec_defs().len(),
            forall|i: int| 0 <= i < r.len() ==> snapshot_of(
                self.spec_operation_id(), self.spec_defs()[i], self.spec_runtime()[i], #[trigger] r@[i]),
    {
        let mut r: Vec<StageSnapshot> = Vec::new();
        let mut i: usize = 0;
        while i < self.defs.len()
            invariant
                self.wf(),
                i <= self.defs.len(),
                r.len() == i,
                forall|j: int| 0 <= j < i ==> snapshot_of(
                    self.spec_operation_id(), self.spec_defs()[j], self.spec_runtime()[j], #[trigger] r@[j]),
            decreases self.defs.len() - i,
        {
            let d = &self.defs[i];
            let rt = &self.runtime[i];
            r.push(StageSnapshot {
                operation_id: self.operation_id.clone(),
                stage_id: d.stage_id.clone(),
                status: rt.status,
                prerequisites: clone_strings(&d.prerequisites),
                blocked_reason: clone_opt(&rt.blocked_reason),
                attempt_count: rt.attempt_count,
                started_at: clone_opt(&rt.started_at),
                completed_at: clone_opt(&rt.completed_at),
                execution_class: d.execution_class,
                checkpoint_ref: clone_opt(&d.checkpoint_ref),
                compensation_action: clone_opt(&d.compensation_action),
                failure_details: clone_opt(&rt.failure_details),
                owner_session_id: clone_opt(&rt.owner_session_id),
            });
            i += 1;
        }
        r
    }

    /// Records a checkpoint of every stage together with summary lists.
    pub fn create_checkpoint(&self, checkpoint_id: String, recorded_at: String) -> (r: CheckpointSnapshot)
        requires
            self.wf(),
        ensures
            r.operation_id@ == self.spec_operation_id(),
            r.owner_session_id@ == self.spec_owner(),
            r.checkpoint_id@ == checkpoint_id@,
            r.recorded_at@ == recorded_at@,
            views(r.completed_stages@) == select_ids(self.spec_ids(), completed_sel(self.spec_runtime())),
            views(r.remaining_stages@) == select_ids(self.spec_ids(), remaining_sel(self.spec_runtime())),
            views(r.recovery_actions_available@) == select_ids(
                self.spec_ids(), recoverable_sel(self.spec_defs(), self.spec_runtime())),
            r.resume_safe == forall|i: int| 0 <= i < self.spec_runtime().len() ==>
                (#[trigger] self.spec_runtime()[i]).status != StageStatus::ReviewRequired
                && self.spec_runtime()[i].status != StageStatus::Compensating,
            match r.running_stage {
                Some(s) => exists|i: int| 0 <= i < self.spec_runtime().len() && self.spec_runtime()[i].status == StageStatus::Running
                    && s@ == self.spec_ids()[i]
                    && forall|i2: int| 0 <= i2 < i ==> (#[trigger] self.spec_runtime()[i2]).status != StageStatus::Running,
                None => forall|i: int| 0 <= i < self.spec_runtime().len() ==> (#[trigger] self.spec_runtime()[i]).status != StageStatus::Running,
            },
            r.stages.len() == self.spec_defs().len(),
            forall|i: int| 0 <= i < r.stages.len() ==> snapshot_of(
                self.spec_operation_id(), self.spec_defs()[i], self.spec_runtime()[i], #[trigger] r.stages@[i]),
    {
        let stages = self.snapshot();
        let n = self.runtime.len();
        let ghost rts = self.spec_runtime();
        let mut completed: Vec<bool> = Vec::new();
        let mut remaining: Vec<bool> = Vec::new();
        let mut recoverable: Vec<bool> = Vec::new();
        let mut running: Option<usize> = None;
        let mut resume_safe = true;
        let mut i: usize = 0;
        while i < n
            invariant
                self.wf(),
                n == self.runtime.len(),
                rts == self.spec_runtime(),
                i <= n,
                completed@ == completed_sel(rts).subrange(0, i as int),
                remaining@ == remaining_sel(rts).subrange(0, i as int),
                recoverable@ == recoverable_sel(self.spec_defs(), rts).subrange(0, i as int),
                resume_safe == forall|j: int| 0 <= j < i ==> (#[trigger] rts[j]).status != StageStatus::ReviewRequired
                    && rts[j].status != StageStatus::Compensating,
                match running {
                    Some(x) => x < i && rts[x as int].status == StageStatus::Running
                        && forall|j: int| 0 <= j < x ==> (#[trigger] rts[j]).status != StageStatus::Running,
                    None => forall|j: int| 0 <= j < i ==> (#[trigger] rts[j]).status != StageStatus::Running,
                },
            decreases n - i,
        {
            let st = self.runtime[i].status;
            proof {
                assert(rts[i as int].status == st);
            }
            completed.push(st == StageStatus::Succeeded || st == StageStatus::Compensated);
            remaining.push(
                !(st == StageStatus::Succeeded || st == StageStatus::Compensated || st == StageStatus::Cancelled
                    || st == StageStatus::ReviewRequired),
            );
            recoverable.push(
                st == StageStatus::Succeeded && self.defs[i].execution_class == StageExecutionClass::Reversible
                    && self.defs[i].compensation_action.is_some(),
            );
            if st == StageStatus::ReviewRequired || st == StageStatus::Compensating {
                resume_safe = false;
            }
            if running.is_none() && st == StageStatus::Running {
                running = Some(i);
            }
            i += 1;
        }
        proof {
            assert(completed@ == completed_sel(rts));
            assert(remaining@ == remaining_sel(rts));
            assert(recoverable@ == recoverable_sel(self.spec_defs(), rts));
        }
        let running_stage = match running {
            Some(x) => {
                let id = self.defs[x].stage_id.clone();
                proof {
                    assert(id@ == self.spec_ids()[x as int]);
                }
                Some(id)
            },
            None => None,
        };
        CheckpointSnapshot {
            operation_id: self.operation_id.clone(),
            owner_session_id: self.owner_session_id.clone(),
            checkpoint_id,
            recorded_at,
            completed_stages: self.select(&completed),
            remaining_stages: self.select(&remaining),
            running_stage,
            recovery_actions_available: self.select(&recoverable),
            resume_safe,
            stages,
        }
    }

    /// Restores the runtime state recorded in a checkpoint of this operation, then
    /// refreshes the table. A checkpoint of another operation, of another number of
    /// stages, or naming a stage that is missing or defined differently, is refused and
    /// changes nothing.
    pub fn restore_checkpoint(&mut self, checkpoint: &CheckpointSnapshot) -> (r: Result<(), StagedOperationError>)
        requires
            old(self).wf(),
        ensures
            final(self).wf(),
            r is Ok ==> final(self).refresh_stable(),
            old(self).refresh_stable() ==> final(self).refresh_stable(),
            final(self).spec_defs() == old(self).spec_defs(),
            final(self).spec_queue() == old(self).spec_queue(),
            final(self).spec_operation_id() == old(self).spec_operation_id(),
            final(self).spec_owner() == old(self).spec_owner(),
            r is Ok == checkpoint_fits(old(self).spec_defs(), old(self).spec_operation_id(), *checkpoint),
            r is Err ==> r == Err::<(), StagedOperationError>(StagedOperationError::CheckpointMismatch)
                && final(self).spec_runtime() == old(self).spec_runtime(),
            r is Ok ==> final(self).spec_runtime() == refreshed(
                old(self).spec_defs(),
                old(self).spec_graph(),
                apply_snaps(old(self).spec_runtime(), old(self).spec_ids(), checkpoint.stages@),
            ),
    {
        let ghost defs = self.spec_defs();
        let ghost ids = self.spec_ids();
        if !same_text(checkpoint.operation_id.as_str(), self.operation_id.as_str()) {
            return Err(StagedOperationError::CheckpointMismatch);
        }
        if checkpoint.stages.len() != self.defs.len() {
            return Err(StagedOperationError::CheckpointMismatch);
        }
        let mut j: usize = 0;
        while j < checkpoint.stages.len()
            invariant
                self.wf(),
                defs == self.spec_defs(),
                ids == self.spec_ids(),
                self.spec_runtime() == old(self).spec_runtime(),
                self.spec_operation_id() == old(self).spec_operation_id(),
                j <= checkpoint.stages.len(),
                forall|j2: int| 0 <= j2 < j ==> #[trigger] snap_fits(defs, checkpoint.stages@[j2]),
            decreases checkpoint.stages.len() - j,
        {
            let snap = &checkpoint.stages[j];
            match find_in(&self.defs, snap.stage_id.as_str()) {
                None => {
                    proof {
                        assert(!snap_fits(defs, checkpoint.stages@[j as int]));
                    }
                    return Err(StagedOperationError::CheckpointMismatch);
                },
                Some(x) => {
                    proof {
                        assert(ids.contains(snap.stage_id@));
                        lemma_index_of_unique(ids, x as int);
                    }
                    if !same_texts(&self.defs[x].prerequisites, &snap.prerequisites)
                        || self.defs[x].execution_class != snap.execution_class {
                        proof {
                            assert(!snap_fits(defs, checkpoint.stages@[j as int]));
                        }
                        return Err(StagedOperationError::CheckpointMismatch);
                    }
                },
            }
            j += 1;
        }
        let ghost rts0 = self.spec_runtime();
        let mut j: usize = 0;
        while j < checkpoint.stages.len()
            invariant
                self.wf(),
                defs == self.spec_defs(),
                ids == self.spec_ids(),
                self.spec_queue() == old(self).spec_queue(),
                self.spec_operation_id() == old(self).spec_operation_id(),
                self.spec_owner() == old(self).spec_owner(),
                j <= checkpoint.stages.len(),
                forall|j2: int| 0 <= j2 < checkpoint.stages.len() ==> #[trigger] snap_fits(defs, checkpoint.stages@[j2]),
                self.spec_runtime() == apply_snaps(rts0, ids, checkpoint.stages@.subrange(0, j as int)),
            decreases checkpoint.stages.len() - j,
        {
            let snap = &checkpoint.stages[j];
            proof {
                assert(snap_fits(defs, checkpoint.stages@[j as int]));
                assert(checkpoint.stages@.subrange(0, j + 1).drop_last() == checkpoint.stages@.subrange(0, j as int));
            }
            match find_in(&self.defs, snap.stage_id.as_str()) {
                None => {
                    proof {
                        assert(false);
                    }
                },
                Some(x) => {
                    proof {
                        lemma_index_of_unique(ids, x as int);
                    }
                    let rt = runtime_from_snap(snap);
                    self.runtime.set(x, rt);
                    proof {
                        assert(self.spec_runtime() =~= apply_snaps(rts0, ids, checkpoint.stages@.subrange(0, j + 1)));
                    }
                },
            }
            j += 1;
        }
        proof {
            assert(checkpoint.stages@.subrange(0, j as int) == checkpoint.stages@);
        }
        self.refresh_blocked_and_ready();
        Ok(())
    }

    /// Running stages whose recorded owner is not among `live_owners` are closed at
    /// `observed_at`: a reversible one fails (it can be retried), an irreversible one needs
    /// review. The table is then refreshed.
    pub fn mark_stale_running_without_owner(&mut self, live_owners: &Vec<String>, observed_at: String)
        requires
            old(self).wf(),
        ensures
            final(self).wf(),
            final(self).refresh_stable(),
            final(self).spec_defs() == old(self).spec_defs(),
            final(self).spec_queue() == old(self).spec_queue(),
            final(self).spec_operation_id() == old(self).spec_operation_id(),
            final(self).spec_owner() == old(self).spec_owner(),
            final(self).spec_runtime() == refreshed(
                old(self).spec_defs(),
                old(self).spec_graph(),
                Seq::new(old(self).spec_runtime().len(), |i: int| stale_view(
                    old(self).spec_defs()[i], old(self).spec_runtime()[i], views(live_owners@), observed_at@)),
            ),
    {
        let ghost rts0 = self.spec_runtime();
        let ghost defs = self.spec_defs();
        let ghost target = Seq::new(rts0.len(), |i: int| stale_view(defs[i], rts0[i], views(live_owners@), observed_at@));
        let n = self.runtime.len();
        let mut i: usize = 0;
        while i < n
            invariant
                self.wf(),
                n == self.runtime.len(),
                defs == self.spec_defs(),
                rts0.len() == n,
                target.len() == n,
                target == Seq::new(rts0.len(), |i: int| stale_view(defs[i], rts0[i], views(live_owners@), observed_at@)),
                i <= n,
                forall|x: int| 0 <= x < i ==> self.spec_runtime()[x] == target[x],
                forall|x: int| i <= x < n ==> self.spec_runtime()[x] == rts0[x],
                self.spec_queue() == old(self).spec_queue(),
                self.spec_operation_id() == old(self).spec_operation_id(),
                self.spec_owner() == old(self).spec_owner(),
            decreases n - i,
        {
            let rt = &self.runtime[i];
            proof {
                assert(rt@ == rts0[i as int]);
            }
            if rt.status == StageStatus::Running {
                let alive = match &rt.owner_session_id {
                    Some(o) => contains_text(live_owners, o.as_str()),
                    None => false,
                };
                if !alive {
                    let new_rt = match self.defs[i].execution_class {
                        StageExecutionClass::Reversible => StageRuntime {
                            status: StageStatus::Failed,
                            blocked_reason: clone_opt(&rt.blocked_reason),
                            attempt_count: rt.attempt_count,
                            started_at: clone_opt(&rt.started_at),
                            completed_at: Some(observed_at.clone()),
                            owner_session_id: clone_opt(&rt.owner_session_id),
                            failure_details: Some(owned("running stage lost owner; safe retry requires re-execution")),
                        },
                        StageExecutionClass::Irreversible => StageRuntime {
                            status: StageStatus::ReviewRequired,
                            blocked_reason: clone_opt(&rt.blocked_reason),
                            attempt_count: rt.attempt_count,
                            started_at: clone_opt(&rt.started_at),
                            completed_at: Some(observed_at.clone()),
                            owner_session_id: clone_opt(&rt.owner_session_id),
                            failure_details: Some(owned("running irreversible stage lost owner; outcome unknown")),
                        },
                    };
                    self.runtime.set(i, new_rt);
                }
            }
            i += 1;
        }
        proof {
            assert(self.spec_runtime() =~= target);
        }
        self.refresh_blocked_and_ready();
    }
}

// ---------------------------------------------------------------------------
// Ordering, recovery and compensation.
// ---------------------------------------------------------------------------

/// In `q`, no stage comes before one of its own dependents: whenever `q[x]` precedes
/// `q[y]`, `q[x]` is not a prerequisite of `q[y]`.
pub open spec fn dependents_first(g: Seq<Seq<usize>>, q: Seq<usize>) -> bool {
    forall|x: int, y: int| 0 <= x < y < q.len() ==> !g[#[trigger] q[y] as int].contains(#[trigger] q[x])
}

/// The ids of the stages at the given positions.
pub open spec fn ids_at(ids: Seq<Seq<char>>, q: Seq<usize>) -> Seq<Seq<char>> {
    Seq::new(q.len(), |x: int| ids[q[x] as int])
}

/// Message for an irreversible stage met during recovery.
pub open spec fn irreversible_review(reason: Seq<char>) -> Seq<char> {
    "manual review required: irreversible stage cannot be compensated ("@ + reason + ")"@
}

/// Message for a reversible stage without a compensation action met during recovery.
pub open spec fn no_compensation_review(reason: Seq<char>) -> Seq<char> {
    "manual review required: no compensation action registered ("@ + reason + ")"@
}

/// The state of a stage after recovery has been prepared.
pub open spec fn recovery_view(d: StageDefinition, rt: RuntimeView, reason: Seq<char>) -> RuntimeView {
    if rt.status != StageStatus::Succeeded {
        rt
    } else if d.execution_class == StageExecutionClass::Irreversible {
        RuntimeView { status: StageStatus::ReviewRequired, failure_details: Some(irreversible_review(reason)), ..rt }
    } else if d.compensation_action is None {
        RuntimeView { status: StageStatus::ReviewRequired, failure_details: Some(no_compensation_review(reason)), ..rt }
    } else {
        rt
    }
}

/// The succeeded stages of an order, last first.
pub open spec fn succeeded_rev(o: Seq<usize>, rts: Seq<RuntimeView>) -> Seq<usize>
    decreases o.len(),
{
    if o.len() == 0 {
        Seq::empty()
    } else {
        let tail = succeeded_rev(o.drop_first(), rts);
        if rts[o[0] as int].status == StageStatus::Succeeded {
            tail.push(o[0])
        } else {
            tail
        }
    }
}

/// The state of a stage whose compensation starts.
pub open spec fn compensating_view(rt: RuntimeView, owner: Seq<char>, at: Seq<char>) -> RuntimeView {
    RuntimeView {
        status: StageStatus::Compensating,
        owner_session_id: Some(owner),
        started_at: Some(at),
        attempt_count: sat_inc(rt.attempt_count),
        blocked_reason: None,
        ..rt
    }
}

/// The state of a stage whose compensation ends.
pub open spec fn compensated_view(rt: RuntimeView, at: Seq<char>, success: bool, details: Option<Seq<char>>) -> RuntimeView {
    if success {
        RuntimeView { status: StageStatus::Compensated, completed_at: Some(at), failure_details: details, ..rt }
    } else {
        RuntimeView {
            status: StageStatus::ReviewRequired,
            completed_at: Some(at),
            failure_details: Some(
                match details {
                    Some(d) => d,
                    None => "compensation failed"@,
                },
            ),
            ..rt
        }
    }
}

/// `k` is the first position of `q` whose stage has succeeded.
pub open spec fn first_succeeded_at(q: Seq<usize>, rts: Seq<RuntimeView>, k: int) -> bool {
    &&& 0 <= k < q.len()
    &&& rts[q[k] as int].status == StageStatus::Succeeded
    &&& forall|k2: int| 0 <= k2 < k ==> rts[#[trigger] q[k2] as int].status != StageStatus::Succeeded
}

/// Blocked stages with their reasons (empty when none is recorded), in stage order.
pub open spec fn blocked_pairs(ids: Seq<Seq<char>>, rts: Seq<RuntimeView>) -> Seq<(Seq<char>, Seq<char>)>
    decreases ids.len(),
{
    if ids.len() == 0 || rts.len() == 0 {
        Seq::empty()
    } else {
        let rest = blocked_pairs(ids.drop_last(), rts.drop_last());
        let rt = rts[ids.len() - 1];
        if rt.status == StageStatus::Blocked {
            rest.push((ids.last(), match rt.blocked_reason { Some(r) => r, None => Seq::empty() }))
        } else {
            rest
        }
    }
}

/// The character sequences of a sequence of string pairs.
pub open spec fn pair_views(v: Seq<(String, String)>) -> Seq<(Seq<char>, Seq<char>)> {
    Seq::new(v.len(), |i: int| (v[i].0@, v[i].1@))
}

proof fn lemma_push_contains(s: Seq<usize>, x: usize, w: usize)
    ensures
        s.push(x).contains(w) == (s.contains(w) || w == x),
{
    if s.push(x).contains(w) {
        let c = choose|c: int| 0 <= c < s.push(x).len() && s.push(x)[c] == w;
        if c < s.len() {
            assert(s[c] == w);
        }
    }
    if s.contains(w) {
        let c = choose|c: int| 0 <= c < s.len() && s[c] == w;
        assert(s.push(x)[c] == w);
    }
    if w == x {
        assert(s.push(x)[s.len() as int] == w);
    }
}

/// A topological order of an acyclic graph puts a stage after each of its prerequisites,
/// so reversed it never puts a stage before one of its dependents.
proof fn lemma_topo_no_back_edge(g: Seq<Seq<usize>>, o: Seq<usize>, a: int, b: int)
    requires
        is_topological_order(g, o),
        0 <= b < a < o.len(),
    ensures
        !g[o[b] as int].contains(o[a]),
{
    if g[o[b] as int].contains(o[a]) {
        let k = choose|k: int| 0 <= k < g[o[b] as int].len() && g[o[b] as int][k] == o[a];
        assert(crate::topo::prereqs_before(g, o, b));
        assert(o.subrange(0, b).contains(g[o[b] as int][k]));
        let c = choose|c: int| 0 <= c < o.subrange(0, b).len() && o.subrange(0, b)[c] == o[a];
        assert(o[c] == o[a]);
    }
}

impl StagedOperation {
    /// A topological order of the stages.
    fn topological_order(&self) -> (r: Vec<usize>)
        requires
            self.wf(),
        ensures
            is_topological_order(self.spec_graph(), r@),
    {
        proof {
            lemma_def_graph_well_indexed(self.defs@);
        }
        let order = kahn_order(&self.prereq_idx);
        order
    }

    /// Succeeded stages, each before all of its prerequisites (reverse topological order).
    fn recovery_order_candidates(&self) -> (r: Vec<usize>)
        requires
            self.wf(),
        ensures
            r@.no_duplicates(),
            crate::topo::all_below(r@, self.spec_defs().len() as int),
            forall|i: usize| (i as int) < self.spec_defs().len() ==>
                (r@.contains(i) == (self.spec_runtime()[i as int].status == StageStatus::Succeeded)),
            dependents_first(self.spec_graph(), r@),
    {
        let o = self.topological_order();
        self.recovery_from_order(&o)
    }

    /// The succeeded stages of a topological order `o`, in reverse.
    fn recovery_from_order(&self, o: &Vec<usize>) -> (r: Vec<usize>)
        requires
            self.wf(),
            is_topological_order(self.spec_graph(), o@),
        ensures
            r@.no_duplicates(),
            crate::topo::all_below(r@, self.spec_defs().len() as int),
            forall|i: usize| (i as int) < self.spec_defs().len() ==>
                (r@.contains(i) == (self.spec_runtime()[i as int].status == StageStatus::Succeeded)),
            dependents_first(self.spec_graph(), r@),
            r@ == succeeded_rev(o@, self.spec_runtime()),
    {
        let ghost g = self.spec_graph();
        let n = o.len();
        proof {
            crate::topo::lemma_distinct_bounded(o@, n as nat);
        }
        let mut r: Vec<usize> = Vec::new();
        let ghost mut pos: Seq<int> = Seq::empty();
        let mut j: usize = n;
        while j > 0
            invariant
                self.wf(),
                g == self.spec_graph(),
                is_topological_order(g, o@),
                n == o.len(),
                n == self.spec_defs().len(),
                j <= n,
                pos.len() == r.len(),
                forall|x: int| 0 <= x < r.len() ==> j <= #[trigger] pos[x] < n && r@[x] == o@[pos[x]],
                forall|x: int, y: int| 0 <= x < y < r.len() ==> #[trigger] pos[x] > #[trigger] pos[y],
                forall|i: usize| (i as int) < n ==> (r@.contains(i) == (
                    self.spec_runtime()[i as int].status == StageStatus::Succeeded && o@.subrange(j as int, n as int).contains(i))),
                r@.no_duplicates(),
                dependents_first(g, r@),
                crate::topo::all_below(r@, n as int),
                r@ == succeeded_rev(o@.subrange(j as int, n as int), self.spec_runtime()),
            decreases j,
        {
            let v = o[j - 1];
            proof {
                let sub = o@.subrange(j - 1, n as int);
                assert(sub.drop_first() =~= o@.subrange(j as int, n as int));
                assert(sub[0] == v);
            }
            proof {
                assert(v < n);
            }
            let ghost r_old = r@;
            if self.runtime[v].status == StageStatus::Succeeded {
                r.push(v);
                proof {
                    pos = pos.push(j - 1);
                    assert forall|x: int, y: int| 0 <= x < y < r.len() implies !g[#[trigger] r@[y] as int].contains(#[trigger] r@[x]) by {
                        if y == r.len() - 1 {
                            assert(r@[x] == o@[pos[x]]);
                            lemma_topo_no_back_edge(g, o@, pos[x], j - 1);
                        } else {
                            assert(r@[x] == r_old[x] && r@[y] == r_old[y]);
                        }
                    }
                    assert(r@.no_duplicates()) by {
                        assert forall|x: int, y: int| 0 <= x < r.len() && 0 <= y < r.len() && x != y implies r@[x] != r@[y] by {
                            if x == r.len() - 1 || y == r.len() - 1 {
                                assert(pos[x] != pos[y]);
                                assert(o@[pos[x]] != o@[pos[y]]);
                            } else {
                                assert(r@[x] == r_old[x] && r@[y] == r_old[y]);
                            }
                        }
                    }
                }
            }
            proof {
                assert forall|i: usize| (i as int) < n implies (r@.contains(i) == (
                    self.spec_runtime()[i as int].status == StageStatus::Succeeded && o@.subrange(j - 1, n as int).contains(i))) by {
                    let sub_new = o@.subrange(j - 1, n as int);
                    let sub_old = o@.subrange(j as int, n as int);
                    assert(sub_new.contains(i) == (sub_old.contains(i) || i == v)) by {
                        if sub_new.contains(i) {
                            let c = choose|c: int| 0 <= c < sub_new.len() && sub_new[c] == i;
                            if c > 0 {
                                assert(sub_old[c - 1] == i);
                            }
                        }
                        if sub_old.contains(i) {
                            let c = choose|c: int| 0 <= c < sub_old.len() && sub_old[c] == i;
                            assert(sub_new[c + 1] == i);
                        }
                        if i == v {
                            assert(sub_new[0] == i);
                        }
                    }
                    if r@.contains(i) && !r_old.contains(i) {
                        let c = choose|c: int| 0 <= c < r.len() && r@[c] == i;
                        if c < r_old.len() {
                            assert(r_old[c] == i);
                        }
                    }
                    if r_old.contains(i) {
                        let c = choose|c: int| 0 <= c < r_old.len() && r_old[c] == i;
                        assert(r@[c] == i);
                    }
                    if i == v && self.spec_runtime()[i as int].status == StageStatus::Succeeded {
                        assert(r@[r.len() - 1] == i);
                    }
                    if sub_old.contains(i) && i == v {
                        let c = choose|c: int| 0 <= c < sub_old.len() && sub_old[c] == i;
                        assert(o@[c + j] == o@[j - 1]);
                    }
                }
            }
            j -= 1;
        }
        proof {
            assert(o@.subrange(0, n as int) == o@);
            crate::topo::lemma_distinct_bounded(o@, n as nat);
        }
        r
    }

    /// Prepares compensation of every succeeded stage: reversible stages with a
    /// compensation action are queued, dependents before their prerequisites; every other
    /// succeeded stage is marked for manual review.
    pub fn prepare_recovery(&mut self, reason: &str)
        requires
            old(self).wf(),
        ensures
            final(self).wf(),
            final(self).spec_defs() == old(self).spec_defs(),
            final(self).spec_operation_id() == old(self).spec_operation_id(),
            final(self).spec_owner() == old(self).spec_owner(),
            final(self).spec_runtime() == Seq::new(old(self).spec_runtime().len(), |i: int| recovery_view(
                old(self).spec_defs()[i], old(self).spec_runtime()[i], reason@)),
            final(self).spec_queue().no_duplicates(),
            forall|i: usize| (i as int) < old(self).spec_defs().len() ==> (final(self).spec_queue().contains(i) == (
                #[trigger] recoverable_sel(old(self).spec_defs(), old(self).spec_runtime())[i as int])),
            dependents_first(old(self).spec_graph(), final(self).spec_queue()),
            forall|k: int| 0 <= k < final(self).spec_queue().len() ==> final(self).spec_runtime()[
                #[trigger] final(self).spec_queue()[k] as int].status == StageStatus::Succeeded,
    {
        let cand = self.recovery_order_candidates();
        let ghost rts0 = self.spec_runtime();
        let ghost defs = self.spec_defs();
        let ghost g = self.spec_graph();
        self.recovery_queue.clear();
        let ghost mut posq: Seq<int> = Seq::empty();
        let mut c: usize = 0;
        while c < cand.len()
            invariant
                self.wf(),
                defs == self.spec_defs(),
                g == self.spec_graph(),
                rts0.len() == defs.len(),
                cand@.no_duplicates(),
                crate::topo::all_below(cand@, defs.len() as int),
                forall|i: usize| (i as int) < defs.len() ==> (cand@.contains(i) == (rts0[i as int].status == StageStatus::Succeeded)),
                dependents_first(g, cand@),
                c <= cand.len(),
                forall|i: int| 0 <= i < defs.len() ==> self.spec_runtime()[i] == (
                    if cand@.subrange(0, c as int).contains(i as usize) { recovery_view(defs[i], rts0[i], reason@) } else { rts0[i] }),
                posq.len() == self.recovery_queue.len(),
                forall|x: int| 0 <= x < posq.len() ==> 0 <= #[trigger] posq[x] < c && self.recovery_queue@[x] == cand@[posq[x]],
                forall|x: int, y: int| 0 <= x < y < posq.len() ==> #[trigger] posq[x] < #[trigger] posq[y],
                forall|j: usize| #![trigger self.recovery_queue@.contains(j)] (j as int) < defs.len() ==> (self.recovery_queue@.contains(j) == (
                    cand@.subrange(0, c as int).contains(j) && recoverable_sel(defs, rts0)[j as int])),
                self.spec_operation_id() == old(self).spec_operation_id(),
                self.spec_owner() == old(self).spec_owner(),
            decreases cand.len() - c,
        {
            let i = cand[c];
            let ghost q_old = self.recovery_queue@;
            let ghost rts_before = self.spec_runtime();
            let ghost mut pushed = false;
            proof {
                assert forall|w: usize| (w as int) < defs.len() implies (q_old.contains(w) == (
                    cand@.subrange(0, c as int).contains(w) && recoverable_sel(defs, rts0)[w as int])) by {
                    assert(self.recovery_queue@.contains(w) == (
                        cand@.subrange(0, c as int).contains(w) && recoverable_sel(defs, rts0)[w as int]));
                }
                assert(cand@.contains(i));
                assert(self.spec_runtime()[i as int] == rts0[i as int]) by {
                    if cand@.subrange(0, c as int).contains(i) {
                        let x = choose|x: int| 0 <= x < c && cand@.subrange(0, c as int)[x] == i;
                        assert(cand@[x] == cand@[c as int]);
                    }
                }
            }
            let d = &self.defs[i];
            match d.execution_class {
                StageExecutionClass::Irreversible => {
                    let rt = &self.runtime[i];
                    let new_rt = StageRuntime {
                        status: StageStatus::ReviewRequired,
                        blocked_reason: clone_opt(&rt.blocked_reason),
                        attempt_count: rt.attempt_count,
                        started_at: clone_opt(&rt.started_at),
                        completed_at: clone_opt(&rt.completed_at),
                        owner_session_id: clone_opt(&rt.owner_session_id),
                        failure_details: Some(concat3(
                            "manual review required: irreversible stage cannot be compensated (",
                            reason,
                            ")",
                        )),
                    };
                    self.runtime.set(i, new_rt);
                    proof {
                        assert(!recoverable_sel(defs, rts0)[i as int]);
                        assert(self.recovery_queue@ == q_old);
                    }
                },
                StageExecutionClass::Reversible => {
                    if d.compensation_action.is_some() {
                        self.recovery_queue.push(i);
                        proof {
                            pushed = true;
                            posq = posq.push(c as int);
                            assert(rts0[i as int].status == StageStatus::Succeeded);
                            assert(recoverable_sel(defs, rts0)[i as int]);
                            assert(self.recovery_queue@ == q_old.push(i));
                        }
                    } else {
                        let rt = &self.runtime[i];
                        let new_rt = StageRuntime {
                            status: StageStatus::ReviewRequired,
                            blocked_reason: clone_opt(&rt.blocked_reason),
                            attempt_count: rt.attempt_count,
                            started_at: clone_opt(&rt.started_at),
                            completed_at: clone_opt(&rt.completed_at),
                            owner_session_id: clone_opt(&rt.owner_session_id),
                            failure_details: Some(concat3(
                                "manual review required: no compensation action registered (",
                                reason,
                                ")",
                            )),
                        };
                        self.runtime.set(i, new_rt);
                        proof {
                            assert(!recoverable_sel(defs, rts0)[i as int]);
                            assert(self.recovery_queue@ == q_old);
                        }
                    }
                },
            }
            proof {
                let sub_new = cand@.subrange(0, c + 1);
                let sub_old = cand@.subrange(0, c as int);
                assert forall|w: usize| (w as int) < defs.len() implies sub_new.contains(w) == (sub_old.contains(w) || w == i) by {
                    if sub_new.contains(w) {
                        let x = choose|x: int| 0 <= x < sub_new.len() && sub_new[x] == w;
                        if x < c {
                            assert(sub_old[x] == w);
                        }
                    }
                    if sub_old.contains(w) {
                        let x = choose|x: int| 0 <= x < sub_old.len() && sub_old[x] == w;
                        assert(sub_new[x] == w);
                    }
                    if w == i {
                        assert(sub_new[c as int] == w);
                    }
                }
                assert forall|w: int| 0 <= w < defs.len() implies self.spec_runtime()[w] == (
                    if sub_new.contains(w as usize) { recovery_view(defs[w], rts0[w], reason@) } else { rts0[w] }) by {
                    if w != i {
                        assert(self.spec_runtime()[w] == rts_before[w]);
                    }
                }
                assert(pushed ==> self.recovery_queue@ == q_old.push(i) && recoverable_sel(defs, rts0)[i as int]);
                assert(!pushed ==> self.recovery_queue@ == q_old && !recoverable_sel(defs, rts0)[i as int]);
                assert forall|w: usize| (w as int) < defs.len() implies (self.recovery_queue@.contains(w) == (
                    sub_new.contains(w) && recoverable_sel(defs, rts0)[w as int])) by {
                    assert(sub_new.contains(w) == (sub_old.contains(w) || w == i));
                    assert(q_old.contains(w) == (sub_old.contains(w) && recoverable_sel(defs, rts0)[w as int]));
                    if pushed {
                        lemma_push_contains(q_old, i, w);
                    }
                }
            }
            c += 1;
        }
        proof {
            assert(cand@.subrange(0, c as int) == cand@);
            let q = self.recovery_queue@;
            assert(self.spec_runtime() =~= Seq::new(rts0.len(), |i: int| recovery_view(defs[i], rts0[i], reason@))) by {
                assert forall|i: int| 0 <= i < rts0.len() implies self.spec_runtime()[i] == recovery_view(defs[i], rts0[i], reason@) by {
                    if !cand@.contains(i as usize) {
                        assert(rts0[i].status != StageStatus::Succeeded);
                    }
                }
            }
            assert(q.no_duplicates()) by {
                assert forall|x: int, y: int| 0 <= x < q.len() && 0 <= y < q.len() && x != y implies q[x] != q[y] by {
                    assert(posq[x] != posq[y]);
                }
            }
            assert forall|x: int, y: int| 0 <= x < y < q.len() implies !g[#[trigger] q[y] as int].contains(#[trigger] q[x]) by {
                assert(posq[x] < posq[y]);
                assert(q[x] == cand@[posq[x]] && q[y] == cand@[posq[y]]);
            }
            assert forall|x: int| 0 <= x < q.len() implies #[trigger] q[x] < defs.len() by {}
            assert forall|x: int| 0 <= x < q.len() implies self.spec_runtime()[#[trigger] q[x] as int].status
                == StageStatus::Succeeded by {
                assert(q[x] < defs.len());
                assert(self.recovery_queue@.contains(q[x]));
                assert(recoverable_sel(defs, rts0)[q[x] as int]);
            }
        }
    }

    /// Starts compensating the next queued stage that is still succeeded; queued stages
    /// in any other state are dropped from the queue on the way.
    pub fn start_next_compensation(&mut self, owner_session_id: &str, started_at: String) -> (r: Option<String>)
        requires
            old(self).wf(),
        ensures
            final(self).wf(),
            final(self).spec_defs() == old(self).spec_defs(),
            final(self).spec_operation_id() == old(self).spec_operation_id(),
            final(self).spec_owner() == old(self).spec_owner(),
            (forall|k: int| 0 <= k < old(self).spec_queue().len() ==>
                old(self).spec_runtime()[#[trigger] old(self).spec_queue()[k] as int].status != StageStatus::Succeeded) ==> (
                r is None && final(self).spec_queue() == Seq::<usize>::empty()
                && final(self).spec_runtime() == old(self).spec_runtime()),
            forall|k: int| #[trigger] first_succeeded_at(old(self).spec_queue(), old(self).spec_runtime(), k) ==> ({
                let q = old(self).spec_queue();
                let rts = old(self).spec_runtime();
                &&& r matches Some(id) && id@ == old(self).spec_ids()[q[k] as int]
                &&& final(self).spec_queue() == q.subrange(k + 1, q.len() as int)
                &&& final(self).spec_runtime() == rts.update(q[k] as int, compensating_view(rts[q[k] as int], owner_session_id@, started_at@))
            }),
    {
        let ghost q = self.recovery_queue@;
        let ghost rts = self.spec_runtime();
        let ghost mut k0: int = 0;
        while self.recovery_queue.len() > 0
            invariant
                self.wf(),
                self.spec_defs() == old(self).spec_defs(),
                self.spec_runtime() == rts,
                q == old(self).spec_queue(),
                rts == old(self).spec_runtime(),
                self.spec_operation_id() == old(self).spec_operation_id(),
                self.spec_owner() == old(self).spec_owner(),
                0 <= k0 <= q.len(),
                self.recovery_queue@ == q.subrange(k0, q.len() as int),
                forall|k2: int| 0 <= k2 < k0 ==> rts[#[trigger] q[k2] as int].status != StageStatus::Succeeded,
            decreases self.recovery_queue.len(),
        {
            let i = self.recovery_queue.remove(0);
            proof {
                assert(i == q[k0]);
                k0 = k0 + 1;
                assert(self.recovery_queue@ =~= q.subrange(k0, q.len() as int));
                assert(self.runtime@[i as int]@ == rts[i as int]);
            }
            if self.runtime[i].status == StageStatus::Succeeded {
                let rt = &self.runtime[i];
                let attempts = if rt.attempt_count < u32::MAX {
                    rt.attempt_count + 1
                } else {
                    rt.attempt_count
                };
                let new_rt = StageRuntime {
                    status: StageStatus::Compensating,
                    blocked_reason: None,
                    attempt_count: attempts,
                    started_at: Some(started_at),
                    completed_at: clone_opt(&rt.completed_at),
                    owner_session_id: Some(owned(owner_session_id)),
                    failure_details: clone_opt(&rt.failure_details),
                };
                let id = self.defs[i].stage_id.clone();
                self.runtime.set(i, new_rt);
                proof {
                    assert(q == old(self).spec_queue());
                    assert(rts == old(self).spec_runtime());
                    assert(old(self).spec_queue()[k0 - 1] == i);
                    assert(rts[i as int].status == StageStatus::Succeeded);
                    assert(first_succeeded_at(q, rts, k0 - 1));
                    assert forall|k: int| #[trigger] first_succeeded_at(q, rts, k) implies k == k0 - 1 by {
                        if k < k0 - 1 {
                        } else if k > k0 - 1 {
                            assert(rts[q[k0 - 1] as int].status != StageStatus::Succeeded);
                        }
                    }
                    assert(self.spec_runtime() =~= rts.update(i as int, compensating_view(rts[i as int], owner_session_id@, started_at@)));
                }
                return Some(id);
            }
        }
        proof {
            assert(k0 == q.len());
            assert forall|k: int| !#[trigger] first_succeeded_at(q, rts, k) by {}
        }
        None
    }

    /// Ends the compensation of a stage at `completed_at`: on success the stage is
    /// compensated and keeps `details`; on failure it needs review and records `details`,
    /// or "compensation failed". The table is then refreshed.
    pub fn finish_compensation(
        &mut self,
        stage_id: &str,
        completed_at: String,
        success: bool,
        details: Option<String>,
    ) -> (r: Result<(), StagedOperationError>)
        requires
            old(self).wf(),
        ensures
            final(self).wf(),
            final(self).spec_defs() == old(self).spec_defs(),
            final(self).spec_queue() == old(self).spec_queue(),
            final(self).spec_operation_id() == old(self).spec_operation_id(),
            final(self).spec_owner() == old(self).spec_owner(),
            ({
                let rts = old(self).spec_runtime();
                &&& !old(self).spec_ids().contains(stage_id@) ==> (r matches Err(StagedOperationError::StageNotFound(m)) && m@ == stage_id@
                    && final(self).spec_runtime() == rts)
                &&& forall|i: int| 0 <= i < old(self).spec_ids().len() && old(self).spec_ids()[i] == stage_id@ ==> {
                    &&& rts[i].status != StageStatus::Compensating ==> (r matches Err(StagedOperationError::InvalidTransition { stage, from, to })
                        && stage@ == stage_id@ && from == rts[i].status && to == StageStatus::Compensated
                        && final(self).spec_runtime() == rts)
                    &&& rts[i].status == StageStatus::Compensating ==> (r is Ok && final(self).spec_runtime() == refreshed(
                        old(self).spec_defs(), old(self).spec_graph(),
                        rts.update(i, compensated_view(rts[i], completed_at@, success, opt_view(details)))))
                }
            }),
    {
        let ghost rts = self.spec_runtime();
        match find_in(&self.defs, stage_id) {
            None => Err(StagedOperationError::StageNotFound(owned(stage_id))),
            Some(i) => {
                proof {
                    assert forall|i2: int| 0 <= i2 < self.spec_ids().len() && self.spec_ids()[i2] == stage_id@ implies i2 == i by {
                        lemma_ids_unique(self.spec_ids(), i2, i as int);
                    }
                    assert(self.runtime@[i as int]@ == rts[i as int]);
                }
                let status = self.runtime[i].status;
                if status != StageStatus::Compensating {
                    return Err(StagedOperationError::InvalidTransition {
                        stage: owned(stage_id),
                        from: status,
                        to: StageStatus::Compensated,
                    });
                }
                let rt = &self.runtime[i];
                let (new_status, new_details) = if success {
                    (StageStatus::Compensated, details)
                } else {
                    let d = match details {
                        Some(d) => d,
                        None => owned("compensation failed"),
                    };
                    (StageStatus::ReviewRequired, Some(d))
                };
                let new_rt = StageRuntime {
                    status: new_status,
                    blocked_reason: clone_opt(&rt.blocked_reason),
                    attempt_count: rt.attempt_count,
                    started_at: clone_opt(&rt.started_at),
                    completed_at: Some(completed_at),
                    owner_session_id: clone_opt(&rt.owner_session_id),
                    failure_details: new_details,
                };
                self.runtime.set(i, new_rt);
                proof {
                    assert(self.spec_runtime() =~= rts.update(i as int, compensated_view(rts[i as int], completed_at@, success, opt_view(details))));
                }
                self.refresh_blocked_and_ready();
                Ok(())
            },
        }
    }
}


/// For each stage, whether its execution class is `c`.
pub open spec fn class_is(defs: Seq<StageDefinition>, c: StageExecutionClass) -> Seq<bool> {
    Seq::new(defs.len(), |i: int| defs[i].execution_class == c)
}

/// For each stage, whether it names a checkpoint reference.
pub open spec fn has_checkpoint(defs: Seq<StageDefinition>) -> Seq<bool> {
    Seq::new(defs.len(), |i: int| defs[i].checkpoint_ref is Some)
}

impl StagedOperation {
    /// The ids of the stages at the given positions, in the order given.
    fn ids_at_positions(&self, q: &Vec<usize>) -> (r: Vec<String>)
        requires
            crate::topo::all_below(q@, self.spec_defs().len() as int),
        ensures
            views(r@) == ids_at(self.spec_ids(), q@),
    {
        let mut r: Vec<String> = Vec::new();
        let mut x: usize = 0;
        while x < q.len()
            invariant
                crate::topo::all_below(q@, self.spec_defs().len() as int),
                x <= q.len(),
                views(r@) == ids_at(self.spec_ids(), q@.subrange(0, x as int)),
            decreases q.len() - x,
        {
            let i = q[x];
            let ghost before = views(r@);
            r.push(self.defs[i].stage_id.clone());
            proof {
                assert(views(r@) =~= before.push(self.spec_ids()[i as int]));
                assert(ids_at(self.spec_ids(), q@.subrange(0, x + 1)) =~= ids_at(self.spec_ids(), q@.subrange(0, x as int)).push(
                    self.spec_ids()[i as int]));
            }
            x += 1;
        }
        proof {
            assert(q@.subrange(0, x as int) =~= q@);
        }
        r
    }

    /// Blocked stages in stage order, each with its blocked reason (empty when none).
    fn blocked_stages(&self) -> (r: Vec<(String, String)>)
        requires
            self.wf(),
        ensures
            pair_views(r@) == blocked_pairs(self.spec_ids(), self.spec_runtime()),
    {
        let mut r: Vec<(String, String)> = Vec::new();
        let mut i: usize = 0;
        while i < self.defs.len()
            invariant
                self.wf(),
                i <= self.defs.len(),
                pair_views(r@) == blocked_pairs(
                    self.spec_ids().subrange(0, i as int), self.spec_runtime().subrange(0, i as int)),
            decreases self.defs.len() - i,
        {
            proof {
                let ids = self.spec_ids();
                let rts = self.spec_runtime();
                assert(ids.subrange(0, i + 1).drop_last() =~= ids.subrange(0, i as int));
                assert(rts.subrange(0, i + 1).drop_last() =~= rts.subrange(0, i as int));
                assert(self.runtime@[i as int]@ == rts[i as int]);
            }
            let rt = &self.runtime[i];
            if rt.status == StageStatus::Blocked {
                let reason = match &rt.blocked_reason {
                    Some(b) => b.clone(),
                    None => String::new(),
                };
                r.push((self.defs[i].stage_id.clone(), reason));
                proof {
                    assert(pair_views(r@) =~= pair_views(r@.drop_last()).push((r@.last().0@, r@.last().1@)));
                }
            }
            i += 1;
        }
        proof {
            assert(self.spec_ids().subrange(0, i as int) =~= self.spec_ids());
            assert(self.spec_runtime().subrange(0, i as int) =~= self.spec_runtime());
        }
        r
    }

    /// The plan of the operation as it stands, computed without running or changing anything.
    pub fn dry_run_plan(&self) -> (plan: DryRunPlan)
        requires
            self.wf(),
        ensures
            plan.operation_id@ == self.spec_operation_id(),
            exists|order: Seq<usize>| #[trigger] is_topological_order(self.spec_graph(), order)
                && views(plan.ordered_stages@) == ids_at(self.spec_ids(), order),
            views(plan.ready_stages@) == select_ids(self.spec_ids(), status_is(self.spec_runtime(), StageStatus::Ready)),
            pair_views(plan.blocked_stages@) == blocked_pairs(self.spec_ids(), self.spec_runtime()),
            views(plan.reversible_stages@) == select_ids(self.spec_ids(), class_is(self.spec_defs(), StageExecutionClass::Reversible)),
            views(plan.irreversible_stages@) == select_ids(self.spec_ids(), class_is(self.spec_defs(), StageExecutionClass::Irreversible)),
            views(plan.checkpoint_candidates@) == select_ids(self.spec_ids(), has_checkpoint(self.spec_defs())),
            exists|order: Seq<usize>| #[trigger] is_topological_order(self.spec_graph(), order)
                && views(plan.ordered_stages@) == ids_at(self.spec_ids(), order)
                && views(plan.recovery_sequence@) == ids_at(self.spec_ids(), succeeded_rev(order, self.spec_runtime())),
            exists|q: Seq<usize>| #![trigger ids_at(self.spec_ids(), q)] {
                &&& views(plan.recovery_sequence@) == ids_at(self.spec_ids(), q)
                &&& q.no_duplicates()
                &&& crate::topo::all_below(q, self.spec_defs().len() as int)
                &&& forall|i: usize| (i as int) < self.spec_defs().len() ==>
                    (q.contains(i) == (self.spec_runtime()[i as int].status == StageStatus::Succeeded))
                &&& dependents_first(self.spec_graph(), q)
            },
    {
        let ready_stages = self.legal_next_stages();
        let blocked_stages = self.blocked_stages();
        let mut rev: Vec<bool> = Vec::new();
        let mut irr: Vec<bool> = Vec::new();
        let mut chk: Vec<bool> = Vec::new();
        let mut i: usize = 0;
        while i < self.defs.len()
            invariant
                self.wf(),
                i <= self.defs.len(),
                rev@ == class_is(self.spec_defs(), StageExecutionClass::Reversible).subrange(0, i as int),
                irr@ == class_is(self.spec_defs(), StageExecutionClass::Irreversible).subrange(0, i as int),
                chk@ == has_checkpoint(self.spec_defs()).subrange(0, i as int),
            decreases self.defs.len() - i,
        {
            let d = &self.defs[i];
            rev.push(d.execution_class == StageExecutionClass::Reversible);
            irr.push(d.execution_class == StageExecutionClass::Irreversible);
            chk.push(d.checkpoint_ref.is_some());
            proof {
                assert(rev@ =~= class_is(self.spec_defs(), StageExecutionClass::Reversible).subrange(0, i + 1));
                assert(irr@ =~= class_is(self.spec_defs(), StageExecutionClass::Irreversible).subrange(0, i + 1));
                assert(chk@ =~= has_checkpoint(self.spec_defs()).subrange(0, i + 1));
            }
            i += 1;
        }
        proof {
            assert(rev@ =~= class_is(self.spec_defs(), StageExecutionClass::Reversible));
            assert(irr@ =~= class_is(self.spec_defs(), StageExecutionClass::Irreversible));
            assert(chk@ =~= has_checkpoint(self.spec_defs()));
        }
        let order = self.topological_order();
        proof {
            assert(crate::topo::all_below(order@, self.spec_defs().len() as int));
        }
        let ordered_stages = self.ids_at_positions(&order);
        let cand = self.recovery_from_order(&order);
        let recovery_sequence = self.ids_at_positions(&cand);
        DryRunPlan {
            operation_id: self.operation_id.clone(),
            ordered_stages,
            ready_stages,
            blocked_stages,
            reversible_stages: self.select(&rev),
            irreversible_stages: self.select(&irr),
            checkpoint_candidates: self.select(&chk),
            recovery_sequence,
        }
    }
}


// ---------------------------------------------------------------------------
// Laws.
// ---------------------------------------------------------------------------

/// Neither scan finds anything exactly when every listed prerequisite has succeeded.
proof fn lemma_scan_none_iff_succeeded(pv: Seq<usize>, st: Seq<StageStatus>)
    ensures
        (first_failed(pv, st) is None && last_pending(pv, st) is None) <==> (forall|k: int|
            0 <= k < pv.len() ==> st[#[trigger] pv[k] as int] == StageStatus::Succeeded),
    decreases pv.len(),
{
    if pv.len() > 0 {
        lemma_scan_none_iff_succeeded(pv.drop_last(), st);
        if first_failed(pv, st) is None && last_pending(pv, st) is None {
            assert forall|k: int| 0 <= k < pv.len() implies st[#[trigger] pv[k] as int] == StageStatus::Succeeded by {
                if k < pv.len() - 1 {
                    assert(pv.drop_last()[k] == pv[k]);
                }
            }
        }
        if forall|k: int| 0 <= k < pv.len() ==> st[#[trigger] pv[k] as int] == StageStatus::Succeeded {
            assert(st[pv[pv.len() - 1] as int] == StageStatus::Succeeded);
            assert forall|k: int| 0 <= k < pv.drop_last().len() implies st[#[trigger] pv.drop_last()[k] as int]
                == StageStatus::Succeeded by {
                assert(pv.drop_last()[k] == pv[k]);
            }
        }
    }
}

/// The scans only look at whether each prerequisite succeeded, failed or is pending.
proof fn lemma_scan_same_classes(pv: Seq<usize>, st1: Seq<StageStatus>, st2: Seq<StageStatus>)
    requires
        forall|k: int| 0 <= k < pv.len() ==> failed_class(st1[#[trigger] pv[k] as int]) == failed_class(st2[pv[k] as int])
            && (st1[pv[k] as int] == StageStatus::Succeeded) == (st2[pv[k] as int] == StageStatus::Succeeded),
    ensures
        first_failed(pv, st1) == first_failed(pv, st2),
        last_pending(pv, st1) == last_pending(pv, st2),
    decreases pv.len(),
{
    if pv.len() > 0 {
        assert forall|k: int| 0 <= k < pv.drop_last().len() implies failed_class(st1[#[trigger] pv.drop_last()[k] as int])
            == failed_class(st2[pv.drop_last()[k] as int]) && (st1[pv.drop_last()[k] as int] == StageStatus::Succeeded)
            == (st2[pv.drop_last()[k] as int] == StageStatus::Succeeded) by {
            assert(pv.drop_last()[k] == pv[k]);
        }
        lemma_scan_same_classes(pv.drop_last(), st1, st2);
        assert(failed_class(st1[pv[pv.len() - 1] as int]) == failed_class(st2[pv[pv.len() - 1] as int]));
    }
}

/// A refresh leaves settled stages as they are, and makes an unsettled stage ready exactly
/// when every one of its prerequisites has succeeded (in the refreshed table as well).
pub proof fn law_refresh_ready_iff_prerequisites_succeeded(
    defs: Seq<StageDefinition>,
    g: Seq<Seq<usize>>,
    rts: Seq<RuntimeView>,
    i: int,
)
    requires
        g.len() == rts.len(),
        well_indexed(g),
        0 <= i < rts.len(),
    ensures
        settled(rts[i].status) ==> refreshed(defs, g, rts)[i] == rts[i],
        !settled(rts[i].status) ==> ((refreshed(defs, g, rts)[i].status == StageStatus::Ready) <==> (forall|k: int|
            0 <= k < g[i].len() ==> rts[#[trigger] g[i][k] as int].status == StageStatus::Succeeded)),
        refreshed(defs, g, rts)[i].status == StageStatus::Ready ==> forall|k: int| 0 <= k < g[i].len() ==>
            refreshed(defs, g, rts)[#[trigger] g[i][k] as int].status == StageStatus::Succeeded,
{
    let r = refreshed(defs, g, rts);
    lemma_scan_none_iff_succeeded(g[i], statuses(rts));
    assert forall|k: int| 0 <= k < g[i].len() implies rts[#[trigger] g[i][k] as int].status == statuses(rts)[g[i][k] as int] by {
        assert(g[i][k] < g.len());
    }
    if r[i].status == StageStatus::Ready {
        assert forall|k: int| 0 <= k < g[i].len() implies r[#[trigger] g[i][k] as int].status == StageStatus::Succeeded by {
            assert(g[i][k] < g.len());
            if settled(rts[i].status) {
                assert(rts[i].status == StageStatus::Ready);
            }
        }
    }
}

/// Refreshing twice gives the same table as refreshing once.
pub proof fn law_refresh_idempotent(defs: Seq<StageDefinition>, g: Seq<Seq<usize>>, rts: Seq<RuntimeView>)
    requires
        g.len() == rts.len(),
        well_indexed(g),
    ensures
        refreshed(defs, g, refreshed(defs, g, rts)) == refreshed(defs, g, rts),
{
    let r1 = refreshed(defs, g, rts);
    let r2 = refreshed(defs, g, r1);
    assert forall|i: int| 0 <= i < r1.len() implies #[trigger] r2[i] == r1[i] by {
        assert forall|k: int| 0 <= k < g[i].len() implies failed_class(statuses(r1)[#[trigger] g[i][k] as int])
            == failed_class(statuses(rts)[g[i][k] as int]) && (statuses(r1)[g[i][k] as int] == StageStatus::Succeeded)
            == (statuses(rts)[g[i][k] as int] == StageStatus::Succeeded) by {
            assert(g[i][k] < g.len());
        }
        lemma_scan_same_classes(g[i], statuses(r1), statuses(rts));
    }
    assert(r2 =~= r1);
}

/// Starting a ready stage of a table that a refresh leaves as it is gives again such a
/// table: the running stage is settled, and to its dependents a running prerequisite
/// counts as a ready one did (neither succeeded nor failed).
pub proof fn law_start_keeps_refresh_stable(
    defs: Seq<StageDefinition>,
    g: Seq<Seq<usize>>,
    rts: Seq<RuntimeView>,
    i: int,
    owner: Seq<char>,
    at: Seq<char>,
)
    requires
        g.len() == rts.len(),
        well_indexed(g),
        0 <= i < rts.len(),
        rts[i].status == StageStatus::Ready,
        refreshed(defs, g, rts) == rts,
    ensures
        refreshed(defs, g, rts.update(i, started_view(rts[i], owner, at))) == rts.update(i, started_view(rts[i], owner, at)),
{
    let r2 = rts.update(i, started_view(rts[i], owner, at));
    assert forall|j: int| 0 <= j < r2.len() implies #[trigger] refreshed(defs, g, r2)[j] == r2[j] by {
        if j != i && !settled(rts[j].status) {
            assert forall|k: int| 0 <= k < g[j].len() implies failed_class(statuses(r2)[#[trigger] g[j][k] as int])
                == failed_class(statuses(rts)[g[j][k] as int]) && (statuses(r2)[g[j][k] as int] == StageStatus::Succeeded)
                == (statuses(rts)[g[j][k] as int] == StageStatus::Succeeded) by {
                assert(g[j][k] < g.len());
            }
            lemma_scan_same_classes(g[j], statuses(r2), statuses(rts));
            assert(refreshed(defs, g, rts)[j] == rts[j]);
        }
    }
    assert(refreshed(defs, g, r2) =~= r2);
}

/// A checkpoint taken of an operation fits that operation, and writing its stages back
/// gives the table it was taken from: restoring it right away changes nothing but what a
/// refresh changes.
pub proof fn law_checkpoint_round_trip(op: StagedOperation, cp: CheckpointSnapshot)
    requires
        op.wf(),
        cp.operation_id@ == op.spec_operation_id(),
        cp.stages.len() == op.spec_defs().len(),
        forall|i: int| 0 <= i < cp.stages.len() ==> snapshot_of(
            op.spec_operation_id(), op.spec_defs()[i], op.spec_runtime()[i], #[trigger] cp.stages@[i]),
    ensures
        checkpoint_fits(op.spec_defs(), op.spec_operation_id(), cp),
        apply_snaps(op.spec_runtime(), op.spec_ids(), cp.stages@) == op.spec_runtime(),
{
    let defs = op.spec_defs();
    let ids = op.spec_ids();
    let rts = op.spec_runtime();
    let snaps = cp.stages@;
    lemma_op_sizes(op);
    assert forall|j: int| 0 <= j < snaps.len() implies (#[trigger] snaps[j]).stage_id@ == ids[j] && snap_view(snaps[j]) == rts[j] by {
        assert(snapshot_of(op.spec_operation_id(), defs[j], rts[j], cp.stages@[j]));
    }
    assert forall|j: int| 0 <= j < snaps.len() implies #[trigger] snap_fits(defs, snaps[j]) by {
        assert(ids[j] == snaps[j].stage_id@);
        lemma_index_of_unique(ids, j);
    }
    assert forall|n: int| 0 <= n <= snaps.len() implies #[trigger] apply_snaps(rts, ids, snaps.subrange(0, n)) == rts by {
        lemma_apply_own_snaps(rts, ids, snaps, n);
    }
    assert(snaps.subrange(0, snaps.len() as int) == snaps);
}

proof fn lemma_op_sizes(op: StagedOperation)
    requires
        op.wf(),
    ensures
        op.spec_runtime().len() == op.spec_defs().len(),
        !has_dup(op.spec_ids()),
{
}

proof fn lemma_apply_own_snaps(rts: Seq<RuntimeView>, ids: Seq<Seq<char>>, snaps: Seq<StageSnapshot>, n: int)
    requires
        !has_dup(ids),
        rts.len() == ids.len(),
        snaps.len() <= ids.len(),
        0 <= n <= snaps.len(),
        forall|j: int| 0 <= j < snaps.len() ==> (#[trigger] snaps[j]).stage_id@ == ids[j] && snap_view(snaps[j]) == rts[j],
    ensures
        apply_snaps(rts, ids, snaps.subrange(0, n)) == rts,
    decreases n,
{
    if n > 0 {
        lemma_apply_own_snaps(rts, ids, snaps, n - 1);
        assert(snaps.subrange(0, n).drop_last() =~= snaps.subrange(0, n - 1));
        assert(snaps.subrange(0, n).last() == snaps[n - 1]);
        lemma_index_of_unique(ids, n - 1);
        assert(rts.update(n - 1, rts[n - 1]) =~= rts);
    }
}

/// What preparing recovery does to one stage: a succeeded reversible stage with a
/// compensation action is left as it is (and queued); any other succeeded stage is
/// marked for review with the reason; a stage in any other state keeps its state.
pub proof fn law_recovery_marks_for_review(d: StageDefinition, rt: RuntimeView, reason: Seq<char>)
    ensures
        rt.status == StageStatus::Succeeded && d.execution_class == StageExecutionClass::Reversible
            && d.compensation_action is Some ==> recovery_view(d, rt, reason) == rt,
        rt.status == StageStatus::Succeeded && !(d.execution_class == StageExecutionClass::Reversible
            && d.compensation_action is Some) ==> recovery_view(d, rt, reason).status == StageStatus::ReviewRequired,
        rt.status != StageStatus::Succeeded ==> recovery_view(d, rt, reason) == rt,
{
}

/// Compensation follows the queue: while every queued stage is still succeeded, the
/// next compensation starts the queue's first stage, and afterwards the rest of the
/// queue is again made of succeeded stages, so the calls that follow take the queued
/// stages in order; with an empty queue nothing starts.
pub proof fn law_compensation_follows_queue(q: Seq<usize>, rts: Seq<RuntimeView>, owner: Seq<char>, at: Seq<char>)
    requires
        q.no_duplicates(),
        forall|k: int| 0 <= k < q.len() ==> (#[trigger] q[k] as int) < rts.len(),
        forall|k: int| 0 <= k < q.len() ==> rts[#[trigger] q[k] as int].status == StageStatus::Succeeded,
    ensures
        q.len() > 0 ==> first_succeeded_at(q, rts, 0),
        q.len() > 0 ==> ({
            let rest = q.subrange(1, q.len() as int);
            let next = rts.update(q[0] as int, compensating_view(rts[q[0] as int], owner, at));
            &&& rest.no_duplicates()
            &&& forall|k: int| 0 <= k < rest.len() ==> (#[trigger] rest[k] as int) < next.len()
            &&& forall|k: int| 0 <= k < rest.len() ==> next[#[trigger] rest[k] as int].status == StageStatus::Succeeded
        }),
{
    if q.len() > 0 {
        let rest = q.subrange(1, q.len() as int);
        let next = rts.update(q[0] as int, compensating_view(rts[q[0] as int], owner, at));
        assert forall|k: int| 0 <= k < rest.len() implies next[#[trigger] rest[k] as int].status == StageStatus::Succeeded by {
            assert(rest[k] == q[k + 1]);
            assert(q[k + 1] != q[0]);
        }
        assert forall|k: int| 0 <= k < rest.len() implies (#[trigger] rest[k] as int) < next.len() by {
            assert(rest[k] == q[k + 1]);
        }
        assert forall|i: int, j: int| 0 <= i < rest.len() && 0 <= j < rest.len() && i != j implies rest[i] != rest[j] by {
            assert(rest[i] == q[i + 1] && rest[j] == q[j + 1]);
        }
    }
}

proof fn lemma_apply_snaps_over(base: Seq<RuntimeView>, rts: Seq<RuntimeView>, ids: Seq<Seq<char>>, snaps: Seq<StageSnapshot>, n: int)
    requires
        !has_dup(ids),
        rts.len() == ids.len(),
        base.len() == ids.len(),
        snaps.len() <= ids.len(),
        0 <= n <= snaps.len(),
        forall|j: int| 0 <= j < snaps.len() ==> (#[trigger] snaps[j]).stage_id@ == ids[j] && snap_view(snaps[j]) == rts[j],
    ensures
        apply_snaps(base, ids, snaps.subrange(0, n)).len() == base.len(),
        forall|i: int| 0 <= i < base.len() ==> #[trigger] apply_snaps(base, ids, snaps.subrange(0, n))[i]
            == if i < n { rts[i] } else { base[i] },
    decreases n,
{
    if n > 0 {
        lemma_apply_snaps_over(base, rts, ids, snaps, n - 1);
        assert(snaps.subrange(0, n).drop_last() =~= snaps.subrange(0, n - 1));
        assert(snaps.subrange(0, n).last() == snaps[n - 1]);
        lemma_index_of_unique(ids, n - 1);
    }
}

/// A checkpoint taken of one operation restores onto any other operation with the
/// same id and definitions (a freshly built one among them): it fits, and writing its
/// stages back gives the first operation's table, whatever the second one held, so
/// completed stages keep their state and attempt counts.
pub proof fn law_checkpoint_restores_elsewhere(op1: StagedOperation, op2: StagedOperation, cp: CheckpointSnapshot)
    requires
        op1.wf(),
        op2.wf(),
        op2.spec_defs() == op1.spec_defs(),
        op2.spec_operation_id() == op1.spec_operation_id(),
        cp.operation_id@ == op1.spec_operation_id(),
        cp.stages.len() == op1.spec_defs().len(),
        forall|i: int| 0 <= i < cp.stages.len() ==> snapshot_of(
            op1.spec_operation_id(), op1.spec_defs()[i], op1.spec_runtime()[i], #[trigger] cp.stages@[i]),
    ensures
        checkpoint_fits(op2.spec_defs(), op2.spec_operation_id(), cp),
        apply_snaps(op2.spec_runtime(), op2.spec_ids(), cp.stages@) == op1.spec_runtime(),
{
    law_checkpoint_round_trip(op1, cp);
    lemma_op_sizes(op1);
    lemma_op_sizes(op2);
    let defs = op1.spec_defs();
    let ids = op1.spec_ids();
    let snaps = cp.stages@;
    assert forall|j: int| 0 <= j < snaps.len() implies (#[trigger] snaps[j]).stage_id@ == ids[j]
        && snap_view(snaps[j]) == op1.spec_runtime()[j] by {
        assert(snapshot_of(op1.spec_operation_id(), defs[j], op1.spec_runtime()[j], cp.stages@[j]));
    }
    lemma_apply_snaps_over(op2.spec_runtime(), op1.spec_runtime(), ids, snaps, snaps.len() as int);
    assert(snaps.subrange(0, snaps.len() as int) == snaps);
    assert(apply_snaps(op2.spec_runtime(), ids, snaps) =~= op1.spec_runtime());
}


/// Resuming from a checkpoint. When the checkpointed operation's table is one that a
/// refresh leaves as it is (as is every table built by `new` and then changed only by
/// starting, completing or failing stages, by owner-loss detection or by restoring), then
/// restoring the checkpoint onto any operation with the same id and definitions, a
/// freshly built one among them, succeeds and leaves exactly the checkpointed table:
/// the same snapshots and the same legal next stages, so completed stages are not offered
/// again and keep their attempt counts.
pub proof fn law_checkpoint_resume(op1: StagedOperation, op2: StagedOperation, cp: CheckpointSnapshot)
    requires
        op1.wf(),
        op1.refresh_stable(),
        op2.wf(),
        op2.spec_defs() == op1.spec_defs(),
        op2.spec_operation_id() == op1.spec_operation_id(),
        cp.operation_id@ == op1.spec_operation_id(),
        cp.stages.len() == op1.spec_defs().len(),
        forall|i: int| 0 <= i < cp.stages.len() ==> snapshot_of(
            op1.spec_operation_id(), op1.spec_defs()[i], op1.spec_runtime()[i], #[trigger] cp.stages@[i]),
    ensures
        checkpoint_fits(op2.spec_defs(), op2.spec_operation_id(), cp),
        refreshed(op2.spec_defs(), op2.spec_graph(), apply_snaps(op2.spec_runtime(), op2.spec_ids(), cp.stages@))
            == op1.spec_runtime(),
{
    law_checkpoint_restores_elsewhere(op1, op2, cp);
}

/// The runtime table after the first `n` queued stages started compensating, the
/// `k`-th of them by `owners[k]` at `ats[k]`.
pub open spec fn compensations_started(
    q: Seq<usize>,
    rts: Seq<RuntimeView>,
    owners: Seq<Seq<char>>,
    ats: Seq<Seq<char>>,
    n: nat,
) -> Seq<RuntimeView>
    decreases n,
{
    if n == 0 {
        rts
    } else {
        let prev = compensations_started(q, rts, owners, ats, (n - 1) as nat);
        let s = q[n - 1] as int;
        prev.update(s, compensating_view(prev[s], owners[n - 1], ats[n - 1]))
    }
}

/// The whole compensation run. Once every queued stage has succeeded (as right after
/// `prepare_recovery`), the calls of `start_next_compensation` that follow take the queue
/// in order: before call `n` the queue is its rest from position `n` on and the table is
/// the one in which the first `n` queued stages are compensating; the first stage of that
/// rest is still succeeded, so call `n` starts `q[n]` and leaves the state described for
/// `n + 1`. Stages outside the queue are never touched, and once the queue is used up it is
/// empty, so the next call starts nothing.
pub proof fn law_compensation_sequence(
    q: Seq<usize>,
    rts: Seq<RuntimeView>,
    owners: Seq<Seq<char>>,
    ats: Seq<Seq<char>>,
    n: nat,
)
    requires
        q.no_duplicates(),
        forall|k: int| 0 <= k < q.len() ==> (#[trigger] q[k] as int) < rts.len(),
        forall|k: int| 0 <= k < q.len() ==> rts[#[trigger] q[k] as int].status == StageStatus::Succeeded,
        n <= q.len(),
    ensures
        compensations_started(q, rts, owners, ats, n).len() == rts.len(),
        n < q.len() ==> first_succeeded_at(q.subrange(n as int, q.len() as int), compensations_started(q, rts, owners, ats, n), 0)
            && q.subrange(n as int, q.len() as int)[0] == q[n as int]
            && q.subrange(n as int, q.len() as int).subrange(1, q.len() - n) == q.subrange(n + 1int, q.len() as int),
        n == q.len() ==> q.subrange(n as int, q.len() as int) == Seq::<usize>::empty(),
        forall|k: int| 0 <= k < n ==> compensations_started(q, rts, owners, ats, n)[#[trigger] q[k] as int].status
            == StageStatus::Compensating,
        forall|i: int| 0 <= i < rts.len() && !q.subrange(0, n as int).contains(i as usize)
            ==> #[trigger] compensations_started(q, rts, owners, ats, n)[i] == rts[i],
    decreases n,
{
    let cs = compensations_started(q, rts, owners, ats, n);
    if n > 0 {
        law_compensation_sequence(q, rts, owners, ats, (n - 1) as nat);
        let prev = compensations_started(q, rts, owners, ats, (n - 1) as nat);
        let s = q[n - 1];
        assert(cs == prev.update(s as int, compensating_view(prev[s as int], owners[n - 1], ats[n - 1])));
        assert forall|k: int| 0 <= k < n implies cs[#[trigger] q[k] as int].status == StageStatus::Compensating by {
            if k < n - 1 {
                assert(q[k] != s);
            }
        }
        assert forall|i: int| 0 <= i < rts.len() && !q.subrange(0, n as int).contains(i as usize)
            implies #[trigger] cs[i] == rts[i] by {
            assert(q.subrange(0, n as int)[n - 1] == s);
            assert(i != s as int);
            if q.subrange(0, n - 1).contains(i as usize) {
                let x = choose|x: int| 0 <= x < n - 1 && #[trigger] q.subrange(0, n - 1)[x] == i as usize;
                assert(q.subrange(0, n as int)[x] == i as usize);
            }
        }
    }
    if n < q.len() {
        let rest = q.subrange(n as int, q.len() as int);
        assert(rest[0] == q[n as int]);
        assert(!q.subrange(0, n as int).contains(q[n as int])) by {
            if q.subrange(0, n as int).contains(q[n as int]) {
                let x = choose|x: int| 0 <= x < n && #[trigger] q.subrange(0, n as int)[x] == q[n as int];
                assert(q[x] == q[n as int]);
            }
        }
        assert(cs[q[n as int] as int] == rts[q[n as int] as int]);
        assert(rest.subrange(1, q.len() - n) =~= q.subrange(n + 1int, q.len() as int));
    }
    if n == q.len() {
        assert(q.subrange(n as int, q.len() as int) =~= Seq::<usize>::empty());
    }
}

/// The stages of a table that have succeeded.
pub open spec fn succeeded_in(rts: Seq<RuntimeView>) -> spec_fn(usize) -> bool {
    |x: usize| rts[x as int].status == StageStatus::Succeeded
}

proof fn lemma_succeeded_rev_last(o: Seq<usize>, rts: Seq<RuntimeView>)
    requires
        o.len() > 0,
    ensures
        succeeded_rev(o, rts) == if rts[o.last() as int].status == StageStatus::Succeeded {
            seq![o.last()] + succeeded_rev(o.drop_last(), rts)
        } else {
            succeeded_rev(o.drop_last(), rts)
        },
    decreases o.len(),
{
    if o.len() == 1 {
        assert(o.drop_first().len() == 0);
        assert(o.drop_last().len() == 0);
        assert(o.last() == o[0]);
        assert(succeeded_rev(o.drop_first(), rts) == Seq::<usize>::empty());
        assert(succeeded_rev(o.drop_last(), rts) == Seq::<usize>::empty());
        if rts[o[0] as int].status == StageStatus::Succeeded {
            assert(succeeded_rev(o, rts) =~= seq![o.last()] + succeeded_rev(o.drop_last(), rts));
        }
    } else {
        let t = o.drop_first();
        lemma_succeeded_rev_last(t, rts);
        assert(t.last() == o.last());
        assert(t.drop_last() =~= o.drop_last().drop_first());
        assert(o.drop_last()[0] == o[0]);
        let inner = succeeded_rev(o.drop_last().drop_first(), rts);
        if rts[o.last() as int].status == StageStatus::Succeeded {
            if rts[o[0] as int].status == StageStatus::Succeeded {
                assert((seq![o.last()] + inner).push(o[0]) =~= seq![o.last()] + inner.push(o[0]));
            }
        }
    }
}

/// The recovery order of a plan read directly: the succeeded stages of the order, in
/// reverse.
pub proof fn law_recovery_order_is_reversed_succeeded(o: Seq<usize>, rts: Seq<RuntimeView>)
    ensures
        succeeded_rev(o, rts) == o.filter(succeeded_in(rts)).reverse(),
    decreases o.len(),
{
    reveal(Seq::filter);
    if o.len() == 0 {
        assert(o.filter(succeeded_in(rts)) =~= Seq::<usize>::empty());
    } else {
        lemma_succeeded_rev_last(o, rts);
        law_recovery_order_is_reversed_succeeded(o.drop_last(), rts);
        let f = o.drop_last().filter(succeeded_in(rts));
        if rts[o.last() as int].status == StageStatus::Succeeded {
            assert(succeeded_in(rts)(o.last()));
            assert(o.filter(succeeded_in(rts)) == f.push(o.last()));
            assert(f.push(o.last()).reverse() =~= seq![o.last()] + f.reverse());
        } else {
            assert(!succeeded_in(rts)(o.last()));
            assert(o.filter(succeeded_in(rts)) == f);
        }
    }
}

} // verus!
