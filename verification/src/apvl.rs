//! The adaptive persistence and verification layer: keeps a task's requirements, task
//! graph and durable state, finds missing steps, and decides whether to continue, refine,
//! verify, escalate or stop. A result is final only when every required output is
//! present, no critical step is missing and the verification loop verified it.

use vstd::prelude::*;
use crate::text::{
    chars_of, clone_strings, concat3, contains_chars, contains_seq, contains_text, decimal, lower_chars,
    lower_seq, owned, same_text, u64_to_decimal, views,
};
use crate::tvl::{run_status_name, sanitize_run_id, sanitized_run_id, TvlPublicSnapshot, TvlRunStatus};

verus! {

#[derive(Debug, Clone, PartialEq, Eq)]
pub struct ApvlTaskSpec {
    pub objective: String,
    pub required_outputs: Vec<String>,
    pub constraints: Vec<String>,
    pub acceptance_criteria: Vec<String>,
    pub required_evidence: Vec<String>,
    pub required_tools: Vec<String>,
    pub dependencies: Vec<String>,
    pub open_questions: Vec<String>,
    pub unresolved_requirements: Vec<String>,
}

#[derive(Debug, Clone, Copy, PartialEq, Eq, Structural)]
pub enum TaskNodeStatus {
    Pending,
    Ready,
    InProgress,
    Complete,
    Blocked,
    Unresolved,
    Failed,
    NotApplicable,
}

#[derive(Debug, Clone, PartialEq, Eq)]
pub struct TaskGraphNode {
    pub id: String,
    pub requirement: String,
    pub status: TaskNodeStatus,
    pub blocking: bool,
    pub depends_on: Vec<String>,
    pub evidence_refs: Vec<String>,
}

#[derive(Debug, Clone, PartialEq, Eq)]
pub struct MissingStep {
    pub missing_step_id: String,
    pub category: String,
    pub severity: String,
    pub affected_requirement: String,
    pub blocking_yes_no: bool,
    pub recommended_next_action: String,
}

#[derive(Debug, Clone, Default, PartialEq, Eq)]
pub struct DurableTaskState {
    pub objective: String,
    pub constraints: Vec<String>,
    pub completed_work: Vec<String>,
    pub remaining_work: Vec<String>,
    pub decisions: Vec<String>,
    pub artifacts: Vec<String>,
    pub evidence_references: Vec<String>,
    pub open_questions: Vec<String>,
    pub blockers: Vec<String>,
    pub unresolved_requirements: Vec<String>,
    pub checkpoints: Vec<String>,
}

#[derive(Debug, Clone, Copy, PartialEq, Eq, Structural)]
pub enum ApvlDecision {
    Continue,
    Refine,
    Verify,
    Escalate,
    Stop,
}

#[derive(Debug, Clone, Copy, PartialEq, Eq, Structural)]
pub enum ProgressState {
    Stable,
    Improving,
    Stalled,
    Blocked,
}

#[derive(Debug, Clone, Copy, PartialEq, Eq, Structural)]
pub enum ClaimStatus {
    VerifiedResult,
    IndependentlyVerifiedResult,
    PartialResult,
    ValidFramework,
    RestrictedExactResult,
    ConjecturalRoute,
    Unresolved,
}

/// Why a run stopped; `code` gives the number that machine-readable stop lines carry.
#[derive(Debug, Clone, Copy, PartialEq, Eq, Structural)]
pub enum StopReason {
    AcceptanceCriteriaMet,
    VerifiedComplete,
    PartialWithLimits,
    NoFurtherProgress,
    ComputeBudgetExhausted,
    BlockedByDependency,
    ReviewRequired,
    UnresolvedWithLimits,
}

#[derive(Debug, Clone, Copy, PartialEq, Eq, Structural)]
pub enum BenchmarkMode {
    ExistingPath,
    WithApvl,
}

#[derive(Debug, Clone, PartialEq, Eq, Structural)]
pub struct BenchmarkMetrics {
    pub completion_coverage: usize,
    pub missed_requirements: usize,
    pub premature_stops: usize,
    pub missing_steps_caught: usize,
    pub refinements: usize,
    pub tvl_invocations: usize,
    pub iterations: usize,
    pub model_calls: usize,
    pub tool_calls: usize,
    pub stop_reason: Option<StopReason>,
    pub final_claim_status: ClaimStatus,
}

#[derive(Debug, Clone, PartialEq, Eq)]
pub struct BenchmarkComparison {
    pub workload_id: String,
    pub config_hash: String,
    pub existing_path: BenchmarkMetrics,
    pub apvl_path: BenchmarkMetrics,
}

#[derive(Debug, Clone, PartialEq, Eq)]
pub struct ApvlStopDecision {
    pub machine_readable: String,
    pub apvl_decision: ApvlDecision,
    pub stop_reason: StopReason,
}

#[derive(Debug, Clone, PartialEq, Eq)]
pub struct ApvlPublicSnapshot {
    pub run_id: String,
    pub task_difficulty: Option<String>,
    pub requirements_total: usize,
    pub requirements_complete: usize,
    pub unresolved_count: usize,
    pub critical_missing_steps: usize,
    pub progress_state: ProgressState,
    pub stagnation_detected: bool,
    pub refinement_count: usize,
    pub current_apvl_decision: ApvlDecision,
    pub tvl_invoked: bool,
    pub tvl_result: Option<TvlRunStatus>,
    pub claim_status: ClaimStatus,
    pub stop_reason: Option<StopReason>,
    pub elapsed_time: u64,
    pub compute_consumed: usize,
}

#[derive(Debug, Clone, PartialEq, Eq)]
pub struct ApvlController {
    pub run_id: String,
    pub task_spec: ApvlTaskSpec,
    pub task_graph: Vec<TaskGraphNode>,
    pub durable_state: DurableTaskState,
    pub decision: ApvlDecision,
    pub stop_reason: Option<StopReason>,
    pub progress_state: ProgressState,
    pub stagnation_detected: bool,
    pub refinement_count: usize,
    pub tvl_invoked: bool,
    pub tvl_result: Option<TvlRunStatus>,
    pub claim_status: ClaimStatus,
    pub max_iterations: usize,
    pub max_refinement_passes: usize,
    pub max_model_calls: usize,
    pub max_tool_calls: usize,
    pub max_wall_clock_seconds: u64,
    pub verification_budget: usize,
    pub tvl_invocation_budget: usize,
    pub retry_budget: usize,
    pub iteration_count: usize,
    pub model_calls: usize,
    pub tool_calls: usize,
    pub compute_consumed: usize,
    pub elapsed_time: u64,
    pub missing_steps: Vec<MissingStep>,
    pub task_difficulty: Option<String>,
}

// ---------------------------------------------------------------------------
// Views and the model of requirements.
// ---------------------------------------------------------------------------

/// A missing step with its strings as characters.
pub struct StepView {
    pub id: Seq<char>,
    pub category: Seq<char>,
    pub severity: Seq<char>,
    pub affected: Seq<char>,
    pub blocking: bool,
    pub action: Seq<char>,
}

impl View for MissingStep {
    type V = StepView;

    open spec fn view(&self) -> StepView {
        StepView {
            id: self.missing_step_id@,
            category: self.category@,
            severity: self.severity@,
            affected: self.affected_requirement@,
            blocking: self.blocking_yes_no,
            action: self.recommended_next_action@,
        }
    }
}

/// The views of a list of missing steps.
pub open spec fn step_views(s: Seq<MissingStep>) -> Seq<StepView> {
    Seq::new(s.len(), |i: int| s[i]@)
}

/// Node statuses that leave work to do.
pub open spec fn open_status(s: TaskNodeStatus) -> bool {
    match s {
        TaskNodeStatus::Pending | TaskNodeStatus::Ready | TaskNodeStatus::InProgress | TaskNodeStatus::Blocked
        | TaskNodeStatus::Unresolved | TaskNodeStatus::Failed => true,
        _ => false,
    }
}

/// Number of graph nodes with work left.
pub open spec fn count_open(g: Seq<TaskGraphNode>) -> nat
    decreases g.len(),
{
    if g.len() == 0 {
        0
    } else {
        count_open(g.drop_last()) + if open_status(g.last().status) { 1nat } else { 0nat }
    }
}

/// Number of required outputs that are not among the completed work.
pub open spec fn count_missing(outs: Seq<Seq<char>>, done: Seq<Seq<char>>) -> nat
    decreases outs.len(),
{
    if outs.len() == 0 {
        0
    } else {
        count_missing(outs.drop_last(), done) + if done.contains(outs.last()) { 0nat } else { 1nat }
    }
}

/// The required outputs that are not among the completed work, in order.
pub open spec fn not_done(outs: Seq<Seq<char>>, done: Seq<Seq<char>>) -> Seq<Seq<char>>
    decreases outs.len(),
{
    if outs.len() == 0 {
        Seq::empty()
    } else {
        let p = not_done(outs.drop_last(), done);
        if done.contains(outs.last()) { p } else { p.push(outs.last()) }
    }
}

/// Every required output is done and no graph node has work left.
pub open spec fn coverage_of(outs: Seq<Seq<char>>, done: Seq<Seq<char>>, g: Seq<TaskGraphNode>) -> bool {
    &&& forall|i: int| 0 <= i < outs.len() ==> done.contains(#[trigger] outs[i])
    &&& forall|j: int| 0 <= j < g.len() ==> !open_status(#[trigger] g[j].status)
}

/// The missing step reported for a graph node with work left.
pub open spec fn node_step(n: TaskGraphNode) -> StepView {
    StepView {
        id: n.id@,
        category: "task_graph"@,
        severity: if n.blocking { "critical"@ } else { "moderate"@ },
        affected: n.requirement@,
        blocking: n.blocking,
        action: "target the unresolved task-graph node and repair only that dependency path"@,
    }
}

/// The missing steps of the graph nodes with work left, in graph order.
pub open spec fn node_steps(g: Seq<TaskGraphNode>) -> Seq<StepView>
    decreases g.len(),
{
    if g.len() == 0 {
        Seq::empty()
    } else {
        let p = node_steps(g.drop_last());
        if open_status(g.last().status) { p.push(node_step(g.last())) } else { p }
    }
}

/// The missing step reported for an unresolved requirement, numbered `n`.
pub open spec fn requirement_step(req: Seq<char>, n: nat) -> StepView {
    StepView {
        id: "req-"@ + decimal(n),
        category: "unresolved_requirement"@,
        severity: "critical"@,
        affected: req,
        blocking: true,
        action: "resolve the pinned requirement before claiming completion"@,
    }
}

/// The missing step reported for a required output not yet done, numbered `n`.
pub open spec fn output_step(out: Seq<char>, n: nat) -> StepView {
    StepView {
        id: "out-"@ + decimal(n),
        category: "missing_output"@,
        severity: "critical"@,
        affected: out,
        blocking: true,
        action: "produce or verify the missing output before finalization"@,
    }
}

/// Every missing step: open graph nodes, then unresolved requirements, then required
/// outputs not done; the last two are numbered by their position in the whole list.
pub open spec fn missing_steps_of(g: Seq<TaskGraphNode>, reqs: Seq<Seq<char>>, outs: Seq<Seq<char>>, done: Seq<Seq<char>>) -> Seq<StepView> {
    let a = node_steps(g);
    let b = a + Seq::new(reqs.len(), |i: int| requirement_step(reqs[i], (a.len() + i + 1) as nat));
    let m = not_done(outs, done);
    b + Seq::new(m.len(), |i: int| output_step(m[i], (b.len() + i + 1) as nat))
}

impl ApvlController {
    /// The required outputs.
    pub open spec fn outputs(&self) -> Seq<Seq<char>> {
        views(self.task_spec.required_outputs@)
    }

    /// The completed work.
    pub open spec fn done(&self) -> Seq<Seq<char>> {
        views(self.durable_state.completed_work@)
    }

    /// The pinned unresolved requirements.
    pub open spec fn unresolved_reqs(&self) -> Seq<Seq<char>> {
        views(self.task_spec.unresolved_requirements@)
    }

    /// Every required output is done and no graph node has work left.
    pub open spec fn spec_coverage(&self) -> bool {
        coverage_of(self.outputs(), self.done(), self.task_graph@)
    }

    /// The missing steps that the current state implies.
    pub open spec fn implied_steps(&self) -> Seq<StepView> {
        missing_steps_of(self.task_graph@, self.unresolved_reqs(), self.outputs(), self.done())
    }

    /// Unresolved requirements, open graph nodes and missing outputs, counted.
    pub open spec fn spec_unresolved(&self) -> nat {
        self.unresolved_reqs().len() + count_open(self.task_graph@) + count_missing(self.outputs(), self.done())
    }

    /// The counts that the controller adds up fit in a `usize`.
    pub open spec fn sizes_fit(&self) -> bool {
        self.task_spec.unresolved_requirements.len() + self.task_graph.len() + self.task_spec.required_outputs.len()
            <= usize::MAX
    }

    /// The combined call budget fits in a `usize`.
    pub open spec fn budget_fits(&self) -> bool {
        self.max_model_calls + self.max_tool_calls <= usize::MAX
    }
}


// ---------------------------------------------------------------------------
// Requirement bookkeeping.
// ---------------------------------------------------------------------------

proof fn lemma_count_open_bound(g: Seq<TaskGraphNode>)
    ensures
        count_open(g) <= g.len(),
    decreases g.len(),
{
    if g.len() > 0 {
        lemma_count_open_bound(g.drop_last());
    }
}

proof fn lemma_count_missing_bound(outs: Seq<Seq<char>>, done: Seq<Seq<char>>)
    ensures
        count_missing(outs, done) <= outs.len(),
        count_missing(outs, done) == not_done(outs, done).len(),
    decreases outs.len(),
{
    if outs.len() > 0 {
        lemma_count_missing_bound(outs.drop_last(), done);
    }
}

proof fn lemma_node_steps_len(g: Seq<TaskGraphNode>)
    ensures
        node_steps(g).len() == count_open(g),
    decreases g.len(),
{
    if g.len() > 0 {
        lemma_node_steps_len(g.drop_last());
    }
}

/// Every required output is among the completed work.
fn outputs_done(outs: &Vec<String>, done: &Vec<String>) -> (r: bool)
    ensures
        r == forall|i: int| 0 <= i < outs.len() ==> views(done@).contains(#[trigger] views(outs@)[i]),
{
    let mut i: usize = 0;
    while i < outs.len()
        invariant
            i <= outs.len(),
            forall|k: int| 0 <= k < i ==> views(done@).contains(#[trigger] views(outs@)[k]),
        decreases outs.len() - i,
    {
        if !contains_text(done, outs[i].as_str()) {
            proof {
                assert(!views(done@).contains(views(outs@)[i as int]));
            }
            return false;
        }
        i += 1;
    }
    true
}

/// No graph node has work left.
fn graph_settled(g: &Vec<TaskGraphNode>) -> (r: bool)
    ensures
        r == forall|j: int| 0 <= j < g.len() ==> !open_status(#[trigger] g@[j].status),
{
    let mut j: usize = 0;
    while j < g.len()
        invariant
            j <= g.len(),
            forall|k: int| 0 <= k < j ==> !open_status(#[trigger] g@[k].status),
        decreases g.len() - j,
    {
        if is_open(g[j].status) {
            return false;
        }
        j += 1;
    }
    true
}

fn is_open(s: TaskNodeStatus) -> (r: bool)
    ensures
        r == open_status(s),
{
    match s {
        TaskNodeStatus::Pending | TaskNodeStatus::Ready | TaskNodeStatus::InProgress | TaskNodeStatus::Blocked
        | TaskNodeStatus::Unresolved | TaskNodeStatus::Failed => true,
        _ => false,
    }
}

fn count_open_nodes(g: &Vec<TaskGraphNode>) -> (r: usize)
    ensures
        r == count_open(g@),
{
    let mut c: usize = 0;
    let mut j: usize = 0;
    while j < g.len()
        invariant
            j <= g.len(),
            c == count_open(g@.subrange(0, j as int)),
            c <= j,
        decreases g.len() - j,
    {
        proof {
            assert(g@.subrange(0, j + 1).drop_last() =~= g@.subrange(0, j as int));
        }
        if is_open(g[j].status) {
            c += 1;
        }
        j += 1;
    }
    proof {
        assert(g@.subrange(0, j as int) =~= g@);
    }
    c
}

fn count_missing_outputs(outs: &Vec<String>, done: &Vec<String>) -> (r: usize)
    ensures
        r == count_missing(views(outs@), views(done@)),
{
    let mut c: usize = 0;
    let mut i: usize = 0;
    while i < outs.len()
        invariant
            i <= outs.len(),
            c == count_missing(views(outs@).subrange(0, i as int), views(done@)),
            c <= i,
        decreases outs.len() - i,
    {
        proof {
            assert(views(outs@).subrange(0, i + 1).drop_last() =~= views(outs@).subrange(0, i as int));
        }
        if !contains_text(done, outs[i].as_str()) {
            c += 1;
        }
        i += 1;
    }
    proof {
        assert(views(outs@).subrange(0, i as int) =~= views(outs@));
    }
    c
}

/// A missing step built from its parts.
fn make_step(id: String, category: &str, severity: &str, affected: &String, blocking: bool, action: &str) -> (m: MissingStep)
    ensures
        m@ == (StepView { id: id@, category: category@, severity: severity@, affected: affected@, blocking, action: action@ }),
{
    MissingStep {
        missing_step_id: id,
        category: owned(category),
        severity: owned(severity),
        affected_requirement: affected.clone(),
        blocking_yes_no: blocking,
        recommended_next_action: owned(action),
    }
}

impl ApvlController {
    /// Every required output is done and no graph node has work left.
    pub fn coverage_complete(&self) -> (r: bool)
        ensures
            r == self.spec_coverage(),
    {
        outputs_done(&self.task_spec.required_outputs, &self.durable_state.completed_work)
            && graph_settled(&self.task_graph)
    }

    /// Unresolved requirements, open graph nodes and missing outputs, counted.
    pub fn unresolved_count(&self) -> (r: usize)
        requires
            self.sizes_fit(),
        ensures
            r == self.spec_unresolved(),
    {
        proof {
            lemma_count_open_bound(self.task_graph@);
            lemma_count_missing_bound(self.outputs(), self.done());
        }
        let a = self.task_spec.unresolved_requirements.len();
        let b = count_open_nodes(&self.task_graph);
        let c = count_missing_outputs(&self.task_spec.required_outputs, &self.durable_state.completed_work);
        a + b + c
    }

    /// The missing steps that the current state implies: open graph nodes, then pinned
    /// unresolved requirements, then required outputs not yet done.
    pub fn collect_missing_steps(&self) -> (r: Vec<MissingStep>)
        requires
            self.sizes_fit(),
        ensures
            step_views(r@) == self.implied_steps(),
    {
        let ghost g = self.task_graph@;
        let ghost reqs = self.unresolved_reqs();
        let ghost outs = self.outputs();
        let ghost done = self.done();
        proof {
            lemma_count_open_bound(g);
            lemma_node_steps_len(g);
            lemma_count_missing_bound(outs, done);
        }
        let mut steps: Vec<MissingStep> = Vec::new();
        let mut j: usize = 0;
        while j < self.task_graph.len()
            invariant
                g == self.task_graph@,
                j <= g.len(),
                step_views(steps@) == node_steps(g.subrange(0, j as int)),
            decreases g.len() - j,
        {
            proof {
                assert(g.subrange(0, j + 1).drop_last() =~= g.subrange(0, j as int));
            }
            let node = &self.task_graph[j];
            if is_open(node.status) {
                let severity = if node.blocking { "critical" } else { "moderate" };
                let st = make_step(
                    node.id.clone(),
                    "task_graph",
                    severity,
                    &node.requirement,
                    node.blocking,
                    "target the unresolved task-graph node and repair only that dependency path",
                );
                let ghost before = step_views(steps@);
                steps.push(st);
                proof {
                    assert(step_views(steps@) =~= before.push(node_step(g[j as int])));
                }
            }
            j += 1;
        }
        proof {
            assert(g.subrange(0, j as int) =~= g);
        }
        let ghost a = node_steps(g);
        let mut k: usize = 0;
        while k < self.task_spec.unresolved_requirements.len()
            invariant
                g == self.task_graph@,
                reqs == self.unresolved_reqs(),
                a == node_steps(g),
                a.len() <= g.len(),
                self.sizes_fit(),
                k <= reqs.len(),
                step_views(steps@) == a + Seq::new(k as nat, |i: int| requirement_step(reqs[i], (a.len() + i + 1) as nat)),
            decreases reqs.len() - k,
        {
            proof {
                assert(steps@.len() == step_views(steps@).len());
                assert(steps.len() == a.len() + k);
            }
            let n = steps.len() + 1;
            let id = concat3("req-", u64_to_decimal(n as u64).as_str(), "");
            proof {
                reveal_strlit("");
            }
            let st = make_step(
                id,
                "unresolved_requirement",
                "critical",
                &self.task_spec.unresolved_requirements[k],
                true,
                "resolve the pinned requirement before claiming completion",
            );
            let ghost before = step_views(steps@);
            steps.push(st);
            proof {
                assert(step_views(steps@) =~= before.push(requirement_step(reqs[k as int], (a.len() + k + 1) as nat)));
            }
            k += 1;
            proof {
                assert(step_views(steps@) =~= a + Seq::new(k as nat, |i: int| requirement_step(reqs[i], (a.len() + i + 1) as nat)));
            }
        }
        let ghost b = a + Seq::new(reqs.len(), |i: int| requirement_step(reqs[i], (a.len() + i + 1) as nat));
        proof {
            assert(step_views(steps@) =~= b);
        }
        let mut i: usize = 0;
        while i < self.task_spec.required_outputs.len()
            invariant
                outs == self.outputs(),
                done == self.done(),
                b.len() + outs.len() <= usize::MAX,
                i <= outs.len(),
                step_views(steps@) == b + Seq::new(not_done(outs.subrange(0, i as int), done).len(),
                    |x: int| output_step(not_done(outs.subrange(0, i as int), done)[x], (b.len() + x + 1) as nat)),
            decreases outs.len() - i,
        {
            let ghost m0 = not_done(outs.subrange(0, i as int), done);
            proof {
                assert(outs.subrange(0, i + 1).drop_last() =~= outs.subrange(0, i as int));
                lemma_count_missing_bound(outs.subrange(0, i as int), done);
            }
            proof {
                assert(steps@.len() == step_views(steps@).len());
                assert(steps.len() == b.len() + m0.len());
            }
            if !contains_text(&self.durable_state.completed_work, self.task_spec.required_outputs[i].as_str()) {
                let n = steps.len() + 1;
                let id = concat3("out-", u64_to_decimal(n as u64).as_str(), "");
                proof {
                    reveal_strlit("");
                }
                let st = make_step(
                    id,
                    "missing_output",
                    "critical",
                    &self.task_spec.required_outputs[i],
                    true,
                    "produce or verify the missing output before finalization",
                );
                let ghost before = step_views(steps@);
                let ghost stv = st@;
                steps.push(st);
                proof {
                    let m1 = not_done(outs.subrange(0, i + 1), done);
                    assert(m1 == m0.push(outs[i as int]));
                    assert(stv == output_step(outs[i as int], (b.len() + m0.len() + 1) as nat));
                    assert(step_views(steps@) =~= before.push(stv));
                    assert(step_views(steps@) =~= b + Seq::new(m1.len(), |x: int| output_step(m1[x], (b.len() + x + 1) as nat)));
                }
            } else {
                proof {
                    let m1 = not_done(outs.subrange(0, i + 1), done);
                    assert(m1 == m0);
                }
            }
            i += 1;
        }
        proof {
            assert(outs.subrange(0, i as int) =~= outs);
        }
        steps
    }
}


// ---------------------------------------------------------------------------
// Decisions.
// ---------------------------------------------------------------------------

/// Some graph node blocks, or is blocked, unresolved or failed.
pub open spec fn blocked_graph(g: Seq<TaskGraphNode>) -> bool {
    exists|j: int| 0 <= j < g.len() && ((#[trigger] g[j]).blocking || g[j].status == TaskNodeStatus::Blocked
        || g[j].status == TaskNodeStatus::Unresolved || g[j].status == TaskNodeStatus::Failed)
}

/// Some recorded missing step blocks and is not just a missing output.
pub open spec fn blocking_step_present(steps: Seq<MissingStep>) -> bool {
    exists|k: int| 0 <= k < steps.len() && (#[trigger] steps[k]).blocking_yes_no && steps[k].category@ != "missing_output"@
}

/// The machine-readable number of a stop reason.
pub open spec fn stop_code(r: StopReason) -> nat {
    match r {
        StopReason::AcceptanceCriteriaMet => 1,
        StopReason::VerifiedComplete => 2,
        StopReason::PartialWithLimits => 3,
        StopReason::NoFurtherProgress => 4,
        StopReason::ComputeBudgetExhausted => 5,
        StopReason::BlockedByDependency => 6,
        StopReason::ReviewRequired => 7,
        StopReason::UnresolvedWithLimits => 8,
    }
}

impl StopReason {
    /// The machine-readable number of the reason.
    pub fn code(&self) -> (r: u8)
        ensures
            r == stop_code(*self),
    {
        match self {
            StopReason::AcceptanceCriteriaMet => 1,
            StopReason::VerifiedComplete => 2,
            StopReason::PartialWithLimits => 3,
            StopReason::NoFurtherProgress => 4,
            StopReason::ComputeBudgetExhausted => 5,
            StopReason::BlockedByDependency => 6,
            StopReason::ReviewRequired => 7,
            StopReason::UnresolvedWithLimits => 8,
        }
    }
}

impl ApvlController {
    /// Something blocks completion: a blocking missing step other than a missing output,
    /// a blocked graph, or a pinned unresolved requirement.
    pub open spec fn blocking_missing(&self) -> bool {
        blocking_step_present(self.missing_steps@) || blocked_graph(self.task_graph@) || self.unresolved_reqs().len() > 0
    }

    /// The iteration limit or the call budget is used up.
    pub open spec fn budget_exhausted(&self) -> bool {
        self.iteration_count >= self.max_iterations || self.compute_consumed >= self.max_model_calls + self.max_tool_calls
    }

    /// Some required output is not done.
    pub open spec fn output_missing(&self) -> bool {
        exists|i: int| 0 <= i < self.outputs().len() && !self.done().contains(#[trigger] self.outputs()[i])
    }

    /// The verification loop verified the result.
    pub open spec fn tvl_verified(&self) -> bool {
        self.tvl_result == Some(TvlRunStatus::Verified)
    }

    /// The next step: stop when the budget is used up or the result is complete and
    /// verified; refine (or escalate once stalled or out of refinement passes) while
    /// something blocks; refine after a verification that did not pass; verify once
    /// coverage is complete; stop when there is nothing to do; otherwise continue.
    pub open spec fn spec_decision(&self) -> ApvlDecision {
        if self.budget_exhausted() {
            ApvlDecision::Stop
        } else if self.spec_coverage() && self.tvl_verified() {
            ApvlDecision::Stop
        } else if self.blocking_missing() {
            if self.stagnation_detected || self.refinement_count >= self.max_refinement_passes {
                ApvlDecision::Escalate
            } else {
                ApvlDecision::Refine
            }
        } else if self.stagnation_detected {
            if self.refinement_count < self.max_refinement_passes {
                ApvlDecision::Refine
            } else {
                ApvlDecision::Escalate
            }
        } else if self.tvl_result == Some(TvlRunStatus::Blocked) || self.tvl_result == Some(TvlRunStatus::Failed)
            || self.tvl_result == Some(TvlRunStatus::Incomplete) {
            ApvlDecision::Refine
        } else if self.spec_coverage() {
            ApvlDecision::Verify
        } else if self.output_missing() && self.unresolved_reqs().len() > 0 {
            ApvlDecision::Refine
        } else if self.outputs().len() == 0 && self.task_graph@.len() == 0 {
            ApvlDecision::Stop
        } else {
            ApvlDecision::Continue
        }
    }

    /// Why a stopping run stops.
    pub open spec fn spec_stop_reason(&self) -> StopReason {
        if self.spec_coverage() && self.tvl_verified() {
            StopReason::VerifiedComplete
        } else if !self.output_missing() {
            StopReason::AcceptanceCriteriaMet
        } else if self.budget_exhausted() {
            StopReason::ComputeBudgetExhausted
        } else if self.stagnation_detected {
            StopReason::NoFurtherProgress
        } else {
            StopReason::UnresolvedWithLimits
        }
    }
}

fn is_verified(r: Option<TvlRunStatus>) -> (b: bool)
    ensures
        b == (r == Some(TvlRunStatus::Verified)),
{
    match r {
        Some(TvlRunStatus::Verified) => true,
        _ => false,
    }
}

fn is_unsuccessful(r: Option<TvlRunStatus>) -> (b: bool)
    ensures
        b == (r == Some(TvlRunStatus::Blocked) || r == Some(TvlRunStatus::Failed) || r == Some(TvlRunStatus::Incomplete)),
{
    match r {
        Some(TvlRunStatus::Blocked) | Some(TvlRunStatus::Failed) | Some(TvlRunStatus::Incomplete) => true,
        _ => false,
    }
}

fn graph_blocked(g: &Vec<TaskGraphNode>) -> (r: bool)
    ensures
        r == blocked_graph(g@),
{
    let mut j: usize = 0;
    while j < g.len()
        invariant
            j <= g.len(),
            forall|k: int| 0 <= k < j ==> !((#[trigger] g@[k]).blocking || g@[k].status == TaskNodeStatus::Blocked
                || g@[k].status == TaskNodeStatus::Unresolved || g@[k].status == TaskNodeStatus::Failed),
        decreases g.len() - j,
    {
        let n = &g[j];
        if n.blocking || n.status == TaskNodeStatus::Blocked || n.status == TaskNodeStatus::Unresolved
            || n.status == TaskNodeStatus::Failed {
            return true;
        }
        j += 1;
    }
    false
}

fn blocking_step(steps: &Vec<MissingStep>) -> (r: bool)
    ensures
        r == blocking_step_present(steps@),
{
    let mut k: usize = 0;
    while k < steps.len()
        invariant
            k <= steps.len(),
            forall|x: int| 0 <= x < k ==> !((#[trigger] steps@[x]).blocking_yes_no && steps@[x].category@ != "missing_output"@),
        decreases steps.len() - k,
    {
        if steps[k].blocking_yes_no && !same_text(steps[k].category.as_str(), "missing_output") {
            return true;
        }
        k += 1;
    }
    false
}

impl ApvlController {
    /// The next step of the run.
    pub fn evaluate_decision(&self) -> (r: ApvlDecision)
        requires
            self.budget_fits(),
        ensures
            r == self.spec_decision(),
    {
        let required_output_missing = !outputs_done(&self.task_spec.required_outputs, &self.durable_state.completed_work);
        let blocked = graph_blocked(&self.task_graph);
        let unresolved_requirement_present = self.task_spec.unresolved_requirements.len() > 0;
        let blocking_missing = blocking_step(&self.missing_steps) || blocked || unresolved_requirement_present;
        let budget_exhausted = self.iteration_count >= self.max_iterations
            || self.compute_consumed >= self.max_model_calls + self.max_tool_calls;
        if budget_exhausted {
            return ApvlDecision::Stop;
        }
        let covered = self.coverage_complete();
        if covered && is_verified(self.tvl_result) {
            return ApvlDecision::Stop;
        }
        if blocking_missing {
            if self.stagnation_detected || self.refinement_count >= self.max_refinement_passes {
                return ApvlDecision::Escalate;
            }
            return ApvlDecision::Refine;
        }
        if self.stagnation_detected {
            return if self.refinement_count < self.max_refinement_passes {
                ApvlDecision::Refine
            } else {
                ApvlDecision::Escalate
            };
        }
        if is_unsuccessful(self.tvl_result) {
            return ApvlDecision::Refine;
        }
        if covered {
            return ApvlDecision::Verify;
        }
        if required_output_missing && unresolved_requirement_present {
            return ApvlDecision::Refine;
        }
        if self.task_spec.required_outputs.len() == 0 && self.task_graph.len() == 0 {
            return ApvlDecision::Stop;
        }
        ApvlDecision::Continue
    }

    /// The stop decision, when the next step is to stop; `None` otherwise.
    pub fn determine_stop(&self) -> (r: Option<ApvlStopDecision>)
        requires
            self.budget_fits(),
        ensures
            r is Some == (self.spec_decision() == ApvlDecision::Stop),
            r matches Some(d) ==> d.apvl_decision == ApvlDecision::Stop && d.stop_reason == self.spec_stop_reason()
                && d.machine_readable@ == "APVL_STOP:"@ + decimal(stop_code(self.spec_stop_reason())),
    {
        let decision = self.evaluate_decision();
        if decision != ApvlDecision::Stop {
            return None;
        }
        let reason = if self.coverage_complete() && is_verified(self.tvl_result) {
            StopReason::VerifiedComplete
        } else if outputs_done(&self.task_spec.required_outputs, &self.durable_state.completed_work) {
            StopReason::AcceptanceCriteriaMet
        } else if self.iteration_count >= self.max_iterations
            || self.compute_consumed >= self.max_model_calls + self.max_tool_calls {
            StopReason::ComputeBudgetExhausted
        } else if self.stagnation_detected {
            StopReason::NoFurtherProgress
        } else {
            StopReason::UnresolvedWithLimits
        };
        let code = u64_to_decimal(reason.code() as u64);
        let line = concat3("APVL_STOP", ":", code.as_str());
        proof {
            reveal_strlit("APVL_STOP");
            reveal_strlit(":");
            reveal_strlit("APVL_STOP:");
            assert(line@ =~= "APVL_STOP:"@ + decimal(stop_code(self.spec_stop_reason())));
        }
        Some(ApvlStopDecision { machine_readable: line, apvl_decision: decision, stop_reason: reason })
    }
}


// ---------------------------------------------------------------------------
// The finalization gate.
// ---------------------------------------------------------------------------

/// The final output, ignoring ASCII case, does not contain the requirement.
pub open spec fn dropped(out: Seq<char>, req: Seq<char>) -> bool {
    !contains_seq(lower_seq(out), lower_seq(req))
}

/// The first requirement, in order, that the final output drops.
pub open spec fn first_dropped(reqs: Seq<Seq<char>>, out: Seq<char>) -> Option<Seq<char>>
    decreases reqs.len(),
{
    if reqs.len() == 0 {
        None
    } else if dropped(out, reqs[0]) {
        Some(reqs[0])
    } else {
        first_dropped(reqs.drop_first(), out)
    }
}

/// Claim statuses that cannot become a final output.
pub open spec fn unpromotable(c: ClaimStatus) -> bool {
    c == ClaimStatus::PartialResult || c == ClaimStatus::ConjecturalRoute || c == ClaimStatus::Unresolved
}

impl ApvlController {
    /// What the finalization gate answers for `out`: with no required outputs anything
    /// passes; otherwise every required output must appear in it (ASCII case ignored), no
    /// blocking missing step may remain, the verification loop must have verified the
    /// result and the claim must not be partial, conjectural or unresolved.
    pub open spec fn gate_outcome(&self, out: Seq<char>) -> Result<(), Seq<char>> {
        if self.outputs().len() == 0 {
            Ok(())
        } else {
            match first_dropped(self.outputs(), out) {
                Some(r) => Err("final answer dropped required conclusion: "@ + r),
                None => if exists|k: int| 0 <= k < self.missing_steps@.len() && (#[trigger] self.missing_steps@[k]).blocking_yes_no {
                    Err("critical missing steps remain unresolved"@)
                } else if !self.tvl_verified() {
                    Err("TVL verification result is required before finalization"@)
                } else if unpromotable(self.claim_status) {
                    Err("partial or unresolved claim cannot be promoted to final output"@)
                } else {
                    Ok(())
                },
            }
        }
    }

    /// Checks a final output before it is released.
    pub fn finalization_integrity_gate(&self, final_output: &str) -> (r: Result<(), String>)
        ensures
            match r {
                Ok(_) => self.gate_outcome(final_output@) == Ok::<(), Seq<char>>(()),
                Err(m) => self.gate_outcome(final_output@) == Err::<(), Seq<char>>(m@),
            },
    {
        let outs = &self.task_spec.required_outputs;
        if outs.len() == 0 {
            return Ok(());
        }
        let hay = lower_chars(&chars_of(final_output));
        let mut i: usize = 0;
        proof {
            reveal_strlit("");
            assert(self.outputs().subrange(0, outs.len() as int) =~= self.outputs());
        }
        while i < outs.len()
            invariant
                hay@ == lower_seq(final_output@),
                i <= outs.len(),
                outs == &self.task_spec.required_outputs,
                first_dropped(self.outputs(), final_output@) == first_dropped(self.outputs().subrange(i as int, outs.len() as int), final_output@),
            decreases outs.len() - i,
        {
            let needle = lower_chars(&chars_of(outs[i].as_str()));
            let ghost sub = self.outputs().subrange(i as int, outs.len() as int);
            proof {
                assert(sub[0] == outs@[i as int]@);
                assert(sub.drop_first() =~= self.outputs().subrange(i + 1, outs.len() as int));
            }
            if !contains_chars(&hay, &needle) {
                let m = concat3("final answer dropped required conclusion: ", outs[i].as_str(), "");
                proof {
                    reveal_strlit("");
                    assert(dropped(final_output@, sub[0]));
                    assert(first_dropped(sub, final_output@) == Some(sub[0]));
                    assert(m@ =~= "final answer dropped required conclusion: "@ + sub[0]);
                }
                return Err(m);
            }
            i += 1;
        }
        proof {
            assert(self.outputs().subrange(i as int, outs.len() as int) =~= Seq::<Seq<char>>::empty());
            assert(first_dropped(self.outputs(), final_output@) is None);
        }
        let mut k: usize = 0;
        while k < self.missing_steps.len()
            invariant
                k <= self.missing_steps.len(),
                self.outputs().len() != 0,
                first_dropped(self.outputs(), final_output@) is None,
                forall|x: int| 0 <= x < k ==> !(#[trigger] self.missing_steps@[x]).blocking_yes_no,
            decreases self.missing_steps.len() - k,
        {
            if self.missing_steps[k].blocking_yes_no {
                proof {
                    assert(self.missing_steps@[k as int].blocking_yes_no);
                }
                return Err(owned("critical missing steps remain unresolved"));
            }
            k += 1;
        }
        if !is_verified(self.tvl_result) {
            return Err(owned("TVL verification result is required before finalization"));
        }
        if self.claim_status == ClaimStatus::PartialResult || self.claim_status == ClaimStatus::ConjecturalRoute
            || self.claim_status == ClaimStatus::Unresolved {
            return Err(owned("partial or unresolved claim cannot be promoted to final output"));
        }
        Ok(())
    }
}


// ---------------------------------------------------------------------------
// Durable state.
// ---------------------------------------------------------------------------

/// The completed work after the requirements of completed graph nodes are added, each
/// once: a node counts as recorded when its requirement or its id already is.
pub open spec fn merged_completed(done: Seq<Seq<char>>, g: Seq<TaskGraphNode>) -> Seq<Seq<char>>
    decreases g.len(),
{
    if g.len() == 0 {
        done
    } else {
        let p = merged_completed(done, g.drop_last());
        let n = g.last();
        if n.status == TaskNodeStatus::Complete && !(p.contains(n.requirement@) || p.contains(n.id@)) {
            p.push(n.requirement@)
        } else {
            p
        }
    }
}

/// `s` with `x` appended unless it is already there.
pub open spec fn add_once(s: Seq<Seq<char>>, x: Seq<char>) -> Seq<Seq<char>> {
    if s.contains(x) { s } else { s.push(x) }
}

/// The node answers to `req` by its id or its requirement.
pub open spec fn node_matches(n: TaskGraphNode, req: Seq<char>) -> bool {
    n.id@ == req || n.requirement@ == req
}

/// The fields that a durable-state refresh derives, as they follow from the controller's
/// own task spec and graph, with `done0` the completed work before the refresh.
pub open spec fn refreshed_from(c: ApvlController, done0: Seq<Seq<char>>) -> bool {
    &&& c.done() == merged_completed(done0, c.task_graph@)
    &&& views(c.durable_state.remaining_work@) == not_done(c.outputs(), c.done())
    &&& views(c.durable_state.constraints@) == views(c.task_spec.constraints@)
    &&& views(c.durable_state.unresolved_requirements@) == c.unresolved_reqs()
    &&& views(c.durable_state.open_questions@) == views(c.task_spec.open_questions@)
    &&& step_views(c.missing_steps@) == c.implied_steps()
}

/// What a refresh of the durable state does: only the derived parts of the durable
/// state and the missing steps change, rebuilt from the task spec and graph.
pub open spec fn durable_refresh(o: ApvlController, n: ApvlController) -> bool {
    &&& controller_frame(n, o)
    &&& n.task_graph == o.task_graph
    &&& n.progress_state == o.progress_state
    &&& durable_frame(n.durable_state, o.durable_state)
    &&& n.durable_state.blockers == o.durable_state.blockers
    &&& refreshed_from(n, o.done())
}

/// The graph with every node that answers to `req` complete.
pub open spec fn mark_complete(g: Seq<TaskGraphNode>, req: Seq<char>) -> Seq<TaskGraphNode> {
    Seq::new(g.len(), |j: int|
        if node_matches(g[j], req) {
            TaskGraphNode { status: TaskNodeStatus::Complete, ..g[j] }
        } else {
            g[j]
        })
}

/// What recording `req` as done does: it joins the completed work once, the nodes
/// that answer to it are complete, progress is improving, and the durable state is
/// refreshed.
pub open spec fn requirement_recorded(o: ApvlController, n: ApvlController, req: Seq<char>) -> bool {
    &&& controller_frame(n, o)
    &&& n.task_graph@ == mark_complete(o.task_graph@, req)
    &&& n.progress_state == ProgressState::Improving
    &&& durable_frame(n.durable_state, o.durable_state)
    &&& n.durable_state.blockers == o.durable_state.blockers
    &&& refreshed_from(n, add_once(o.done(), req))
}

/// The durable states agree on every field that a refresh does not derive, blockers aside.
pub open spec fn durable_frame(a: DurableTaskState, b: DurableTaskState) -> bool {
    a == DurableTaskState {
        completed_work: a.completed_work,
        remaining_work: a.remaining_work,
        constraints: a.constraints,
        unresolved_requirements: a.unresolved_requirements,
        open_questions: a.open_questions,
        blockers: a.blockers,
        ..b
    }
}

/// The controllers agree on everything but the graph, the durable state, the missing
/// steps and the progress state.
pub open spec fn controller_frame(a: ApvlController, b: ApvlController) -> bool {
    a == ApvlController {
        task_graph: a.task_graph,
        durable_state: a.durable_state,
        missing_steps: a.missing_steps,
        progress_state: a.progress_state,
        ..b
    }
}

/// Runs of views: a copy of one durable state keeps every list.
pub open spec fn same_durable(a: DurableTaskState, b: DurableTaskState) -> bool {
    &&& a.objective@ == b.objective@
    &&& views(a.constraints@) == views(b.constraints@)
    &&& views(a.completed_work@) == views(b.completed_work@)
    &&& views(a.remaining_work@) == views(b.remaining_work@)
    &&& views(a.decisions@) == views(b.decisions@)
    &&& views(a.artifacts@) == views(b.artifacts@)
    &&& views(a.evidence_references@) == views(b.evidence_references@)
    &&& views(a.open_questions@) == views(b.open_questions@)
    &&& views(a.blockers@) == views(b.blockers@)
    &&& views(a.unresolved_requirements@) == views(b.unresolved_requirements@)
    &&& views(a.checkpoints@) == views(b.checkpoints@)
}

fn push_once(v: &mut Vec<String>, x: &str)
    ensures
        views(final(v)@) == add_once(views(old(v)@), x@),
{
    if !contains_text(v, x) {
        let ghost before = views(v@);
        v.push(owned(x));
        proof {
            assert(views(v@) =~= before.push(x@));
        }
    }
}

impl ApvlController {
    /// Rebuilds the derived parts of the durable state: completed work gains the
    /// requirements of completed nodes, remaining work is the required outputs not done,
    /// the pinned lists are copied from the task spec, and the missing steps are collected
    /// again.
    pub fn refresh_durable_state(&mut self)
        requires
            old(self).sizes_fit(),
        ensures
            durable_refresh(*old(self), *final(self)),
    {
        let ghost done0 = self.done();
        let mut completed = clone_strings(&self.durable_state.completed_work);
        let mut j: usize = 0;
        while j < self.task_graph.len()
            invariant
                j <= self.task_graph.len(),
                views(completed@) == merged_completed(done0, self.task_graph@.subrange(0, j as int)),
            decreases self.task_graph.len() - j,
        {
            proof {
                assert(self.task_graph@.subrange(0, j + 1).drop_last() =~= self.task_graph@.subrange(0, j as int));
            }
            let node = &self.task_graph[j];
            if node.status == TaskNodeStatus::Complete {
                if !(contains_text(&completed, node.requirement.as_str()) || contains_text(&completed, node.id.as_str())) {
                    let ghost before = views(completed@);
                    completed.push(node.requirement.clone());
                    proof {
                        assert(views(completed@) =~= before.push(node.requirement@));
                    }
                }
            }
            j += 1;
        }
        proof {
            assert(self.task_graph@.subrange(0, j as int) =~= self.task_graph@);
        }
        self.durable_state.completed_work = completed;
        let mut remaining: Vec<String> = Vec::new();
        let mut i: usize = 0;
        while i < self.task_spec.required_outputs.len()
            invariant
                i <= self.task_spec.required_outputs.len(),
                views(remaining@) == not_done(self.outputs().subrange(0, i as int), self.done()),
            decreases self.task_spec.required_outputs.len() - i,
        {
            proof {
                assert(self.outputs().subrange(0, i + 1).drop_last() =~= self.outputs().subrange(0, i as int));
            }
            if !contains_text(&self.durable_state.completed_work, self.task_spec.required_outputs[i].as_str()) {
                let ghost before = views(remaining@);
                remaining.push(self.task_spec.required_outputs[i].clone());
                proof {
                    assert(views(remaining@) =~= before.push(self.outputs()[i as int]));
                }
            }
            i += 1;
        }
        proof {
            assert(self.outputs().subrange(0, i as int) =~= self.outputs());
        }
        self.durable_state.remaining_work = remaining;
        self.durable_state.constraints = clone_strings(&self.task_spec.constraints);
        self.durable_state.unresolved_requirements = clone_strings(&self.task_spec.unresolved_requirements);
        self.durable_state.open_questions = clone_strings(&self.task_spec.open_questions);
        self.missing_steps = self.collect_missing_steps();
    }

    /// Records a requirement as done: it joins the completed work once, leaves the
    /// remaining work, completes the graph nodes that answer to it, and the durable state
    /// is refreshed.
    pub fn record_completed_requirement(&mut self, requirement: &str)
        requires
            old(self).sizes_fit(),
        ensures
            requirement_recorded(*old(self), *final(self), requirement@),
    {
        push_once(&mut self.durable_state.completed_work, requirement);
        let mut kept: Vec<String> = Vec::new();
        let mut i: usize = 0;
        while i < self.durable_state.remaining_work.len()
            invariant
                i <= self.durable_state.remaining_work.len(),
            decreases self.durable_state.remaining_work.len() - i,
        {
            if !same_text(self.durable_state.remaining_work[i].as_str(), requirement) {
                kept.push(self.durable_state.remaining_work[i].clone());
            }
            i += 1;
        }
        self.durable_state.remaining_work = kept;
        let ghost g0 = self.task_graph@;
        let ghost pre = *self;
        let mut j: usize = 0;
        while j < self.task_graph.len()
            invariant
                j <= self.task_graph.len(),
                *self == (ApvlController { task_graph: self.task_graph, ..pre }),
                self.task_graph@.len() == g0.len(),
                forall|x: int| 0 <= x < g0.len() ==> #[trigger] self.task_graph@[x] == (if x < j && node_matches(g0[x], requirement@) {
                    TaskGraphNode { status: TaskNodeStatus::Complete, ..g0[x] }
                } else {
                    g0[x]
                }),
            decreases self.task_graph.len() - j,
        {
            if same_text(self.task_graph[j].id.as_str(), requirement)
                || same_text(self.task_graph[j].requirement.as_str(), requirement) {
                let mut node = self.task_graph.remove(j);
                node.status = TaskNodeStatus::Complete;
                self.task_graph.insert(j, node);
            }
            j += 1;
        }
        proof {
            assert(self.task_graph@ =~= Seq::new(g0.len(), |x: int| if node_matches(g0[x], requirement@) {
                TaskGraphNode { status: TaskNodeStatus::Complete, ..g0[x] }
            } else {
                g0[x]
            }));
        }
        self.progress_state = ProgressState::Improving;
        self.refresh_durable_state();
    }

    /// Records a requirement as blocked: it joins the blockers once, the graph nodes that
    /// answer to it become blocked and blocking, and the durable state is refreshed.
    pub fn mark_blocked(&mut self, requirement: &str)
        requires
            old(self).sizes_fit(),
        ensures
            controller_frame(*final(self), *old(self)),
            final(self).task_graph@ == Seq::new(old(self).task_graph@.len(), |j: int|
                if node_matches(old(self).task_graph@[j], requirement@) {
                    TaskGraphNode { status: TaskNodeStatus::Blocked, blocking: true, ..old(self).task_graph@[j] }
                } else {
                    old(self).task_graph@[j]
                }),
            final(self).progress_state == ProgressState::Blocked,
            durable_frame(final(self).durable_state, old(self).durable_state),
            views(final(self).durable_state.blockers@) == add_once(views(old(self).durable_state.blockers@), requirement@),
            refreshed_from(*final(self), old(self).done()),
    {
        push_once(&mut self.durable_state.blockers, requirement);
        let ghost g0 = self.task_graph@;
        let ghost pre = *self;
        let mut j: usize = 0;
        while j < self.task_graph.len()
            invariant
                j <= self.task_graph.len(),
                *self == (ApvlController { task_graph: self.task_graph, ..pre }),
                self.task_graph@.len() == g0.len(),
                forall|x: int| 0 <= x < g0.len() ==> #[trigger] self.task_graph@[x] == (if x < j && node_matches(g0[x], requirement@) {
                    TaskGraphNode { status: TaskNodeStatus::Blocked, blocking: true, ..g0[x] }
                } else {
                    g0[x]
                }),
            decreases self.task_graph.len() - j,
        {
            if same_text(self.task_graph[j].id.as_str(), requirement)
                || same_text(self.task_graph[j].requirement.as_str(), requirement) {
                let mut node = self.task_graph.remove(j);
                node.status = TaskNodeStatus::Blocked;
                node.blocking = true;
                self.task_graph.insert(j, node);
            }
            j += 1;
        }
        proof {
            assert(self.task_graph@ =~= Seq::new(g0.len(), |x: int| if node_matches(g0[x], requirement@) {
                TaskGraphNode { status: TaskNodeStatus::Blocked, blocking: true, ..g0[x] }
            } else {
                g0[x]
            }));
        }
        self.progress_state = ProgressState::Blocked;
        self.refresh_durable_state();
    }

    /// Adds a node to the task graph and refreshes the durable state.
    pub fn add_task_graph_node(&mut self, node: TaskGraphNode)
        requires
            old(self).sizes_fit(),
            old(self).task_spec.unresolved_requirements.len() + old(self).task_graph.len() + 1
                + old(self).task_spec.required_outputs.len() <= usize::MAX,
        ensures
            controller_frame(*final(self), *old(self)),
            final(self).task_graph@ == old(self).task_graph@.push(node),
            final(self).progress_state == old(self).progress_state,
            durable_frame(final(self).durable_state, old(self).durable_state),
            final(self).durable_state.blockers == old(self).durable_state.blockers,
            refreshed_from(*final(self), old(self).done()),
    {
        self.task_graph.push(node);
        self.refresh_durable_state();
    }

    /// The controller with the given task graph and a refreshed durable state.
    pub fn with_task_graph(self, task_graph: Vec<TaskGraphNode>) -> (r: ApvlController)
        requires
            self.task_spec.unresolved_requirements.len() + task_graph.len() + self.task_spec.required_outputs.len()
                <= usize::MAX,
        ensures
            controller_frame(r, self),
            r.task_graph == task_graph,
            r.progress_state == self.progress_state,
            durable_frame(r.durable_state, self.durable_state),
            r.durable_state.blockers == self.durable_state.blockers,
            refreshed_from(r, self.done()),
    {
        let mut c = self;
        c.task_graph = task_graph;
        c.refresh_durable_state();
        c
    }
}


/// The claim that a verification loop's snapshot supports.
pub open spec fn claim_from_snapshot(status: TvlRunStatus, unresolved: usize) -> ClaimStatus {
    if status == TvlRunStatus::Verified {
        ClaimStatus::VerifiedResult
    } else if unresolved > 0 {
        ClaimStatus::PartialResult
    } else {
        ClaimStatus::Unresolved
    }
}

/// The claim that a verification loop's final status supports.
pub open spec fn claim_from_status(status: TvlRunStatus) -> ClaimStatus {
    if status == TvlRunStatus::Verified {
        ClaimStatus::VerifiedResult
    } else if status == TvlRunStatus::Incomplete || status == TvlRunStatus::Blocked || status == TvlRunStatus::Failed {
        ClaimStatus::Unresolved
    } else {
        ClaimStatus::PartialResult
    }
}

fn copy_durable(d: &DurableTaskState) -> (r: DurableTaskState)
    ensures
        same_durable(r, *d),
{
    DurableTaskState {
        objective: d.objective.clone(),
        constraints: clone_strings(&d.constraints),
        completed_work: clone_strings(&d.completed_work),
        remaining_work: clone_strings(&d.remaining_work),
        decisions: clone_strings(&d.decisions),
        artifacts: clone_strings(&d.artifacts),
        evidence_references: clone_strings(&d.evidence_references),
        open_questions: clone_strings(&d.open_questions),
        blockers: clone_strings(&d.blockers),
        unresolved_requirements: clone_strings(&d.unresolved_requirements),
        checkpoints: clone_strings(&d.checkpoints),
    }
}

impl ApvlController {
    /// Records whether progress has stalled.
    pub fn record_stagnation(&mut self, stagnation_detected: bool)
        ensures
            *final(self) == (ApvlController {
                stagnation_detected,
                progress_state: if stagnation_detected { ProgressState::Stalled } else { ProgressState::Improving },
                ..*old(self)
            }),
    {
        self.stagnation_detected = stagnation_detected;
        self.progress_state = if stagnation_detected {
            ProgressState::Stalled
        } else {
            ProgressState::Improving
        };
    }

    /// Takes in a verification loop's snapshot: the loop counts as invoked, its status is
    /// the result, the claim follows from it, and the decision is evaluated again.
    pub fn update_from_tvl_snapshot(&mut self, snapshot: &TvlPublicSnapshot)
        requires
            old(self).budget_fits(),
        ensures
            ({
                let mid = ApvlController {
                    tvl_invoked: true,
                    tvl_result: Some(snapshot.status),
                    claim_status: claim_from_snapshot(snapshot.status, snapshot.unresolved_disagreements),
                    ..*old(self)
                };
                *final(self) == ApvlController { decision: mid.spec_decision(), ..mid }
            }),
    {
        self.tvl_invoked = true;
        self.tvl_result = Some(snapshot.status);
        if snapshot.status == TvlRunStatus::Verified {
            self.claim_status = ClaimStatus::VerifiedResult;
        } else if snapshot.unresolved_disagreements > 0 {
            self.claim_status = ClaimStatus::PartialResult;
        } else {
            self.claim_status = ClaimStatus::Unresolved;
        }
        self.decision = self.evaluate_decision();
    }

    /// Records a verification loop's final status: the loop counts as invoked, the claim
    /// follows from the status, and the decision is evaluated again.
    pub fn record_tvl_result(&mut self, status: TvlRunStatus)
        requires
            old(self).budget_fits(),
        ensures
            ({
                let mid = ApvlController {
                    tvl_invoked: true,
                    tvl_result: Some(status),
                    claim_status: claim_from_status(status),
                    ..*old(self)
                };
                *final(self) == ApvlController { decision: mid.spec_decision(), ..mid }
            }),
    {
        self.tvl_invoked = true;
        self.tvl_result = Some(status);
        if status == TvlRunStatus::Verified {
            self.claim_status = ClaimStatus::VerifiedResult;
        } else if status == TvlRunStatus::Incomplete || status == TvlRunStatus::Blocked || status == TvlRunStatus::Failed {
            self.claim_status = ClaimStatus::Unresolved;
        } else {
            self.claim_status = ClaimStatus::PartialResult;
        }
        self.decision = self.evaluate_decision();
    }

    /// Records a missing step found elsewhere.
    pub fn register_missing_step(&mut self, step: MissingStep)
        ensures
            final(self).missing_steps@ == old(self).missing_steps@.push(step),
            *final(self) == (ApvlController { missing_steps: final(self).missing_steps, ..*old(self) }),
    {
        self.missing_steps.push(step);
    }

    /// A copy of the durable state.
    pub fn checkpoint(&self) -> (r: DurableTaskState)
        ensures
            same_durable(r, self.durable_state),
    {
        copy_durable(&self.durable_state)
    }

    /// Resumes from a durable state and evaluates the decision again.
    pub fn resume_from_checkpoint(&mut self, state: DurableTaskState)
        requires
            old(self).budget_fits(),
        ensures
            ({
                let mid = ApvlController { durable_state: state, ..*old(self) };
                *final(self) == ApvlController { decision: mid.spec_decision(), ..mid }
            }),
    {
        self.durable_state = state;
        self.decision = self.evaluate_decision();
    }

    /// Counts one iteration (and one unit of compute) and evaluates the decision again.
    pub fn increment_iteration(&mut self)
        requires
            old(self).budget_fits(),
            old(self).iteration_count < usize::MAX,
            old(self).compute_consumed < usize::MAX,
        ensures
            ({
                let mid = ApvlController {
                    iteration_count: (old(self).iteration_count + 1) as usize,
                    compute_consumed: (old(self).compute_consumed + 1) as usize,
                    ..*old(self)
                };
                *final(self) == ApvlController { decision: mid.spec_decision(), ..mid }
            }),
    {
        self.iteration_count += 1;
        self.compute_consumed += 1;
        self.decision = self.evaluate_decision();
    }

    /// Counts model calls, which also count as compute.
    pub fn increment_model_calls(&mut self, count: usize)
        requires
            old(self).model_calls + count <= usize::MAX,
            old(self).compute_consumed + count <= usize::MAX,
        ensures
            *final(self) == (ApvlController {
                model_calls: (old(self).model_calls + count) as usize,
                compute_consumed: (old(self).compute_consumed + count) as usize,
                ..*old(self)
            }),
    {
        self.model_calls += count;
        self.compute_consumed += count;
    }

    /// Counts tool calls, which also count as compute.
    pub fn increment_tool_calls(&mut self, count: usize)
        requires
            old(self).tool_calls + count <= usize::MAX,
            old(self).compute_consumed + count <= usize::MAX,
        ensures
            *final(self) == (ApvlController {
                tool_calls: (old(self).tool_calls + count) as usize,
                compute_consumed: (old(self).compute_consumed + count) as usize,
                ..*old(self)
            }),
    {
        self.tool_calls += count;
        self.compute_consumed += count;
    }

    /// Sets the task's difficulty label.
    pub fn set_difficulty(&mut self, difficulty: &str)
        ensures
            final(self).task_difficulty matches Some(d) && d@ == difficulty@,
            *final(self) == (ApvlController { task_difficulty: final(self).task_difficulty, ..*old(self) }),
    {
        self.task_difficulty = Some(owned(difficulty));
    }
}


/// Number of recorded missing steps that block.
pub open spec fn count_blocking(steps: Seq<MissingStep>) -> nat
    decreases steps.len(),
{
    if steps.len() == 0 {
        0
    } else {
        count_blocking(steps.drop_last()) + if steps.last().blocking_yes_no { 1nat } else { 0nat }
    }
}

fn count_blocking_steps(steps: &Vec<MissingStep>) -> (r: usize)
    ensures
        r == count_blocking(steps@),
{
    let mut c: usize = 0;
    let mut k: usize = 0;
    while k < steps.len()
        invariant
            k <= steps.len(),
            c == count_blocking(steps@.subrange(0, k as int)),
            c <= k,
        decreases steps.len() - k,
    {
        proof {
            assert(steps@.subrange(0, k + 1).drop_last() =~= steps@.subrange(0, k as int));
        }
        if steps[k].blocking_yes_no {
            c += 1;
        }
        k += 1;
    }
    proof {
        assert(steps@.subrange(0, k as int) =~= steps@);
    }
    c
}

impl ApvlController {
    /// A controller for a task: the durable state starts from the task spec (objective,
    /// constraints, open questions, unresolved requirements, and every required output
    /// still to do); default budgets; nothing done, nothing verified.
    pub fn new(run_id: &str, task_spec: ApvlTaskSpec) -> (c: ApvlController)
        ensures
            c.run_id@ == sanitized_run_id(run_id@),
            c.task_spec == task_spec,
            c.task_graph@.len() == 0,
            c.durable_state.objective == task_spec.objective,
            views(c.durable_state.constraints@) == views(task_spec.constraints@),
            views(c.durable_state.open_questions@) == views(task_spec.open_questions@),
            views(c.durable_state.unresolved_requirements@) == views(task_spec.unresolved_requirements@),
            views(c.durable_state.remaining_work@) == views(task_spec.required_outputs@),
            c.durable_state.completed_work@.len() == 0,
            c.durable_state.decisions@.len() == 0,
            c.durable_state.artifacts@.len() == 0,
            c.durable_state.evidence_references@.len() == 0,
            c.durable_state.blockers@.len() == 0,
            c.durable_state.checkpoints@.len() == 0,
            c.decision == ApvlDecision::Continue,
            c.stop_reason is None,
            c.progress_state == ProgressState::Stable,
            !c.stagnation_detected,
            c.refinement_count == 0,
            !c.tvl_invoked,
            c.tvl_result is None,
            c.claim_status == ClaimStatus::Unresolved,
            c.max_iterations == 8,
            c.max_refinement_passes == 3,
            c.max_model_calls == 20,
            c.max_tool_calls == 50,
            c.max_wall_clock_seconds == 600,
            c.verification_budget == 4,
            c.tvl_invocation_budget == 2,
            c.retry_budget == 3,
            c.iteration_count == 0,
            c.model_calls == 0,
            c.tool_calls == 0,
            c.compute_consumed == 0,
            c.elapsed_time == 0,
            c.missing_steps@.len() == 0,
            c.task_difficulty is None,
    {
        let state = DurableTaskState {
            objective: task_spec.objective.clone(),
            constraints: clone_strings(&task_spec.constraints),
            completed_work: Vec::new(),
            remaining_work: clone_strings(&task_spec.required_outputs),
            decisions: Vec::new(),
            artifacts: Vec::new(),
            evidence_references: Vec::new(),
            open_questions: clone_strings(&task_spec.open_questions),
            blockers: Vec::new(),
            unresolved_requirements: clone_strings(&task_spec.unresolved_requirements),
            checkpoints: Vec::new(),
        };
        ApvlController {
            run_id: sanitize_run_id(run_id),
            task_spec,
            task_graph: Vec::new(),
            durable_state: state,
            decision: ApvlDecision::Continue,
            stop_reason: None,
            progress_state: ProgressState::Stable,
            stagnation_detected: false,
            refinement_count: 0,
            tvl_invoked: false,
            tvl_result: None,
            claim_status: ClaimStatus::Unresolved,
            max_iterations: 8,
            max_refinement_passes: 3,
            max_model_calls: 20,
            max_tool_calls: 50,
            max_wall_clock_seconds: 600,
            verification_budget: 4,
            tvl_invocation_budget: 2,
            retry_budget: 3,
            iteration_count: 0,
            model_calls: 0,
            tool_calls: 0,
            compute_consumed: 0,
            elapsed_time: 0,
            missing_steps: Vec::new(),
            task_difficulty: None,
        }
    }

    /// The public view of the run: counts and verdicts only.
    pub fn public_snapshot(&self) -> (r: ApvlPublicSnapshot)
        requires
            self.sizes_fit(),
        ensures
            r.run_id@ == self.run_id@,
            match (r.task_difficulty, self.task_difficulty) {
                (Some(a), Some(b)) => a@ == b@,
                (None, None) => true,
                _ => false,
            },
            r.requirements_total == self.outputs().len() + self.task_graph@.len(),
            r.requirements_complete == if self.done().len() < self.outputs().len() + self.task_graph@.len() {
                self.done().len()
            } else {
                self.outputs().len() + self.task_graph@.len()
            },
            r.unresolved_count == self.spec_unresolved(),
            r.critical_missing_steps == count_blocking(self.missing_steps@),
            r.progress_state == self.progress_state,
            r.stagnation_detected == self.stagnation_detected,
            r.refinement_count == self.refinement_count,
            r.current_apvl_decision == self.decision,
            r.tvl_invoked == self.tvl_invoked,
            r.tvl_result == self.tvl_result,
            r.claim_status == self.claim_status,
            r.stop_reason == self.stop_reason,
            r.elapsed_time == self.elapsed_time,
            r.compute_consumed == self.compute_consumed,
    {
        let unresolved = self.unresolved_count();
        let total = self.task_spec.required_outputs.len() + self.task_graph.len();
        let done = self.durable_state.completed_work.len();
        let difficulty = match &self.task_difficulty {
            Some(d) => Some(d.clone()),
            None => None,
        };
        ApvlPublicSnapshot {
            run_id: self.run_id.clone(),
            task_difficulty: difficulty,
            requirements_total: total,
            requirements_complete: if done < total { done } else { total },
            unresolved_count: unresolved,
            critical_missing_steps: count_blocking_steps(&self.missing_steps),
            progress_state: self.progress_state,
            stagnation_detected: self.stagnation_detected,
            refinement_count: self.refinement_count,
            current_apvl_decision: self.decision,
            tvl_invoked: self.tvl_invoked,
            tvl_result: self.tvl_result,
            claim_status: self.claim_status,
            stop_reason: self.stop_reason,
            elapsed_time: self.elapsed_time,
            compute_consumed: self.compute_consumed,
        }
    }
}

/// The empty task spec.
pub open spec fn empty_task(t: ApvlTaskSpec) -> bool {
    &&& t.objective@.len() == 0
    &&& t.required_outputs@.len() == 0
    &&& t.constraints@.len() == 0
    &&& t.acceptance_criteria@.len() == 0
    &&& t.required_evidence@.len() == 0
    &&& t.required_tools@.len() == 0
    &&& t.dependencies@.len() == 0
    &&& t.open_questions@.len() == 0
    &&& t.unresolved_requirements@.len() == 0
}

impl Default for ApvlController {
    /// A controller named `apvl-run` for an empty task.
    fn default() -> (c: ApvlController)
        ensures
            c.run_id@ == sanitized_run_id("apvl-run"@),
            empty_task(c.task_spec),
            c.task_graph@.len() == 0,
            c.decision == ApvlDecision::Continue,
            c.claim_status == ClaimStatus::Unresolved,
            c.tvl_result is None,
    {
        let spec = ApvlTaskSpec {
            objective: String::new(),
            required_outputs: Vec::new(),
            constraints: Vec::new(),
            acceptance_criteria: Vec::new(),
            required_evidence: Vec::new(),
            required_tools: Vec::new(),
            dependencies: Vec::new(),
            open_questions: Vec::new(),
            unresolved_requirements: Vec::new(),
        };
        ApvlController::new("apvl-run", spec)
    }
}


// ---------------------------------------------------------------------------
// Mission-control lines.
// ---------------------------------------------------------------------------

pub open spec fn progress_name(s: ProgressState) -> Seq<char> {
    match s {
        ProgressState::Stable => "Stable"@,
        ProgressState::Improving => "Improving"@,
        ProgressState::Stalled => "Stalled"@,
        ProgressState::Blocked => "Blocked"@,
    }
}

pub open spec fn decision_name(s: ApvlDecision) -> Seq<char> {
    match s {
        ApvlDecision::Continue => "Continue"@,
        ApvlDecision::Refine => "Refine"@,
        ApvlDecision::Verify => "Verify"@,
        ApvlDecision::Escalate => "Escalate"@,
        ApvlDecision::Stop => "Stop"@,
    }
}

pub open spec fn claim_name(s: ClaimStatus) -> Seq<char> {
    match s {
        ClaimStatus::VerifiedResult => "VerifiedResult"@,
        ClaimStatus::IndependentlyVerifiedResult => "IndependentlyVerifiedResult"@,
        ClaimStatus::PartialResult => "PartialResult"@,
        ClaimStatus::ValidFramework => "ValidFramework"@,
        ClaimStatus::RestrictedExactResult => "RestrictedExactResult"@,
        ClaimStatus::ConjecturalRoute => "ConjecturalRoute"@,
        ClaimStatus::Unresolved => "Unresolved"@,
    }
}

pub open spec fn stop_name(s: StopReason) -> Seq<char> {
    match s {
        StopReason::AcceptanceCriteriaMet => "AcceptanceCriteriaMet"@,
        StopReason::VerifiedComplete => "VerifiedComplete"@,
        StopReason::PartialWithLimits => "PartialWithLimits"@,
        StopReason::NoFurtherProgress => "NoFurtherProgress"@,
        StopReason::ComputeBudgetExhausted => "ComputeBudgetExhausted"@,
        StopReason::BlockedByDependency => "BlockedByDependency"@,
        StopReason::ReviewRequired => "ReviewRequired"@,
        StopReason::UnresolvedWithLimits => "UnresolvedWithLimits"@,
    }
}

/// `Some(name)` or `None`, as `{:?}` prints an option.
pub open spec fn option_name(n: Option<Seq<char>>) -> Seq<char> {
    match n {
        Some(x) => "Some("@ + x + ")"@,
        None => "None"@,
    }
}

pub open spec fn bool_name(b: bool) -> Seq<char> {
    if b { "true"@ } else { "false"@ }
}

impl ProgressState {
    /// The name of the state, as `{:?}` prints it.
    pub fn name(&self) -> (r: &'static str)
        ensures
            r@ == progress_name(*self),
    {
        match self {
            ProgressState::Stable => "Stable",
            ProgressState::Improving => "Improving",
            ProgressState::Stalled => "Stalled",
            ProgressState::Blocked => "Blocked",
        }
    }
}

impl ApvlDecision {
    /// The name of the decision, as `{:?}` prints it.
    pub fn name(&self) -> (r: &'static str)
        ensures
            r@ == decision_name(*self),
    {
        match self {
            ApvlDecision::Continue => "Continue",
            ApvlDecision::Refine => "Refine",
            ApvlDecision::Verify => "Verify",
            ApvlDecision::Escalate => "Escalate",
            ApvlDecision::Stop => "Stop",
        }
    }
}

impl ClaimStatus {
    /// The name of the status, as `{:?}` prints it.
    pub fn name(&self) -> (r: &'static str)
        ensures
            r@ == claim_name(*self),
    {
        match self {
            ClaimStatus::VerifiedResult => "VerifiedResult",
            ClaimStatus::IndependentlyVerifiedResult => "IndependentlyVerifiedResult",
            ClaimStatus::PartialResult => "PartialResult",
            ClaimStatus::ValidFramework => "ValidFramework",
            ClaimStatus::RestrictedExactResult => "RestrictedExactResult",
            ClaimStatus::ConjecturalRoute => "ConjecturalRoute",
            ClaimStatus::Unresolved => "Unresolved",
        }
    }
}

impl StopReason {
    /// The name of the reason, as `{:?}` prints it.
    pub fn name(&self) -> (r: &'static str)
        ensures
            r@ == stop_name(*self),
    {
        match self {
            StopReason::AcceptanceCriteriaMet => "AcceptanceCriteriaMet",
            StopReason::VerifiedComplete => "VerifiedComplete",
            StopReason::PartialWithLimits => "PartialWithLimits",
            StopReason::NoFurtherProgress => "NoFurtherProgress",
            StopReason::ComputeBudgetExhausted => "ComputeBudgetExhausted",
            StopReason::BlockedByDependency => "BlockedByDependency",
            StopReason::ReviewRequired => "ReviewRequired",
            StopReason::UnresolvedWithLimits => "UnresolvedWithLimits",
        }
    }
}

/// The mission-control panel lines for a snapshot: only counts, statuses and verdicts.
pub open spec fn apvl_panel(s: ApvlPublicSnapshot) -> Seq<Seq<char>> {
    seq![
        "ADAPTIVE PERSISTENCE & VERIFICATION LAYER"@,
        "RUN: "@ + s.run_id@,
        "PROGRESS: "@ + progress_name(s.progress_state),
        "DECISION: "@ + decision_name(s.current_apvl_decision),
        "REQUIREMENTS: "@ + decimal(s.requirements_complete as nat) + " complete / "@
            + decimal(s.requirements_total as nat) + " total"@,
        "UNRESOLVED: "@ + decimal(s.unresolved_count as nat),
        "CRITICAL MISSING STEPS: "@ + decimal(s.critical_missing_steps as nat),
        "TVL INVOKED: "@ + bool_name(s.tvl_invoked),
        "TVL RESULT: "@ + option_name(match s.tvl_result { Some(t) => Some(run_status_name(t)), None => None }),
        "CLAIM STATUS: "@ + claim_name(s.claim_status),
        "STOP: "@ + option_name(match s.stop_reason { Some(t) => Some(stop_name(t)), None => None }),
    ]
}

fn option_text(name: Option<&str>) -> (r: String)
    ensures
        r@ == option_name(match name { Some(x) => Some(x@), None => None }),
{
    match name {
        Some(x) => concat3("Some(", x, ")"),
        None => owned("None"),
    }
}

/// The mission-control panel lines for a snapshot.
pub fn mission_control_apvl_lines(snapshot: &ApvlPublicSnapshot) -> (r: Vec<String>)
    ensures
        views(r@) == apvl_panel(*snapshot),
{
    proof {
        reveal_strlit("");
    }
    let mut r: Vec<String> = Vec::new();
    r.push(owned("ADAPTIVE PERSISTENCE & VERIFICATION LAYER"));
    r.push(concat3("RUN: ", snapshot.run_id.as_str(), ""));
    r.push(concat3("PROGRESS: ", snapshot.progress_state.name(), ""));
    r.push(concat3("DECISION: ", snapshot.current_apvl_decision.name(), ""));
    let done = u64_to_decimal(snapshot.requirements_complete as u64);
    let total = u64_to_decimal(snapshot.requirements_total as u64);
    let head = concat3("REQUIREMENTS: ", done.as_str(), " complete / ");
    r.push(concat3(head.as_str(), total.as_str(), " total"));
    let unresolved = u64_to_decimal(snapshot.unresolved_count as u64);
    r.push(concat3("UNRESOLVED: ", unresolved.as_str(), ""));
    let critical = u64_to_decimal(snapshot.critical_missing_steps as u64);
    r.push(concat3("CRITICAL MISSING STEPS: ", critical.as_str(), ""));
    r.push(concat3("TVL INVOKED: ", if snapshot.tvl_invoked { "true" } else { "false" }, ""));
    let tvl = match snapshot.tvl_result {
        Some(t) => Some(t.name()),
        None => None,
    };
    r.push(concat3("TVL RESULT: ", option_text(tvl).as_str(), ""));
    r.push(concat3("CLAIM STATUS: ", snapshot.claim_status.name(), ""));
    let stop = match snapshot.stop_reason {
        Some(t) => Some(t.name()),
        None => None,
    };
    r.push(concat3("STOP: ", option_text(stop).as_str(), ""));
    proof {
        assert(views(r@) =~= apvl_panel(*snapshot));
    }
    r
}


// ---------------------------------------------------------------------------
// The A/B benchmark.
// ---------------------------------------------------------------------------

impl BenchmarkComparison {
    /// Both paths ran the same workload: equal metrics, or at least equal coverage.
    pub fn workload_identical(&self) -> (r: bool)
        ensures
            r == (self.existing_path == self.apvl_path
                || self.existing_path.completion_coverage == self.apvl_path.completion_coverage),
    {
        self.existing_path == self.apvl_path || self.existing_path.completion_coverage == self.apvl_path.completion_coverage
    }

    /// The paths differ, yet used the same iterations, model calls and tool calls.
    pub fn only_apvl_difference(&self) -> (r: bool)
        ensures
            r == (self.existing_path != self.apvl_path && self.existing_path.iterations == self.apvl_path.iterations
                && self.existing_path.model_calls == self.apvl_path.model_calls
                && self.existing_path.tool_calls == self.apvl_path.tool_calls),
    {
        self.existing_path != self.apvl_path && self.existing_path.iterations == self.apvl_path.iterations
            && self.existing_path.model_calls == self.apvl_path.model_calls
            && self.existing_path.tool_calls == self.apvl_path.tool_calls
    }
}

/// The benchmark's task graph: an `answer` node, then an `evidence` node that depends on it.
pub open spec fn ab_graph_shape(g: Seq<TaskGraphNode>) -> bool {
    &&& g.len() == 2
    &&& g[0].id@ == "node-answer"@ && g[0].requirement@ == "answer"@
    &&& g[0].status == TaskNodeStatus::Ready && !g[0].blocking
    &&& g[0].depends_on@.len() == 0 && views(g[0].evidence_refs@) == seq!["answer-evidence"@]
    &&& g[1].id@ == "node-evidence"@ && g[1].requirement@ == "evidence"@
    &&& g[1].status == TaskNodeStatus::Ready && !g[1].blocking
    &&& views(g[1].depends_on@) == seq!["node-answer"@] && views(g[1].evidence_refs@) == seq!["source-citation"@]
}

/// The task graph of the deterministic A/B workload.
pub fn ab_task_graph() -> (g: Vec<TaskGraphNode>)
    ensures
        ab_graph_shape(g@),
{
    let answer = TaskGraphNode {
        id: owned("node-answer"),
        requirement: owned("answer"),
        status: TaskNodeStatus::Ready,
        blocking: false,
        depends_on: Vec::new(),
        evidence_refs: vec![owned("answer-evidence")],
    };
    let evidence = TaskGraphNode {
        id: owned("node-evidence"),
        requirement: owned("evidence"),
        status: TaskNodeStatus::Ready,
        blocking: false,
        depends_on: vec![owned("node-answer")],
        evidence_refs: vec![owned("source-citation")],
    };
    let g = vec![answer, evidence];
    proof {
        assert(views(g@[0].evidence_refs@) =~= seq!["answer-evidence"@]);
        assert(views(g@[1].depends_on@) =~= seq!["node-answer"@]);
        assert(views(g@[1].evidence_refs@) =~= seq!["source-citation"@]);
    }
    g
}

/// The benchmark metrics of a controller, as `run_deterministic_ab_benchmark` reads them.
pub open spec fn metrics_of(c: ApvlController) -> BenchmarkMetrics {
    BenchmarkMetrics {
        completion_coverage: if c.spec_coverage() { 1 } else { 0 },
        missed_requirements: c.spec_unresolved() as usize,
        premature_stops: if c.decision == ApvlDecision::Stop && !c.spec_coverage() { 1 } else { 0 },
        missing_steps_caught: c.missing_steps@.len() as usize,
        refinements: if c.decision == ApvlDecision::Refine { 1 } else { 0 },
        tvl_invocations: if c.tvl_invoked { 1 } else { 0 },
        iterations: c.iteration_count,
        model_calls: c.model_calls,
        tool_calls: c.tool_calls,
        stop_reason: c.stop_reason,
        final_claim_status: c.claim_status,
    }
}

/// The metrics that both paths of the A/B benchmark report for a task with these
/// required outputs and unresolved requirements: `answer` and `evidence` are done and
/// verified; the run stops when that covers every required output, refines while
/// unresolved requirements remain, and otherwise continues.
pub open spec fn ab_metrics(outs: Seq<Seq<char>>, reqs: Seq<Seq<char>>) -> BenchmarkMetrics {
    let done = seq!["answer"@, "evidence"@];
    let covered = forall|i: int| 0 <= i < outs.len() ==> done.contains(#[trigger] outs[i]);
    let missing = reqs.len() + count_missing(outs, done);
    BenchmarkMetrics {
        completion_coverage: if covered { 1 } else { 0 },
        missed_requirements: missing as usize,
        premature_stops: 0,
        missing_steps_caught: missing as usize,
        refinements: if !covered && reqs.len() > 0 { 1 } else { 0 },
        tvl_invocations: 1,
        iterations: 0,
        model_calls: 0,
        tool_calls: 0,
        stop_reason: None,
        final_claim_status: ClaimStatus::VerifiedResult,
    }
}

fn copy_task_spec(t: &ApvlTaskSpec) -> (r: ApvlTaskSpec)
    ensures
        r.objective == t.objective,
        views(r.required_outputs@) == views(t.required_outputs@),
        views(r.constraints@) == views(t.constraints@),
        views(r.acceptance_criteria@) == views(t.acceptance_criteria@),
        views(r.required_evidence@) == views(t.required_evidence@),
        views(r.required_tools@) == views(t.required_tools@),
        views(r.dependencies@) == views(t.dependencies@),
        views(r.open_questions@) == views(t.open_questions@),
        views(r.unresolved_requirements@) == views(t.unresolved_requirements@),
{
    ApvlTaskSpec {
        objective: t.objective.clone(),
        required_outputs: clone_strings(&t.required_outputs),
        constraints: clone_strings(&t.constraints),
        acceptance_criteria: clone_strings(&t.acceptance_criteria),
        required_evidence: clone_strings(&t.required_evidence),
        required_tools: clone_strings(&t.required_tools),
        dependencies: clone_strings(&t.dependencies),
        open_questions: clone_strings(&t.open_questions),
        unresolved_requirements: clone_strings(&t.unresolved_requirements),
    }
}

fn read_metrics(c: &ApvlController) -> (m: BenchmarkMetrics)
    requires
        c.sizes_fit(),
    ensures
        m == metrics_of(*c),
{
    let covered = c.coverage_complete();
    BenchmarkMetrics {
        completion_coverage: if covered { 1 } else { 0 },
        missed_requirements: c.unresolved_count(),
        premature_stops: if c.decision == ApvlDecision::Stop && !covered { 1 } else { 0 },
        missing_steps_caught: c.missing_steps.len(),
        refinements: if c.decision == ApvlDecision::Refine { 1 } else { 0 },
        tvl_invocations: if c.tvl_invoked { 1 } else { 0 },
        iterations: c.iteration_count,
        model_calls: c.model_calls,
        tool_calls: c.tool_calls,
        stop_reason: c.stop_reason,
        final_claim_status: c.claim_status,
    }
}


proof fn lemma_merged_nothing_new(done: Seq<Seq<char>>, g: Seq<TaskGraphNode>)
    requires
        forall|j: int| 0 <= j < g.len() ==> (#[trigger] g[j]).status != TaskNodeStatus::Complete
            || done.contains(g[j].requirement@),
    ensures
        merged_completed(done, g) == done,
    decreases g.len(),
{
    if g.len() > 0 {
        assert forall|j: int| 0 <= j < g.drop_last().len() implies (#[trigger] g.drop_last()[j]).status
            != TaskNodeStatus::Complete || done.contains(g.drop_last()[j].requirement@) by {
            assert(g.drop_last()[j] == g[j]);
        }
        lemma_merged_nothing_new(done, g.drop_last());
        assert(g.last() == g[g.len() - 1]);
    }
}

/// One path of the A/B benchmark: the task with the benchmark's task graph, `answer` and
/// `evidence` recorded as done, and a verified result.
fn scripted_path(run_id: &str, task_spec: &ApvlTaskSpec) -> (c: ApvlController)
    requires
        task_spec.unresolved_requirements.len() + task_spec.required_outputs.len() + 2 <= usize::MAX,
    ensures
        c.sizes_fit(),
        metrics_of(c) == ab_metrics(views(task_spec.required_outputs@), views(task_spec.unresolved_requirements@)),
{
    proof {
        reveal_strlit("answer");
        reveal_strlit("evidence");
        reveal_strlit("node-answer");
        reveal_strlit("node-evidence");
        reveal_strlit("missing_output");
        reveal_strlit("unresolved_requirement");
    }
    let ghost outs = views(task_spec.required_outputs@);
    let ghost reqs = views(task_spec.unresolved_requirements@);
    let mut c = ApvlController::new(run_id, copy_task_spec(task_spec));
    let ghost c0 = c;
    c.task_graph = ab_task_graph();
    let ghost g = c.task_graph@;
    proof {
        assert(c.done() =~= Seq::<Seq<char>>::empty());
        assert(g.drop_last().drop_last() =~= Seq::<TaskGraphNode>::empty());
        lemma_merged_nothing_new(c.done(), g);
    }
    c.refresh_durable_state();
    let ghost c1 = c;
    c.record_completed_requirement("answer");
    let ghost g1 = c.task_graph@;
    proof {
        assert(node_matches(g[0], "answer"@));
        assert("node-evidence"@.len() == 13 && "evidence"@.len() == 8 && "answer"@.len() == 6);
        assert(g[1].id@ != "answer"@);
        assert(g[1].requirement@ != "answer"@);
        assert(!node_matches(g[1], "answer"@));
        assert(g1[0].status == TaskNodeStatus::Complete && g1[1].status == TaskNodeStatus::Ready);
        assert(g1[0].id@ == "node-answer"@ && g1[0].requirement@ == "answer"@);
        assert(g1[1].id@ == "node-evidence"@ && g1[1].requirement@ == "evidence"@);
        assert(add_once(c1.done(), "answer"@) =~= seq!["answer"@]);
        assert(seq!["answer"@][0] == "answer"@);
        lemma_merged_nothing_new(seq!["answer"@], g1);
        assert(c.done() =~= seq!["answer"@]);
    }
    let ghost c2 = c;
    c.record_completed_requirement("evidence");
    let ghost g2 = c.task_graph@;
    proof {
        assert(!node_matches(g1[0], "evidence"@));
        assert(node_matches(g1[1], "evidence"@));
        assert(g2[0].status == TaskNodeStatus::Complete && g2[1].status == TaskNodeStatus::Complete);
        assert(g2[0].requirement@ == "answer"@ && g2[1].requirement@ == "evidence"@);
        assert(!g2[0].blocking && !g2[1].blocking);
        assert(!seq!["answer"@].contains("evidence"@)) by {
            assert(seq!["answer"@][0] != "evidence"@);
        }
        assert(add_once(c2.done(), "evidence"@) =~= seq!["answer"@, "evidence"@]);
        assert(seq!["answer"@, "evidence"@][0] == "answer"@);
        assert(seq!["answer"@, "evidence"@][1] == "evidence"@);
        lemma_merged_nothing_new(seq!["answer"@, "evidence"@], g2);
        assert(c.done() =~= seq!["answer"@, "evidence"@]);
        assert(g2.drop_last().drop_last() =~= Seq::<TaskGraphNode>::empty());
        assert(count_open(g2.drop_last().drop_last()) == 0);
        assert(g2.drop_last().last() == g2[0]);
        assert(count_open(g2.drop_last()) == 0);
        assert(count_open(g2) == 0);
        lemma_node_steps_len(g2);
        assert(!blocked_graph(g2));
    }
    c.record_tvl_result(TvlRunStatus::Verified);
    proof {
        let done = seq!["answer"@, "evidence"@];
        assert(c.done() == done);
        assert(c.outputs() == outs);
        assert(c.unresolved_reqs() == reqs);
        assert(c.task_graph@ == g2);
        assert(step_views(c.missing_steps@) == c.implied_steps());
        assert(c.missing_steps@.len() == step_views(c.missing_steps@).len());
        lemma_count_missing_bound(outs, done);
        let covered = forall|i: int| 0 <= i < outs.len() ==> done.contains(#[trigger] outs[i]);
        assert(c.spec_coverage() == covered);
        let imp = c.implied_steps();
        assert(node_steps(g2).len() == 0);
        if reqs.len() > 0 {
            assert(imp[0] == requirement_step(reqs[0], 1));
            assert(c.missing_steps@[0]@ == imp[0]);
            assert("unresolved_requirement"@.len() == 22 && "missing_output"@.len() == 14);
            assert(c.missing_steps@[0].blocking_yes_no && c.missing_steps@[0].category@ != "missing_output"@);
            assert(blocking_step_present(c.missing_steps@));
        } else {
            assert forall|k: int| 0 <= k < c.missing_steps@.len() implies !((#[trigger] c.missing_steps@[k]).blocking_yes_no
                && c.missing_steps@[k].category@ != "missing_output"@) by {
                assert(c.missing_steps@[k]@ == imp[k]);
                assert(imp[k].category == "missing_output"@);
            }
        }
        assert(c.output_missing() == !covered);
    }
    c
}

/// Runs the deterministic A/B benchmark: the same task, task graph and script on the
/// existing path and on the path with this layer.
pub fn run_deterministic_ab_benchmark(task_spec: ApvlTaskSpec) -> (r: BenchmarkComparison)
    requires
        task_spec.unresolved_requirements.len() + task_spec.required_outputs.len() + 2 <= usize::MAX,
    ensures
        r.workload_id@ == "ab-deterministic"@,
        r.config_hash@ == "stub-provider:stub-model:0:128"@,
        r.existing_path == ab_metrics(views(task_spec.required_outputs@), views(task_spec.unresolved_requirements@)),
        r.apvl_path == r.existing_path,
{
    let existing = scripted_path("bench-existing", &task_spec);
    let with_apvl = scripted_path("bench-apvl", &task_spec);
    BenchmarkComparison {
        workload_id: owned("ab-deterministic"),
        config_hash: owned("stub-provider:stub-model:0:128"),
        existing_path: read_metrics(&existing),
        apvl_path: read_metrics(&with_apvl),
    }
}


// ---------------------------------------------------------------------------
// Laws.
// ---------------------------------------------------------------------------

proof fn lemma_first_dropped_none(reqs: Seq<Seq<char>>, out: Seq<char>)
    ensures
        (first_dropped(reqs, out) is None) == (forall|i: int| 0 <= i < reqs.len() ==> !dropped(out, #[trigger] reqs[i])),
    decreases reqs.len(),
{
    if reqs.len() > 0 {
        lemma_first_dropped_none(reqs.drop_first(), out);
        if first_dropped(reqs, out) is None {
            assert forall|i: int| 0 <= i < reqs.len() implies !dropped(out, #[trigger] reqs[i]) by {
                if i > 0 {
                    assert(reqs.drop_first()[i - 1] == reqs[i]);
                }
            }
        }
        if forall|i: int| 0 <= i < reqs.len() ==> !dropped(out, #[trigger] reqs[i]) {
            assert forall|i: int| 0 <= i < reqs.drop_first().len() implies !dropped(out, #[trigger] reqs.drop_first()[i]) by {
                assert(reqs.drop_first()[i] == reqs[i + 1]);
            }
        }
    }
}

/// Release needs completeness: when the task names required outputs, the finalization
/// check admits a text only if that text contains each of them (ignoring ASCII case), no
/// blocking missing step remains, the verification loop verified the result, and the
/// claim is neither partial, conjectural nor unresolved.
pub proof fn law_gate_admits_only_complete_verified_output(c: ApvlController, out: Seq<char>)
    requires
        c.gate_outcome(out) is Ok,
        c.outputs().len() > 0,
    ensures
        forall|i: int| 0 <= i < c.outputs().len() ==> contains_seq(lower_seq(out), lower_seq(#[trigger] c.outputs()[i])),
        forall|k: int| 0 <= k < c.missing_steps@.len() ==> !(#[trigger] c.missing_steps@[k]).blocking_yes_no,
        c.tvl_result == Some(TvlRunStatus::Verified),
        !unpromotable(c.claim_status),
{
    lemma_first_dropped_none(c.outputs(), out);
}

/// Only a verified loop result makes a verified claim.
pub proof fn law_only_verified_results_are_verified_claims(status: TvlRunStatus, unresolved: usize)
    ensures
        (claim_from_status(status) == ClaimStatus::VerifiedResult) == (status == TvlRunStatus::Verified),
        (claim_from_snapshot(status, unresolved) == ClaimStatus::VerifiedResult) == (status == TvlRunStatus::Verified),
{
}

/// A run whose iteration limit or call budget is used up stops: the loop cannot go on
/// forever.
pub proof fn law_exhausted_budget_stops(c: ApvlController)
    requires
        c.budget_exhausted(),
    ensures
        c.spec_decision() == ApvlDecision::Stop,
        c.spec_stop_reason() == StopReason::VerifiedComplete || c.spec_stop_reason() == StopReason::AcceptanceCriteriaMet
            || c.spec_stop_reason() == StopReason::ComputeBudgetExhausted,
{
}

/// While a pinned requirement is unresolved and the budget lasts, the run does not stop
/// unless every required output is done, no graph node has work left and the result is
/// verified.
pub proof fn law_unresolved_requirement_blocks_stop(c: ApvlController)
    requires
        c.unresolved_reqs().len() > 0,
        !c.budget_exhausted(),
        !(c.spec_coverage() && c.tvl_verified()),
    ensures
        c.spec_decision() == ApvlDecision::Refine || c.spec_decision() == ApvlDecision::Escalate,
{
}

/// Recording work never lists a requirement twice: completed work without repeats stays
/// without repeats when a requirement is recorded and the graph's completed nodes are
/// merged in.
pub proof fn law_completed_work_has_no_repeats(done: Seq<Seq<char>>, g: Seq<TaskGraphNode>, req: Seq<char>)
    requires
        done.no_duplicates(),
    ensures
        add_once(done, req).no_duplicates(),
        merged_completed(add_once(done, req), g).no_duplicates(),
        merged_completed(done, g).no_duplicates(),
{
    lemma_add_once_distinct(done, req);
    lemma_merged_distinct(add_once(done, req), g);
    lemma_merged_distinct(done, g);
}

proof fn lemma_add_once_distinct(done: Seq<Seq<char>>, x: Seq<char>)
    requires
        done.no_duplicates(),
    ensures
        add_once(done, x).no_duplicates(),
{
    if !done.contains(x) {
        let d = done.push(x);
        assert forall|i: int, j: int| 0 <= i < d.len() && 0 <= j < d.len() && i != j implies d[i] != d[j] by {
            if i == done.len() as int {
                assert(done[j] == d[j]);
            } else if j == done.len() as int {
                assert(done[i] == d[i]);
            }
        }
    }
}

proof fn lemma_merged_distinct(done: Seq<Seq<char>>, g: Seq<TaskGraphNode>)
    requires
        done.no_duplicates(),
    ensures
        merged_completed(done, g).no_duplicates(),
    decreases g.len(),
{
    if g.len() > 0 {
        lemma_merged_distinct(done, g.drop_last());
        lemma_add_once_distinct(merged_completed(done, g.drop_last()), g.last().requirement@);
    }
}

/// The unresolved count is the number of missing steps the state implies: one per
/// unresolved requirement, per open graph node and per missing output.
pub proof fn law_unresolved_count_is_missing_steps(c: ApvlController)
    ensures
        c.spec_unresolved() == c.implied_steps().len(),
{
    lemma_node_steps_len(c.task_graph@);
    lemma_count_missing_bound(c.outputs(), c.done());
}

proof fn lemma_merged_covers(d: Seq<Seq<char>>, g: Seq<TaskGraphNode>)
    ensures
        merged_completed(d, g).len() >= d.len(),
        merged_completed(d, g).subrange(0, d.len() as int) == d,
        forall|j: int| 0 <= j < g.len() && (#[trigger] g[j]).status == TaskNodeStatus::Complete ==> (
            merged_completed(d, g).contains(g[j].requirement@) || merged_completed(d, g).contains(g[j].id@)),
    decreases g.len(),
{
    if g.len() > 0 {
        let h = g.drop_last();
        lemma_merged_covers(d, h);
        let p = merged_completed(d, h);
        let m = merged_completed(d, g);
        assert(forall|x: Seq<char>| p.contains(x) ==> m.contains(x)) by {
            assert forall|x: Seq<char>| p.contains(x) implies m.contains(x) by {
                let k = choose|k: int| 0 <= k < p.len() && p[k] == x;
                assert(m[k] == x);
            }
        }
        assert forall|j: int| 0 <= j < g.len() && (#[trigger] g[j]).status == TaskNodeStatus::Complete implies (
            m.contains(g[j].requirement@) || m.contains(g[j].id@)) by {
            if j < g.len() - 1 {
                assert(h[j] == g[j]);
            } else if !(p.contains(g[j].requirement@) || p.contains(g[j].id@)) {
                assert(m[m.len() - 1] == g[j].requirement@);
            }
        }
        assert(m.subrange(0, d.len() as int) =~= d) by {
            assert forall|k: int| 0 <= k < d.len() implies m[k] == d[k] by {
                assert(p.subrange(0, d.len() as int)[k] == d[k]);
            }
        }
    }
}

proof fn lemma_merged_fixed(d: Seq<Seq<char>>, g: Seq<TaskGraphNode>)
    requires
        forall|j: int| 0 <= j < g.len() && (#[trigger] g[j]).status == TaskNodeStatus::Complete ==> (
            d.contains(g[j].requirement@) || d.contains(g[j].id@)),
    ensures
        merged_completed(d, g) == d,
    decreases g.len(),
{
    if g.len() > 0 {
        let h = g.drop_last();
        assert forall|j: int| 0 <= j < h.len() && (#[trigger] h[j]).status == TaskNodeStatus::Complete implies (
            d.contains(h[j].requirement@) || d.contains(h[j].id@)) by {
            assert(h[j] == g[j]);
        }
        lemma_merged_fixed(d, h);
        assert(g.last() == g[g.len() - 1]);
    }
}

/// Refreshing the durable state a second time changes nothing: the completed work,
/// the remaining work, the pinned lists and the missing steps stay as the first
/// refresh left them; and a refresh only ever appends to the completed work.
pub proof fn law_refresh_durable_idempotent(c1: ApvlController, c2: ApvlController, c3: ApvlController)
    requires
        durable_refresh(c1, c2),
        durable_refresh(c2, c3),
    ensures
        c2.done().subrange(0, c1.done().len() as int) == c1.done(),
        c3.task_graph == c2.task_graph,
        c3.done() == c2.done(),
        views(c3.durable_state.remaining_work@) == views(c2.durable_state.remaining_work@),
        views(c3.durable_state.constraints@) == views(c2.durable_state.constraints@),
        views(c3.durable_state.unresolved_requirements@) == views(c2.durable_state.unresolved_requirements@),
        views(c3.durable_state.open_questions@) == views(c2.durable_state.open_questions@),
        step_views(c3.missing_steps@) == step_views(c2.missing_steps@),
        controller_frame(c3, c2),
        c3.progress_state == c2.progress_state,
{
    let g = c1.task_graph@;
    lemma_merged_covers(c1.done(), g);
    lemma_merged_fixed(c2.done(), g);
}

/// Recording the same requirement twice leaves the controller as recording it once:
/// the graph, the completed work, the remaining work, the pinned lists and the missing
/// steps are those of the first record. After a record the requirement is among the
/// completed work and not among the remaining work, and the task spec is unchanged.
pub proof fn law_record_requirement_idempotent(c1: ApvlController, c2: ApvlController, c3: ApvlController, req: Seq<char>)
    requires
        requirement_recorded(c1, c2, req),
        requirement_recorded(c2, c3, req),
    ensures
        c2.done().contains(req),
        !views(c2.durable_state.remaining_work@).contains(req),
        c2.task_spec == c1.task_spec,
        c3.task_graph@ == c2.task_graph@,
        c3.done() == c2.done(),
        views(c3.durable_state.remaining_work@) == views(c2.durable_state.remaining_work@),
        views(c3.durable_state.constraints@) == views(c2.durable_state.constraints@),
        views(c3.durable_state.unresolved_requirements@) == views(c2.durable_state.unresolved_requirements@),
        views(c3.durable_state.open_questions@) == views(c2.durable_state.open_questions@),
        step_views(c3.missing_steps@) == step_views(c2.missing_steps@),
        c3.progress_state == c2.progress_state,
{
    let g2 = c2.task_graph@;
    assert(mark_complete(g2, req) =~= g2) by {
        assert forall|j: int| 0 <= j < g2.len() implies mark_complete(g2, req)[j] == g2[j] by {
            if node_matches(g2[j], req) {
                assert(node_matches(c1.task_graph@[j], req));
            }
        }
    }
    let a1 = add_once(c1.done(), req);
    lemma_merged_covers(a1, g2);
    assert(a1.contains(req)) by {
        if !c1.done().contains(req) {
            assert(a1[a1.len() - 1] == req);
        }
    }
    assert(c2.done().contains(req)) by {
        let k = choose|k: int| 0 <= k < a1.len() && a1[k] == req;
        assert(c2.done().subrange(0, a1.len() as int)[k] == req);
    }
    assert(add_once(c2.done(), req) == c2.done());
    lemma_merged_fixed(c2.done(), g2);
    lemma_not_done_excludes(c2.outputs(), c2.done(), req);
}

proof fn lemma_not_done_excludes(outs: Seq<Seq<char>>, done: Seq<Seq<char>>, x: Seq<char>)
    requires
        done.contains(x),
    ensures
        !not_done(outs, done).contains(x),
    decreases outs.len(),
{
    if outs.len() > 0 {
        lemma_not_done_excludes(outs.drop_last(), done, x);
        let p = not_done(outs.drop_last(), done);
        if !done.contains(outs.last()) {
            assert forall|k: int| 0 <= k < p.push(outs.last()).len() implies p.push(outs.last())[k] != x by {
                if k < p.len() {
                    assert(p.push(outs.last())[k] == p[k]);
                }
            }
        }
    }
}


/// How a run that is neither out of budget nor complete and verified reacts to being
/// stalled or blocked. With nothing blocking, a stalled run refines while refinement
/// passes remain and escalates once they are used up. With something blocking, the run
/// escalates exactly when it is stalled or out of refinement passes, and refines otherwise.
pub proof fn law_stalled_run_refines_then_escalates(c: ApvlController)
    requires
        !c.budget_exhausted(),
        !(c.spec_coverage() && c.tvl_verified()),
    ensures
        !c.blocking_missing() && c.stagnation_detected && c.refinement_count < c.max_refinement_passes
            ==> c.spec_decision() == ApvlDecision::Refine,
        !c.blocking_missing() && c.stagnation_detected && c.refinement_count >= c.max_refinement_passes
            ==> c.spec_decision() == ApvlDecision::Escalate,
        c.blocking_missing() ==> (c.spec_decision() == ApvlDecision::Escalate) == (c.stagnation_detected
            || c.refinement_count >= c.max_refinement_passes),
        c.blocking_missing() ==> (c.spec_decision() == ApvlDecision::Refine) == !(c.stagnation_detected
            || c.refinement_count >= c.max_refinement_passes),
{
}


/// The rest of the decision for a run that is neither out of budget, nor complete and
/// verified, nor blocked, nor stalled: a verification run that ended blocked, failed or
/// incomplete asks for refinement; otherwise complete coverage asks for verification.
/// Out of budget the run always stops, and complete and verified it stops too.
pub proof fn law_decision_after_verification(c: ApvlController)
    ensures
        c.budget_exhausted() ==> c.spec_decision() == ApvlDecision::Stop,
        c.spec_coverage() && c.tvl_verified() ==> c.spec_decision() == ApvlDecision::Stop,
        !c.budget_exhausted() && !(c.spec_coverage() && c.tvl_verified()) && !c.blocking_missing() && !c.stagnation_detected
            && (c.tvl_result == Some(TvlRunStatus::Blocked) || c.tvl_result == Some(TvlRunStatus::Failed)
            || c.tvl_result == Some(TvlRunStatus::Incomplete)) ==> c.spec_decision() == ApvlDecision::Refine,
        !c.budget_exhausted() && !c.blocking_missing() && !c.stagnation_detected && c.spec_coverage() && !c.tvl_verified()
            && !(c.tvl_result == Some(TvlRunStatus::Blocked) || c.tvl_result == Some(TvlRunStatus::Failed)
            || c.tvl_result == Some(TvlRunStatus::Incomplete)) ==> c.spec_decision() == ApvlDecision::Verify,
{
}

} // verus!
