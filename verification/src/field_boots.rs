//! Field boots: whether an action can run here and now (terrain, prerequisites,
//! permission, resources, route), how to step safely (preview, review), and what the
//! footprint of the attempt is, all in public-safe text.

use vstd::prelude::*;
use crate::order::{lex_le, lex_le_exec, lemma_lex_refl, lemma_lex_total, lemma_lex_trans, sorted_lt, sorted_unique};
use crate::text::{chars_of, contains_seq, lower_contains, lower_seq, owned, trim_text, trim_ws, views};

verus! {

#[derive(Debug, Clone, Copy, PartialEq, Eq, Structural)]
pub enum ExecutionReadinessState {
    Ready,
    Limited,
    PermissionRequired,
    EnvironmentBlocked,
    Unavailable,
}

#[derive(Debug, Clone, Copy, PartialEq, Eq, Structural)]
pub enum ExecutionRoute {
    Local,
    Remote,
    Blocked,
}

#[derive(Debug, Clone, PartialEq, Eq)]
pub struct KnownPrerequisite {
    pub name: String,
    pub available: bool,
    pub source: Option<String>,
}

#[derive(Debug, Clone, PartialEq, Eq)]
pub struct TerrainAwareness {
    pub operating_system: String,
    pub architecture: String,
    pub workspace_context: WorkspaceContext,
    pub execution_context: ExecutionContext,
    pub shell_available: bool,
    pub filesystem_available: bool,
    pub network_available: Option<bool>,
    pub known_prerequisites: Vec<KnownPrerequisite>,
    pub resource_health: ResourceHealth,
}

#[derive(Debug, Clone, PartialEq, Eq)]
pub struct WorkspaceContext {
    pub workspace_label: String,
    pub repo_detected: bool,
}

#[derive(Debug, Clone, PartialEq, Eq)]
pub struct ExecutionContext {
    pub remote_detected: Option<bool>,
}

#[derive(Debug, Clone, PartialEq, Eq)]
pub struct ResourceHealth {
    pub disk_healthy: Option<bool>,
    pub memory_healthy: Option<bool>,
}

#[derive(Debug, Clone, PartialEq, Eq)]
pub struct CapabilityReadiness {
    pub action_class: String,
    pub state: ExecutionReadinessState,
    pub reason: String,
    pub remediation: Option<String>,
}

#[derive(Debug, Clone, PartialEq, Eq)]
pub struct SafeStepMode {
    pub preview_supported: bool,
    pub preview_recommended: bool,
    pub preview_used: bool,
}

#[derive(Debug, Clone, PartialEq, Eq)]
pub struct RouteDecision {
    pub chosen_route: ExecutionRoute,
    pub reason: String,
}

#[derive(Debug, Clone, PartialEq, Eq)]
pub struct RecoveryGrip {
    pub checkpoint_available: bool,
    pub resume_available: bool,
    pub rollback_available: bool,
    pub irreversible_action_requires_review: bool,
}

#[derive(Debug, Clone, PartialEq, Eq)]
pub struct EvidenceFootprint {
    pub requested_action_class: String,
    pub chosen_route: ExecutionRoute,
    pub readiness_state: ExecutionReadinessState,
    pub preview_used: bool,
    pub execution_started: bool,
    pub execution_completed: bool,
    pub result_state: String,
}

#[derive(Debug, Clone, PartialEq, Eq)]
pub struct FieldBootsDecision {
    pub terrain_awareness: TerrainAwareness,
    pub readiness: CapabilityReadiness,
    pub traction_allowed: bool,
    pub safe_step_mode: SafeStepMode,
    pub pathfinder: RouteDecision,
    pub recovery_grip: RecoveryGrip,
    pub evidence_footprint: EvidenceFootprint,
    pub required_tools: Vec<String>,
    pub missing_prerequisites: Vec<String>,
}

#[derive(Debug, Clone, PartialEq, Eq)]
pub struct TerrainInput {
    pub workspace_hint: Option<String>,
    pub repo_detected: bool,
    pub remote_context_detected: Option<bool>,
    pub shell_available: bool,
    pub filesystem_available: bool,
    pub network_available: Option<bool>,
    pub known_prerequisites: Vec<KnownPrerequisite>,
    pub disk_healthy: Option<bool>,
    pub memory_healthy: Option<bool>,
}

/// A request to act. Tools are named by their keys (such as `execute` or `read`).
#[derive(Debug, Clone, PartialEq, Eq)]
pub struct FieldBootsRequest {
    pub action_class: String,
    pub required_tool_kinds: Vec<String>,
    pub missing_prerequisites: Vec<String>,
    pub requires_permission: bool,
    pub permission_granted: bool,
    pub resource_constrained: bool,
    pub expensive_action: bool,
    pub irreversible_action: bool,
    pub preview_supported: bool,
    pub preview_used: bool,
    pub remote_route_available: bool,
    pub checkpoint_available: bool,
    pub resume_available: bool,
    pub rollback_available: bool,
    pub execution_started: bool,
    pub execution_completed: bool,
    pub result_state: Option<String>,
}

// ---------------------------------------------------------------------------
// Public-safe text.
// ---------------------------------------------------------------------------

/// A path with a drive letter: a slash or backslash somewhere, and `:` as its second
/// byte (which, in UTF-8, means an ASCII first character followed by `:`).
pub open spec fn private_path(s: Seq<char>) -> bool {
    &&& (s.contains('\\') || s.contains('/'))
    &&& s.len() >= 2 && (s[0] as u32) < 128 && s[1] == ':'
}

/// Markers that must not reach public output (matched ignoring ASCII case).
pub open spec fn blocked_marker(lower: Seq<char>) -> bool {
    contains_seq(lower, "operator-research-private"@) || contains_seq(lower, "nine linked rings"@)
        || contains_seq(lower, "delta/353"@) || contains_seq(lower, "private benchmark"@)
        || contains_seq(lower, "secret"@) || contains_seq(lower, "token"@) || contains_seq(lower, "password"@)
        || contains_seq(lower, "api_key"@) || contains_seq(lower, "apikey"@)
}

/// The public form of a text: `[redacted]` when it holds a blocked marker or looks like
/// a private path, the text without outer white space otherwise.
pub open spec fn public_text(s: Seq<char>) -> Seq<char> {
    if blocked_marker(lower_seq(s)) || private_path(s) {
        "[redacted]"@
    } else {
        trim_ws(s)
    }
}

/// Whether the text looks like a private path with a drive letter.
pub fn looks_like_private_path(input: &str) -> (r: bool)
    ensures
        r == private_path(input@),
{
    let v = chars_of(input);
    let mut slashy = false;
    let mut i: usize = 0;
    while i < v.len()
        invariant
            v@ == input@,
            i <= v.len(),
            slashy == (v@.subrange(0, i as int).contains('\\') || v@.subrange(0, i as int).contains('/')),
        decreases v.len() - i,
    {
        proof {
            let a = v@.subrange(0, i as int);
            let b = v@.subrange(0, i + 1);
            assert(b =~= a.push(v@[i as int]));
            assert forall|c: char| b.contains(c) <==> (a.contains(c) || c == v@[i as int]) by {
                if b.contains(c) {
                    let k = choose|k: int| 0 <= k < b.len() && b[k] == c;
                    if k < a.len() {
                        assert(a[k] == c);
                    }
                }
                if a.contains(c) {
                    let k = choose|k: int| 0 <= k < a.len() && a[k] == c;
                    assert(b[k] == c);
                }
                if c == v@[i as int] {
                    assert(b[i as int] == c);
                }
            }
        }
        if v[i] == '\\' || v[i] == '/' {
            slashy = true;
        }
        i += 1;
    }
    proof {
        assert(v@.subrange(0, i as int) =~= v@);
    }
    let drive = v.len() >= 2 && (v[0] as u32) < 128 && v[1] == ':';
    slashy && drive
}

/// The public form of a text.
pub fn sanitize_public_text(input: &str) -> (r: String)
    ensures
        r@ == public_text(input@),
{
    if lower_contains(input, "operator-research-private") || lower_contains(input, "nine linked rings")
        || lower_contains(input, "delta/353") || lower_contains(input, "private benchmark")
        || lower_contains(input, "secret") || lower_contains(input, "token") || lower_contains(input, "password")
        || lower_contains(input, "api_key") || lower_contains(input, "apikey") || looks_like_private_path(input) {
        return owned("[redacted]");
    }
    trim_text(input)
}


// ---------------------------------------------------------------------------
// Terrain.
// ---------------------------------------------------------------------------

/// The text after the last `/` of a path (all of it when there is none).
pub open spec fn last_segment(h: Seq<char>) -> Seq<char>
    decreases h.len(),
{
    if h.len() == 0 {
        Seq::empty()
    } else if h.last() == '/' {
        Seq::empty()
    } else {
        last_segment(h.drop_last()).push(h.last())
    }
}

/// A path that either holds no colon, or starts with a drive (`C:/`) and holds no
/// other colon: on Windows a disk prefix with a root, on other systems an ordinary
/// first component.
pub open spec fn no_colon_but_drive(h: Seq<char>) -> bool {
    ||| !h.contains(':')
    ||| {
        &&& h.len() >= 3
        &&& (('a' <= h[0] && h[0] <= 'z') || ('A' <= h[0] && h[0] <= 'Z'))
        &&& h[1] == ':'
        &&& h[2] == '/'
        &&& !h.subrange(2, h.len() as int).contains(':')
    }
}

/// A path whose final component is, on every platform, the text after its last `/`:
/// it holds no backslash and no colon but a leading drive such as `C:/` (so no other
/// Windows prefix), does not start with two slashes, and that text is neither empty
/// nor `.` nor `..`.
pub open spec fn plain_path(h: Seq<char>) -> bool {
    &&& !h.contains('\\')
    &&& no_colon_but_drive(h)
    &&& !(h.len() >= 2 && h[0] == '/' && h[1] == '/')
    &&& last_segment(h).len() > 0
    &&& last_segment(h) != "."@
    &&& last_segment(h) != ".."@
}

/// `std::path::Path::file_name`: the final component of a path, `None` when the path
/// ends in `..` or is a root. The contract claims that a name found occurs in the
/// path and holds no `/`, and that for a plain path (see [`plain_path`]) the name is
/// the text after its last `/`: components are separated by `/` on every platform,
/// and a trailing `.` is not a component of its own. Which component is found for
/// other paths depends on the platform's separators and prefixes.
#[verifier::external_body]
fn path_file_name(path: &str) -> (r: Option<String>)
    ensures
        r matches Some(x) ==> contains_seq(path@, x@) && !x@.contains('/') && (plain_path(path@) ==> x@
            == last_segment(path@)),
        r is Some || !plain_path(path@),
{
    match std::path::Path::new(path).file_name() {
        Some(name) => match name.to_str() {
            Some(s) => Some(s.to_string()),
            None => None,
        },
        None => None,
    }
}

/// The public workspace label for a path's final component: `workspace` when there is
/// none.
pub open spec fn label_of_leaf(leaf: Option<Seq<char>>) -> Seq<char> {
    match leaf {
        Some(x) => public_text(x),
        None => public_text("workspace"@),
    }
}

/// The public workspace label for a path's final component.
pub fn label_from_leaf(leaf: Option<&str>) -> (r: String)
    ensures
        r@ == label_of_leaf(match leaf { Some(x) => Some(x@), None => None }),
{
    match leaf {
        Some(x) => sanitize_public_text(x),
        None => sanitize_public_text("workspace"),
    }
}

/// The public label of a workspace: `workspace` without a hint; otherwise the public
/// form of the hint's final path component (or of `workspace` when it has none).
pub fn sanitize_workspace_label(workspace_hint: Option<&str>) -> (r: String)
    ensures
        workspace_hint is None ==> r@ == "workspace"@,
        workspace_hint matches Some(h) ==> exists|leaf: Option<Seq<char>>| r@ == label_of_leaf(leaf)
            && (leaf matches Some(x) ==> contains_seq(h@, x) && !x.contains('/')),
        workspace_hint matches Some(h) ==> (plain_path(h@) ==> r@ == public_text(last_segment(h@))),
{
    match workspace_hint {
        None => owned("workspace"),
        Some(h) => {
            let leaf = path_file_name(h);
            let r = match &leaf {
                Some(x) => label_from_leaf(Some(x.as_str())),
                None => label_from_leaf(None),
            };
            proof {
                let l = match leaf { Some(x) => Some(x@), None => None };
                assert(r@ == label_of_leaf(l));
            }
            r
        },
    }
}

/// A known prerequisite with its strings as characters.
pub struct PrereqView {
    pub name: Seq<char>,
    pub available: bool,
    pub source: Option<Seq<char>>,
}

impl View for KnownPrerequisite {
    type V = PrereqView;

    open spec fn view(&self) -> PrereqView {
        PrereqView {
            name: self.name@,
            available: self.available,
            source: match self.source { Some(s) => Some(s@), None => None },
        }
    }
}

pub open spec fn prereq_views(s: Seq<KnownPrerequisite>) -> Seq<PrereqView> {
    Seq::new(s.len(), |i: int| s[i]@)
}

/// A prerequisite in public form: name and source sanitized.
pub open spec fn public_prereq(p: PrereqView) -> PrereqView {
    PrereqView {
        name: public_text(p.name),
        available: p.available,
        source: match p.source { Some(s) => Some(public_text(s)), None => None },
    }
}

/// The entries named `n`, in order.
pub open spec fn by_name(s: Seq<PrereqView>, n: Seq<char>) -> Seq<PrereqView>
    decreases s.len(),
{
    if s.len() == 0 {
        Seq::empty()
    } else if s.last().name == n {
        by_name(s.drop_last(), n).push(s.last())
    } else {
        by_name(s.drop_last(), n)
    }
}

/// `out` is `inp` sorted by name, keeping the order of entries with equal names.
pub open spec fn stably_sorted_by_name(out: Seq<PrereqView>, inp: Seq<PrereqView>) -> bool {
    &&& forall|i: int, j: int| 0 <= i < j < out.len() ==> lex_le(out[i].name, out[j].name)
    &&& forall|n: Seq<char>| #[trigger] by_name(out, n) == by_name(inp, n)
}

proof fn lemma_by_name_append(a: Seq<PrereqView>, b: Seq<PrereqView>, n: Seq<char>)
    ensures
        by_name(a + b, n) == by_name(a, n) + by_name(b, n),
    decreases b.len(),
{
    if b.len() == 0 {
        assert(a + b =~= a);
        assert(by_name(a, n) + by_name(b, n) =~= by_name(a, n));
    } else {
        lemma_by_name_append(a, b.drop_last(), n);
        assert((a + b).drop_last() =~= a + b.drop_last());
        assert((a + b).last() == b.last());
        if b.last().name == n {
            assert(by_name(a, n) + by_name(b.drop_last(), n).push(b.last()) =~= (by_name(a, n) + by_name(b.drop_last(), n)).push(b.last()));
        }
    }
}

proof fn lemma_by_name_none(b: Seq<PrereqView>, n: Seq<char>)
    requires
        forall|k: int| 0 <= k < b.len() ==> (#[trigger] b[k]).name != n,
    ensures
        by_name(b, n) == Seq::<PrereqView>::empty(),
    decreases b.len(),
{
    if b.len() > 0 {
        assert forall|k: int| 0 <= k < b.drop_last().len() implies (#[trigger] b.drop_last()[k]).name != n by {
            assert(b.drop_last()[k] == b[k]);
        }
        lemma_by_name_none(b.drop_last(), n);
        assert(b.last() == b[b.len() - 1]);
    }
}

fn copy_opt(o: &Option<String>) -> (r: Option<String>)
    ensures
        (match r { Some(s) => Some(s@), None => None }) == (match *o { Some(s) => Some(s@), None => None }),
{
    match o {
        Some(s) => Some(s.clone()),
        None => None,
    }
}

fn public_prerequisite(p: &KnownPrerequisite) -> (r: KnownPrerequisite)
    ensures
        r@ == public_prereq(p@),
{
    KnownPrerequisite {
        name: sanitize_public_text(p.name.as_str()),
        available: p.available,
        source: match &p.source {
            Some(s) => Some(sanitize_public_text(s.as_str())),
            None => None,
        },
    }
}

/// The prerequisites in public form, sorted by name (entries with equal names keep
/// their order).
fn public_prerequisites(v: &Vec<KnownPrerequisite>) -> (r: Vec<KnownPrerequisite>)
    ensures
        stably_sorted_by_name(prereq_views(r@), Seq::new(v@.len(), |i: int| public_prereq(v@[i]@))),
{
    let ghost want = Seq::new(v@.len(), |i: int| public_prereq(v@[i]@));
    let mut r: Vec<KnownPrerequisite> = Vec::new();
    let mut i: usize = 0;
    while i < v.len()
        invariant
            i <= v.len(),
            want == Seq::new(v@.len(), |i: int| public_prereq(v@[i]@)),
            stably_sorted_by_name(prereq_views(r@), want.subrange(0, i as int)),
        decreases v.len() - i,
    {
        let x = public_prerequisite(&v[i]);
        let ghost rv = prereq_views(r@);
        let mut p: usize = 0;
        while p < r.len() && lex_le_exec(r[p].name.as_str(), x.name.as_str())
            invariant
                p <= r.len(),
                rv == prereq_views(r@),
                forall|k: int| 0 <= k < p ==> lex_le(#[trigger] rv[k].name, x@.name),
            decreases r.len() - p,
        {
            p += 1;
        }
        let ghost xv = x@;
        r.insert(p, x);
        proof {
            let nv = prereq_views(r@);
            assert(nv =~= rv.insert(p as int, xv));
            // entries from p on are named after x
            assert forall|k: int| p <= k < rv.len() implies lex_le(xv.name, #[trigger] rv[k].name) && rv[k].name != xv.name by {
                assert(!lex_le(rv[p as int].name, xv.name));
                lemma_lex_total(rv[p as int].name, xv.name);
                if k > p {
                    lemma_lex_trans(xv.name, rv[p as int].name, rv[k].name);
                }
                if rv[k].name == xv.name {
                    if k > p {
                        lemma_lex_trans(rv[p as int].name, rv[k].name, xv.name);
                        lemma_lex_refl(xv.name);
                    }
                }
            }
            assert forall|a: int, b: int| 0 <= a < b < nv.len() implies lex_le(nv[a].name, nv[b].name) by {
                if b < p {
                    assert(nv[a] == rv[a] && nv[b] == rv[b]);
                } else if b == p {
                    assert(nv[a] == rv[a] && nv[b] == xv);
                } else if a < p {
                    assert(nv[a] == rv[a] && nv[b] == rv[b - 1]);
                    lemma_lex_trans(rv[a].name, xv.name, rv[b - 1].name);
                } else if a == p {
                    assert(nv[a] == xv && nv[b] == rv[b - 1]);
                } else {
                    assert(nv[a] == rv[a - 1] && nv[b] == rv[b - 1]);
                }
            }
            let pre = rv.subrange(0, p as int);
            let post = rv.subrange(p as int, rv.len() as int);
            assert(rv =~= pre + post);
            assert(nv =~= pre + seq![xv] + post);
            assert(want.subrange(0, i + 1) =~= want.subrange(0, i as int).push(xv));
            assert forall|n: Seq<char>| #[trigger] by_name(nv, n) == by_name(want.subrange(0, i + 1), n) by {
                lemma_by_name_append(pre + seq![xv], post, n);
                lemma_by_name_append(pre, seq![xv], n);
                lemma_by_name_append(pre, post, n);
                assert(seq![xv].drop_last() =~= Seq::<PrereqView>::empty());
                assert(seq![xv].last() == xv);
                assert(by_name(seq![xv].drop_last(), n) =~= Seq::<PrereqView>::empty());
                let one = by_name(seq![xv], n);
                assert(xv.name == n ==> one =~= seq![xv]);
                assert(xv.name != n ==> one =~= Seq::<PrereqView>::empty());
                assert(by_name(nv, n) == by_name(pre, n) + one + by_name(post, n));
                if xv.name == n {
                    assert forall|k: int| 0 <= k < post.len() implies (#[trigger] post[k]).name != n by {
                        assert(post[k] == rv[p + k]);
                    }
                    lemma_by_name_none(post, n);
                    assert(by_name(rv, n) == by_name(pre, n) + by_name(post, n));
                    assert(by_name(rv, n) =~= by_name(pre, n));
                    assert(by_name(nv, n) =~= by_name(pre, n).push(xv));
                } else {
                    assert(by_name(nv, n) =~= by_name(pre, n) + by_name(post, n));
                }
                assert(want.subrange(0, i + 1).drop_last() =~= want.subrange(0, i as int));
            }
        }
        i += 1;
    }
    proof {
        assert(want.subrange(0, i as int) =~= want);
    }
    r
}

/// The terrain in public form; the operating system and architecture are those of the
/// host.
pub fn build_terrain(input: TerrainInput, operating_system: &str, architecture: &str) -> (t: TerrainAwareness)
    ensures
        t.operating_system@ == operating_system@,
        t.architecture@ == architecture@,
        input.workspace_hint is None ==> t.workspace_context.workspace_label@ == "workspace"@,
        input.workspace_hint matches Some(h) ==> exists|leaf: Option<Seq<char>>|
            t.workspace_context.workspace_label@ == label_of_leaf(leaf)
            && (leaf matches Some(x) ==> contains_seq(h@, x) && !x.contains('/')),
        input.workspace_hint matches Some(h) ==> (plain_path(h@)
            ==> t.workspace_context.workspace_label@ == public_text(last_segment(h@))),
        t.workspace_context.repo_detected == input.repo_detected,
        t.execution_context.remote_detected == input.remote_context_detected,
        t.shell_available == input.shell_available,
        t.filesystem_available == input.filesystem_available,
        t.network_available == input.network_available,
        stably_sorted_by_name(prereq_views(t.known_prerequisites@),
            Seq::new(input.known_prerequisites@.len(), |i: int| public_prereq(input.known_prerequisites@[i]@))),
        t.resource_health.disk_healthy == input.disk_healthy,
        t.resource_health.memory_healthy == input.memory_healthy,
{
    let known_prerequisites = public_prerequisites(&input.known_prerequisites);
    let label = match &input.workspace_hint {
        Some(h) => sanitize_workspace_label(Some(h.as_str())),
        None => sanitize_workspace_label(None),
    };
    TerrainAwareness {
        operating_system: owned(operating_system),
        architecture: owned(architecture),
        workspace_context: WorkspaceContext { workspace_label: label, repo_detected: input.repo_detected },
        execution_context: ExecutionContext { remote_detected: input.remote_context_detected },
        shell_available: input.shell_available,
        filesystem_available: input.filesystem_available,
        network_available: input.network_available,
        known_prerequisites,
        resource_health: ResourceHealth { disk_healthy: input.disk_healthy, memory_healthy: input.memory_healthy },
    }
}


// ---------------------------------------------------------------------------
// Readiness and routes.
// ---------------------------------------------------------------------------

/// The local route when every required tool is here, else the remote route when one
/// exists, else none.
pub open spec fn route_of(local_route_available: bool, remote_route_available: bool) -> ExecutionRoute {
    if local_route_available {
        ExecutionRoute::Local
    } else if remote_route_available {
        ExecutionRoute::Remote
    } else {
        ExecutionRoute::Blocked
    }
}

pub open spec fn route_reason_of(route: ExecutionRoute) -> Seq<char> {
    match route {
        ExecutionRoute::Local => "Selected local route because it is available and deterministic."@,
        ExecutionRoute::Remote => "Selected remote route because local route is unavailable and a remote route exists."@,
        ExecutionRoute::Blocked => "No valid execution route is available."@,
    }
}

/// Readiness, reason and remediation, checked in order: shell, filesystem, missing
/// prerequisites, permission, resource pressure, route.
pub open spec fn readiness_of(
    shell_available: bool,
    filesystem_available: bool,
    prerequisites_missing: bool,
    requires_permission: bool,
    permission_granted: bool,
    resource_constrained: bool,
    local_route_available: bool,
    route: ExecutionRoute,
) -> (ExecutionReadinessState, Seq<char>, Option<Seq<char>>) {
    if !shell_available {
        (ExecutionReadinessState::EnvironmentBlocked, "Shell execution is unavailable in the current environment."@,
            Some("Use an environment with a supported shell route before executing commands."@))
    } else if !filesystem_available {
        (ExecutionReadinessState::EnvironmentBlocked, "Filesystem access is unavailable in the current environment."@,
            Some("Enable filesystem access or run in an environment that exposes workspace files."@))
    } else if prerequisites_missing {
        (ExecutionReadinessState::EnvironmentBlocked, "Required runtime prerequisites are missing for this action."@,
            Some("Install or enable the missing prerequisites before executing this action."@))
    } else if requires_permission && !permission_granted {
        (ExecutionReadinessState::PermissionRequired, "Execution requires explicit permission in the current session mode."@,
            Some("Grant permission for execution, then retry."@))
    } else if resource_constrained {
        (ExecutionReadinessState::Limited, "Resource pressure detected; execution should proceed with caution."@,
            Some("Run a preview first or reduce resource usage before full execution."@))
    } else if !local_route_available && route != ExecutionRoute::Remote {
        (ExecutionReadinessState::Unavailable, "No available execution route supports this action right now."@,
            Some("Enable the required execution tool or provide an existing alternate route."@))
    } else {
        (ExecutionReadinessState::Ready, "Execution prerequisites are satisfied for this action."@, None)
    }
}

fn choose_route(local_route_available: bool, remote_route_available: bool) -> (r: ExecutionRoute)
    ensures
        r == route_of(local_route_available, remote_route_available),
{
    if local_route_available {
        return ExecutionRoute::Local;
    }
    if remote_route_available {
        return ExecutionRoute::Remote;
    }
    ExecutionRoute::Blocked
}

fn route_reason(route: ExecutionRoute) -> (r: String)
    ensures
        r@ == route_reason_of(route),
{
    match route {
        ExecutionRoute::Local => owned("Selected local route because it is available and deterministic."),
        ExecutionRoute::Remote => owned(
            "Selected remote route because local route is unavailable and a remote route exists.",
        ),
        ExecutionRoute::Blocked => owned("No valid execution route is available."),
    }
}

fn determine_readiness(
    terrain: &TerrainAwareness,
    request: &FieldBootsRequest,
    local_route_available: bool,
    route: ExecutionRoute,
    missing_prerequisites: &Vec<String>,
) -> (r: (ExecutionReadinessState, String, Option<String>))
    ensures
        ({
            let (st, reason, rem) = readiness_of(terrain.shell_available, terrain.filesystem_available,
                missing_prerequisites.len() > 0, request.requires_permission, request.permission_granted,
                request.resource_constrained, local_route_available, route);
            &&& r.0 == st
            &&& r.1@ == reason
            &&& (match r.2 { Some(x) => Some(x@), None => None }) == rem
        }),
{
    if !terrain.shell_available {
        return (
            ExecutionReadinessState::EnvironmentBlocked,
            owned("Shell execution is unavailable in the current environment."),
            Some(owned("Use an environment with a supported shell route before executing commands.")),
        );
    }
    if !terrain.filesystem_available {
        return (
            ExecutionReadinessState::EnvironmentBlocked,
            owned("Filesystem access is unavailable in the current environment."),
            Some(owned("Enable filesystem access or run in an environment that exposes workspace files.")),
        );
    }
    if missing_prerequisites.len() > 0 {
        return (
            ExecutionReadinessState::EnvironmentBlocked,
            owned("Required runtime prerequisites are missing for this action."),
            Some(owned("Install or enable the missing prerequisites before executing this action.")),
        );
    }
    if request.requires_permission && !request.permission_granted {
        return (
            ExecutionReadinessState::PermissionRequired,
            owned("Execution requires explicit permission in the current session mode."),
            Some(owned("Grant permission for execution, then retry.")),
        );
    }
    if request.resource_constrained {
        return (
            ExecutionReadinessState::Limited,
            owned("Resource pressure detected; execution should proceed with caution."),
            Some(owned("Run a preview first or reduce resource usage before full execution.")),
        );
    }
    if !local_route_available && route != ExecutionRoute::Remote {
        return (
            ExecutionReadinessState::Unavailable,
            owned("No available execution route supports this action right now."),
            Some(owned("Enable the required execution tool or provide an existing alternate route.")),
        );
    }
    (ExecutionReadinessState::Ready, owned("Execution prerequisites are satisfied for this action."), None)
}

impl FieldBootsRequest {
    /// A request for an action class that needs the `execute` tool and permission (already
    /// granted), with nothing else set.
    pub fn new(action_class: &str) -> (r: FieldBootsRequest)
        ensures
            r.action_class@ == action_class@,
            views(r.required_tool_kinds@) == seq!["execute"@],
            r.missing_prerequisites@.len() == 0,
            r.requires_permission,
            r.permission_granted,
            !r.resource_constrained,
            !r.expensive_action,
            !r.irreversible_action,
            !r.preview_supported,
            !r.preview_used,
            !r.remote_route_available,
            !r.checkpoint_available,
            !r.resume_available,
            !r.rollback_available,
            !r.execution_started,
            !r.execution_completed,
            r.result_state is None,
    {
        let r = FieldBootsRequest {
            action_class: owned(action_class),
            required_tool_kinds: vec![owned("execute")],
            missing_prerequisites: Vec::new(),
            requires_permission: true,
            permission_granted: true,
            resource_constrained: false,
            expensive_action: false,
            irreversible_action: false,
            preview_supported: false,
            preview_used: false,
            remote_route_available: false,
            checkpoint_available: false,
            resume_available: false,
            rollback_available: false,
            execution_started: false,
            execution_completed: false,
            result_state: None,
        };
        proof {
            assert(views(r.required_tool_kinds@) =~= seq!["execute"@]);
        }
        r
    }
}

impl Default for TerrainInput {
    /// A healthy local terrain: repository, shell and filesystem present, nothing else known.
    fn default() -> (t: TerrainInput)
        ensures
            t.workspace_hint is None,
            t.repo_detected,
            t.remote_context_detected is None,
            t.shell_available,
            t.filesystem_available,
            t.network_available is None,
            t.known_prerequisites@.len() == 0,
            t.disk_healthy is None,
            t.memory_healthy is None,
    {
        TerrainInput {
            workspace_hint: None,
            repo_detected: true,
            remote_context_detected: None,
            shell_available: true,
            filesystem_available: true,
            network_available: None,
            known_prerequisites: Vec::new(),
            disk_healthy: None,
            memory_healthy: None,
        }
    }
}

/// What the footprint records as the result: not started, in progress, the public form
/// of the reported state, or completed.
pub open spec fn result_state_of(started: bool, completed: bool, state: Option<Seq<char>>) -> Seq<char> {
    if !started {
        "not_started"@
    } else if !completed {
        "in_progress"@
    } else {
        match state {
            Some(s) => public_text(s),
            None => "completed"@,
        }
    }
}

fn public_strings(v: &Vec<String>) -> (r: Vec<String>)
    ensures
        views(r@) == Seq::new(v@.len(), |i: int| public_text(v@[i]@)),
{
    let mut r: Vec<String> = Vec::new();
    let mut i: usize = 0;
    while i < v.len()
        invariant
            i <= v.len(),
            views(r@) == Seq::new(i as nat, |k: int| public_text(v@[k]@)),
        decreases v.len() - i,
    {
        let ghost before = views(r@);
        r.push(sanitize_public_text(v[i].as_str()));
        proof {
            assert(views(r@) =~= before.push(public_text(v@[i as int]@)));
        }
        i += 1;
        proof {
            assert(views(r@) =~= Seq::new(i as nat, |k: int| public_text(v@[k]@)));
        }
    }
    r
}

fn all_available(required: &Vec<String>, available: &[String]) -> (r: bool)
    ensures
        r == forall|i: int| 0 <= i < required@.len() ==> Seq::new(available@.len(), |k: int| available@[k]@).contains(
            #[trigger] required@[i]@),
{
    let ghost av = Seq::new(available@.len(), |k: int| available@[k]@);
    let mut i: usize = 0;
    while i < required.len()
        invariant
            i <= required@.len(),
            av == Seq::new(available@.len(), |k: int| available@[k]@),
            forall|j: int| 0 <= j < i ==> av.contains(#[trigger] required@[j]@),
        decreases required@.len() - i,
    {
        let mut k: usize = 0;
        let mut found = false;
        while k < available.len()
            invariant
                k <= available@.len(),
                i < required@.len(),
                av == Seq::new(available@.len(), |k: int| available@[k]@),
                found == exists|m: int| 0 <= m < k && av[m] == required@[i as int]@,
            decreases available@.len() - k,
        {
            if crate::text::same_text(available[k].as_str(), required[i].as_str()) {
                found = true;
            }
            proof {
                assert(av[k as int] == available@[k as int]@);
                if found {
                    if av[k as int] == required@[i as int]@ {
                        assert(exists|m: int| 0 <= m < k + 1 && av[m] == required@[i as int]@);
                    }
                }
                if exists|m: int| 0 <= m < k + 1 && av[m] == required@[i as int]@ {
                    let m = choose|m: int| 0 <= m < k + 1 && av[m] == required@[i as int]@;
                    if m < k {
                        assert(exists|m2: int| 0 <= m2 < k && av[m2] == required@[i as int]@);
                    }
                }
            }
            k += 1;
        }
        if !found {
            proof {
                assert(!av.contains(required@[i as int]@));
            }
            return false;
        }
        i += 1;
    }
    true
}


/// Every required tool key is among the available ones.
pub open spec fn tools_present(required: Seq<Seq<char>>, available: Seq<Seq<char>>) -> bool {
    forall|i: int| 0 <= i < required.len() ==> available.contains(#[trigger] required[i])
}

/// The decision for an action: terrain, readiness, whether it may proceed (ready or
/// limited), safe-step advice, route, recovery options and footprint, in public form.
/// The host's operating system and architecture are passed in.
pub fn evaluate_field_boots(
    terrain_input: TerrainInput,
    request: FieldBootsRequest,
    available_tool_kinds: &[String],
    operating_system: &str,
    architecture: &str,
) -> (d: FieldBootsDecision)
    ensures
        ({
            let req_keys = views(request.required_tool_kinds@);
            let avail = Seq::new(available_tool_kinds@.len(), |k: int| available_tool_kinds@[k]@);
            let local = tools_present(req_keys, avail);
            let route = route_of(local, request.remote_route_available);
            let missing = views(d.missing_prerequisites@);
            let (st, reason, rem) = readiness_of(terrain_input.shell_available, terrain_input.filesystem_available,
                missing.len() > 0, request.requires_permission, request.permission_granted,
                request.resource_constrained, local, route);
            &&& sorted_lt(views(d.required_tools@))
            &&& forall|x: Seq<char>| views(d.required_tools@).contains(x) <==> req_keys.contains(x)
            &&& sorted_lt(missing)
            &&& forall|x: Seq<char>| missing.contains(x) <==> Seq::new(request.missing_prerequisites@.len(),
                |i: int| public_text(request.missing_prerequisites@[i]@)).contains(x)
            &&& d.pathfinder.chosen_route == route
            &&& d.pathfinder.reason@ == route_reason_of(route)
            &&& d.readiness.action_class@ == public_text(request.action_class@)
            &&& d.readiness.state == st
            &&& d.readiness.reason@ == reason
            &&& (match d.readiness.remediation { Some(x) => Some(x@), None => None }) == rem
            &&& d.traction_allowed == (st == ExecutionReadinessState::Ready || st == ExecutionReadinessState::Limited)
            &&& d.safe_step_mode == (SafeStepMode {
                preview_supported: request.preview_supported,
                preview_recommended: request.preview_supported && (request.irreversible_action || request.expensive_action
                    || request.resource_constrained),
                preview_used: request.preview_used,
            })
            &&& d.recovery_grip == (RecoveryGrip {
                checkpoint_available: request.checkpoint_available,
                resume_available: request.resume_available,
                rollback_available: request.rollback_available,
                irreversible_action_requires_review: request.irreversible_action && !request.preview_used,
            })
            &&& d.evidence_footprint.requested_action_class@ == public_text(request.action_class@)
            &&& d.evidence_footprint.chosen_route == route
            &&& d.evidence_footprint.readiness_state == st
            &&& d.evidence_footprint.preview_used == request.preview_used
            &&& d.evidence_footprint.execution_started == request.execution_started
            &&& d.evidence_footprint.execution_completed == request.execution_completed
            &&& d.evidence_footprint.result_state@ == result_state_of(request.execution_started,
                request.execution_completed, match request.result_state { Some(x) => Some(x@), None => None })
            &&& d.terrain_awareness.operating_system@ == operating_system@
            &&& d.terrain_awareness.architecture@ == architecture@
            &&& d.terrain_awareness.shell_available == terrain_input.shell_available
            &&& d.terrain_awareness.filesystem_available == terrain_input.filesystem_available
            &&& d.terrain_awareness.network_available == terrain_input.network_available
            &&& d.terrain_awareness.workspace_context.repo_detected == terrain_input.repo_detected
            &&& d.terrain_awareness.execution_context.remote_detected == terrain_input.remote_context_detected
            &&& d.terrain_awareness.resource_health.disk_healthy == terrain_input.disk_healthy
            &&& d.terrain_awareness.resource_health.memory_healthy == terrain_input.memory_healthy
            &&& stably_sorted_by_name(prereq_views(d.terrain_awareness.known_prerequisites@),
                Seq::new(terrain_input.known_prerequisites@.len(), |i: int| public_prereq(terrain_input.known_prerequisites@[i]@)))
            &&& (terrain_input.workspace_hint is None ==> d.terrain_awareness.workspace_context.workspace_label@ == "workspace"@)
            &&& (terrain_input.workspace_hint matches Some(h) ==> (plain_path(h@)
                ==> d.terrain_awareness.workspace_context.workspace_label@ == public_text(last_segment(h@))))
        }),
{
    let ghost tin = terrain_input;
    let terrain = build_terrain(terrain_input, operating_system, architecture);
    let required_tools = sorted_unique(crate::text::clone_strings(&request.required_tool_kinds));
    let local_route_available = all_available(&required_tools, available_tool_kinds);
    proof {
        let req_keys = views(request.required_tool_kinds@);
        let avail = Seq::new(available_tool_kinds@.len(), |k: int| available_tool_kinds@[k]@);
        let rt = views(required_tools@);
        assert(local_route_available == tools_present(rt, avail)) by {
            if local_route_available {
                assert forall|i: int| 0 <= i < rt.len() implies avail.contains(#[trigger] rt[i]) by {
                    assert(rt[i] == required_tools@[i]@);
                }
            } else {
                let i = choose|i: int| 0 <= i < required_tools@.len() && !avail.contains(#[trigger] required_tools@[i]@);
                assert(rt[i] == required_tools@[i]@);
            }
        }
        assert(tools_present(rt, avail) == tools_present(req_keys, avail)) by {
            if tools_present(rt, avail) {
                assert forall|i: int| 0 <= i < req_keys.len() implies avail.contains(#[trigger] req_keys[i]) by {
                    assert(req_keys.contains(req_keys[i]));
                    assert(rt.contains(req_keys[i]));
                }
            }
            if tools_present(req_keys, avail) {
                assert forall|i: int| 0 <= i < rt.len() implies avail.contains(#[trigger] rt[i]) by {
                    assert(rt.contains(rt[i]));
                    assert(req_keys.contains(rt[i]));
                    let j = choose|j: int| 0 <= j < req_keys.len() && req_keys[j] == rt[i];
                }
            }
        }
    }
    let route = choose_route(local_route_available, request.remote_route_available);
    let missing_prerequisites = sorted_unique(public_strings(&request.missing_prerequisites));
    let action_class = sanitize_public_text(request.action_class.as_str());
    let (readiness_state, reason, remediation) = determine_readiness(
        &terrain,
        &request,
        local_route_available,
        route,
        &missing_prerequisites,
    );
    proof {
        assert(missing_prerequisites@.len() == views(missing_prerequisites@).len());
    }
    let preview_recommended = request.preview_supported && (request.irreversible_action || request.expensive_action
        || request.resource_constrained);
    let irreversible_requires_review = request.irreversible_action && !request.preview_used;
    let result_state = if !request.execution_started {
        owned("not_started")
    } else if !request.execution_completed {
        owned("in_progress")
    } else {
        match &request.result_state {
            Some(state) => sanitize_public_text(state.as_str()),
            None => owned("completed"),
        }
    };
    let traction_allowed = readiness_state == ExecutionReadinessState::Ready
        || readiness_state == ExecutionReadinessState::Limited;
    let pathfinder = RouteDecision { chosen_route: route, reason: route_reason(route) };
    let evidence_footprint = EvidenceFootprint {
        requested_action_class: action_class.clone(),
        chosen_route: route,
        readiness_state,
        preview_used: request.preview_used,
        execution_started: request.execution_started,
        execution_completed: request.execution_completed,
        result_state,
    };
    let readiness = CapabilityReadiness { action_class, state: readiness_state, reason, remediation };
    FieldBootsDecision {
        terrain_awareness: terrain,
        readiness,
        traction_allowed,
        safe_step_mode: SafeStepMode {
            preview_supported: request.preview_supported,
            preview_recommended,
            preview_used: request.preview_used,
        },
        pathfinder,
        recovery_grip: RecoveryGrip {
            checkpoint_available: request.checkpoint_available,
            resume_available: request.resume_available,
            rollback_available: request.rollback_available,
            irreversible_action_requires_review: irreversible_requires_review,
        },
        evidence_footprint,
        required_tools,
        missing_prerequisites,
    }
}

// ---------------------------------------------------------------------------
// Laws.
// ---------------------------------------------------------------------------

/// An action may proceed (ready or limited) only on a working shell and filesystem, with
/// no prerequisite missing and permission granted where it is needed; a ready action
/// always has a route (local, or remote where local is missing).
pub proof fn law_traction_needs_a_working_route(
    shell: bool,
    fs: bool,
    missing: bool,
    needs_permission: bool,
    granted: bool,
    constrained: bool,
    local: bool,
    remote: bool,
)
    ensures
        ({
            let st = readiness_of(shell, fs, missing, needs_permission, granted, constrained, local, route_of(local, remote)).0;
            &&& (st == ExecutionReadinessState::Ready || st == ExecutionReadinessState::Limited) ==> (shell && fs && !missing
                && (!needs_permission || granted))
            &&& st == ExecutionReadinessState::Ready ==> route_of(local, remote) != ExecutionRoute::Blocked
        }),
{
}

/// Public text never carries a credential-like marker: when the lower-cased text holds
/// one of the blocked markers, the output is the redaction mark.
pub proof fn law_public_text_redacts_markers(s: Seq<char>)
    requires
        blocked_marker(lower_seq(s)) || private_path(s),
    ensures
        public_text(s) == "[redacted]"@,
{
}


/// The route of an action: local whenever every required tool kind is available here,
/// whatever the remote side offers; remote only when the local route is missing and a
/// remote one exists; otherwise none.
pub proof fn law_route_prefers_local(required: Seq<Seq<char>>, available: Seq<Seq<char>>, remote: bool)
    ensures
        (forall|i: int| 0 <= i < required.len() ==> available.contains(#[trigger] required[i]))
            ==> route_of(tools_present(required, available), remote) == ExecutionRoute::Local,
        (route_of(tools_present(required, available), remote) == ExecutionRoute::Local)
            == tools_present(required, available),
        (route_of(tools_present(required, available), remote) == ExecutionRoute::Remote)
            == (!tools_present(required, available) && remote),
        (route_of(tools_present(required, available), remote) == ExecutionRoute::Blocked)
            == (!tools_present(required, available) && !remote),
{
}


/// Readiness, by what is wrong first: no shell, no filesystem or missing prerequisites
/// block the environment; otherwise a permission that is needed and not granted is
/// required; otherwise resource pressure limits the action; otherwise the action is ready
/// exactly when it has a route (a local one, or the remote one chosen) and unavailable
/// when it has none.
pub proof fn law_readiness_order(
    shell: bool,
    fs: bool,
    prereq_missing: bool,
    needs_permission: bool,
    granted: bool,
    constrained: bool,
    local: bool,
    remote: bool,
)
    ensures
        ({
            let st = readiness_of(shell, fs, prereq_missing, needs_permission, granted, constrained, local,
                route_of(local, remote)).0;
            &&& (!shell || !fs || prereq_missing) ==> st == ExecutionReadinessState::EnvironmentBlocked
            &&& (shell && fs && !prereq_missing && needs_permission && !granted) ==> st
                == ExecutionReadinessState::PermissionRequired
            &&& (shell && fs && !prereq_missing && !(needs_permission && !granted) && constrained) ==> st
                == ExecutionReadinessState::Limited
            &&& (shell && fs && !prereq_missing && !(needs_permission && !granted) && !constrained) ==> ((st
                == ExecutionReadinessState::Ready) == (local || remote) && (st == ExecutionReadinessState::Unavailable)
                == (!local && !remote))
        }),
{
}

} // verus!
