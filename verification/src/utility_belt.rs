//! The core utility belt: which capabilities (live search, code execution, research,
//! vision) a runtime offers, and what to do when a requested capability is missing.

use vstd::prelude::*;
use crate::text::{concat3, owned, views};

verus! {

/// Public-safe capability state for utility-belt components.
#[derive(Debug, Clone, Copy, PartialEq, Eq, Structural)]
pub enum CapabilityState {
    Available,
    Unavailable,
    Degraded,
    PermissionRequired,
}

/// How the session treats actions that need approval.
#[derive(Debug, Clone, Copy, PartialEq, Eq, Structural)]
pub enum PermissionMode {
    Default,
    AcceptEdits,
    Plan,
    BypassPermissions,
}

/// One capability entry in the utility-belt registry.
#[derive(Debug, Clone, PartialEq, Eq)]
pub struct CapabilityReport {
    pub capability: String,
    pub state: CapabilityState,
    pub provider: Option<String>,
    pub reason: Option<String>,
    pub remediation: Option<String>,
    pub provenance: Vec<String>,
    pub freshness_aware: bool,
}

/// Deterministic status snapshot for the focused core utility belt.
#[derive(Debug, Clone, PartialEq, Eq)]
pub struct CoreUtilityBeltRegistry {
    pub capabilities: Vec<CapabilityReport>,
}

/// Runtime facts used to derive the utility-belt status.
#[derive(Debug, Clone, PartialEq, Eq)]
pub struct UtilityBeltFacts {
    pub has_web_search: bool,
    pub has_x_search: bool,
    pub has_execute: bool,
    pub has_read: bool,
    pub has_web_fetch: bool,
    pub has_search_tool: bool,
    pub has_use_tool: bool,
    pub has_image_generation: bool,
    pub permission_mode: PermissionMode,
}

#[derive(Debug, Clone, PartialEq, Eq)]
pub struct FallbackDecision {
    pub requested_capability: String,
    pub requested_action: String,
    pub executed: bool,
    pub blocked: bool,
    pub used_alternative: Option<String>,
    pub message: String,
}

/// A capability report with its strings as characters.
pub struct ReportView {
    pub capability: Seq<char>,
    pub state: CapabilityState,
    pub provider: Option<Seq<char>>,
    pub reason: Option<Seq<char>>,
    pub remediation: Option<Seq<char>>,
    pub provenance: Seq<Seq<char>>,
    pub freshness_aware: bool,
}

/// The characters of an optional string.
pub open spec fn opt_chars(o: Option<String>) -> Option<Seq<char>> {
    match o {
        Some(s) => Some(s@),
        None => None,
    }
}

impl View for CapabilityReport {
    type V = ReportView;

    open spec fn view(&self) -> ReportView {
        ReportView {
            capability: self.capability@,
            state: self.state,
            provider: opt_chars(self.provider),
            reason: opt_chars(self.reason),
            remediation: opt_chars(self.remediation),
            provenance: views(self.provenance@),
            freshness_aware: self.freshness_aware,
        }
    }
}

/// The reports of a registry.
pub open spec fn report_views(r: Seq<CapabilityReport>) -> Seq<ReportView> {
    Seq::new(r.len(), |i: int| r[i]@)
}

/// Anything but bypass mode asks before running commands.
pub open spec fn needs_permission(mode: PermissionMode) -> bool {
    mode != PermissionMode::BypassPermissions
}

pub open spec fn rv(
    capability: Seq<char>,
    state: CapabilityState,
    provider: Option<Seq<char>>,
    reason: Option<Seq<char>>,
    remediation: Option<Seq<char>>,
    provenance: Seq<Seq<char>>,
    freshness_aware: bool,
) -> ReportView {
    ReportView { capability, state, provider, reason, remediation, provenance, freshness_aware }
}

pub open spec fn live_provenance() -> Seq<Seq<char>> {
    seq!["source_url"@, "provider"@, "timestamp"@]
}

pub open spec fn exec_provenance() -> Seq<Seq<char>> {
    seq!["tool_call"@, "stdout"@, "stderr"@, "exit_code"@]
}

pub open spec fn research_provenance() -> Seq<Seq<char>> {
    seq!["url"@, "source"@, "citation"@]
}

pub open spec fn image_provenance() -> Seq<Seq<char>> {
    seq!["image_uri"@, "mime_type"@]
}

/// The web search report.
pub open spec fn web_report(f: UtilityBeltFacts) -> ReportView {
    if f.has_web_search {
        rv("web_live_search"@, CapabilityState::Available, Some("responses_web_search"@), None, None, live_provenance(), true)
    } else {
        rv("web_live_search"@, CapabilityState::Unavailable, None,
            Some("No live web search provider is configured for this runtime."@),
            Some("Enable a web_search provider in the active tool configuration."@), Seq::empty(), true)
    }
}

/// The X search report: degraded to web search when only that is available.
pub open spec fn x_report(f: UtilityBeltFacts) -> ReportView {
    if f.has_x_search {
        rv("x_live_search"@, CapabilityState::Available, Some("hosted_x_search"@), None, None, live_provenance(), true)
    } else if f.has_web_search {
        rv("x_live_search"@, CapabilityState::Degraded, None,
            Some("Real-time X search is unavailable; web search fallback remains available."@),
            Some("Enable hosted x_search support for this model/runtime."@), live_provenance(), true)
    } else {
        rv("x_live_search"@, CapabilityState::Unavailable, None,
            Some("Real-time X search is not available in this runtime."@),
            Some("Enable backend search and x_search support."@), Seq::empty(), true)
    }
}

/// The Python execution report: execution needs permission outside bypass mode.
pub open spec fn python_report(f: UtilityBeltFacts) -> ReportView {
    if f.has_execute {
        if needs_permission(f.permission_mode) {
            rv("python_execution"@, CapabilityState::PermissionRequired, Some("shell_python"@),
                Some("Python execution requires runtime permission in this session mode."@),
                Some("Approve command execution or switch to a permission mode that allows it."@), exec_provenance(), false)
        } else {
            rv("python_execution"@, CapabilityState::Available, Some("shell_python"@), None, None, exec_provenance(), false)
        }
    } else {
        rv("python_execution"@, CapabilityState::Unavailable, None,
            Some("No safe execution tool is available for Python code."@),
            Some("Enable command execution tooling for this agent/session."@), Seq::empty(), false)
    }
}

/// The research report: full with web fetch and MCP search and dispatch, degraded with a
/// part of them, unavailable with none.
pub open spec fn research_report(f: UtilityBeltFacts) -> ReportView {
    if f.has_web_fetch && f.has_search_tool && f.has_use_tool {
        rv("research_multitool"@, CapabilityState::Available, Some("web_fetch+mcp"@), None, None, research_provenance(), true)
    } else if f.has_web_fetch || (f.has_search_tool && f.has_use_tool) {
        rv("research_multitool"@, CapabilityState::Degraded, Some("partial_research_stack"@),
            Some("Research stack is partially available; some evidence workflows are limited."@),
            Some("Enable both web_fetch and MCP search/dispatch tooling for full coverage."@), research_provenance(), true)
    } else if f.has_search_tool != f.has_use_tool {
        rv("research_multitool"@, CapabilityState::Degraded, Some("mcp_partial"@),
            Some("MCP research is partially configured (discovery/dispatch mismatch)."@),
            Some("Enable both search_tool and use_tool together."@), seq!["source"@], true)
    } else {
        rv("research_multitool"@, CapabilityState::Unavailable, None,
            Some("No research-capable web or integration tooling is available."@),
            Some("Enable web_fetch or MCP search+dispatch capabilities."@), Seq::empty(), true)
    }
}

/// The vision report: degraded to generation only when images cannot be read.
pub open spec fn vision_report(f: UtilityBeltFacts) -> ReportView {
    if f.has_read {
        rv("vision_analysis"@, CapabilityState::Available, Some("read_file_multimodal"@), None, None, image_provenance(), false)
    } else if f.has_image_generation {
        rv("vision_analysis"@, CapabilityState::Degraded, Some("generation_only"@),
            Some("Image generation is available, but image analysis input is not."@),
            Some("Enable multimodal file/image read capability."@), image_provenance(), false)
    } else {
        rv("vision_analysis"@, CapabilityState::Unavailable, None,
            Some("No image-analysis capability is available in this runtime."@),
            Some("Enable multimodal file/image read capability."@), Seq::empty(), false)
    }
}

/// The registry's own entry.
pub open spec fn registry_report() -> ReportView {
    rv("tool_availability_registry"@, CapabilityState::Available, Some("core_utility_belt_v1"@), None, None,
        seq!["capability"@, "state"@, "provider"@, "reason"@], false)
}

/// The fallback entry.
pub open spec fn fallback_report() -> ReportView {
    rv("graceful_fallback"@, CapabilityState::Available, Some("core_utility_belt_v1"@), None, None,
        seq!["requested_capability"@, "executed"@, "blocked"@, "used_alternative"@], false)
}

/// The registry for the given facts, in its fixed order.
pub open spec fn registry_of(f: UtilityBeltFacts) -> Seq<ReportView> {
    seq![web_report(f), x_report(f), python_report(f), research_report(f), vision_report(f), registry_report(),
        fallback_report()]
}

fn requires_permission(mode: PermissionMode) -> (r: bool)
    ensures
        r == needs_permission(mode),
{
    mode != PermissionMode::BypassPermissions
}

fn opt_str(o: Option<&str>) -> (r: Option<String>)
    ensures
        opt_chars(r) == match o { Some(s) => Some(s@), None => None },
{
    match o {
        Some(s) => Some(owned(s)),
        None => None,
    }
}

fn strs(v: &[&str]) -> (r: Vec<String>)
    ensures
        views(r@) == Seq::new(v@.len(), |i: int| v@[i]@),
{
    let mut r: Vec<String> = Vec::new();
    let mut i: usize = 0;
    while i < v.len()
        invariant
            i <= v@.len(),
            views(r@) == Seq::new(i as nat, |k: int| v@[k]@),
        decreases v@.len() - i,
    {
        let ghost before = views(r@);
        r.push(owned(v[i]));
        proof {
            assert(views(r@) =~= before.push(v@[i as int]@));
        }
        i += 1;
        proof {
            assert(views(r@) =~= Seq::new(i as nat, |k: int| v@[k]@));
        }
    }
    r
}

fn report(
    capability: &str,
    state: CapabilityState,
    provider: Option<&str>,
    reason: Option<&str>,
    remediation: Option<&str>,
    provenance: &[&str],
    freshness_aware: bool,
) -> (r: CapabilityReport)
    ensures
        r@ == rv(
            capability@,
            state,
            match provider { Some(s) => Some(s@), None => None },
            match reason { Some(s) => Some(s@), None => None },
            match remediation { Some(s) => Some(s@), None => None },
            Seq::new(provenance@.len(), |i: int| provenance@[i]@),
            freshness_aware,
        ),
{
    CapabilityReport {
        capability: owned(capability),
        state,
        provider: opt_str(provider),
        reason: opt_str(reason),
        remediation: opt_str(remediation),
        provenance: strs(provenance),
        freshness_aware,
    }
}


/// The registry for the given runtime facts, in a fixed order: web search, X search,
/// Python execution, research, vision, the registry itself and the fallback.
pub fn build_registry(facts: UtilityBeltFacts) -> (r: CoreUtilityBeltRegistry)
    ensures
        report_views(r.capabilities@) == registry_of(facts),
{
    let permission_gate = requires_permission(facts.permission_mode);
    let live: [&str; 3] = ["source_url", "provider", "timestamp"];
    let none: [&str; 0] = [];
    let web = if facts.has_web_search {
        report("web_live_search", CapabilityState::Available, Some("responses_web_search"), None, None, &live, true)
    } else {
        report(
            "web_live_search",
            CapabilityState::Unavailable,
            None,
            Some("No live web search provider is configured for this runtime."),
            Some("Enable a web_search provider in the active tool configuration."),
            &none,
            true,
        )
    };
    let x = if facts.has_x_search {
        report("x_live_search", CapabilityState::Available, Some("hosted_x_search"), None, None, &live, true)
    } else if facts.has_web_search {
        report(
            "x_live_search",
            CapabilityState::Degraded,
            None,
            Some("Real-time X search is unavailable; web search fallback remains available."),
            Some("Enable hosted x_search support for this model/runtime."),
            &live,
            true,
        )
    } else {
        report(
            "x_live_search",
            CapabilityState::Unavailable,
            None,
            Some("Real-time X search is not available in this runtime."),
            Some("Enable backend search and x_search support."),
            &none,
            true,
        )
    };
    let exec: [&str; 4] = ["tool_call", "stdout", "stderr", "exit_code"];
    let python = if facts.has_execute {
        if permission_gate {
            report(
                "python_execution",
                CapabilityState::PermissionRequired,
                Some("shell_python"),
                Some("Python execution requires runtime permission in this session mode."),
                Some("Approve command execution or switch to a permission mode that allows it."),
                &exec,
                false,
            )
        } else {
            report("python_execution", CapabilityState::Available, Some("shell_python"), None, None, &exec, false)
        }
    } else {
        report(
            "python_execution",
            CapabilityState::Unavailable,
            None,
            Some("No safe execution tool is available for Python code."),
            Some("Enable command execution tooling for this agent/session."),
            &none,
            false,
        )
    };
    let research_prov: [&str; 3] = ["url", "source", "citation"];
    let source_only: [&str; 1] = ["source"];
    let research = if facts.has_web_fetch && facts.has_search_tool && facts.has_use_tool {
        report("research_multitool", CapabilityState::Available, Some("web_fetch+mcp"), None, None, &research_prov, true)
    } else if facts.has_web_fetch || (facts.has_search_tool && facts.has_use_tool) {
        report(
            "research_multitool",
            CapabilityState::Degraded,
            Some("partial_research_stack"),
            Some("Research stack is partially available; some evidence workflows are limited."),
            Some("Enable both web_fetch and MCP search/dispatch tooling for full coverage."),
            &research_prov,
            true,
        )
    } else if facts.has_search_tool != facts.has_use_tool {
        report(
            "research_multitool",
            CapabilityState::Degraded,
            Some("mcp_partial"),
            Some("MCP research is partially configured (discovery/dispatch mismatch)."),
            Some("Enable both search_tool and use_tool together."),
            &source_only,
            true,
        )
    } else {
        report(
            "research_multitool",
            CapabilityState::Unavailable,
            None,
            Some("No research-capable web or integration tooling is available."),
            Some("Enable web_fetch or MCP search+dispatch capabilities."),
            &none,
            true,
        )
    };
    let image: [&str; 2] = ["image_uri", "mime_type"];
    let vision = if facts.has_read {
        report("vision_analysis", CapabilityState::Available, Some("read_file_multimodal"), None, None, &image, false)
    } else if facts.has_image_generation {
        report(
            "vision_analysis",
            CapabilityState::Degraded,
            Some("generation_only"),
            Some("Image generation is available, but image analysis input is not."),
            Some("Enable multimodal file/image read capability."),
            &image,
            false,
        )
    } else {
        report(
            "vision_analysis",
            CapabilityState::Unavailable,
            None,
            Some("No image-analysis capability is available in this runtime."),
            Some("Enable multimodal file/image read capability."),
            &none,
            false,
        )
    };
    let registry_prov: [&str; 4] = ["capability", "state", "provider", "reason"];
    let registry = report(
        "tool_availability_registry",
        CapabilityState::Available,
        Some("core_utility_belt_v1"),
        None,
        None,
        &registry_prov,
        false,
    );
    let fallback_prov: [&str; 4] = ["requested_capability", "executed", "blocked", "used_alternative"];
    let fallback = report(
        "graceful_fallback",
        CapabilityState::Available,
        Some("core_utility_belt_v1"),
        None,
        None,
        &fallback_prov,
        false,
    );
    proof {
        assert(Seq::new(live@.len(), |i: int| live@[i]@) =~= live_provenance());
        assert(Seq::new(none@.len(), |i: int| none@[i]@) =~= Seq::<Seq<char>>::empty());
        assert(Seq::new(exec@.len(), |i: int| exec@[i]@) =~= exec_provenance());
        assert(Seq::new(research_prov@.len(), |i: int| research_prov@[i]@) =~= research_provenance());
        assert(Seq::new(source_only@.len(), |i: int| source_only@[i]@) =~= seq!["source"@]);
        assert(Seq::new(image@.len(), |i: int| image@[i]@) =~= image_provenance());
        assert(Seq::new(registry_prov@.len(), |i: int| registry_prov@[i]@) =~= seq!["capability"@, "state"@, "provider"@, "reason"@]);
        assert(Seq::new(fallback_prov@.len(), |i: int| fallback_prov@[i]@) =~= seq!["requested_capability"@, "executed"@, "blocked"@, "used_alternative"@]);
    }
    let capabilities = vec![web, x, python, research, vision, registry, fallback];
    proof {
        assert(report_views(capabilities@) =~= registry_of(facts));
    }
    CoreUtilityBeltRegistry { capabilities }
}


/// A fallback decision with its strings as characters.
pub struct FallbackView {
    pub requested_capability: Seq<char>,
    pub requested_action: Seq<char>,
    pub executed: bool,
    pub blocked: bool,
    pub used_alternative: Option<Seq<char>>,
    pub message: Seq<char>,
}

impl View for FallbackDecision {
    type V = FallbackView;

    open spec fn view(&self) -> FallbackView {
        FallbackView {
            requested_capability: self.requested_capability@,
            requested_action: self.requested_action@,
            executed: self.executed,
            blocked: self.blocked,
            used_alternative: opt_chars(self.used_alternative),
            message: self.message@,
        }
    }
}

/// The state of the first report for `cap`; unavailable when none reports it.
pub open spec fn state_of(reports: Seq<ReportView>, cap: Seq<char>) -> CapabilityState
    decreases reports.len(),
{
    if reports.len() == 0 {
        CapabilityState::Unavailable
    } else if reports[0].capability == cap {
        reports[0].state
    } else {
        state_of(reports.drop_first(), cap)
    }
}

pub open spec fn capability_state_name(s: CapabilityState) -> Seq<char> {
    match s {
        CapabilityState::Available => "Available"@,
        CapabilityState::Unavailable => "Unavailable"@,
        CapabilityState::Degraded => "Degraded"@,
        CapabilityState::PermissionRequired => "PermissionRequired"@,
    }
}

/// What to do with a request: run it when the capability is available; otherwise do
/// not run it, and point at the first alternative or, with none, block it.
pub open spec fn fallback_of(reports: Seq<ReportView>, cap: Seq<char>, action: Seq<char>, alts: Seq<Seq<char>>) -> FallbackView {
    let state = state_of(reports, cap);
    if state == CapabilityState::Available {
        FallbackView {
            requested_capability: cap,
            requested_action: action,
            executed: true,
            blocked: false,
            used_alternative: None,
            message: "Capability is available; execute the requested action normally."@,
        }
    } else if alts.len() > 0 {
        FallbackView {
            requested_capability: cap,
            requested_action: action,
            executed: false,
            blocked: false,
            used_alternative: Some(alts[0]),
            message: "Requested capability '"@ + cap + "' is "@ + capability_state_name(state)
                + "; primary action was not executed. Use '"@ + alts[0] + "' instead."@,
        }
    } else {
        FallbackView {
            requested_capability: cap,
            requested_action: action,
            executed: false,
            blocked: true,
            used_alternative: None,
            message: "Requested capability '"@ + cap + "' is "@ + capability_state_name(state)
                + "; no valid fallback is available."@,
        }
    }
}

impl CapabilityState {
    /// The name of the state, as `{:?}` prints it.
    pub fn name(&self) -> (r: &'static str)
        ensures
            r@ == capability_state_name(*self),
    {
        match self {
            CapabilityState::Available => "Available",
            CapabilityState::Unavailable => "Unavailable",
            CapabilityState::Degraded => "Degraded",
            CapabilityState::PermissionRequired => "PermissionRequired",
        }
    }
}

fn lookup_state(reports: &Vec<CapabilityReport>, cap: &str) -> (r: CapabilityState)
    ensures
        r == state_of(report_views(reports@), cap@),
{
    let mut i: usize = 0;
    proof {
        assert(report_views(reports@).subrange(0, reports.len() as int) =~= report_views(reports@));
    }
    while i < reports.len()
        invariant
            i <= reports.len(),
            state_of(report_views(reports@), cap@) == state_of(report_views(reports@).subrange(i as int, reports.len() as int), cap@),
        decreases reports.len() - i,
    {
        let ghost sub = report_views(reports@).subrange(i as int, reports.len() as int);
        proof {
            assert(sub[0] == reports@[i as int]@);
            assert(sub.drop_first() =~= report_views(reports@).subrange(i + 1, reports.len() as int));
        }
        if crate::text::same_text(reports[i].capability.as_str(), cap) {
            return reports[i].state;
        }
        i += 1;
    }
    proof {
        assert(report_views(reports@).subrange(i as int, reports.len() as int) =~= Seq::<ReportView>::empty());
    }
    CapabilityState::Unavailable
}

/// Decides how to handle a request for a capability.
pub fn fallback_for_request(
    registry: &CoreUtilityBeltRegistry,
    requested_capability: &str,
    requested_action: &str,
    alternatives: &[&str],
) -> (r: FallbackDecision)
    ensures
        r@ == fallback_of(report_views(registry.capabilities@), requested_capability@, requested_action@,
            Seq::new(alternatives@.len(), |i: int| alternatives@[i]@)),
{
    let state = lookup_state(&registry.capabilities, requested_capability);
    if state == CapabilityState::Available {
        return FallbackDecision {
            requested_capability: owned(requested_capability),
            requested_action: owned(requested_action),
            executed: true,
            blocked: false,
            used_alternative: None,
            message: owned("Capability is available; execute the requested action normally."),
        };
    }
    let head = concat3("Requested capability '", requested_capability, "' is ");
    let stated = concat3(head.as_str(), state.name(), "");
    proof {
        reveal_strlit("");
    }
    if alternatives.len() > 0 {
        let alternative = alternatives[0];
        let tail = concat3(stated.as_str(), "; primary action was not executed. Use '", alternative);
        return FallbackDecision {
            requested_capability: owned(requested_capability),
            requested_action: owned(requested_action),
            executed: false,
            blocked: false,
            used_alternative: Some(owned(alternative)),
            message: concat3(tail.as_str(), "' instead.", ""),
        };
    }
    FallbackDecision {
        requested_capability: owned(requested_capability),
        requested_action: owned(requested_action),
        executed: false,
        blocked: true,
        used_alternative: None,
        message: concat3(stated.as_str(), "; no valid fallback is available.", ""),
    }
}

// ---------------------------------------------------------------------------
// Laws.
// ---------------------------------------------------------------------------

/// A fallback never claims that an unavailable capability ran, and never both runs and
/// blocks: a request is executed exactly when its capability is available.
pub proof fn law_fallback_never_claims_execution(reports: Seq<ReportView>, cap: Seq<char>, action: Seq<char>, alts: Seq<Seq<char>>)
    ensures
        fallback_of(reports, cap, action, alts).executed == (state_of(reports, cap) == CapabilityState::Available),
        !(fallback_of(reports, cap, action, alts).executed && fallback_of(reports, cap, action, alts).blocked),
        fallback_of(reports, cap, action, alts).blocked == (state_of(reports, cap) != CapabilityState::Available && alts.len() == 0),
{
}

/// Command execution is never reported available outside bypass mode: it then needs
/// permission, which is a state of its own, distinct from unavailable.
pub proof fn law_execution_needs_permission_outside_bypass(f: UtilityBeltFacts)
    requires
        f.permission_mode != PermissionMode::BypassPermissions,
        f.has_execute,
    ensures
        python_report(f).state == CapabilityState::PermissionRequired,
{
}

/// Every capability in the registry is named once, so a lookup finds the registry's own
/// entry for it.
pub proof fn law_registry_names_each_capability_once(f: UtilityBeltFacts)
    ensures
        forall|i: int, j: int| 0 <= i < j < registry_of(f).len() ==> registry_of(f)[i].capability != registry_of(f)[j].capability,
{
    reveal_strlit("web_live_search");
    reveal_strlit("x_live_search");
    reveal_strlit("python_execution");
    reveal_strlit("research_multitool");
    reveal_strlit("vision_analysis");
    reveal_strlit("tool_availability_registry");
    reveal_strlit("graceful_fallback");
    let r = registry_of(f);
    assert forall|i: int, j: int| 0 <= i < j < r.len() implies r[i].capability != r[j].capability by {
        assert(r[i].capability.len() != r[j].capability.len() || r[i].capability[0] != r[j].capability[0]
            || r[i].capability[1] != r[j].capability[1]);
    }
}


/// The research entry of the registry: available with web fetch and both MCP search and
/// dispatch; unavailable only when web fetch, MCP search and MCP dispatch are all absent;
/// and with web fetch present but not the full MCP pair, degraded to the partial research
/// stack.
pub proof fn law_research_availability(f: UtilityBeltFacts)
    ensures
        registry_of(f)[3] == research_report(f),
        (research_report(f).state == CapabilityState::Available) == (f.has_web_fetch && f.has_search_tool && f.has_use_tool),
        (research_report(f).state == CapabilityState::Unavailable) == (!f.has_web_fetch && !f.has_search_tool
            && !f.has_use_tool),
        f.has_web_fetch && !(f.has_search_tool && f.has_use_tool) ==> research_report(f).state == CapabilityState::Degraded
            && research_report(f).provider == Some("partial_research_stack"@),
{
}


/// The state of each capability in the registry, read from the runtime facts: web
/// search is available exactly with a web search provider; X search is available with
/// hosted X search, degraded to web search when only that exists, unavailable otherwise;
/// Python execution is unavailable without the execute tool, and otherwise available in
/// bypass mode and awaiting permission in any other mode; research with only one of MCP
/// search and dispatch and no web fetch is the partial MCP setup; vision is available
/// with image reading, degraded to generation when only that exists, unavailable otherwise.
pub proof fn law_registry_states(f: UtilityBeltFacts)
    ensures
        registry_of(f)[0] == web_report(f),
        registry_of(f)[1] == x_report(f),
        registry_of(f)[2] == python_report(f),
        registry_of(f)[4] == vision_report(f),
        (web_report(f).state == CapabilityState::Available) == f.has_web_search,
        (web_report(f).state == CapabilityState::Unavailable) == !f.has_web_search,
        (x_report(f).state == CapabilityState::Available) == f.has_x_search,
        (x_report(f).state == CapabilityState::Degraded) == (!f.has_x_search && f.has_web_search),
        (x_report(f).state == CapabilityState::Unavailable) == (!f.has_x_search && !f.has_web_search),
        (python_report(f).state == CapabilityState::Unavailable) == !f.has_execute,
        (python_report(f).state == CapabilityState::Available) == (f.has_execute
            && f.permission_mode == PermissionMode::BypassPermissions),
        (python_report(f).state == CapabilityState::PermissionRequired) == (f.has_execute
            && f.permission_mode != PermissionMode::BypassPermissions),
        !f.has_web_fetch && f.has_search_tool != f.has_use_tool ==> research_report(f).state == CapabilityState::Degraded
            && research_report(f).provider == Some("mcp_partial"@),
        (f.has_search_tool && f.has_use_tool) && !f.has_web_fetch ==> research_report(f).state
            == CapabilityState::Degraded && research_report(f).provider == Some("partial_research_stack"@),
        (vision_report(f).state == CapabilityState::Available) == f.has_read,
        (vision_report(f).state == CapabilityState::Degraded) == (!f.has_read && f.has_image_generation),
        (vision_report(f).state == CapabilityState::Unavailable) == (!f.has_read && !f.has_image_generation),
{
}

} // verus!
