//! What an agent reports of its own tools: the facts behind the core utility belt
//! and the tool kinds a field-boots request asks about.
//!
//! Asking the tool bridge which tools it holds is the caller's part; it hands the
//! answers in as a [`ToolPresence`].

use vstd::prelude::*;
use crate::field_boots::FieldBootsRequest;
use crate::order::sorted_lt;
use crate::text::{clone_strings, views};
use crate::utility_belt::{
    build_registry, fallback_for_request, fallback_of, registry_of, report_views,
    CoreUtilityBeltRegistry, FallbackDecision, PermissionMode, UtilityBeltFacts,
};

verus! {

/// Which tool kinds the agent's tool bridge holds.
#[derive(Debug, Clone, Copy, PartialEq, Eq, Structural)]
pub struct ToolPresence {
    pub web_search: bool,
    pub execute: bool,
    pub read: bool,
    pub web_fetch: bool,
    pub search_tool: bool,
    pub use_tool: bool,
    pub image_gen: bool,
    pub image_to_video: bool,
    pub reference_to_video: bool,
}

/// A backend-hosted tool that requests may carry.
#[derive(Debug, Clone, Copy, PartialEq, Eq, Structural)]
pub enum HostedToolKind {
    WebSearch,
    XSearch,
    Other,
}

/// The utility-belt facts of an agent: web search from the bridge or a hosted web
/// search, X search from a hosted X search, image generation from any of the image
/// or video generators, the rest from the bridge, and the agent's permission mode.
pub open spec fn facts_of(p: ToolPresence, hosted: Seq<HostedToolKind>, mode: PermissionMode) -> UtilityBeltFacts {
    UtilityBeltFacts {
        has_web_search: p.web_search || hosted.contains(HostedToolKind::WebSearch),
        has_x_search: hosted.contains(HostedToolKind::XSearch),
        has_execute: p.execute,
        has_read: p.read,
        has_web_fetch: p.web_fetch,
        has_search_tool: p.search_tool,
        has_use_tool: p.use_tool,
        has_image_generation: p.image_gen || p.image_to_video || p.reference_to_video,
        permission_mode: mode,
    }
}

fn hosts(hosted: &Vec<HostedToolKind>, kind: HostedToolKind) -> (r: bool)
    ensures
        r == hosted@.contains(kind),
{
    let mut i: usize = 0;
    while i < hosted.len()
        invariant
            i <= hosted.len(),
            forall|j: int| 0 <= j < i ==> hosted@[j] != kind,
        decreases hosted.len() - i,
    {
        if hosted[i] == kind {
            return true;
        }
        i += 1;
    }
    false
}

/// The utility-belt facts of an agent.
pub fn utility_belt_facts(
    presence: &ToolPresence,
    hosted_tools: &Vec<HostedToolKind>,
    permission_mode: PermissionMode,
) -> (f: UtilityBeltFacts)
    ensures
        f == facts_of(*presence, hosted_tools@, permission_mode),
{
    UtilityBeltFacts {
        has_web_search: presence.web_search || hosts(hosted_tools, HostedToolKind::WebSearch),
        has_x_search: hosts(hosted_tools, HostedToolKind::XSearch),
        has_execute: presence.execute,
        has_read: presence.read,
        has_web_fetch: presence.web_fetch,
        has_search_tool: presence.search_tool,
        has_use_tool: presence.use_tool,
        has_image_generation: presence.image_gen || presence.image_to_video
            || presence.reference_to_video,
        permission_mode,
    }
}

/// The agent's capability snapshot for the core utility belt.
pub fn core_utility_belt_registry(
    presence: &ToolPresence,
    hosted_tools: &Vec<HostedToolKind>,
    permission_mode: PermissionMode,
) -> (r: CoreUtilityBeltRegistry)
    ensures
        report_views(r.capabilities@) == registry_of(facts_of(*presence, hosted_tools@, permission_mode)),
{
    build_registry(utility_belt_facts(presence, hosted_tools, permission_mode))
}

/// A safe fallback plan when a requested utility-belt capability of the agent is
/// unavailable or degraded.
pub fn core_utility_belt_fallback(
    presence: &ToolPresence,
    hosted_tools: &Vec<HostedToolKind>,
    permission_mode: PermissionMode,
    requested_capability: &str,
    requested_action: &str,
    alternatives: &[&str],
) -> (r: FallbackDecision)
    ensures
        r@ == fallback_of(
            registry_of(facts_of(*presence, hosted_tools@, permission_mode)),
            requested_capability@,
            requested_action@,
            Seq::new(alternatives@.len(), |i: int| alternatives@[i]@),
        ),
{
    let registry = core_utility_belt_registry(presence, hosted_tools, permission_mode);
    fallback_for_request(&registry, requested_capability, requested_action, alternatives)
}

/// The tool kinds a field-boots request asks about, each once, in key order; the
/// bridge is asked about these.
pub fn field_boots_requested_kinds(request: &FieldBootsRequest) -> (r: Vec<String>)
    ensures
        sorted_lt(views(r@)),
        forall|x: Seq<char>| views(r@).contains(x) <==> views(request.required_tool_kinds@).contains(x),
{
    crate::order::sorted_unique(clone_strings(&request.required_tool_kinds))
}

} // verus!
