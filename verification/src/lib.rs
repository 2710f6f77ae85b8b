//! Verified decision logic for agent verification loops, staged workflows,
//! capability readiness reporting, build preflight checks, remote index sync,
//! MCP retry policy, the mission-control header and protobuf build planning.

pub mod text;
pub mod topo;
pub mod order;
pub mod staged;
pub mod tvl;
pub mod apvl;
pub mod utility_belt;
pub mod field_boots;
pub mod preflight;
pub mod remote_sync;
pub mod mcp;
pub mod proto_build;
pub mod mission_control;
pub mod agent;
