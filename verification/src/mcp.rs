//! Retry policy and result translation for calls into an MCP server's tools.
//!
//! One hub call may make up to [`MCP_TOOL_CALL_MAX_ATTEMPTS`] attempts. A failed
//! attempt is retried only when its failure is transient and a repeat cannot run
//! the tool twice: the tool declares itself retry-safe, or the request never left.
//! Backoff is capped and exponential with a deterministic jitter derived from the
//! tool id and the attempt number.
//!
//! The caller performs the attempts, the timeouts and the sleeps; [`McpCallLoop`]
//! decides, after each attempt, whether to finish or to back off and try again.

use vstd::prelude::*;
use std::collections::hash_map::DefaultHasher;
use std::hash::Hasher;
use vstd::std_specs::hash::DefaultHasherAdditionalSpecFns;
use vstd::string::StringSliceAdditionalSpecFns;
use crate::text::{concat2, concat3, decimal, i64_to_decimal, owned, signed_decimal};

verus! {

// ---------------------------------------------------------------------------
// Protocol types.
// ---------------------------------------------------------------------------

/// Result of an MCP `tools/call` invocation.
#[derive(Debug, Clone)]
pub struct McpCallResult {
    /// Content blocks returned by the tool.
    pub content: Vec<McpContent>,
    /// When `true`, the tool signalled an application-level error.
    pub is_error: bool,
}

/// A single content block inside an [`McpCallResult`]: text, a base64-encoded
/// image, or an embedded resource.
#[derive(Debug, Clone)]
pub enum McpContent {
    /// Plain text content.
    Text { text: String },
    /// Base64-encoded image content.
    Image { mime_type: String, data: String },
    /// Embedded resource content.
    Resource { uri: String, mime_type: Option<String>, text: Option<String> },
}

/// A single tool definition from MCP `tools/list`.
///
/// `input_schema` holds the JSON text of the tool's input schema.
#[derive(Debug, Clone)]
pub struct McpToolDefinition {
    /// Unqualified tool name.
    pub name: String,
    /// Model-facing description of the tool.
    pub description: Option<String>,
    /// JSON Schema for the tool's input arguments, as JSON text.
    pub input_schema: Option<String>,
}

/// Errors originating from MCP transport or protocol handling.
#[derive(Debug, Clone)]
pub enum McpError {
    /// The underlying transport failed (connection refused, pipe broken, etc.).
    Transport(String),
    /// A transport failure before the remote tool call could execute.
    TransportPreCall(String),
    /// The server returned a JSON-RPC error response.
    Protocol { code: i64, message: String },
    /// Timeout waiting for the MCP server's response.
    Timeout(String),
    /// The response could not be decoded.
    Decode(String),
}

/// JSON-RPC codes after which a retry may succeed: request timeout, conflict,
/// too early, too many requests, and every server error.
pub open spec fn transient_code(code: i64) -> bool {
    code == 408 || code == 409 || code == 425 || code == 429 || (500 <= code && code <= 599)
}

/// Whether an MCP error is transient enough to consider retrying.
pub open spec fn mcp_error_transient(e: McpError) -> bool {
    match e {
        McpError::Transport(_) | McpError::TransportPreCall(_) | McpError::Timeout(_) => true,
        McpError::Protocol { code, .. } => transient_code(code),
        McpError::Decode(_) => false,
    }
}

/// The message of an MCP error, as `{}` prints it.
pub open spec fn mcp_error_message(e: McpError) -> Seq<char> {
    match e {
        McpError::Transport(s) => "transport error: "@ + s@,
        McpError::TransportPreCall(s) => "pre-call transport error: "@ + s@,
        McpError::Protocol { code, message } => "protocol error (code "@ + signed_decimal(
            code as int,
        ) + "): "@ + message@,
        McpError::Timeout(s) => "timeout: "@ + s@,
        McpError::Decode(s) => "decode error: "@ + s@,
    }
}

/// Whether a JSON-RPC error code is transient.
pub fn protocol_code_is_transient(code: i64) -> (r: bool)
    ensures
        r == transient_code(code),
{
    code == 408 || code == 409 || code == 425 || code == 429 || (500 <= code && code <= 599)
}

impl McpError {
    /// True when this failure class is transient enough to consider retrying.
    pub fn is_transient(&self) -> (r: bool)
        ensures
            r == mcp_error_transient(*self),
    {
        match self {
            McpError::Transport(_) | McpError::TransportPreCall(_) | McpError::Timeout(_) => true,
            McpError::Protocol { code, .. } => protocol_code_is_transient(*code),
            McpError::Decode(_) => false,
        }
    }

    /// True when the transport failed before the remote tool body could run.
    pub fn happened_before_remote_execution(&self) -> (r: bool)
        ensures
            r == (*self is TransportPreCall),
    {
        match self {
            McpError::TransportPreCall(_) => true,
            _ => false,
        }
    }

    /// The error's message, as `{}` prints it.
    pub fn message(&self) -> (r: String)
        ensures
            r@ == mcp_error_message(*self),
    {
        match self {
            McpError::Transport(s) => concat2("transport error: ", s.as_str()),
            McpError::TransportPreCall(s) => concat2("pre-call transport error: ", s.as_str()),
            McpError::Protocol { code, message } => {
                let digits = i64_to_decimal(*code);
                let head = concat3("protocol error (code ", digits.as_str(), "): ");
                concat2(head.as_str(), message.as_str())
            },
            McpError::Timeout(s) => concat2("timeout: ", s.as_str()),
            McpError::Decode(s) => concat2("decode error: ", s.as_str()),
        }
    }
}

// ---------------------------------------------------------------------------
// Retry classification.
// ---------------------------------------------------------------------------

/// Most attempts one hub call makes.
pub const MCP_TOOL_CALL_MAX_ATTEMPTS: u32 = 3;

/// Base delay, in milliseconds, of the exponential backoff between retries.
pub const MCP_TOOL_CALL_RETRY_BASE_DELAY_MS: u64 = 100;

/// Cap, in milliseconds, of the exponential backoff between retries.
pub const MCP_TOOL_CALL_RETRY_MAX_DELAY_MS: u64 = 800;

/// Jitter magnitude, in percent of the capped delay.
pub const MCP_TOOL_CALL_RETRY_JITTER_PCT: u64 = 20;

/// How one attempt failed.
#[derive(Debug, Clone)]
pub enum AttemptFailure {
    /// The attempt hit the adapter's backstop timeout.
    BackstopTimeout,
    /// The transport or the server reported an error.
    Mcp(McpError),
}

/// Whether to try again after a failed attempt, and why.
#[derive(Debug, Clone, Copy, PartialEq, Eq)]
pub enum RetryDecision {
    Retry { reason: &'static str },
    NoRetry { reason: &'static str },
}

pub open spec fn failure_reason(f: AttemptFailure) -> Seq<char> {
    match f {
        AttemptFailure::BackstopTimeout => "backstop_timeout"@,
        AttemptFailure::Mcp(McpError::TransportPreCall(_)) => "transport_pre_call"@,
        AttemptFailure::Mcp(McpError::Transport(_)) => "transport"@,
        AttemptFailure::Mcp(McpError::Timeout(_)) => "transport_timeout"@,
        AttemptFailure::Mcp(McpError::Protocol { .. }) => "transient_protocol"@,
        AttemptFailure::Mcp(McpError::Decode(_)) => "decode"@,
    }
}

pub open spec fn failure_transient(f: AttemptFailure) -> bool {
    match f {
        AttemptFailure::BackstopTimeout => true,
        AttemptFailure::Mcp(e) => mcp_error_transient(e),
    }
}

pub open spec fn failure_before_remote(f: AttemptFailure) -> bool {
    match f {
        AttemptFailure::BackstopTimeout => false,
        AttemptFailure::Mcp(e) => e is TransportPreCall,
    }
}

/// A failure may be retried when it is transient and a repeat cannot run the tool
/// twice: the tool is retry-safe, or the request never reached it.
pub open spec fn retry_allowed(f: AttemptFailure, retry_safe: bool) -> bool {
    failure_transient(f) && (retry_safe || failure_before_remote(f))
}

/// The reason that goes with the retry decision for a failure.
pub open spec fn decision_reason(f: AttemptFailure, retry_safe: bool) -> Seq<char> {
    if !failure_transient(f) {
        "deterministic_failure"@
    } else if retry_safe || failure_before_remote(f) {
        failure_reason(f)
    } else {
        "unsafe_non_idempotent"@
    }
}

impl AttemptFailure {
    /// The name under which a retry of this failure is reported.
    pub fn retry_reason(&self) -> (r: &'static str)
        ensures
            r@ == failure_reason(*self),
    {
        match self {
            AttemptFailure::BackstopTimeout => "backstop_timeout",
            AttemptFailure::Mcp(McpError::TransportPreCall(_)) => "transport_pre_call",
            AttemptFailure::Mcp(McpError::Transport(_)) => "transport",
            AttemptFailure::Mcp(McpError::Timeout(_)) => "transport_timeout",
            AttemptFailure::Mcp(McpError::Protocol { .. }) => "transient_protocol",
            AttemptFailure::Mcp(McpError::Decode(_)) => "decode",
        }
    }

    /// Whether the failure is transient.
    pub fn is_transient(&self) -> (r: bool)
        ensures
            r == failure_transient(*self),
    {
        match self {
            AttemptFailure::BackstopTimeout => true,
            AttemptFailure::Mcp(e) => e.is_transient(),
        }
    }

    /// Whether the failure happened before the remote tool body could run.
    pub fn happened_before_remote_execution(&self) -> (r: bool)
        ensures
            r == failure_before_remote(*self),
    {
        match self {
            AttemptFailure::BackstopTimeout => false,
            AttemptFailure::Mcp(e) => e.happened_before_remote_execution(),
        }
    }
}

/// Decides whether a failed attempt may be retried.
pub fn classify_retry(failure: &AttemptFailure, retry_safe: bool) -> (d: RetryDecision)
    ensures
        (d is Retry) == retry_allowed(*failure, retry_safe),
        match d {
            RetryDecision::Retry { reason } => reason@ == decision_reason(*failure, retry_safe),
            RetryDecision::NoRetry { reason } => reason@ == decision_reason(*failure, retry_safe),
        },
{
    if !failure.is_transient() {
        return RetryDecision::NoRetry { reason: "deterministic_failure" };
    }
    if retry_safe || failure.happened_before_remote_execution() {
        return RetryDecision::Retry { reason: failure.retry_reason() };
    }
    RetryDecision::NoRetry { reason: "unsafe_non_idempotent" }
}

// ---------------------------------------------------------------------------
// Backoff.
// ---------------------------------------------------------------------------

pub open spec fn pow2(k: nat) -> nat
    decreases k,
{
    if k == 0 {
        1
    } else {
        2 * pow2((k - 1) as nat)
    }
}

/// The backoff before `attempt`, before jitter: the base delay doubled once per
/// retry after the first, at most eight times, and capped.
pub open spec fn capped_delay_ms(attempt: u32) -> int {
    let doublings: nat = if attempt <= 2 {
        0
    } else if attempt - 2 >= 8 {
        8
    } else {
        (attempt - 2) as nat
    };
    let unclamped = MCP_TOOL_CALL_RETRY_BASE_DELAY_MS * pow2(doublings);
    if unclamped <= MCP_TOOL_CALL_RETRY_MAX_DELAY_MS {
        unclamped
    } else {
        MCP_TOOL_CALL_RETRY_MAX_DELAY_MS as int
    }
}

/// Half the width of the jitter window around the capped delay.
pub open spec fn jitter_span_ms(attempt: u32) -> int {
    capped_delay_ms(attempt) * MCP_TOOL_CALL_RETRY_JITTER_PCT / 100
}

/// The delay for `attempt` given a hash: the capped delay moved by
/// `hash mod (2 * span + 1) - span`, and never below zero.
pub open spec fn jittered_delay_ms(attempt: u32, hash: u64) -> int {
    let capped = capped_delay_ms(attempt);
    let span = jitter_span_ms(attempt);
    if span == 0 {
        capped
    } else {
        let moved = capped + (hash as int) % (2 * span + 1) - span;
        if moved < 0 {
            0
        } else {
            moved
        }
    }
}

/// The little-endian bytes of a `u32`.
pub open spec fn le_bytes(x: u32) -> Seq<u8> {
    seq![
        (x % 256) as u8,
        (x / 256 % 256) as u8,
        (x / 65536 % 256) as u8,
        (x / 16777216) as u8,
    ]
}

/// The big-endian bytes of a `u32`.
pub open spec fn be_bytes(x: u32) -> Seq<u8> {
    seq![
        (x / 16777216) as u8,
        (x / 65536 % 256) as u8,
        (x / 256 % 256) as u8,
        (x % 256) as u8,
    ]
}

/// What is written to the hasher for a tool id and an attempt: the id's bytes, the
/// string terminator `0xff`, then the attempt's bytes in the machine's order.
pub open spec fn retry_hash_input(tool_id: Seq<u8>, attempt_bytes: Seq<u8>) -> Seq<Seq<u8>> {
    seq![tool_id, seq![0xffu8], attempt_bytes]
}

/// The delay before `attempt` of calls to `tool_id`, the attempt hashed as
/// `attempt_bytes`.
pub open spec fn retry_delay_with(tool_id: &str, attempt: u32, attempt_bytes: Seq<u8>) -> int {
    jittered_delay_ms(attempt, DefaultHasher::spec_finish(retry_hash_input(tool_id.spec_bytes(), attempt_bytes)))
}

/// `d` is the delay before `attempt` of calls to `tool_id` on a little-endian or a
/// big-endian machine.
pub open spec fn is_retry_delay(tool_id: &str, attempt: u32, d: int) -> bool {
    d == retry_delay_with(tool_id, attempt, le_bytes(attempt)) || d == retry_delay_with(
        tool_id,
        attempt,
        be_bytes(attempt),
    )
}

/// `u32::to_ne_bytes`: the bytes of `x` in the machine's native byte order, which is
/// little-endian or big-endian; which one depends on the machine.
#[verifier::external_body]
fn native_bytes(x: u32) -> (r: [u8; 4])
    ensures
        r@ == le_bytes(x) || r@ == be_bytes(x),
{
    x.to_ne_bytes()
}

/// The capped delay before jitter.
fn capped_delay(attempt: u32) -> (r: u64)
    ensures
        r == capped_delay_ms(attempt),
{
    let doublings: u32 = if attempt <= 2 {
        0
    } else if attempt - 2 >= 8 {
        8
    } else {
        attempt - 2
    };
    let mut exp: u64 = 1;
    let mut i: u32 = 0;
    while i < doublings
        invariant
            doublings <= 8,
            i <= doublings,
            exp == pow2(i as nat),
            exp <= 256,
        decreases doublings - i,
    {
        proof {
            assert(pow2((i + 1) as nat) == 2 * pow2(i as nat));
            lemma_pow2_bound(i as nat);
        }
        exp = exp * 2;
        i = i + 1;
    }
    proof {
        lemma_pow2_bound(doublings as nat);
    }
    let unclamped: u64 = MCP_TOOL_CALL_RETRY_BASE_DELAY_MS * exp;
    if unclamped <= MCP_TOOL_CALL_RETRY_MAX_DELAY_MS {
        unclamped
    } else {
        MCP_TOOL_CALL_RETRY_MAX_DELAY_MS
    }
}

proof fn lemma_pow2_bound(k: nat)
    requires
        k <= 8,
    ensures
        pow2(k) <= 256,
        k < 8 ==> pow2(k) <= 128,
{
    reveal_with_fuel(pow2, 9);
}

/// The delay for `attempt` from a given hash value.
pub fn jittered_delay(attempt: u32, hash: u64) -> (r: u64)
    ensures
        r == jittered_delay_ms(attempt, hash),
{
    let capped = capped_delay(attempt);
    proof {
        lemma_capped_bound(attempt);
    }
    let span: u64 = capped * MCP_TOOL_CALL_RETRY_JITTER_PCT / 100;
    if span == 0 {
        return capped;
    }
    let offset: u64 = hash % (span * 2 + 1);
    if capped + offset < span {
        0
    } else {
        capped + offset - span
    }
}

proof fn lemma_capped_bound(attempt: u32)
    ensures
        capped_delay_ms(attempt) <= MCP_TOOL_CALL_RETRY_MAX_DELAY_MS,
        capped_delay_ms(attempt) >= MCP_TOOL_CALL_RETRY_BASE_DELAY_MS,
{
    let doublings: nat = if attempt <= 2 {
        0
    } else if attempt - 2 >= 8 {
        8
    } else {
        (attempt - 2) as nat
    };
    lemma_pow2_bound(doublings);
    lemma_pow2_positive(doublings);
}

proof fn lemma_pow2_positive(k: nat)
    ensures
        pow2(k) >= 1,
    decreases k,
{
    if k > 0 {
        lemma_pow2_positive((k - 1) as nat);
    }
}

/// The deterministic backoff, in milliseconds, before `attempt` of calls to `tool_id`.
pub fn deterministic_retry_delay(tool_id: &str, attempt: u32) -> (r: u64)
    ensures
        is_retry_delay(tool_id, attempt, r as int),
{
    let mut hasher = DefaultHasher::new();
    hasher.write(tool_id.as_bytes());
    let terminator: [u8; 1] = [0xff];
    hasher.write(terminator.as_slice());
    let bytes: [u8; 4] = native_bytes(attempt);
    hasher.write(bytes.as_slice());
    let hash = hasher.finish();
    proof {
        assert(terminator@ =~= seq![0xffu8]);
        assert(hasher@ =~= retry_hash_input(tool_id.spec_bytes(), bytes@));
    }
    jittered_delay(attempt, hash)
}

// ---------------------------------------------------------------------------
// Result translation.
// ---------------------------------------------------------------------------

/// A structured content block of a tool's output.
#[derive(Debug, Clone, PartialEq, Eq)]
pub enum McpBlock {
    Text { text: String },
    Image { mime_type: String, data: String },
    Resource { uri: String, mime_type: Option<String>, text: Option<String> },
}

/// The output of a tool call, as the hub receives it.
#[derive(Debug, Clone, PartialEq, Eq)]
pub enum ToolOutputWire {
    /// Flat text output.
    Text(String),
    /// Structured blocks.
    Mcp { blocks: Vec<McpBlock> },
}

/// The block that carries one content item.
pub open spec fn block_of(c: McpContent) -> McpBlock {
    match c {
        McpContent::Text { text } => McpBlock::Text { text },
        McpContent::Image { mime_type, data } => McpBlock::Image { mime_type, data },
        McpContent::Resource { uri, mime_type, text } => McpBlock::Resource { uri, mime_type, text },
    }
}

/// The texts of the text blocks, in order.
pub open spec fn text_parts(content: Seq<McpContent>) -> Seq<Seq<char>>
    decreases content.len(),
{
    if content.len() == 0 {
        Seq::empty()
    } else {
        let rest = text_parts(content.drop_last());
        match content.last() {
            McpContent::Text { text } => rest.push(text@),
            _ => rest,
        }
    }
}

/// Parts joined with a newline between each two.
pub open spec fn join_lines(parts: Seq<Seq<char>>) -> Seq<char>
    decreases parts.len(),
{
    if parts.len() == 0 {
        Seq::empty()
    } else if parts.len() == 1 {
        parts[0]
    } else {
        join_lines(parts.drop_last()) + seq!['\n'] + parts.last()
    }
}

/// How a call result becomes wire output: empty content gives empty text; an error
/// gives its text blocks joined by newlines (other blocks are dropped); one text
/// block gives that text; anything else gives one block per content item.
pub open spec fn translates_to(r: McpCallResult, out: ToolOutputWire) -> bool {
    if r.content@.len() == 0 {
        out matches ToolOutputWire::Text(s) && s@ == Seq::<char>::empty()
    } else if r.is_error {
        out matches ToolOutputWire::Text(s) && s@ == join_lines(text_parts(r.content@))
    } else {
        match r.content@[0] {
            McpContent::Text { text } if r.content@.len() == 1 => out == ToolOutputWire::Text(text),
            _ => out matches ToolOutputWire::Mcp { blocks } && blocks@ == r.content@.map_values(
                |c: McpContent| block_of(c),
            ),
        }
    }
}

proof fn lemma_join_push(parts: Seq<Seq<char>>, x: Seq<char>)
    ensures
        join_lines(parts.push(x)) == if parts.len() == 0 {
            x
        } else {
            join_lines(parts) + seq!['\n'] + x
        },
{
    assert(parts.push(x).drop_last() =~= parts);
}

fn copy_opt(o: &Option<String>) -> (r: Option<String>)
    ensures
        r == *o,
{
    match o {
        Some(s) => Some(s.clone()),
        None => None,
    }
}

fn copy_block(c: &McpContent) -> (b: McpBlock)
    ensures
        b == block_of(*c),
{
    match c {
        McpContent::Text { text } => McpBlock::Text { text: text.clone() },
        McpContent::Image { mime_type, data } => McpBlock::Image {
            mime_type: mime_type.clone(),
            data: data.clone(),
        },
        McpContent::Resource { uri, mime_type, text } => McpBlock::Resource {
            uri: uri.clone(),
            mime_type: copy_opt(mime_type),
            text: copy_opt(text),
        },
    }
}

/// The text blocks of an error response, joined by newlines.
fn error_text(content: &Vec<McpContent>) -> (r: String)
    ensures
        r@ == join_lines(text_parts(content@)),
{
    let mut out = String::new();
    let mut any = false;
    let mut i: usize = 0;
    while i < content.len()
        invariant
            i <= content.len(),
            out@ == join_lines(text_parts(content@.subrange(0, i as int))),
            any == (text_parts(content@.subrange(0, i as int)).len() > 0),
        decreases content.len() - i,
    {
        let ghost before = text_parts(content@.subrange(0, i as int));
        proof {
            assert(content@.subrange(0, i as int + 1).drop_last() =~= content@.subrange(0, i as int));
        }
        match &content[i] {
            McpContent::Text { text } => {
                proof {
                    lemma_join_push(before, text@);
                }
                if any {
                    crate::text::push_char(&mut out, '\n');
                }
                out.append(text.as_str());
                any = true;
            },
            _ => {},
        }
        i += 1;
    }
    proof {
        assert(content@.subrange(0, content@.len() as int) =~= content@);
    }
    out
}

/// Converts a call result into the wire output format.
pub fn translate_mcp_result(result: &McpCallResult) -> (out: ToolOutputWire)
    ensures
        translates_to(*result, out),
{
    if result.content.len() == 0 {
        return ToolOutputWire::Text(String::new());
    }
    if result.is_error {
        return ToolOutputWire::Text(error_text(&result.content));
    }
    if result.content.len() == 1 {
        match &result.content[0] {
            McpContent::Text { text } => {
                return ToolOutputWire::Text(text.clone());
            },
            _ => {},
        }
    }
    let mut blocks: Vec<McpBlock> = Vec::new();
    let mut i: usize = 0;
    while i < result.content.len()
        invariant
            i <= result.content.len(),
            blocks@ == result.content@.subrange(0, i as int).map_values(|c: McpContent| block_of(c)),
        decreases result.content.len() - i,
    {
        let b = copy_block(&result.content[i]);
        blocks.push(b);
        i += 1;
        proof {
            assert(blocks@ =~= result.content@.subrange(0, i as int).map_values(
                |c: McpContent| block_of(c),
            ));
        }
    }
    proof {
        assert(result.content@.subrange(0, result.content@.len() as int) =~= result.content@);
    }
    ToolOutputWire::Mcp { blocks }
}

// ---------------------------------------------------------------------------
// Retry-safety marker.
// ---------------------------------------------------------------------------

/// What `serde_json` reads as the boolean member `key` at the top level of the
/// JSON text `json`: `None` when the text does not parse, has no such member, or
/// the member is not a boolean.
pub uninterp spec fn json_bool_member(json: Seq<char>, key: Seq<char>) -> Option<bool>;

/// Parses `json` with `serde_json::from_str` into a `serde_json::Value`, looks up
/// `key` with `Value::get` and reads it with `Value::as_bool`. The contract claims
/// only that the result is a function of the two texts, named `json_bool_member`.
#[verifier::external_body]
fn top_level_bool(json: &str, key: &str) -> (r: Option<bool>)
    ensures
        r == json_bool_member(json@, key@),
{
    match serde_json::from_str::<serde_json::Value>(json) {
        Ok(value) => match value.get(key) {
            Some(member) => member.as_bool(),
            None => None,
        },
        Err(_) => None,
    }
}

/// A tool is retry-safe when its input schema carries `"x-retry-safe": true` at
/// the top level.
pub open spec fn schema_retry_safe(schema: Option<String>) -> bool {
    match schema {
        Some(s) => json_bool_member(s@, "x-retry-safe"@) == Some(true),
        None => false,
    }
}

impl McpToolDefinition {
    /// Adapter-local retry safety hint: an explicit, opt-in `"x-retry-safe": true`
    /// at the top level of the input schema.
    pub fn is_retry_safe(&self) -> (r: bool)
        ensures
            r == schema_retry_safe(self.input_schema),
    {
        match &self.input_schema {
            Some(schema) => match top_level_bool(schema.as_str(), "x-retry-safe") {
                Some(b) => b,
                None => false,
            },
            None => false,
        }
    }
}

// ---------------------------------------------------------------------------
// Final failures and the call loop.
// ---------------------------------------------------------------------------

/// Seconds after which one attempt is abandoned.
pub const MCP_TOOL_CALL_BACKSTOP_TIMEOUT_SECS: u64 = 30;

/// Class of a failed hub call.
#[derive(Debug, Clone, Copy, PartialEq, Eq, Structural)]
pub enum ToolFailureKind {
    Timeout,
    Execution,
    Cancelled,
}

/// A failed hub call: its class, the tool and a message.
#[derive(Debug, Clone)]
pub struct ToolFailure {
    pub kind: ToolFailureKind,
    pub tool_id: String,
    pub detail: String,
}

pub open spec fn timeout_detail() -> Seq<char> {
    "MCP tool call timed out after "@ + decimal(MCP_TOOL_CALL_BACKSTOP_TIMEOUT_SECS as nat) + "s"@
}

pub open spec fn cancelled_detail() -> Seq<char> {
    "MCP tool call cancelled during retry backoff"@
}

/// The failure a hub call ends with after the attempt failure `f`: a timeout for
/// the backstop, an execution failure carrying the MCP error's message otherwise.
pub open spec fn final_failure_of(tool_id: Seq<char>, f: AttemptFailure, e: ToolFailure) -> bool {
    &&& e.tool_id@ == tool_id
    &&& match f {
        AttemptFailure::BackstopTimeout => e.kind == ToolFailureKind::Timeout && e.detail@
            == timeout_detail(),
        AttemptFailure::Mcp(m) => e.kind == ToolFailureKind::Execution && e.detail@
            == mcp_error_message(m),
    }
}

/// The failure a hub call ends with after its last failed attempt.
pub fn map_final_failure(tool_id: &str, failure: &AttemptFailure) -> (e: ToolFailure)
    ensures
        final_failure_of(tool_id@, *failure, e),
{
    match failure {
        AttemptFailure::BackstopTimeout => {
            let secs = crate::text::u64_to_decimal(MCP_TOOL_CALL_BACKSTOP_TIMEOUT_SECS);
            ToolFailure {
                kind: ToolFailureKind::Timeout,
                tool_id: owned(tool_id),
                detail: concat3("MCP tool call timed out after ", secs.as_str(), "s"),
            }
        },
        AttemptFailure::Mcp(m) => ToolFailure {
            kind: ToolFailureKind::Execution,
            tool_id: owned(tool_id),
            detail: m.message(),
        },
    }
}

/// How an attempt ended.
#[derive(Debug, Clone)]
pub enum AttemptOutcome {
    /// The server answered.
    Completed(McpCallResult),
    /// The attempt failed.
    Failed(AttemptFailure),
}

/// What the caller does next.
#[derive(Debug)]
pub enum CallAction {
    /// The hub call ends with this result.
    Finish(Result<ToolOutputWire, ToolFailure>),
    /// Sleep `delay_ms` milliseconds, then make attempt `next_attempt`.
    Backoff { delay_ms: u64, next_attempt: u32 },
}

/// Whether attempt `attempt`, failing with `f`, is followed by a backoff and a
/// further attempt.
pub open spec fn backs_off(attempt: u32, f: AttemptFailure, retry_safe: bool) -> bool {
    retry_allowed(f, retry_safe) && attempt < MCP_TOOL_CALL_MAX_ATTEMPTS
}

/// The retry state of one hub call: the number of the attempt in flight.
#[derive(Debug, Clone, Copy, PartialEq, Eq, Structural)]
pub struct McpCallLoop {
    pub attempt: u32,
}

impl McpCallLoop {
    pub open spec fn wf(self) -> bool {
        1 <= self.attempt <= MCP_TOOL_CALL_MAX_ATTEMPTS
    }

    /// A call about to make its first attempt.
    pub fn new() -> (l: McpCallLoop)
        ensures
            l.attempt == 1,
            l.wf(),
    {
        McpCallLoop { attempt: 1 }
    }

    /// Decides what follows the outcome of the attempt in flight: success ends the
    /// call with the translated result; a failure is retried after a backoff when
    /// [`backs_off`] holds, and otherwise ends the call with its final failure.
    pub fn on_attempt(&self, tool_id: &str, retry_safe: bool, outcome: &AttemptOutcome) -> (a:
        CallAction)
        requires
            self.wf(),
        ensures
            match *outcome {
                AttemptOutcome::Completed(r) => a matches CallAction::Finish(Ok(out))
                    && translates_to(r, out),
                AttemptOutcome::Failed(f) => if backs_off(self.attempt, f, retry_safe) {
                    a matches CallAction::Backoff { delay_ms, next_attempt } && next_attempt == self.attempt + 1
                        && is_retry_delay(tool_id, next_attempt, delay_ms as int)
                } else {
                    a matches CallAction::Finish(Err(e)) && final_failure_of(tool_id@, f, e)
                },
            },
    {
        match outcome {
            AttemptOutcome::Completed(r) => CallAction::Finish(Ok(translate_mcp_result(r))),
            AttemptOutcome::Failed(f) => {
                let decision = classify_retry(f, retry_safe);
                match decision {
                    RetryDecision::Retry { .. } => {
                        if self.attempt < MCP_TOOL_CALL_MAX_ATTEMPTS {
                            let next = self.attempt + 1;
                            let delay = deterministic_retry_delay(tool_id, next);
                            return CallAction::Backoff { delay_ms: delay, next_attempt: next };
                        }
                    },
                    RetryDecision::NoRetry { .. } => {},
                }
                CallAction::Finish(Err(map_final_failure(tool_id, f)))
            },
        }
    }

    /// Records the end of a backoff: when the sleep ran to its end the next attempt
    /// is in flight; when it was cancelled the call ends cancelled.
    pub fn after_backoff(&mut self, tool_id: &str, slept: bool) -> (cancelled: Option<ToolFailure>)
        requires
            old(self).wf(),
            old(self).attempt < MCP_TOOL_CALL_MAX_ATTEMPTS,
        ensures
            final(self).wf(),
            slept ==> cancelled is None && final(self).attempt == old(self).attempt + 1,
            !slept ==> *final(self) == *old(self),
            !slept ==> (cancelled matches Some(e) && e.kind == ToolFailureKind::Cancelled
                && e.tool_id@ == tool_id@ && e.detail@ == cancelled_detail()),
    {
        if slept {
            self.attempt = self.attempt + 1;
            None
        } else {
            Some(
                ToolFailure {
                    kind: ToolFailureKind::Cancelled,
                    tool_id: owned(tool_id),
                    detail: owned("MCP tool call cancelled during retry backoff"),
                },
            )
        }
    }
}

// ---------------------------------------------------------------------------
// Bridging discovered tools.
// ---------------------------------------------------------------------------

/// The positions whose flag is set, in order.
pub open spec fn valid_positions(valid: Seq<bool>) -> Seq<usize>
    decreases valid.len(),
{
    if valid.len() == 0 {
        Seq::empty()
    } else {
        let p = valid_positions(valid.drop_last());
        if valid.last() {
            p.push((valid.len() - 1) as usize)
        } else {
            p
        }
    }
}

/// The discovered tools that get a hub handler: those whose name is a valid tool id
/// (`name_valid[i]` for tool `i`), in the order the server listed them; the others
/// are skipped.
pub fn bridged_tools(name_valid: &Vec<bool>) -> (r: Vec<usize>)
    ensures
        r@ == valid_positions(name_valid@),
{
    let mut r: Vec<usize> = Vec::new();
    let mut i: usize = 0;
    while i < name_valid.len()
        invariant
            i <= name_valid.len(),
            r@ == valid_positions(name_valid@.subrange(0, i as int)),
        decreases name_valid.len() - i,
    {
        proof {
            assert(name_valid@.subrange(0, i + 1).drop_last() =~= name_valid@.subrange(0, i as int));
        }
        if name_valid[i] {
            r.push(i);
        }
        i += 1;
    }
    proof {
        assert(name_valid@.subrange(0, name_valid@.len() as int) =~= name_valid@);
    }
    r
}

// ---------------------------------------------------------------------------
// Laws.
// ---------------------------------------------------------------------------

/// A failed attempt is followed by another exactly when the failure is transient,
/// a repeat cannot run the tool twice (the tool is retry-safe, or the request never
/// reached it), and the attempt budget is not spent: deterministic failures are
/// never retried, ambiguous failures of tools that are not retry-safe are never
/// retried, and the last attempt is never followed by another.
pub proof fn law_retry_policy(attempt: u32, f: AttemptFailure, retry_safe: bool)
    ensures
        backs_off(attempt, f, retry_safe) <==> (failure_transient(f) && (retry_safe
            || failure_before_remote(f)) && attempt < MCP_TOOL_CALL_MAX_ATTEMPTS),
        !failure_transient(f) ==> !backs_off(attempt, f, retry_safe),
        !retry_safe && !failure_before_remote(f) ==> !backs_off(attempt, f, retry_safe),
        !backs_off(MCP_TOOL_CALL_MAX_ATTEMPTS, f, retry_safe),
{
}

/// A transport failure that happened before the request was sent is retried while
/// attempts remain, whether or not the tool is retry-safe; a protocol error whose
/// code is not transient (such as 400) is never retried.
pub proof fn law_pre_call_failures_retried(attempt: u32, msg: String, code: i64, message: String, retry_safe: bool)
    requires
        1 <= attempt < MCP_TOOL_CALL_MAX_ATTEMPTS,
    ensures
        backs_off(attempt, AttemptFailure::Mcp(McpError::TransportPreCall(msg)), retry_safe),
        !transient_code(code) ==> !backs_off(
            attempt,
            AttemptFailure::Mcp(McpError::Protocol { code, message }),
            retry_safe,
        ),
{
}

/// Every backoff lies between the base delay and the cap before jitter, and the
/// jitter moves it by at most a fifth: between 80 and 960 milliseconds.
pub proof fn law_backoff_window(attempt: u32, hash: u64)
    ensures
        MCP_TOOL_CALL_RETRY_BASE_DELAY_MS <= capped_delay_ms(attempt) <= MCP_TOOL_CALL_RETRY_MAX_DELAY_MS,
        capped_delay_ms(attempt) - jitter_span_ms(attempt) <= jittered_delay_ms(attempt, hash)
            <= capped_delay_ms(attempt) + jitter_span_ms(attempt),
        80 <= jittered_delay_ms(attempt, hash) <= 960,
{
    lemma_capped_bound(attempt);
    let capped = capped_delay_ms(attempt);
    let span = jitter_span_ms(attempt);
    assert(span >= 20 && span <= 160 && 5 * span <= capped);
    vstd::arithmetic::div_mod::lemma_mod_pos_bound(hash as int, 2 * span + 1);
}

/// The backoff before jitter never shrinks from one attempt to a later one.
pub proof fn law_backoff_non_decreasing(a: u32, b: u32)
    requires
        a <= b,
    ensures
        capped_delay_ms(a) <= capped_delay_ms(b),
{
    let da: nat = if a <= 2 {
        0
    } else if a - 2 >= 8 {
        8
    } else {
        (a - 2) as nat
    };
    let db: nat = if b <= 2 {
        0
    } else if b - 2 >= 8 {
        8
    } else {
        (b - 2) as nat
    };
    lemma_pow2_monotone(da, db);
}

proof fn lemma_pow2_monotone(i: nat, j: nat)
    requires
        i <= j,
    ensures
        pow2(i) <= pow2(j),
    decreases j,
{
    if i < j {
        lemma_pow2_monotone(i, (j - 1) as nat);
        lemma_pow2_positive((j - 1) as nat);
    }
}

} // verus!
