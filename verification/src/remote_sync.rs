//! Remote sync of the session search index: where the compressed index lives, when an
//! upload is due (at most once an hour per target), and when the local index is stale
//! enough that the remote copy should replace it.

use vstd::prelude::*;
use crate::text::{concat3, owned};

verus! {

/// Seconds between two uploads to the same target.
pub const UPLOAD_DEBOUNCE_SECS: i64 = 3600;
/// A local index older than the remote one by more than this many seconds is stale.
pub const STALENESS_THRESHOLD_SECS: i64 = 3600;

/// Configuration for remote index sync; disabled by default.
#[derive(Debug, Clone, PartialEq, Eq)]
pub struct RemoteSyncConfig {
    /// Whether remote sync is enabled.
    pub enabled: bool,
    /// Prefix of the remote index in the bucket.
    pub gcs_prefix: String,
}

impl Default for RemoteSyncConfig {
    /// Disabled, with the prefix `session_search_index`.
    fn default() -> (c: RemoteSyncConfig)
        ensures
            !c.enabled,
            c.gcs_prefix@ == "session_search_index"@,
    {
        RemoteSyncConfig { enabled: false, gcs_prefix: owned("session_search_index") }
    }
}

/// How the index is uploaded.
#[derive(Debug, Clone, PartialEq, Eq)]
pub enum UploadMethod {
    Proxy { proxy_base_url: String, user_token: String, deployment_key: Option<String>, alpha_test_key: Option<String> },
    Direct,
    S3 { bucket: String, region: String, endpoint_url: Option<String> },
}

/// Where uploads go.
#[derive(Debug, Clone, PartialEq, Eq)]
pub struct TraceExportConfig {
    pub bucket_url: Option<String>,
    /// Key of a service account for direct uploads, when one is configured.
    pub service_account_key: Option<String>,
    /// Prefix of uploaded objects in the bucket.
    pub gcs_prefix: Option<String>,
    pub upload_method: UploadMethod,
}

/// The remote object name of the compressed index.
pub open spec fn object_path_of(prefix: Seq<char>) -> Seq<char> {
    prefix + "/"@ + "session_search.sqlite.zst"@
}

/// The remote object name of the compressed index under the configured prefix.
pub fn gcs_object_path(config: &RemoteSyncConfig) -> (r: String)
    ensures
        r@ == object_path_of(config.gcs_prefix@),
{
    let head = concat3(config.gcs_prefix.as_str(), "/", "session_search.sqlite.zst");
    head
}

pub open spec fn opt_or_empty(o: Option<String>) -> Seq<char> {
    match o {
        Some(s) => s@,
        None => Seq::empty(),
    }
}

/// The key under which uploads to one destination are debounced: the method with its
/// destination, then `|` and the prefix.
pub open spec fn target_key_of(config: RemoteSyncConfig, gcs: TraceExportConfig) -> Seq<char> {
    let method = match gcs.upload_method {
        UploadMethod::Proxy { proxy_base_url, .. } => "proxy:"@ + proxy_base_url@,
        UploadMethod::Direct => "direct:"@ + opt_or_empty(gcs.bucket_url),
        UploadMethod::S3 { bucket, region, endpoint_url } =>
            "s3:"@ + bucket@ + ":"@ + region@ + ":"@ + opt_or_empty(endpoint_url),
    };
    method + "|"@ + config.gcs_prefix@
}

fn text_or_empty(o: &Option<String>) -> (r: String)
    ensures
        r@ == opt_or_empty(*o),
{
    match o {
        Some(s) => s.clone(),
        None => String::new(),
    }
}

/// The debounce key of an upload destination.
pub fn upload_target_key(config: &RemoteSyncConfig, gcs_config: &TraceExportConfig) -> (r: String)
    ensures
        r@ == target_key_of(*config, *gcs_config),
{
    let method = match &gcs_config.upload_method {
        UploadMethod::Proxy { proxy_base_url, .. } => concat3("proxy:", proxy_base_url.as_str(), ""),
        UploadMethod::Direct => concat3("direct:", text_or_empty(&gcs_config.bucket_url).as_str(), ""),
        UploadMethod::S3 { bucket, region, endpoint_url } => {
            let head = concat3("s3:", bucket.as_str(), ":");
            let mid = concat3(head.as_str(), region.as_str(), ":");
            concat3(mid.as_str(), text_or_empty(endpoint_url).as_str(), "")
        },
    };
    proof {
        reveal_strlit("");
    }
    concat3(method.as_str(), "|", config.gcs_prefix.as_str())
}

// ---------------------------------------------------------------------------
// Upload debounce.
// ---------------------------------------------------------------------------

/// The last upload time of each target, each target once.
pub struct UploadDebounce {
    entries: Vec<(String, i64)>,
}

/// The recorded time of `target` in a list of entries.
pub open spec fn last_of(entries: Seq<(Seq<char>, i64)>, target: Seq<char>) -> Option<i64>
    decreases entries.len(),
{
    if entries.len() == 0 {
        None
    } else if entries.last().0 == target {
        Some(entries.last().1)
    } else {
        last_of(entries.drop_last(), target)
    }
}

/// An upload to a target is due when none was recorded or the last one is an hour old.
pub open spec fn due(last: Option<i64>, now: i64) -> bool {
    match last {
        None => true,
        Some(t) => now - t >= UPLOAD_DEBOUNCE_SECS,
    }
}

impl UploadDebounce {
    /// The recorded upload times, by target.
    pub closed spec fn spec_last(&self, target: Seq<char>) -> Option<i64> {
        last_of(Seq::new(self.entries@.len(), |i: int| (self.entries@[i].0@, self.entries@[i].1)), target)
    }

    /// No upload recorded.
    pub fn new() -> (d: UploadDebounce)
        ensures
            forall|t: Seq<char>| d.spec_last(t) is None,
    {
        UploadDebounce { entries: Vec::new() }
    }

    /// The last recorded upload time of a target.
    pub fn last(&self, target: &str) -> (r: Option<i64>)
        ensures
            r == self.spec_last(target@),
    {
        let ghost es = Seq::new(self.entries@.len(), |i: int| (self.entries@[i].0@, self.entries@[i].1));
        let mut i: usize = self.entries.len();
        proof {
            assert(es.subrange(0, i as int) =~= es);
        }
        while i > 0
            invariant
                i <= self.entries@.len(),
                es == Seq::new(self.entries@.len(), |i: int| (self.entries@[i].0@, self.entries@[i].1)),
                last_of(es, target@) == last_of(es.subrange(0, i as int), target@),
            decreases i,
        {
            let ghost sub = es.subrange(0, i as int);
            proof {
                assert(sub.drop_last() =~= es.subrange(0, i - 1));
                assert(sub.last() == es[i - 1]);
            }
            if crate::text::same_text(self.entries[i - 1].0.as_str(), target) {
                return Some(self.entries[i - 1].1);
            }
            i -= 1;
        }
        proof {
            assert(es.subrange(0, 0) =~= Seq::<(Seq<char>, i64)>::empty());
        }
        None
    }

    /// Whether an upload to `target` is due at time `now`.
    pub fn ready_at(&self, target: &str, now: i64) -> (r: bool)
        ensures
            r == due(self.spec_last(target@), now),
    {
        match self.last(target) {
            None => true,
            Some(last) => (now as i128) - (last as i128) >= UPLOAD_DEBOUNCE_SECS as i128,
        }
    }

    /// Records an upload to `target` at time `at`.
    pub fn record_at(&mut self, target: &str, at: i64)
        ensures
            final(self).spec_last(target@) == Some(at),
            forall|t: Seq<char>| t != target@ ==> final(self).spec_last(t) == old(self).spec_last(t),
    {
        let ghost es0 = Seq::new(self.entries@.len(), |i: int| (self.entries@[i].0@, self.entries@[i].1));
        self.entries.push((owned(target), at));
        proof {
            let es = Seq::new(self.entries@.len(), |i: int| (self.entries@[i].0@, self.entries@[i].1));
            assert(es.drop_last() =~= es0);
            assert(es.last() == (target@, at));
        }
    }

    /// Forgets every recorded upload.
    pub fn clear(&mut self)
        ensures
            forall|t: Seq<char>| final(self).spec_last(t) is None,
    {
        self.entries.clear();
        proof {
            let es = Seq::new(self.entries@.len(), |i: int| (self.entries@[i].0@, self.entries@[i].1));
            assert(es =~= Seq::<(Seq<char>, i64)>::empty());
        }
    }
}

// ---------------------------------------------------------------------------
// Staleness.
// ---------------------------------------------------------------------------

/// Seconds since the epoch for a storage object generation: microseconds above 10^12,
/// seconds otherwise; nothing for a generation that is not positive.
pub open spec fn generation_secs(generation: i64) -> Option<i64> {
    if generation <= 0 {
        None
    } else if generation > 1_000_000_000_000 {
        Some((generation / 1_000_000) as i64)
    } else {
        Some(generation)
    }
}

/// Seconds since the epoch for a storage object generation.
pub fn generation_to_unix_secs(generation: i64) -> (r: Option<i64>)
    ensures
        r == generation_secs(generation),
{
    if generation <= 0 {
        return None;
    }
    if generation > 1_000_000_000_000 {
        return Some(generation / 1_000_000);
    }
    Some(generation)
}

/// The local index is stale when it has no bootstrap time, or when the remote time is
/// known (not 0) and more than an hour newer.
pub open spec fn stale(local_last_bootstrap_at: Option<i64>, remote_timestamp_unix: i64) -> bool {
    match local_last_bootstrap_at {
        None => true,
        Some(local) => remote_timestamp_unix != 0 && remote_timestamp_unix - local > STALENESS_THRESHOLD_SECS,
    }
}

/// Whether the local index, bootstrapped at `local_last_bootstrap_at` (none when the
/// database or its marker is missing), should be replaced by the remote one.
pub fn is_local_stale(local_last_bootstrap_at: Option<i64>, remote_timestamp_unix: i64) -> (r: bool)
    ensures
        r == stale(local_last_bootstrap_at, remote_timestamp_unix),
{
    let local_ts = match local_last_bootstrap_at {
        None => return true,
        Some(t) => t,
    };
    if remote_timestamp_unix == 0 {
        return false;
    }
    (remote_timestamp_unix as i128) - (local_ts as i128) > STALENESS_THRESHOLD_SECS as i128
}

/// What a probe of the remote index found.
#[derive(Debug, Clone, Copy, PartialEq, Eq, Structural)]
pub enum RemoteProbe {
    Found { timestamp_unix: i64 },
    NotFound,
    Failed,
}

/// The probe outcome for an object found with this generation: a generation that gives
/// no time is a failed probe.
pub fn probe_from_generation(generation: i64) -> (r: RemoteProbe)
    ensures
        r == match generation_secs(generation) {
            Some(t) => RemoteProbe::Found { timestamp_unix: t },
            None => RemoteProbe::Failed,
        },
{
    match generation_to_unix_secs(generation) {
        Some(t) => RemoteProbe::Found { timestamp_unix: t },
        None => RemoteProbe::Failed,
    }
}

/// Whether to download the remote index: sync enabled, the remote index found, and the
/// local one stale against it. A missing remote index or a failed probe keeps the local one.
pub fn should_download(enabled: bool, probe: RemoteProbe, local_last_bootstrap_at: Option<i64>) -> (r: bool)
    ensures
        r == (enabled && match probe {
            RemoteProbe::Found { timestamp_unix } => stale(local_last_bootstrap_at, timestamp_unix),
            _ => false,
        }),
{
    if !enabled {
        return false;
    }
    match probe {
        RemoteProbe::Found { timestamp_unix } => is_local_stale(local_last_bootstrap_at, timestamp_unix),
        _ => false,
    }
}

/// Whether to upload the local index: sync enabled, an upload due, and a local index to send.
pub fn should_upload(enabled: bool, upload_due: bool, local_index_exists: bool) -> (r: bool)
    ensures
        r == (enabled && upload_due && local_index_exists),
{
    enabled && upload_due && local_index_exists
}

// ---------------------------------------------------------------------------
// Scratch files.
// ---------------------------------------------------------------------------

/// A scratch file name beside `path`: `{path}.{tag}.{id}.tmp`, where `id` is a fresh
/// identifier the caller makes (a time-ordered uuid).
pub fn temp_sibling(path: &str, tag: &str, id: &str) -> (r: String)
    ensures
        r@ == path@ + "."@ + tag@ + "."@ + id@ + ".tmp"@,
{
    let head = concat3(path, ".", tag);
    let mid = concat3(head.as_str(), ".", id);
    let r = crate::text::concat2(mid.as_str(), ".tmp");
    proof {
        assert(r@ == path@ + "."@ + tag@ + "."@ + id@ + ".tmp"@);
    }
    r
}

// ---------------------------------------------------------------------------
// Runtime.
// ---------------------------------------------------------------------------

/// Everything remote sync needs once it is enabled: its configuration and where
/// uploads go.
#[derive(Debug, Clone, PartialEq, Eq)]
pub struct RemoteSyncRuntime {
    pub config: RemoteSyncConfig,
    pub gcs_config: TraceExportConfig,
}

/// The bucket that uploads with `method` go to: the resolved trace bucket for
/// direct uploads (none resolved disables sync), `s3://{bucket}` for S3, and no
/// bucket for the proxy. The outer `None` means sync is disabled.
pub open spec fn bucket_for(method: UploadMethod, trace_bucket_url: Option<Seq<char>>) -> Option<Option<Seq<char>>> {
    match method {
        UploadMethod::Direct => match trace_bucket_url {
            Some(b) => Some(Some(b)),
            None => None,
        },
        UploadMethod::S3 { bucket, .. } => Some(Some("s3://"@ + bucket@)),
        UploadMethod::Proxy { .. } => Some(None),
    }
}

/// The runtime of remote sync: none when it is disabled in the configuration,
/// when no upload method is available, or when direct uploads have no trace bucket.
pub fn resolve_runtime_with(
    remote_sync: RemoteSyncConfig,
    upload_method: Option<UploadMethod>,
    trace_bucket_url: Option<String>,
) -> (r: Option<RemoteSyncRuntime>)
    ensures
        !remote_sync.enabled ==> r is None,
        upload_method is None ==> r is None,
        remote_sync.enabled ==> (upload_method matches Some(m) ==> match bucket_for(m, crate::text::opt_view(trace_bucket_url)) {
            None => r is None,
            Some(b) => r matches Some(rt) && rt.config == remote_sync && rt.gcs_config.upload_method == m
                && crate::text::opt_view(rt.gcs_config.bucket_url) == b
                && crate::text::opt_view(rt.gcs_config.gcs_prefix) == Some(remote_sync.gcs_prefix@)
                && rt.gcs_config.service_account_key is None,
        }),
{
    if !remote_sync.enabled {
        return None;
    }
    let method = match upload_method {
        Some(m) => m,
        None => {
            return None;
        },
    };
    let bucket_url: Option<String> = match &method {
        UploadMethod::Direct => match trace_bucket_url {
            Some(b) => Some(b),
            None => {
                return None;
            },
        },
        UploadMethod::S3 { bucket, .. } => Some(crate::text::concat2("s3://", bucket.as_str())),
        UploadMethod::Proxy { .. } => None,
    };
    let gcs_prefix = Some(owned(remote_sync.gcs_prefix.as_str()));
    Some(RemoteSyncRuntime {
        config: remote_sync,
        gcs_config: TraceExportConfig {
            bucket_url,
            service_account_key: None,
            gcs_prefix,
            upload_method: method,
        },
    })
}

// ---------------------------------------------------------------------------
// Laws.
// ---------------------------------------------------------------------------

/// Uploads to one target are at least an hour apart: right after an upload is recorded
/// at `at`, no upload to that target is due before `at + 3600`, and one is due from then on.
pub proof fn law_upload_at_most_hourly(at: i64, now: i64)
    ensures
        due(Some(at), now) == (now - at >= 3600),
{
}

/// Without a remote time the local index is stale only when it has never been
/// bootstrapped; with one, it is stale exactly when more than an hour behind.
pub proof fn law_staleness(local: Option<i64>, remote: i64)
    ensures
        remote == 0 ==> (stale(local, remote) == (local is None)),
        remote != 0 ==> (local matches Some(l) ==> (stale(local, remote) == (remote - l > 3600))),
{
}

} // verus!
