use grok_core::remote_sync::{
    gcs_object_path, generation_to_unix_secs, is_local_stale, probe_from_generation, resolve_runtime_with,
    temp_sibling,
    should_download,
    should_upload, upload_target_key, RemoteProbe, RemoteSyncConfig, TraceExportConfig, UploadDebounce,
    UploadMethod,
};

fn now() -> i64 {
    chrono::Utc::now().timestamp()
}

#[test]
fn test_remote_sync_config_default() {
    let config = RemoteSyncConfig::default();
    assert!(!config.enabled);
    assert_eq!(config.gcs_prefix, "session_search_index");
}

#[test]
fn test_gcs_object_path() {
    let config = RemoteSyncConfig {
        enabled: true,
        gcs_prefix: "my_prefix".to_string(),
    };
    assert_eq!(gcs_object_path(&config), "my_prefix/session_search.sqlite.zst");
}

#[test]
fn test_is_local_stale_no_db() {
    // No DB file, so no bootstrap time: stale
    assert!(is_local_stale(None, 0));
}

#[test]
fn test_is_local_stale_no_meta() {
    // No bootstrap timestamp: stale
    assert!(is_local_stale(None, 100));
}

#[test]
fn test_is_local_stale_fresh() {
    let now = now();
    // Remote timestamp is only 10 seconds ahead: not stale
    assert!(!is_local_stale(Some(now), now + 10));
}

#[test]
fn test_is_local_stale_old() {
    let old_ts = now() - 7200;
    let remote_ts = now();
    assert!(is_local_stale(Some(old_ts), remote_ts));
}

#[test]
fn test_is_local_stale_remote_unknown() {
    let now = now();
    // Remote timestamp 0 (unknown) with local bootstrap: not stale
    assert!(!is_local_stale(Some(now), 0));
}

#[test]
fn test_upload_debounce_initial() {
    let mut debounce = UploadDebounce::new();
    debounce.clear();
    assert!(debounce.ready_at("t1", now()));
    let now = now();
    debounce.record_at("t1", now);
    assert!(!debounce.ready_at("t1", now));
}

#[test]
fn test_upload_debounce_isolated_by_target() {
    let mut debounce = UploadDebounce::new();
    let now = now();
    debounce.record_at("target-a", now);
    assert!(!debounce.ready_at("target-a", now));
    assert!(debounce.ready_at("target-b", now));
}

#[test]
fn test_upload_debounce_record_updates_timestamp() {
    let mut debounce = UploadDebounce::new();
    debounce.record_at("target-z", now());
    assert!(debounce.last("target-z").is_some());
}

// Further cases.

#[test]
fn debounce_boundary_is_one_hour() {
    let mut debounce = UploadDebounce::new();
    debounce.record_at("t", 1_000);
    assert!(!debounce.ready_at("t", 4_599));
    assert!(debounce.ready_at("t", 4_600));
    debounce.record_at("t", 5_000);
    assert_eq!(debounce.last("t"), Some(5_000));
    assert!(!debounce.ready_at("t", 4_600));
}

#[test]
fn generations_in_microseconds_are_scaled() {
    assert_eq!(generation_to_unix_secs(0), None);
    assert_eq!(generation_to_unix_secs(-5), None);
    assert_eq!(generation_to_unix_secs(1_700_000_000), Some(1_700_000_000));
    assert_eq!(generation_to_unix_secs(1_700_000_000_123_456), Some(1_700_000_000));
    assert_eq!(probe_from_generation(0), RemoteProbe::Failed);
    assert_eq!(probe_from_generation(42), RemoteProbe::Found { timestamp_unix: 42 });
}

#[test]
fn staleness_boundary_and_download_decision() {
    assert!(!is_local_stale(Some(1_000), 4_600));
    assert!(is_local_stale(Some(1_000), 4_601));
    assert!(should_download(true, RemoteProbe::Found { timestamp_unix: 10_000 }, Some(1)));
    assert!(!should_download(false, RemoteProbe::Found { timestamp_unix: 10_000 }, Some(1)));
    assert!(!should_download(true, RemoteProbe::NotFound, None));
    assert!(!should_download(true, RemoteProbe::Failed, None));
    assert!(should_upload(true, true, true));
    assert!(!should_upload(true, false, true));
}

#[test]
fn target_keys_name_method_destination_and_prefix() {
    let config = RemoteSyncConfig { enabled: true, gcs_prefix: "p".to_string() };
    let proxy = TraceExportConfig {
        bucket_url: None,
        service_account_key: None,
        gcs_prefix: None,
        upload_method: UploadMethod::Proxy {
            proxy_base_url: "https://proxy".to_string(),
            user_token: "u".to_string(),
            deployment_key: None,
            alpha_test_key: None,
        },
    };
    assert_eq!(upload_target_key(&config, &proxy), "proxy:https://proxy|p");
    let direct = TraceExportConfig {
        bucket_url: Some("gs://b".to_string()),
        service_account_key: None,
        gcs_prefix: None,
        upload_method: UploadMethod::Direct,
    };
    assert_eq!(upload_target_key(&config, &direct), "direct:gs://b|p");
    let s3 = TraceExportConfig {
        bucket_url: None,
        service_account_key: None,
        gcs_prefix: None,
        upload_method: UploadMethod::S3 { bucket: "b".to_string(), region: "r".to_string(), endpoint_url: None },
    };
    assert_eq!(upload_target_key(&config, &s3), "s3:b:r:|p");
}

#[test]
fn runtime_needs_enabled_sync_and_an_upload_route() {
    let enabled = RemoteSyncConfig {
        enabled: true,
        gcs_prefix: "idx".to_string(),
    };
    assert!(resolve_runtime_with(RemoteSyncConfig::default(), Some(UploadMethod::Direct), Some("gs://b".into())).is_none());
    assert!(resolve_runtime_with(enabled.clone(), None, None).is_none());
    assert!(resolve_runtime_with(enabled.clone(), Some(UploadMethod::Direct), None).is_none());

    let direct = resolve_runtime_with(enabled.clone(), Some(UploadMethod::Direct), Some("gs://b".into())).unwrap();
    assert_eq!(direct.gcs_config.bucket_url.as_deref(), Some("gs://b"));
    assert_eq!(direct.config, enabled);
    assert_eq!(direct.gcs_config.gcs_prefix.as_deref(), Some("idx"));
    assert_eq!(direct.gcs_config.service_account_key, None);

    let s3 = resolve_runtime_with(
        enabled.clone(),
        Some(UploadMethod::S3 {
            bucket: "traces".into(),
            region: "us-east-1".into(),
            endpoint_url: None,
        }),
        None,
    )
    .unwrap();
    assert_eq!(s3.gcs_config.bucket_url.as_deref(), Some("s3://traces"));

    let proxy = resolve_runtime_with(
        enabled,
        Some(UploadMethod::Proxy {
            proxy_base_url: "https://proxy".into(),
            user_token: "t".into(),
            deployment_key: None,
            alpha_test_key: None,
        }),
        Some("gs://ignored".into()),
    )
    .unwrap();
    assert_eq!(proxy.gcs_config.bucket_url, None);
}

#[test]
fn temp_sibling_names_sit_beside_the_file() {
    let id = "0190b2c4-5e6f-7a8b-9c0d-1e2f3a4b5c6d";
    assert_eq!(
        temp_sibling("/data/session_search.sqlite", "remote-zst", id),
        "/data/session_search.sqlite.remote-zst.0190b2c4-5e6f-7a8b-9c0d-1e2f3a4b5c6d.tmp"
    );
}
