use grok_core::preflight::{
    append_windows_native_build_preflight, collect_preflight_with, first_output_line,
    is_windows_preflight_probe,
    safe_observation, DiagnosticReport, FindingDisposition, HostOs, PreflightObservations,
    PreflightOutcome, ProbeStatus, ToolObservation, DISK_FAIL_THRESHOLD_BYTES, DISK_WARN_THRESHOLD_BYTES,
};
use std::collections::BTreeMap;

struct FakeEnv {
    host_os: HostOs,
    commands: BTreeMap<String, String>,
    versions: BTreeMap<String, String>,
    disk_bytes: Option<u64>,
}

impl FakeEnv {
    fn windows_ready() -> Self {
        Self {
            host_os: HostOs::Windows,
            commands: BTreeMap::from([
                ("nasm".to_owned(), "C:/tools/nasm.exe".to_owned()),
                ("cl.exe".to_owned(), "C:/vs/cl.exe".to_owned()),
                ("link.exe".to_owned(), "C:/vs/link.exe".to_owned()),
                ("cmake".to_owned(), "C:/tools/cmake.exe".to_owned()),
                ("rustc".to_owned(), "C:/rust/bin/rustc.exe".to_owned()),
                ("cargo".to_owned(), "C:/rust/bin/cargo.exe".to_owned()),
            ]),
            versions: BTreeMap::from([
                ("nasm".to_owned(), "NASM version 2.16.01".to_owned()),
                ("cmake".to_owned(), "cmake version 3.31.0".to_owned()),
                ("rustc".to_owned(), "rustc 1.90.0".to_owned()),
                ("cargo".to_owned(), "cargo 1.90.0".to_owned()),
            ]),
            disk_bytes: Some(DISK_WARN_THRESHOLD_BYTES + 1),
        }
    }

    fn tool(&self, name: &str) -> ToolObservation {
        let path = self.commands.get(name).cloned();
        let version = if path.is_some() { self.versions.get(name).cloned() } else { None };
        ToolObservation { path, version }
    }

    fn observations(&self) -> PreflightObservations {
        PreflightObservations {
            host_os: self.host_os,
            nasm: self.tool("nasm"),
            cmake: self.tool("cmake"),
            rustc: self.tool("rustc"),
            cargo: self.tool("cargo"),
            cl_path: self.commands.get("cl.exe").cloned(),
            link_path: self.commands.get("link.exe").cloned(),
            available_disk_bytes: self.disk_bytes,
        }
    }
}

fn collect(fake: &FakeEnv) -> PreflightOutcome {
    collect_preflight_with(&fake.observations())
}

fn status_for(outcome: &PreflightOutcome, probe: &str) -> ProbeStatus {
    outcome
        .notes
        .iter()
        .find(|note| note.probe == probe)
        .unwrap_or_else(|| panic!("missing probe note: {probe}"))
        .status
}

#[test]
fn all_tools_present_is_pass() {
    let outcome = collect(&FakeEnv::windows_ready());
    assert_eq!(status_for(&outcome, "build.windows-native.overall"), ProbeStatus::Pass);
    assert!(outcome.findings.is_empty());
}

#[test]
fn missing_nasm_is_fail() {
    let mut fake = FakeEnv::windows_ready();
    fake.commands.remove("nasm");
    let outcome = collect(&fake);
    assert_eq!(status_for(&outcome, "build.windows-native.nasm"), ProbeStatus::Fail);
    assert_eq!(status_for(&outcome, "build.windows-native.overall"), ProbeStatus::Fail);
}

#[test]
fn missing_msvc_cl_is_fail() {
    let mut fake = FakeEnv::windows_ready();
    fake.commands.remove("cl.exe");
    let outcome = collect(&fake);
    assert_eq!(status_for(&outcome, "build.windows-native.msvc"), ProbeStatus::Fail);
}

#[test]
fn missing_msvc_link_is_fail() {
    let mut fake = FakeEnv::windows_ready();
    fake.commands.remove("link.exe");
    let outcome = collect(&fake);
    assert_eq!(status_for(&outcome, "build.windows-native.msvc"), ProbeStatus::Fail);
}

#[test]
fn missing_cmake_is_fail() {
    let mut fake = FakeEnv::windows_ready();
    fake.commands.remove("cmake");
    let outcome = collect(&fake);
    assert_eq!(status_for(&outcome, "build.windows-native.cmake"), ProbeStatus::Fail);
}

#[test]
fn missing_rustc_is_fail() {
    let mut fake = FakeEnv::windows_ready();
    fake.commands.remove("rustc");
    let outcome = collect(&fake);
    assert_eq!(status_for(&outcome, "build.windows-native.rustc"), ProbeStatus::Fail);
}

#[test]
fn missing_cargo_is_fail() {
    let mut fake = FakeEnv::windows_ready();
    fake.commands.remove("cargo");
    let outcome = collect(&fake);
    assert_eq!(status_for(&outcome, "build.windows-native.cargo"), ProbeStatus::Fail);
}

#[test]
fn low_disk_space_is_warn() {
    let mut fake = FakeEnv::windows_ready();
    fake.disk_bytes = Some(DISK_WARN_THRESHOLD_BYTES - 1);
    let outcome = collect(&fake);
    assert_eq!(status_for(&outcome, "build.windows-native.disk-space"), ProbeStatus::Warn);
    assert_eq!(status_for(&outcome, "build.windows-native.overall"), ProbeStatus::Warn);
}

#[test]
fn critically_low_disk_space_is_fail() {
    let mut fake = FakeEnv::windows_ready();
    fake.disk_bytes = Some(DISK_FAIL_THRESHOLD_BYTES - 1);
    let outcome = collect(&fake);
    assert_eq!(status_for(&outcome, "build.windows-native.disk-space"), ProbeStatus::Fail);
    assert_eq!(status_for(&outcome, "build.windows-native.overall"), ProbeStatus::Fail);
}

#[test]
fn non_windows_is_not_applicable_for_windows_only_probes() {
    let fake = FakeEnv {
        host_os: HostOs::Linux,
        commands: BTreeMap::new(),
        versions: BTreeMap::new(),
        disk_bytes: None,
    };
    let outcome = collect(&fake);
    for probe in [
        "build.windows-native.overall",
        "build.windows-native.nasm",
        "build.windows-native.msvc",
        "build.windows-native.cmake",
        "build.windows-native.rustc",
        "build.windows-native.cargo",
        "build.windows-native.disk-space",
    ] {
        assert_eq!(status_for(&outcome, probe), ProbeStatus::NotApplicable);
    }
}

#[test]
fn safe_tool_path_and_version_reporting() {
    let mut fake = FakeEnv::windows_ready();
    fake.commands.insert("nasm".to_owned(), "C:/secret/TOKEN/nasm.exe".to_owned());
    fake.versions.insert("nasm".to_owned(), "NASM version\nTOKEN=abc".to_owned());
    let outcome = collect(&fake);
    let message = outcome
        .notes
        .iter()
        .find(|note| note.probe == "build.windows-native.nasm")
        .and_then(|note| note.message.as_deref())
        .unwrap_or_default();
    assert!(message.contains("path=[redacted]"));
    assert!(message.contains("version=[redacted]"));
}

#[test]
fn environment_blocked_wording_is_present_on_failure() {
    let mut fake = FakeEnv::windows_ready();
    fake.commands.remove("nasm");
    let outcome = collect(&fake);
    let note = outcome
        .findings
        .iter()
        .find(|finding| finding.id.group == "build" && finding.id.name == "windows-native-prereqs")
        .and_then(|finding| finding.note.as_deref())
        .unwrap_or_default();
    assert!(note.contains("ENVIRONMENT_BLOCKED"));
}

#[test]
fn output_is_deterministic() {
    let fake = FakeEnv::windows_ready();
    let first = collect(&fake);
    let second = collect(&fake);
    assert_eq!(
        first
            .notes
            .iter()
            .map(|note| (note.probe.clone(), note.status, note.message.clone()))
            .collect::<Vec<_>>(),
        second
            .notes
            .iter()
            .map(|note| (note.probe.clone(), note.status, note.message.clone()))
            .collect::<Vec<_>>()
    );
    assert_eq!(
        first
            .findings
            .iter()
            .map(|finding| (finding.id.clone(), finding.disposition, finding.message.clone(), finding.note.clone()))
            .collect::<Vec<_>>(),
        second
            .findings
            .iter()
            .map(|finding| (finding.id.clone(), finding.disposition, finding.message.clone(), finding.note.clone()))
            .collect::<Vec<_>>()
    );
}

#[test]
fn non_windows_returns_not_applicable_overall() {
    let fake = FakeEnv {
        host_os: HostOs::Linux,
        commands: BTreeMap::new(),
        versions: BTreeMap::new(),
        disk_bytes: None,
    };
    let outcome = collect(&fake);
    assert!(outcome
        .notes
        .iter()
        .any(|note| note.probe == "build.windows-native.overall" && note.status == ProbeStatus::NotApplicable));
}

#[test]
fn messages_do_not_expose_environment_variables() {
    let mut fake = FakeEnv::windows_ready();
    fake.commands.insert("cargo".to_owned(), "C:/api_key/path/cargo.exe".to_owned());
    fake.versions.insert("cargo".to_owned(), "PASSWORD=abc".to_owned());
    let outcome = collect(&fake);
    for note in &outcome.notes {
        if !note.probe.starts_with("build.windows-native") {
            continue;
        }
        let upper = note.message.clone().unwrap_or_default().to_ascii_uppercase();
        assert!(!upper.contains("SECRET"));
        assert!(!upper.contains("TOKEN"));
        assert!(!upper.contains("PASSWORD"));
        assert!(!upper.contains("API_KEY"));
    }
}

// Further cases.

#[test]
fn messages_and_summary_are_exact() {
    let mut fake = FakeEnv::windows_ready();
    fake.commands.remove("cmake");
    fake.commands.remove("link.exe");
    fake.disk_bytes = Some(5);
    fake.versions.remove("rustc");
    let outcome = collect(&fake);
    let msg = |probe: &str| {
        outcome.notes.iter().find(|n| n.probe == probe).unwrap().message.clone().unwrap()
    };
    assert_eq!(msg("build.windows-native.overall"), "missing/blocked: MSVC (cl/link), CMake, disk-space");
    assert_eq!(
        msg("build.windows-native.msvc"),
        "detected=false; cl_present=true; link_present=false; reason=missing MSVC compiler/linker in current shell PATH; remediation=Install Visual Studio Build Tools with C++ workload, then run from a Developer PowerShell or set PATH for `cl.exe` and `link.exe`."
    );
    assert_eq!(
        msg("build.windows-native.rustc"),
        "detected=true; path=C:/rust/bin/rustc.exe; version=version unavailable; remediation=Install Rust toolchain with `rustup` so `rustc` is available."
    );
    assert_eq!(
        msg("build.windows-native.disk-space"),
        "detected=true; available_bytes=5; policy=fail_below_1073741824; remediation=Free disk space on the current drive. Native dependency builds can require multiple gigabytes."
    );
    assert_eq!(outcome.notes.len(), 7);
    assert_eq!(outcome.findings.len(), 1);
    assert_eq!(outcome.findings[0].disposition, FindingDisposition::Issue);
    assert_eq!(
        outcome.findings[0].message,
        "Windows native build prerequisites are blocked: MSVC (cl/link), CMake, disk-space"
    );
}

#[test]
fn warnings_give_a_recommendation_and_report_appends() {
    let mut fake = FakeEnv::windows_ready();
    fake.disk_bytes = None;
    let mut report = DiagnosticReport { probe_notes: Vec::new(), findings: Vec::new() };
    append_windows_native_build_preflight(&mut report, &fake.observations());
    assert_eq!(report.probe_notes.len(), 7);
    assert_eq!(report.findings[0].disposition, FindingDisposition::Recommendation);
    assert_eq!(report.probe_notes[0].message.as_deref(), Some("warning: disk-space"));
    assert!(is_windows_preflight_probe("build.windows-native.overall"));
    assert!(!is_windows_preflight_probe("build.other"));
}

#[test]
fn observations_keep_first_line_and_at_most_200_chars() {
    assert_eq!(safe_observation("  tool 1.0  \r\nsecond"), "tool 1.0");
    assert_eq!(safe_observation(&"x".repeat(250)).len(), 200);
    assert_eq!(safe_observation("my access_key here"), "[redacted]");
    assert_eq!(safe_observation(""), "");
}

#[test]
fn first_output_line_prefers_stdout_then_stderr() {
    assert_eq!(
        first_output_line("\n  \n  NASM version 2.16  \nnext\n", "ignored"),
        Some("NASM version 2.16".to_string())
    );
    assert_eq!(
        first_output_line("", "\r\n cmake version 3.29\r\n"),
        Some("cmake version 3.29".to_string())
    );
    assert_eq!(first_output_line(" \n\t\n", "   "), None);
    assert_eq!(
        first_output_line("C:\\tools\\nasm.exe\r\nC:\\other\\nasm.exe\r\n", ""),
        Some("C:\\tools\\nasm.exe".to_string())
    );
}
