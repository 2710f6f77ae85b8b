//! Build preflight for Windows-native builds: from what the host reports about NASM,
//! MSVC, CMake, rustc, cargo and free disk space, the probe notes and the summary
//! finding of a diagnostic report. Tool paths and versions are shown only in safe form.

use vstd::prelude::*;
use crate::text::{
    chars_of, contains_seq, decimal, owned, push_char, trim_text, trim_ws, u64_to_decimal,
    upper_contains, upper_seq, views,
};

verus! {

/// The outcome of one probe.
#[derive(Debug, Clone, Copy, PartialEq, Eq, Structural)]
pub enum ProbeStatus {
    Pass,
    Warn,
    Fail,
    NotApplicable,
    Unsupported,
    Unavailable,
    Error,
}

/// How a finding is to be read.
#[derive(Debug, Clone, Copy, PartialEq, Eq, Structural)]
pub enum FindingDisposition {
    Issue,
    Recommendation,
}

/// The operating system of the host.
#[derive(Debug, Clone, Copy, PartialEq, Eq, Structural)]
pub enum HostOs {
    Windows,
    MacOs,
    Linux,
    Other,
}

/// Identifies a finding: its group and its name.
#[derive(Debug, Clone, PartialEq, Eq)]
pub struct DiagnosticId {
    pub group: String,
    pub name: String,
}

/// One probe's note.
#[derive(Debug, Clone, PartialEq, Eq)]
pub struct ProbeNote {
    pub probe: String,
    pub status: ProbeStatus,
    pub message: Option<String>,
}

/// A finding of a diagnostic report.
#[derive(Debug, Clone, PartialEq, Eq)]
pub struct DiagnosticFinding {
    pub id: DiagnosticId,
    pub disposition: FindingDisposition,
    pub message: String,
    pub remediation: Option<String>,
    pub automatic_remediation: Option<String>,
    pub note: Option<String>,
}

/// A diagnostic report's probe notes and findings.
#[derive(Debug, Clone, PartialEq, Eq)]
pub struct DiagnosticReport {
    pub probe_notes: Vec<ProbeNote>,
    pub findings: Vec<DiagnosticFinding>,
}

/// What the host reported: the operating system, where each tool resolved on `PATH`
/// (with the first line of its version output, asked only of tools that resolved), and
/// the free bytes on the build drive when they could be measured.
#[derive(Debug, Clone, PartialEq, Eq)]
pub struct PreflightObservations {
    pub host_os: HostOs,
    pub nasm: ToolObservation,
    pub cmake: ToolObservation,
    pub rustc: ToolObservation,
    pub cargo: ToolObservation,
    pub cl_path: Option<String>,
    pub link_path: Option<String>,
    pub available_disk_bytes: Option<u64>,
}

/// Where a tool resolved, and the first line of its version output.
#[derive(Debug, Clone, PartialEq, Eq)]
pub struct ToolObservation {
    pub path: Option<String>,
    pub version: Option<String>,
}

/// The notes and findings of one preflight.
#[derive(Debug, Clone, PartialEq, Eq)]
pub struct PreflightOutcome {
    pub notes: Vec<ProbeNote>,
    pub findings: Vec<DiagnosticFinding>,
}

/// The checks, in report order.
#[derive(Debug, Clone, Copy, PartialEq, Eq, Structural)]
pub enum CheckKind {
    Nasm,
    Msvc,
    Cmake,
    Rustc,
    Cargo,
    DiskSpace,
}

/// Free space below this many bytes is a warning.
pub const DISK_WARN_THRESHOLD_BYTES: u64 = 4294967296;
/// Free space below this many bytes fails the check.
pub const DISK_FAIL_THRESHOLD_BYTES: u64 = 1073741824;

// ---------------------------------------------------------------------------
// Check names.
// ---------------------------------------------------------------------------

pub open spec fn probe_of(k: CheckKind) -> Seq<char> {
    match k {
        CheckKind::Nasm => "build.windows-native.nasm"@,
        CheckKind::Msvc => "build.windows-native.msvc"@,
        CheckKind::Cmake => "build.windows-native.cmake"@,
        CheckKind::Rustc => "build.windows-native.rustc"@,
        CheckKind::Cargo => "build.windows-native.cargo"@,
        CheckKind::DiskSpace => "build.windows-native.disk-space"@,
    }
}

pub open spec fn name_of(k: CheckKind) -> Seq<char> {
    match k {
        CheckKind::Nasm => "NASM"@,
        CheckKind::Msvc => "MSVC (cl/link)"@,
        CheckKind::Cmake => "CMake"@,
        CheckKind::Rustc => "rustc"@,
        CheckKind::Cargo => "cargo"@,
        CheckKind::DiskSpace => "disk-space"@,
    }
}

pub open spec fn remediation_of(k: CheckKind) -> Seq<char> {
    match k {
        CheckKind::Nasm => "Install NASM and ensure `nasm.exe` is on PATH."@,
        CheckKind::Msvc => "Install Visual Studio Build Tools with C++ workload, then run from a Developer PowerShell or set PATH for `cl.exe` and `link.exe`."@,
        CheckKind::Cmake => "Install CMake and ensure `cmake.exe` is on PATH."@,
        CheckKind::Rustc => "Install Rust toolchain with `rustup` so `rustc` is available."@,
        CheckKind::Cargo => "Install Rust toolchain with `rustup` so `cargo` is available."@,
        CheckKind::DiskSpace => "Free disk space on the current drive. Native dependency builds can require multiple gigabytes."@,
    }
}

impl CheckKind {
    /// The probe id of the check.
    pub fn probe(self) -> (r: &'static str)
        ensures
            r@ == probe_of(self),
    {
        match self {
            CheckKind::Nasm => "build.windows-native.nasm",
            CheckKind::Msvc => "build.windows-native.msvc",
            CheckKind::Cmake => "build.windows-native.cmake",
            CheckKind::Rustc => "build.windows-native.rustc",
            CheckKind::Cargo => "build.windows-native.cargo",
            CheckKind::DiskSpace => "build.windows-native.disk-space",
        }
    }

    /// The display name of the check.
    pub fn name(self) -> (r: &'static str)
        ensures
            r@ == name_of(self),
    {
        match self {
            CheckKind::Nasm => "NASM",
            CheckKind::Msvc => "MSVC (cl/link)",
            CheckKind::Cmake => "CMake",
            CheckKind::Rustc => "rustc",
            CheckKind::Cargo => "cargo",
            CheckKind::DiskSpace => "disk-space",
        }
    }

    /// What to do when the check does not pass.
    pub fn remediation(self) -> (r: &'static str)
        ensures
            r@ == remediation_of(self),
    {
        match self {
            CheckKind::Nasm => "Install NASM and ensure `nasm.exe` is on PATH.",
            CheckKind::Msvc => "Install Visual Studio Build Tools with C++ workload, then run from a Developer PowerShell or set PATH for `cl.exe` and `link.exe`.",
            CheckKind::Cmake => "Install CMake and ensure `cmake.exe` is on PATH.",
            CheckKind::Rustc => "Install Rust toolchain with `rustup` so `rustc` is available.",
            CheckKind::Cargo => "Install Rust toolchain with `rustup` so `cargo` is available.",
            CheckKind::DiskSpace => "Free disk space on the current drive. Native dependency builds can require multiple gigabytes.",
        }
    }
}

// ---------------------------------------------------------------------------
// Safe observations.
// ---------------------------------------------------------------------------

/// The text before the first line break (`\r` or `\n`).
pub open spec fn first_line(s: Seq<char>) -> Seq<char>
    decreases s.len(),
{
    if s.len() == 0 {
        s
    } else if s[0] == '\r' || s[0] == '\n' {
        Seq::empty()
    } else {
        seq![s[0]] + first_line(s.drop_first())
    }
}

/// The upper-cased text names a credential.
pub open spec fn names_credential(upper: Seq<char>) -> bool {
    contains_seq(upper, "SECRET"@) || contains_seq(upper, "TOKEN"@) || contains_seq(upper, "PASSWORD"@)
        || contains_seq(upper, "API_KEY"@) || contains_seq(upper, "ACCESS_KEY"@)
}

/// An observation as it may be shown: `[redacted]` when it names a credential on any of
/// its lines, otherwise at most 200 characters of its first line without outer white
/// space.
pub open spec fn safe_obs(s: Seq<char>) -> Seq<char> {
    let line = trim_ws(first_line(s));
    if names_credential(upper_seq(s)) {
        "[redacted]"@
    } else if line.len() > 200 {
        line.subrange(0, 200)
    } else {
        line
    }
}

/// An observation in the form in which it may be shown.
pub fn safe_observation(value: &str) -> (r: String)
    ensures
        r@ == safe_obs(value@),
{
    let v = chars_of(value);
    let mut end: usize = 0;
    proof {
        assert(v@.subrange(0, 0) + v@.subrange(0, v@.len() as int) =~= value@);
        assert(v@.subrange(0, v@.len() as int) =~= value@);
    }
    while end < v.len() && v[end] != '\r' && v[end] != '\n'
        invariant
            v@ == value@,
            end <= v.len(),
            first_line(value@) == v@.subrange(0, end as int) + first_line(v@.subrange(end as int, v@.len() as int)),
        decreases v.len() - end,
    {
        proof {
            let rest = v@.subrange(end as int, v@.len() as int);
            assert(rest.drop_first() =~= v@.subrange(end + 1, v@.len() as int));
            assert(v@.subrange(0, end + 1) =~= v@.subrange(0, end as int) + seq![rest[0]]);
        }
        end += 1;
    }
    proof {
        let rest = v@.subrange(end as int, v@.len() as int);
        assert(first_line(rest) =~= Seq::<char>::empty());
        assert(first_line(value@) =~= v@.subrange(0, end as int));
    }
    let mut head = String::new();
    let mut k: usize = 0;
    while k < end
        invariant
            end <= v.len(),
            k <= end,
            head@ == v@.subrange(0, k as int),
        decreases end - k,
    {
        push_char(&mut head, v[k]);
        proof {
            assert(head@ =~= v@.subrange(0, k + 1));
        }
        k += 1;
    }
    let line = trim_text(head.as_str());
    if upper_contains(value, "SECRET") || upper_contains(value, "TOKEN") || upper_contains(value, "PASSWORD")
        || upper_contains(value, "API_KEY") || upper_contains(value, "ACCESS_KEY") {
        return owned("[redacted]");
    }
    let w = chars_of(line.as_str());
    let mut out = String::new();
    let mut j: usize = 0;
    while j < w.len() && j < 200
        invariant
            w@ == line@,
            j <= w.len(),
            j <= 200,
            out@ == w@.subrange(0, j as int),
        decreases w.len() - j,
    {
        push_char(&mut out, w[j]);
        proof {
            assert(out@ =~= w@.subrange(0, j + 1));
        }
        j += 1;
    }
    proof {
        if w@.len() <= 200 {
            assert(out@ =~= line@);
        }
    }
    out
}


// ---------------------------------------------------------------------------
// Checks.
// ---------------------------------------------------------------------------

/// The result of one check.
pub struct CheckResult {
    pub kind: CheckKind,
    pub status: ProbeStatus,
    pub message: String,
}

/// A check's result with its message as characters.
pub struct CheckView {
    pub kind: CheckKind,
    pub status: ProbeStatus,
    pub message: Seq<char>,
}

impl View for CheckResult {
    type V = CheckView;

    open spec fn view(&self) -> CheckView {
        CheckView { kind: self.kind, status: self.status, message: self.message@ }
    }
}

pub open spec fn opt_chars(o: Option<String>) -> Option<Seq<char>> {
    match o {
        Some(s) => Some(s@),
        None => None,
    }
}

/// A command-line tool passes when it resolved on `PATH`; its path and version are shown
/// in safe form.
pub open spec fn command_check_of(kind: CheckKind, path: Option<Seq<char>>, version: Option<Seq<char>>) -> CheckView {
    match path {
        Some(p) => CheckView {
            kind,
            status: ProbeStatus::Pass,
            message: "detected=true; path="@ + safe_obs(p) + "; version="@
                + safe_obs(match version { Some(v) => v, None => "version unavailable"@ })
                + "; remediation="@ + remediation_of(kind),
        },
        None => CheckView {
            kind,
            status: ProbeStatus::Fail,
            message: "detected=false; reason=not found on PATH; remediation="@ + remediation_of(kind),
        },
    }
}

pub open spec fn bool_text(b: bool) -> Seq<char> {
    if b { "true"@ } else { "false"@ }
}

/// MSVC passes only when both the compiler and the linker resolved.
pub open spec fn msvc_check_of(cl: Option<Seq<char>>, link: Option<Seq<char>>) -> CheckView {
    match (cl, link) {
        (Some(c), Some(l)) => CheckView {
            kind: CheckKind::Msvc,
            status: ProbeStatus::Pass,
            message: "detected=true; cl="@ + safe_obs(c) + "; link="@ + safe_obs(l) + "; remediation="@
                + remediation_of(CheckKind::Msvc),
        },
        _ => CheckView {
            kind: CheckKind::Msvc,
            status: ProbeStatus::Fail,
            message: "detected=false; cl_present="@ + bool_text(cl is Some) + "; link_present="@ + bool_text(link is Some)
                + "; reason=missing MSVC compiler/linker in current shell PATH; remediation="@
                + remediation_of(CheckKind::Msvc),
        },
    }
}

/// Free disk space: below 1 GiB fails, below 4 GiB warns, and an unmeasured drive warns.
pub open spec fn disk_check_of(bytes: Option<u64>) -> CheckView {
    match bytes {
        Some(b) => if b < DISK_FAIL_THRESHOLD_BYTES {
            CheckView {
                kind: CheckKind::DiskSpace,
                status: ProbeStatus::Fail,
                message: "detected=true; available_bytes="@ + decimal(b as nat) + "; policy=fail_below_1073741824; remediation="@
                    + remediation_of(CheckKind::DiskSpace),
            }
        } else if b < DISK_WARN_THRESHOLD_BYTES {
            CheckView {
                kind: CheckKind::DiskSpace,
                status: ProbeStatus::Warn,
                message: "detected=true; available_bytes="@ + decimal(b as nat) + "; policy=warn_below_4294967296; remediation="@
                    + remediation_of(CheckKind::DiskSpace),
            }
        } else {
            CheckView {
                kind: CheckKind::DiskSpace,
                status: ProbeStatus::Pass,
                message: "detected=true; available_bytes="@ + decimal(b as nat)
                    + "; policy=ok_at_or_above_4294967296; remediation="@ + remediation_of(CheckKind::DiskSpace),
            }
        },
        None => CheckView {
            kind: CheckKind::DiskSpace,
            status: ProbeStatus::Warn,
            message: "detected=false; reason=unable to measure available disk space; remediation="@
                + remediation_of(CheckKind::DiskSpace),
        },
    }
}

fn cat(a: &str, b: &str) -> (r: String)
    ensures
        r@ == a@ + b@,
{
    let mut r = owned(a);
    r.append(b);
    r
}

/// Checks a command-line tool.
pub fn command_check(kind: CheckKind, observed: &ToolObservation) -> (r: CheckResult)
    ensures
        r@ == command_check_of(kind, opt_chars(observed.path), opt_chars(observed.version)),
{
    match &observed.path {
        Some(path) => {
            let path = safe_observation(path.as_str());
            let version = match &observed.version {
                Some(v) => safe_observation(v.as_str()),
                None => safe_observation("version unavailable"),
            };
            let m = cat(cat(cat(cat(cat("detected=true; path=", path.as_str()).as_str(), "; version=").as_str(),
                version.as_str()).as_str(), "; remediation=").as_str(), kind.remediation());
            CheckResult { kind, status: ProbeStatus::Pass, message: m }
        },
        None => CheckResult {
            kind,
            status: ProbeStatus::Fail,
            message: cat("detected=false; reason=not found on PATH; remediation=", kind.remediation()),
        },
    }
}

/// Checks the MSVC compiler and linker.
pub fn msvc_check(cl_path: &Option<String>, link_path: &Option<String>) -> (r: CheckResult)
    ensures
        r@ == msvc_check_of(opt_chars(*cl_path), opt_chars(*link_path)),
{
    match (cl_path, link_path) {
        (Some(cl), Some(link)) => {
            let c = safe_observation(cl.as_str());
            let l = safe_observation(link.as_str());
            let m = cat(cat(cat(cat(cat("detected=true; cl=", c.as_str()).as_str(), "; link=").as_str(), l.as_str()).as_str(),
                "; remediation=").as_str(), CheckKind::Msvc.remediation());
            CheckResult { kind: CheckKind::Msvc, status: ProbeStatus::Pass, message: m }
        },
        _ => {
            let cl_present = if cl_path.is_some() { "true" } else { "false" };
            let link_present = if link_path.is_some() { "true" } else { "false" };
            let m = cat(cat(cat(cat(cat("detected=false; cl_present=", cl_present).as_str(), "; link_present=").as_str(),
                link_present).as_str(), "; reason=missing MSVC compiler/linker in current shell PATH; remediation=").as_str(),
                CheckKind::Msvc.remediation());
            CheckResult { kind: CheckKind::Msvc, status: ProbeStatus::Fail, message: m }
        },
    }
}

/// Checks the free disk space.
pub fn disk_space_check(available_bytes: Option<u64>) -> (r: CheckResult)
    ensures
        r@ == disk_check_of(available_bytes),
{
    match available_bytes {
        Some(bytes) => {
            let b = u64_to_decimal(bytes);
            let head = cat("detected=true; available_bytes=", b.as_str());
            if bytes < DISK_FAIL_THRESHOLD_BYTES {
                CheckResult {
                    kind: CheckKind::DiskSpace,
                    status: ProbeStatus::Fail,
                    message: cat(cat(head.as_str(), "; policy=fail_below_1073741824; remediation=").as_str(),
                        CheckKind::DiskSpace.remediation()),
                }
            } else if bytes < DISK_WARN_THRESHOLD_BYTES {
                CheckResult {
                    kind: CheckKind::DiskSpace,
                    status: ProbeStatus::Warn,
                    message: cat(cat(head.as_str(), "; policy=warn_below_4294967296; remediation=").as_str(),
                        CheckKind::DiskSpace.remediation()),
                }
            } else {
                CheckResult {
                    kind: CheckKind::DiskSpace,
                    status: ProbeStatus::Pass,
                    message: cat(cat(head.as_str(), "; policy=ok_at_or_above_4294967296; remediation=").as_str(),
                        CheckKind::DiskSpace.remediation()),
                }
            }
        },
        None => CheckResult {
            kind: CheckKind::DiskSpace,
            status: ProbeStatus::Warn,
            message: cat("detected=false; reason=unable to measure available disk space; remediation=",
                CheckKind::DiskSpace.remediation()),
        },
    }
}


// ---------------------------------------------------------------------------
// The preflight.
// ---------------------------------------------------------------------------

/// A probe note with its strings as characters.
pub struct NoteView {
    pub probe: Seq<char>,
    pub status: ProbeStatus,
    pub message: Option<Seq<char>>,
}

impl View for ProbeNote {
    type V = NoteView;

    open spec fn view(&self) -> NoteView {
        NoteView { probe: self.probe@, status: self.status, message: opt_chars(self.message) }
    }
}

/// A finding with its strings as characters.
pub struct FindingView {
    pub group: Seq<char>,
    pub name: Seq<char>,
    pub disposition: FindingDisposition,
    pub message: Seq<char>,
    pub remediation: Option<Seq<char>>,
    pub automatic_remediation: Option<Seq<char>>,
    pub note: Option<Seq<char>>,
}

impl View for DiagnosticFinding {
    type V = FindingView;

    open spec fn view(&self) -> FindingView {
        FindingView {
            group: self.id.group@,
            name: self.id.name@,
            disposition: self.disposition,
            message: self.message@,
            remediation: opt_chars(self.remediation),
            automatic_remediation: opt_chars(self.automatic_remediation),
            note: opt_chars(self.note),
        }
    }
}

pub open spec fn note_views(s: Seq<ProbeNote>) -> Seq<NoteView> {
    Seq::new(s.len(), |i: int| s[i]@)
}

pub open spec fn finding_views(s: Seq<DiagnosticFinding>) -> Seq<FindingView> {
    Seq::new(s.len(), |i: int| s[i]@)
}

/// The checks of a Windows host, in report order.
pub open spec fn checks_of(o: PreflightObservations) -> Seq<CheckView> {
    seq![
        command_check_of(CheckKind::Nasm, opt_chars(o.nasm.path), opt_chars(o.nasm.version)),
        msvc_check_of(opt_chars(o.cl_path), opt_chars(o.link_path)),
        command_check_of(CheckKind::Cmake, opt_chars(o.cmake.path), opt_chars(o.cmake.version)),
        command_check_of(CheckKind::Rustc, opt_chars(o.rustc.path), opt_chars(o.rustc.version)),
        command_check_of(CheckKind::Cargo, opt_chars(o.cargo.path), opt_chars(o.cargo.version)),
        disk_check_of(o.available_disk_bytes),
    ]
}

/// The names of the checks with the given status, in order.
pub open spec fn names_with(checks: Seq<CheckView>, st: ProbeStatus) -> Seq<Seq<char>>
    decreases checks.len(),
{
    if checks.len() == 0 {
        Seq::empty()
    } else {
        let p = names_with(checks.drop_last(), st);
        if checks.last().status == st { p.push(name_of(checks.last().kind)) } else { p }
    }
}

/// The names joined by `, `.
pub open spec fn joined(names: Seq<Seq<char>>) -> Seq<char>
    decreases names.len(),
{
    if names.len() == 0 {
        Seq::empty()
    } else if names.len() == 1 {
        names[0]
    } else {
        joined(names.drop_last()) + ", "@ + names.last()
    }
}

/// The overall note: failing checks fail it, else warnings warn, else it passes.
pub open spec fn overall_note(checks: Seq<CheckView>) -> NoteView {
    let failing = names_with(checks, ProbeStatus::Fail);
    let warning = names_with(checks, ProbeStatus::Warn);
    if failing.len() > 0 {
        NoteView { probe: "build.windows-native.overall"@, status: ProbeStatus::Fail,
            message: Some("missing/blocked: "@ + joined(failing)) }
    } else if warning.len() > 0 {
        NoteView { probe: "build.windows-native.overall"@, status: ProbeStatus::Warn,
            message: Some("warning: "@ + joined(warning)) }
    } else {
        NoteView { probe: "build.windows-native.overall"@, status: ProbeStatus::Pass,
            message: Some("all prerequisite checks passed"@) }
    }
}

/// The notes of a preflight: on a host other than Windows, every probe is not
/// applicable; on Windows, the overall note and then each check's note.
pub open spec fn preflight_notes(o: PreflightObservations) -> Seq<NoteView> {
    if o.host_os != HostOs::Windows {
        seq![NoteView { probe: "build.windows-native.overall"@, status: ProbeStatus::NotApplicable,
            message: Some("Windows native build preflight is not applicable on this host."@) }]
            + Seq::new(6, |i: int| NoteView { probe: probe_of(check_at(i)), status: ProbeStatus::NotApplicable,
                message: Some("not applicable on this host"@) })
    } else {
        let checks = checks_of(o);
        seq![overall_note(checks)] + Seq::new(6, |i: int| NoteView { probe: probe_of(checks[i].kind),
            status: checks[i].status, message: Some(checks[i].message) })
    }
}

/// The check at a position of the report order.
pub open spec fn check_at(i: int) -> CheckKind {
    if i == 0 {
        CheckKind::Nasm
    } else if i == 1 {
        CheckKind::Msvc
    } else if i == 2 {
        CheckKind::Cmake
    } else if i == 3 {
        CheckKind::Rustc
    } else if i == 4 {
        CheckKind::Cargo
    } else {
        CheckKind::DiskSpace
    }
}

/// The findings of a preflight: one issue naming the failing checks as an environment
/// blocker, else one recommendation naming the checks with warnings, else none.
pub open spec fn preflight_findings(o: PreflightObservations) -> Seq<FindingView> {
    if o.host_os != HostOs::Windows {
        Seq::empty()
    } else {
        let checks = checks_of(o);
        let failing = names_with(checks, ProbeStatus::Fail);
        let warning = names_with(checks, ProbeStatus::Warn);
        if failing.len() > 0 {
            seq![FindingView {
                group: "build"@, name: "windows-native-prereqs"@, disposition: FindingDisposition::Issue,
                message: "Windows native build prerequisites are blocked: "@ + joined(failing),
                remediation: None, automatic_remediation: None,
                note: Some("Run `grok doctor` after installing missing tools; this is an environment blocker (ENVIRONMENT_BLOCKED), not a Rust code failure."@),
            }]
        } else if warning.len() > 0 {
            seq![FindingView {
                group: "build"@, name: "windows-native-prereqs"@, disposition: FindingDisposition::Recommendation,
                message: "Windows native build prerequisites are present with warnings: "@ + joined(warning),
                remediation: None, automatic_remediation: None,
                note: Some("Builds may still fail intermittently until warnings are addressed."@),
            }]
        } else {
            Seq::empty()
        }
    }
}

fn join_names(names: &Vec<&'static str>) -> (r: String)
    ensures
        r@ == joined(Seq::new(names@.len(), |i: int| names@[i]@)),
{
    let ghost all = Seq::new(names@.len(), |i: int| names@[i]@);
    let mut r = String::new();
    let mut i: usize = 0;
    while i < names.len()
        invariant
            i <= names@.len(),
            all == Seq::new(names@.len(), |i: int| names@[i]@),
            r@ == joined(all.subrange(0, i as int)),
        decreases names@.len() - i,
    {
        proof {
            assert(all.subrange(0, i + 1).drop_last() =~= all.subrange(0, i as int));
        }
        if i > 0 {
            r.append(", ");
        }
        r.append(names[i]);
        proof {
            if i == 0 {
                assert(r@ =~= all.subrange(0, 1)[0]);
            }
        }
        i += 1;
    }
    proof {
        assert(all.subrange(0, i as int) =~= all);
    }
    r
}

fn names_with_status(checks: &Vec<CheckResult>, st: ProbeStatus) -> (r: Vec<&'static str>)
    ensures
        Seq::new(r@.len(), |i: int| r@[i]@) == names_with(Seq::new(checks@.len(), |i: int| checks@[i]@), st),
{
    let ghost cv = Seq::new(checks@.len(), |i: int| checks@[i]@);
    let mut r: Vec<&'static str> = Vec::new();
    let mut i: usize = 0;
    while i < checks.len()
        invariant
            i <= checks@.len(),
            cv == Seq::new(checks@.len(), |i: int| checks@[i]@),
            Seq::new(r@.len(), |k: int| r@[k]@) == names_with(cv.subrange(0, i as int), st),
        decreases checks@.len() - i,
    {
        proof {
            assert(cv.subrange(0, i + 1).drop_last() =~= cv.subrange(0, i as int));
        }
        if checks[i].status == st {
            let ghost before = Seq::new(r@.len(), |k: int| r@[k]@);
            r.push(checks[i].kind.name());
            proof {
                assert(Seq::new(r@.len(), |k: int| r@[k]@) =~= before.push(name_of(checks@[i as int].kind)));
            }
        }
        i += 1;
    }
    proof {
        assert(cv.subrange(0, i as int) =~= cv);
    }
    r
}

fn summary_id() -> (r: DiagnosticId)
    ensures
        r.group@ == "build"@,
        r.name@ == "windows-native-prereqs"@,
{
    DiagnosticId { group: owned("build"), name: owned("windows-native-prereqs") }
}

/// The preflight for what the host reported.
pub fn collect_preflight_with(observations: &PreflightObservations) -> (r: PreflightOutcome)
    ensures
        note_views(r.notes@) == preflight_notes(*observations),
        finding_views(r.findings@) == preflight_findings(*observations),
{
    if observations.host_os != HostOs::Windows {
        let mut notes: Vec<ProbeNote> = Vec::new();
        notes.push(ProbeNote {
            probe: owned("build.windows-native.overall"),
            status: ProbeStatus::NotApplicable,
            message: Some(owned("Windows native build preflight is not applicable on this host.")),
        });
        let kinds = [CheckKind::Nasm, CheckKind::Msvc, CheckKind::Cmake, CheckKind::Rustc, CheckKind::Cargo,
            CheckKind::DiskSpace];
        let mut i: usize = 0;
        while i < 6
            invariant
                i <= 6,
                kinds@ == seq![CheckKind::Nasm, CheckKind::Msvc, CheckKind::Cmake, CheckKind::Rustc, CheckKind::Cargo,
                    CheckKind::DiskSpace],
                note_views(notes@) == seq![NoteView { probe: "build.windows-native.overall"@, status: ProbeStatus::NotApplicable,
                    message: Some("Windows native build preflight is not applicable on this host."@) }]
                    + Seq::new(i as nat, |k: int| NoteView { probe: probe_of(check_at(k)), status: ProbeStatus::NotApplicable,
                        message: Some("not applicable on this host"@) }),
            decreases 6 - i,
        {
            let kind = kinds[i];
            let ghost before = note_views(notes@);
            notes.push(ProbeNote {
                probe: owned(kind.probe()),
                status: ProbeStatus::NotApplicable,
                message: Some(owned("not applicable on this host")),
            });
            proof {
                assert(kind == check_at(i as int));
                assert(note_views(notes@) =~= before.push(NoteView { probe: probe_of(check_at(i as int)),
                    status: ProbeStatus::NotApplicable, message: Some("not applicable on this host"@) }));
            }
            i += 1;
            proof {
                assert(note_views(notes@) =~= seq![NoteView { probe: "build.windows-native.overall"@,
                    status: ProbeStatus::NotApplicable,
                    message: Some("Windows native build preflight is not applicable on this host."@) }]
                    + Seq::new(i as nat, |k: int| NoteView { probe: probe_of(check_at(k)), status: ProbeStatus::NotApplicable,
                        message: Some("not applicable on this host"@) }));
            }
        }
        let findings: Vec<DiagnosticFinding> = Vec::new();
        proof {
            assert(finding_views(findings@) =~= Seq::<FindingView>::empty());
        }
        return PreflightOutcome { notes, findings };
    }
    let checks = vec![
        command_check(CheckKind::Nasm, &observations.nasm),
        msvc_check(&observations.cl_path, &observations.link_path),
        command_check(CheckKind::Cmake, &observations.cmake),
        command_check(CheckKind::Rustc, &observations.rustc),
        command_check(CheckKind::Cargo, &observations.cargo),
        disk_space_check(observations.available_disk_bytes),
    ];
    let ghost cv = Seq::new(checks@.len(), |i: int| checks@[i]@);
    proof {
        assert(cv =~= checks_of(*observations));
    }
    let failing = names_with_status(&checks, ProbeStatus::Fail);
    let warning = names_with_status(&checks, ProbeStatus::Warn);
    let failing_text = join_names(&failing);
    let warning_text = join_names(&warning);
    let mut findings: Vec<DiagnosticFinding> = Vec::new();
    if failing.len() > 0 {
        findings.push(DiagnosticFinding {
            id: summary_id(),
            disposition: FindingDisposition::Issue,
            message: cat("Windows native build prerequisites are blocked: ", failing_text.as_str()),
            remediation: None,
            automatic_remediation: None,
            note: Some(owned(
                "Run `grok doctor` after installing missing tools; this is an environment blocker (ENVIRONMENT_BLOCKED), not a Rust code failure.",
            )),
        });
    } else if warning.len() > 0 {
        findings.push(DiagnosticFinding {
            id: summary_id(),
            disposition: FindingDisposition::Recommendation,
            message: cat("Windows native build prerequisites are present with warnings: ", warning_text.as_str()),
            remediation: None,
            automatic_remediation: None,
            note: Some(owned("Builds may still fail intermittently until warnings are addressed.")),
        });
    }
    proof {
        assert(finding_views(findings@) =~= preflight_findings(*observations));
    }
    let overall = if failing.len() > 0 {
        ProbeNote {
            probe: owned("build.windows-native.overall"),
            status: ProbeStatus::Fail,
            message: Some(cat("missing/blocked: ", failing_text.as_str())),
        }
    } else if warning.len() > 0 {
        ProbeNote {
            probe: owned("build.windows-native.overall"),
            status: ProbeStatus::Warn,
            message: Some(cat("warning: ", warning_text.as_str())),
        }
    } else {
        ProbeNote {
            probe: owned("build.windows-native.overall"),
            status: ProbeStatus::Pass,
            message: Some(owned("all prerequisite checks passed")),
        }
    };
    let mut notes: Vec<ProbeNote> = Vec::new();
    notes.push(overall);
    let mut checks = checks;
    let mut i: usize = 0;
    while checks.len() > 0
        invariant
            i + checks@.len() == 6,
            cv == checks_of(*observations),
            forall|k: int| 0 <= k < checks@.len() ==> checks@[k]@ == cv[i + k],
            note_views(notes@) == seq![overall_note(cv)] + Seq::new(i as nat, |k: int| NoteView { probe: probe_of(cv[k].kind),
                status: cv[k].status, message: Some(cv[k].message) }),
        decreases checks@.len(),
    {
        let ghost cs = checks@;
        let check = checks.remove(0);
        let ghost before = note_views(notes@);
        notes.push(ProbeNote { probe: owned(check.kind.probe()), status: check.status, message: Some(check.message) });
        proof {
            assert(check@ == cv[i as int]);
            assert(note_views(notes@) =~= before.push(NoteView { probe: probe_of(cv[i as int].kind),
                status: cv[i as int].status, message: Some(cv[i as int].message) }));
            assert forall|k: int| 0 <= k < checks@.len() implies checks@[k]@ == cv[i + 1 + k] by {
                assert(checks@[k] == cs[k + 1]);
            }
        }
        i += 1;
        proof {
            assert(note_views(notes@) =~= seq![overall_note(cv)] + Seq::new(i as nat, |k: int| NoteView {
                probe: probe_of(cv[k].kind), status: cv[k].status, message: Some(cv[k].message) }));
        }
    }
    proof {
        assert(note_views(notes@) =~= preflight_notes(*observations));
    }
    PreflightOutcome { notes, findings }
}


/// Adds the preflight's notes and findings to a diagnostic report.
pub fn append_windows_native_build_preflight(report: &mut DiagnosticReport, observations: &PreflightObservations)
    ensures
        note_views(final(report).probe_notes@) == note_views(old(report).probe_notes@) + preflight_notes(*observations),
        finding_views(final(report).findings@) == finding_views(old(report).findings@) + preflight_findings(*observations),
{
    let outcome = collect_preflight_with(observations);
    let PreflightOutcome { notes, findings } = outcome;
    let mut notes = notes;
    let mut findings = findings;
    let ghost n0 = note_views(report.probe_notes@);
    let ghost f0 = finding_views(report.findings@);
    let ghost nn = note_views(notes@);
    let ghost ff = finding_views(findings@);
    report.probe_notes.append(&mut notes);
    report.findings.append(&mut findings);
    proof {
        assert(note_views(report.probe_notes@) =~= n0 + nn);
        assert(finding_views(report.findings@) =~= f0 + ff);
    }
}

/// Whether a probe id belongs to the Windows-native preflight.
pub fn is_windows_preflight_probe(probe: &str) -> (r: bool)
    ensures
        r == (probe@.len() >= 20 && probe@.subrange(0, 20) == "build.windows-native"@),
{
    let v = chars_of(probe);
    let p = chars_of("build.windows-native");
    proof {
        reveal_strlit("build.windows-native");
    }
    if v.len() < 20 {
        return false;
    }
    let mut i: usize = 0;
    while i < 20
        invariant
            v@ == probe@,
            p@ == "build.windows-native"@,
            p@.len() == 20,
            v@.len() >= 20,
            i <= 20,
            forall|k: int| 0 <= k < i ==> v@[k] == p@[k],
        decreases 20 - i,
    {
        if v[i] != p[i] {
            proof {
                assert(probe@.subrange(0, 20)[i as int] != p@[i as int]);
            }
            return false;
        }
        i += 1;
    }
    proof {
        assert(probe@.subrange(0, 20) =~= p@);
    }
    true
}

// ---------------------------------------------------------------------------
// Laws.
// ---------------------------------------------------------------------------

/// A check that fails makes the overall note fail and yields one issue finding that
/// calls the failure an environment blocker; without failures no issue is raised.
pub proof fn law_failure_is_an_environment_blocker(o: PreflightObservations)
    requires
        o.host_os == HostOs::Windows,
    ensures
        names_with(checks_of(o), ProbeStatus::Fail).len() > 0 ==> ({
            &&& preflight_notes(o)[0].status == ProbeStatus::Fail
            &&& preflight_findings(o).len() == 1
            &&& preflight_findings(o)[0].disposition == FindingDisposition::Issue
            &&& preflight_findings(o)[0].note matches Some(n) && contains_seq(n, "ENVIRONMENT_BLOCKED"@)
        }),
        names_with(checks_of(o), ProbeStatus::Fail).len() == 0 ==> forall|k: int| 0 <= k < preflight_findings(o).len()
            ==> #[trigger] preflight_findings(o)[k].disposition != FindingDisposition::Issue,
{
    reveal_strlit("Run `grok doctor` after installing missing tools; this is an environment blocker (ENVIRONMENT_BLOCKED), not a Rust code failure.");
    reveal_strlit("ENVIRONMENT_BLOCKED");
    let n = "Run `grok doctor` after installing missing tools; this is an environment blocker (ENVIRONMENT_BLOCKED), not a Rust code failure."@;
    assert(n.subrange(82, 101) =~= "ENVIRONMENT_BLOCKED"@);
    assert(crate::text::occurs_at(n, "ENVIRONMENT_BLOCKED"@, 82));
}

/// On a host other than Windows every probe is not applicable and nothing is found.
pub proof fn law_other_hosts_are_not_applicable(o: PreflightObservations)
    requires
        o.host_os != HostOs::Windows,
    ensures
        preflight_notes(o).len() == 7,
        forall|k: int| 0 <= k < 7 ==> (#[trigger] preflight_notes(o)[k]).status == ProbeStatus::NotApplicable,
        preflight_findings(o).len() == 0,
{
}

proof fn lemma_contains_sub(s: Seq<char>, a: int, b: int, w: Seq<char>)
    requires
        0 <= a <= b <= s.len(),
        contains_seq(upper_seq(s.subrange(a, b)), w),
    ensures
        contains_seq(upper_seq(s), w),
{
    let i = choose|i: int| crate::text::occurs_at(upper_seq(s.subrange(a, b)), w, i);
    assert(upper_seq(s).subrange(a + i, a + i + w.len()) =~= upper_seq(s.subrange(a, b)).subrange(i, i + w.len()));
    assert(crate::text::occurs_at(upper_seq(s), w, a + i));
}

proof fn lemma_first_line_prefix(s: Seq<char>)
    ensures
        exists|n: int| 0 <= n <= s.len() && first_line(s) == s.subrange(0, n),
    decreases s.len(),
{
    if s.len() == 0 {
        assert(first_line(s) == s.subrange(0, 0));
    } else if s[0] == '\r' || s[0] == '\n' {
        assert(first_line(s) =~= s.subrange(0, 0));
    } else {
        lemma_first_line_prefix(s.drop_first());
        let n = choose|n: int| 0 <= n <= s.drop_first().len() && first_line(s.drop_first()) == s.drop_first().subrange(0, n);
        assert(first_line(s) =~= s.subrange(0, n + 1));
    }
}

proof fn lemma_trim_start_sub(s: Seq<char>)
    ensures
        exists|a: int| 0 <= a <= s.len() && crate::text::trim_ws_start(s) == s.subrange(a, s.len() as int),
    decreases s.len(),
{
    if s.len() > 0 && crate::text::is_ws(s[0]) {
        lemma_trim_start_sub(s.drop_first());
        let a = choose|a: int| 0 <= a <= s.drop_first().len() && crate::text::trim_ws_start(s.drop_first())
            == s.drop_first().subrange(a, s.drop_first().len() as int);
        assert(s.drop_first().subrange(a, s.drop_first().len() as int) =~= s.subrange(a + 1, s.len() as int));
    } else {
        assert(s.subrange(0, s.len() as int) =~= s);
    }
}

proof fn lemma_trim_end_sub(s: Seq<char>)
    ensures
        exists|b: int| 0 <= b <= s.len() && crate::text::trim_ws_end(s) == s.subrange(0, b),
    decreases s.len(),
{
    if s.len() > 0 && crate::text::is_ws(s.last()) {
        lemma_trim_end_sub(s.drop_last());
        let b = choose|b: int| 0 <= b <= s.drop_last().len() && crate::text::trim_ws_end(s.drop_last()) == s.drop_last().subrange(0, b);
        assert(s.drop_last().subrange(0, b) =~= s.subrange(0, b));
    } else {
        assert(s.subrange(0, s.len() as int) =~= s);
    }
}

proof fn lemma_no_credential_in_sub(s: Seq<char>, a: int, b: int)
    requires
        0 <= a <= b <= s.len(),
        !names_credential(upper_seq(s)),
    ensures
        !names_credential(upper_seq(s.subrange(a, b))),
{
    if contains_seq(upper_seq(s.subrange(a, b)), "SECRET"@) { lemma_contains_sub(s, a, b, "SECRET"@); }
    if contains_seq(upper_seq(s.subrange(a, b)), "TOKEN"@) { lemma_contains_sub(s, a, b, "TOKEN"@); }
    if contains_seq(upper_seq(s.subrange(a, b)), "PASSWORD"@) { lemma_contains_sub(s, a, b, "PASSWORD"@); }
    if contains_seq(upper_seq(s.subrange(a, b)), "API_KEY"@) { lemma_contains_sub(s, a, b, "API_KEY"@); }
    if contains_seq(upper_seq(s.subrange(a, b)), "ACCESS_KEY"@) { lemma_contains_sub(s, a, b, "ACCESS_KEY"@); }
}

/// A safe observation never names a credential.
pub proof fn law_safe_observation_names_no_credential(s: Seq<char>)
    ensures
        !names_credential(upper_seq(safe_obs(s))),
{
    reveal_strlit("[redacted]");
    if names_credential(upper_seq(s)) {
        let r = "[redacted]"@;
        assert(upper_seq(r) =~= seq!['[', 'R', 'E', 'D', 'A', 'C', 'T', 'E', 'D', ']']);
        reveal_strlit("SECRET");
        reveal_strlit("TOKEN");
        reveal_strlit("PASSWORD");
        reveal_strlit("API_KEY");
        reveal_strlit("ACCESS_KEY");
        assert forall|w: Seq<char>, i: int| (w == "SECRET"@ || w == "TOKEN"@ || w == "PASSWORD"@ || w == "API_KEY"@
            || w == "ACCESS_KEY"@) implies !crate::text::occurs_at(upper_seq(r), w, i) by {
            if crate::text::occurs_at(upper_seq(r), w, i) {
                assert(upper_seq(r).subrange(i, i + w.len())[0] == w[0]);
                assert(upper_seq(r).subrange(i, i + w.len())[1] == w[1]);
            }
        }
    } else {
        let fl = first_line(s);
        lemma_first_line_prefix(s);
        let n = choose|n: int| 0 <= n <= s.len() && fl == s.subrange(0, n);
        let t0 = crate::text::trim_ws_start(fl);
        lemma_trim_start_sub(fl);
        let a = choose|a: int| 0 <= a <= fl.len() && t0 == fl.subrange(a, fl.len() as int);
        lemma_trim_end_sub(t0);
        let b = choose|b: int| 0 <= b <= t0.len() && crate::text::trim_ws_end(t0) == t0.subrange(0, b);
        let line = trim_ws(fl);
        assert(line =~= s.subrange(a, a + b));
        if line.len() > 200 {
            assert(line.subrange(0, 200) =~= s.subrange(a, a + 200));
            lemma_no_credential_in_sub(s, a, a + 200);
        } else {
            lemma_no_credential_in_sub(s, a, a + b);
        }
    }
}

// ---------------------------------------------------------------------------
// Command output.
// ---------------------------------------------------------------------------

/// The first line that is not blank, trimmed.
pub open spec fn first_nonempty(lines: Seq<Seq<char>>) -> Option<Seq<char>>
    decreases lines.len(),
{
    if lines.len() == 0 {
        None
    } else if crate::text::trim_ws(lines[0]).len() > 0 {
        Some(crate::text::trim_ws(lines[0]))
    } else {
        first_nonempty(lines.drop_first())
    }
}

/// The first non-blank line of a command's standard output, else of its standard
/// error, trimmed; `None` when both are blank.
pub fn first_output_line(stdout: &str, stderr: &str) -> (r: Option<String>)
    ensures
        crate::text::opt_view(r) == first_nonempty(
            crate::text::lines_of(stdout@) + crate::text::lines_of(stderr@),
        ),
{
    let out = crate::text::split_lines(stdout);
    let err = crate::text::split_lines(stderr);
    let ghost all = crate::text::views(out@) + crate::text::views(err@);
    let ghost n = all.len() as int;
    proof {
        assert(all.subrange(0, n) =~= all);
    }
    let mut i: usize = 0;
    while i < out.len()
        invariant
            all == crate::text::views(out@) + crate::text::views(err@),
            all == crate::text::lines_of(stdout@) + crate::text::lines_of(stderr@),
            n == all.len(),
            i <= out.len(),
            first_nonempty(all) == first_nonempty(all.subrange(i as int, n)),
        decreases out.len() - i,
    {
        let line = crate::text::trim_text(out[i].as_str());
        proof {
            assert(all[i as int] == out@[i as int]@);
            assert(all.subrange(i as int, n)[0] == all[i as int]);
            assert(all.subrange(i as int, n).drop_first() =~= all.subrange(i + 1, n));
        }
        if line.unicode_len() > 0 {
            proof {
                assert(all.subrange(i as int, n).len() > 0);
                assert(first_nonempty(all.subrange(i as int, n)) == Some(line@));
            }
            return Some(line);
        }
        i += 1;
    }
    let mut j: usize = 0;
    while j < err.len()
        invariant
            all == crate::text::views(out@) + crate::text::views(err@),
            all == crate::text::lines_of(stdout@) + crate::text::lines_of(stderr@),
            n == all.len(),
            j <= err.len(),
            first_nonempty(all) == first_nonempty(all.subrange(out.len() + j, n)),
        decreases err.len() - j,
    {
        let line = crate::text::trim_text(err[j].as_str());
        proof {
            let k = out.len() + j;
            assert(all[k] == err@[j as int]@);
            assert(all.subrange(k, n)[0] == all[k]);
            assert(all.subrange(k, n).drop_first() =~= all.subrange(k + 1, n));
        }
        if line.unicode_len() > 0 {
            proof {
                let k = out.len() + j;
                assert(all.subrange(k, n).len() > 0);
                assert(first_nonempty(all.subrange(k, n)) == Some(line@));
            }
            return Some(line);
        }
        j += 1;
    }
    proof {
        assert(all.subrange(n, n).len() == 0);
    }
    None
}

} // verus!
