//! Checks of the installation.
use crate::config::Config;
use crate::hash::InfoHash;
use crate::index::HashIndex;
use crate::network::NetworkHealth;
use crate::text::{decimal_text, format_bytes, owned};
use crate::torrent::Torrent;
use vstd::prelude::*;
use vstd::string::*;

verus! {

/// How well a check went.
#[derive(Clone, Copy, PartialEq, Eq, Structural, Debug)]
pub enum DiagnosticLevel {
    Good,
    Warning,
    Invalid,
}

impl DiagnosticLevel {
    /// The worse of two levels.
    pub open spec fn worse(self, other: DiagnosticLevel) -> DiagnosticLevel {
        if self == DiagnosticLevel::Invalid || other == DiagnosticLevel::Invalid {
            DiagnosticLevel::Invalid
        } else if self == DiagnosticLevel::Warning || other == DiagnosticLevel::Warning {
            DiagnosticLevel::Warning
        } else {
            DiagnosticLevel::Good
        }
    }

    /// The worse of two levels.
    pub fn worst(self, other: DiagnosticLevel) -> (level: DiagnosticLevel)
        ensures
            level == self.worse(other),
    {
        match (self, other) {
            (DiagnosticLevel::Invalid, _) | (_, DiagnosticLevel::Invalid) => {
                DiagnosticLevel::Invalid
            },
            (DiagnosticLevel::Warning, _) | (_, DiagnosticLevel::Warning) => {
                DiagnosticLevel::Warning
            },
            _ => DiagnosticLevel::Good,
        }
    }
}

/// A check of the installation.
#[derive(Debug)]
pub struct DoctorCheck {
    pub id: String,
    pub label: String,
    pub level: DiagnosticLevel,
    pub detail: String,
    pub remediation: Option<String>,
}

/// A check as a value.
pub struct CheckView {
    pub id: Seq<char>,
    pub label: Seq<char>,
    pub level: DiagnosticLevel,
    pub detail: Seq<char>,
    pub remediation: Option<Seq<char>>,
}

impl View for DoctorCheck {
    type V = CheckView;

    open spec fn view(&self) -> CheckView {
        CheckView {
            id: self.id@,
            label: self.label@,
            level: self.level,
            detail: self.detail@,
            remediation: crate::config::text_of(self.remediation),
        }
    }
}

/// Checks as values.
pub open spec fn checks_of(checks: Seq<DoctorCheck>) -> Seq<CheckView> {
    checks.map_values(|check: DoctorCheck| check@)
}

/// Adds a check.
pub fn push_check(
    checks: &mut Vec<DoctorCheck>,
    id: &str,
    label: &str,
    level: DiagnosticLevel,
    detail: &str,
    remediation: Option<&str>,
)
    ensures
        checks_of(final(checks)@) == checks_of(old(checks)@).push(
            CheckView {
                id: id@,
                label: label@,
                level,
                detail: detail@,
                remediation: match remediation {
                    Some(text) => Some(text@),
                    None => None,
                },
            },
        ),
{
    let ghost before = checks@;
    let check: DoctorCheck = DoctorCheck {
        id: owned(id),
        label: owned(label),
        level,
        detail: owned(detail),
        remediation: match remediation {
            Some(text) => Some(owned(text)),
            None => None,
        },
    };
    let ghost view = check@;
    checks.push(check);
    assert(checks_of(checks@) =~= checks_of(before).push(view));
}

/// What the system says of a file system.
#[derive(Clone, Copy, PartialEq, Eq, Structural, Debug)]
pub struct FileSystemStat {
    pub available_blocks: u64,
    pub fragment_size: u64,
}

/// The free bytes of a file system; at most what fits.
pub open spec fn free_bytes(stat: Option<FileSystemStat>) -> Option<u64> {
    match stat {
        Some(stat) => {
            let bytes = stat.available_blocks * stat.fragment_size;
            Some(
                if bytes <= u64::MAX {
                    bytes as u64
                } else {
                    u64::MAX
                },
            )
        },
        None => None,
    }
}

/// The free bytes of a file system that could be looked at.
pub fn free_space_bytes(stat: Option<FileSystemStat>) -> (bytes: Option<u64>)
    ensures
        bytes == free_bytes(stat),
{
    match stat {
        Some(stat) => Some(
            match stat.available_blocks.checked_mul(stat.fragment_size) {
                Some(bytes) => bytes,
                None => u64::MAX,
            },
        ),
        None => None,
    }
}

/// What was found at a path and above it.
#[derive(Clone, Copy, PartialEq, Eq, Structural, Debug)]
pub struct DirProbe {
    pub exists: bool,
    pub parent_exists: bool,
    pub here: Option<FileSystemStat>,
    pub parent: Option<FileSystemStat>,
}

/// The free bytes at a path, or above it.
pub open spec fn disk_of(probe: DirProbe) -> Option<u64> {
    if free_bytes(probe.here).is_some() {
        free_bytes(probe.here)
    } else {
        free_bytes(probe.parent)
    }
}

/// How well a directory does for storage: under one gibibyte is too little, and under ten is
/// little.
pub open spec fn storage_level(probe: DirProbe) -> DiagnosticLevel {
    match disk_of(probe) {
        Some(bytes) => if bytes < 1_073_741_824 {
            DiagnosticLevel::Invalid
        } else if bytes < 10_737_418_240 {
            DiagnosticLevel::Warning
        } else if probe.exists || probe.parent_exists {
            DiagnosticLevel::Good
        } else {
            DiagnosticLevel::Warning
        },
        None => DiagnosticLevel::Warning,
    }
}

/// The check of a directory for storage.
pub open spec fn storage_check(
    id: Seq<char>,
    label: Seq<char>,
    path: Option<Seq<char>>,
    probe: DirProbe,
) -> CheckView {
    match path {
        None => CheckView {
            id,
            label,
            level: DiagnosticLevel::Warning,
            detail: "not configured; daemon will use its default temporary directory behavior"@,
            remediation: Some("set an explicit storage path for predictable operations"@),
        },
        Some(path) => CheckView {
            id,
            label,
            level: storage_level(probe),
            detail: match disk_of(probe) {
                Some(bytes) => crate::text::size_text(bytes as nat) + " available at "@ + path,
                None => "unable to inspect free space at "@ + path,
            },
            remediation: Some("ensure the path exists, is writable, and has enough free space"@),
        },
    }
}

/// Adds the check of a directory for storage.
pub fn add_storage_check(
    checks: &mut Vec<DoctorCheck>,
    id: &str,
    label: &str,
    path: Option<&str>,
    probe: DirProbe,
)
    ensures
        checks_of(final(checks)@) == checks_of(old(checks)@).push(
            storage_check(
                id@,
                label@,
                match path {
                    Some(path) => Some(path@),
                    None => None,
                },
                probe,
            ),
        ),
{
    let path: &str = match path {
        Some(path) => path,
        None => {
            push_check(
                checks,
                id,
                label,
                DiagnosticLevel::Warning,
                "not configured; daemon will use its default temporary directory behavior",
                Some("set an explicit storage path for predictable operations"),
            );
            return ;
        },
    };
    let disk: Option<u64> = match free_space_bytes(probe.here) {
        Some(bytes) => Some(bytes),
        None => free_space_bytes(probe.parent),
    };
    let level: DiagnosticLevel = match disk {
        Some(bytes) => if bytes < 1_073_741_824 {
            DiagnosticLevel::Invalid
        } else if bytes < 10_737_418_240 {
            DiagnosticLevel::Warning
        } else if probe.exists || probe.parent_exists {
            DiagnosticLevel::Good
        } else {
            DiagnosticLevel::Warning
        },
        None => DiagnosticLevel::Warning,
    };
    let mut detail: String = match disk {
        Some(bytes) => {
            let mut text: String = format_bytes(bytes);
            text.append(" available at ");
            text
        },
        None => owned("unable to inspect free space at "),
    };
    detail.append(path);
    push_check(
        checks,
        id,
        label,
        level,
        detail.as_str(),
        Some("ensure the path exists, is writable, and has enough free space"),
    );
}

/// A configured path, and whether there is a file.
#[derive(Debug)]
pub struct FoundFile {
    pub path: String,
    pub is_file: bool,
}

/// Fine, or else a warning.
pub open spec fn ok_or_warning(ok: bool) -> DiagnosticLevel {
    if ok {
        DiagnosticLevel::Good
    } else {
        DiagnosticLevel::Warning
    }
}

/// The check of the configuration file.
pub open spec fn config_file_check(file: Option<FoundFile>) -> CheckView {
    match file {
        None => CheckView {
            id: "config_file"@,
            label: "Config file"@,
            level: DiagnosticLevel::Warning,
            detail:
                "daemon was started without a config file, so full settings cannot be persisted"@,
            remediation: Some("start swarmotterd with --config to enable config.toml writes"@),
        },
        Some(file) => CheckView {
            id: "config_file"@,
            label: "Config file"@,
            level: ok_or_warning(file.is_file),
            detail: "configured path: "@ + file.path@,
            remediation: Some(
                "create the config file or verify the daemon has write permissions"@,
            ),
        },
    }
}

/// The check of the log file.
pub open spec fn log_file_check(file: Option<FoundFile>) -> CheckView {
    match file {
        None => CheckView {
            id: "log_file"@,
            label: "Log file"@,
            level: DiagnosticLevel::Warning,
            detail: "file logging is disabled; the Logs page can only show live events"@,
            remediation: Some("enable logging.file or configure logging.file_path"@),
        },
        Some(file) => CheckView {
            id: "log_file"@,
            label: "Log file"@,
            level: ok_or_warning(file.is_file),
            detail: "log path: "@ + file.path@,
            remediation: Some("verify the daemon can create and read the log file"@),
        },
    }
}

/// Whether a folder is missing.
pub open spec fn is_missing() -> spec_fn(bool) -> bool {
    |present: bool| !present
}

/// The check of the watch folders, each of which is there or not.
pub open spec fn watch_check(present: Seq<bool>) -> CheckView {
    let missing = crate::stats::count_of(present, is_missing());
    if present.len() == 0 {
        CheckView {
            id: "watch_folders"@,
            label: "Watch folders"@,
            level: DiagnosticLevel::Warning,
            detail: "no watch folders are configured"@,
            remediation: Some("add [[watch]] entries if automatic .torrent import is desired"@),
        }
    } else {
        CheckView {
            id: "watch_folders"@,
            label: "Watch folders"@,
            level: ok_or_warning(missing == 0),
            detail: crate::text::decimal(present.len()) + " configured, "@ + crate::text::decimal(
                missing,
            ) + " missing or unreadable"@,
            remediation: Some("verify watch folder paths and permissions"@),
        }
    }
}

/// Whether something stands against a torrent.
pub open spec fn is_troubled() -> spec_fn((InfoHash, Torrent)) -> bool {
    |entry: (InfoHash, Torrent)| entry.1.error.is_some()
}

/// The check of the torrents.
pub open spec fn torrent_check(registry: Seq<(InfoHash, Torrent)>) -> CheckView {
    let errors = crate::stats::count_of(registry, is_troubled());
    CheckView {
        id: "torrent_runtime"@,
        label: "Torrent runtime"@,
        level: ok_or_warning(errors == 0),
        detail: crate::text::decimal(registry.len()) + " torrents loaded, "@
            + crate::text::decimal(errors) + " with errors"@,
        remediation: Some("open torrent details or logs for the affected torrents"@),
    }
}

/// The check of the configuration.
pub open spec fn config_check(valid: bool) -> CheckView {
    CheckView {
        id: "config"@,
        label: "Configuration validation"@,
        level: if valid {
            DiagnosticLevel::Good
        } else {
            DiagnosticLevel::Invalid
        },
        detail: "the active configuration parses and validates"@,
        remediation: None,
    }
}

/// How well containment does.
pub open spec fn traffic_level_of(network: NetworkHealth) -> DiagnosticLevel {
    if network.traffic_allowed {
        DiagnosticLevel::Good
    } else {
        DiagnosticLevel::Invalid
    }
}

/// The check of containment.
pub open spec fn network_check(network: NetworkHealth) -> CheckView {
    CheckView {
        id: "network"@,
        label: "Network containment"@,
        level: traffic_level_of(network),
        detail: network.detail@,
        remediation: Some(
            "fix the configured interface/source/namespace before torrent traffic can continue"@,
        ),
    }
}

/// What was found of the installation.
#[derive(Debug)]
pub struct Findings {
    pub config_valid: bool,
    pub config_file: Option<FoundFile>,
    pub log_file: Option<FoundFile>,
    pub download_dir: DirProbe,
    pub incomplete_dir: DirProbe,
    /// For each configured watch folder, whether it is there.
    pub watch_folders: Vec<bool>,
}

/// All checks.
pub open spec fn all_checks(
    cfg: Config,
    network: NetworkHealth,
    findings: Findings,
    registry: Seq<(InfoHash, Torrent)>,
) -> Seq<CheckView> {
    seq![
        config_check(findings.config_valid),
        network_check(network),
        config_file_check(findings.config_file),
        log_file_check(findings.log_file),
        storage_check(
            "download_dir"@,
            "Download directory"@,
            crate::config::text_of(cfg.storage.download_dir),
            findings.download_dir,
        ),
        storage_check(
            "incomplete_dir"@,
            "Incomplete directory"@,
            crate::config::text_of(cfg.storage.incomplete_dir),
            findings.incomplete_dir,
        ),
        watch_check(findings.watch_folders@),
        torrent_check(registry),
    ]
}

/// The worst level among checks.
pub open spec fn worst_of(checks: Seq<CheckView>) -> DiagnosticLevel {
    if exists|i: int| 0 <= i < checks.len() && (#[trigger] checks[i]).level
        == DiagnosticLevel::Invalid {
        DiagnosticLevel::Invalid
    } else if exists|i: int| 0 <= i < checks.len() && (#[trigger] checks[i]).level
        == DiagnosticLevel::Warning {
        DiagnosticLevel::Warning
    } else {
        DiagnosticLevel::Good
    }
}

/// What is said of a level.
pub open spec fn summary_of(level: DiagnosticLevel) -> Seq<char> {
    match level {
        DiagnosticLevel::Good => "all doctor checks passed"@,
        DiagnosticLevel::Warning => "one or more doctor checks need attention"@,
        DiagnosticLevel::Invalid => "one or more doctor checks are invalid"@,
    }
}

/// The checks and what they come to.
#[derive(Debug)]
pub struct DoctorReport {
    pub level: DiagnosticLevel,
    pub summary: String,
    pub checks: Vec<DoctorCheck>,
}

fn add_file_check(
    checks: &mut Vec<DoctorCheck>,
    id: &str,
    label: &str,
    prefix: &str,
    file: &FoundFile,
    remediation: &str,
)
    ensures
        checks_of(final(checks)@) == checks_of(old(checks)@).push(
            CheckView {
                id: id@,
                label: label@,
                level: ok_or_warning(file.is_file),
                detail: prefix@ + file.path@,
                remediation: Some(remediation@),
            },
        ),
{
    let level: DiagnosticLevel = if file.is_file {
        DiagnosticLevel::Good
    } else {
        DiagnosticLevel::Warning
    };
    let mut detail: String = owned(prefix);
    detail.append(file.path.as_str());
    push_check(checks, id, label, level, detail.as_str(), Some(remediation));
}

/// Adds the check of the configuration file.
pub fn add_config_file_check(checks: &mut Vec<DoctorCheck>, file: &Option<FoundFile>)
    ensures
        checks_of(final(checks)@) == checks_of(old(checks)@).push(config_file_check(*file)),
{
    match file {
        None => push_check(
            checks,
            "config_file",
            "Config file",
            DiagnosticLevel::Warning,
            "daemon was started without a config file, so full settings cannot be persisted",
            Some("start swarmotterd with --config to enable config.toml writes"),
        ),
        Some(file) => add_file_check(
            checks,
            "config_file",
            "Config file",
            "configured path: ",
            file,
            "create the config file or verify the daemon has write permissions",
        ),
    }
}

/// Adds the check of the log file.
pub fn add_log_file_check(checks: &mut Vec<DoctorCheck>, file: &Option<FoundFile>)
    ensures
        checks_of(final(checks)@) == checks_of(old(checks)@).push(log_file_check(*file)),
{
    match file {
        None => push_check(
            checks,
            "log_file",
            "Log file",
            DiagnosticLevel::Warning,
            "file logging is disabled; the Logs page can only show live events",
            Some("enable logging.file or configure logging.file_path"),
        ),
        Some(file) => add_file_check(
            checks,
            "log_file",
            "Log file",
            "log path: ",
            file,
            "verify the daemon can create and read the log file",
        ),
    }
}

/// Adds the check of the watch folders.
pub fn add_watch_checks(checks: &mut Vec<DoctorCheck>, present: &Vec<bool>)
    ensures
        checks_of(final(checks)@) == checks_of(old(checks)@).push(watch_check(present@)),
{
    if present.len() == 0 {
        push_check(
            checks,
            "watch_folders",
            "Watch folders",
            DiagnosticLevel::Warning,
            "no watch folders are configured",
            Some("add [[watch]] entries if automatic .torrent import is desired"),
        );
        return ;
    }
    let mut missing: usize = 0;
    let mut i: usize = 0;
    assert(present@.take(0) =~= Seq::<bool>::empty());
    while i < present.len()
        invariant
            i <= present@.len(),
            missing <= i,
            missing == crate::stats::count_of(present@.take(i as int), is_missing()),
        decreases present@.len() - i,
    {
        assert(present@.take(i + 1).drop_last() =~= present@.take(i as int));
        if !present[i] {
            missing = missing + 1;
        }
        i = i + 1;
    }
    assert(present@.take(i as int) =~= present@);
    let level: DiagnosticLevel = if missing == 0 {
        DiagnosticLevel::Good
    } else {
        DiagnosticLevel::Warning
    };
    let mut detail: String = decimal_text(present.len() as u64);
    detail.append(" configured, ");
    detail.append(decimal_text(missing as u64).as_str());
    detail.append(" missing or unreadable");
    push_check(
        checks,
        "watch_folders",
        "Watch folders",
        level,
        detail.as_str(),
        Some("verify watch folder paths and permissions"),
    );
}

/// Adds the check of the torrents.
pub fn add_torrent_runtime_check(checks: &mut Vec<DoctorCheck>, registry: &HashIndex<Torrent>)
    requires
        registry.wf(),
    ensures
        checks_of(final(checks)@) == checks_of(old(checks)@).push(torrent_check(registry.seq())),
{
    let mut errors: usize = 0;
    let mut i: usize = 0;
    let ghost all = registry.seq();
    assert(all.take(0) =~= Seq::<(InfoHash, Torrent)>::empty());
    while i < registry.len()
        invariant
            registry.wf(),
            all == registry.seq(),
            i <= all.len(),
            errors <= i,
            errors == crate::stats::count_of(all.take(i as int), is_troubled()),
        decreases all.len() - i,
    {
        assert(all.take(i + 1).drop_last() =~= all.take(i as int));
        if registry.value_at(i).error.is_some() {
            errors = errors + 1;
        }
        i = i + 1;
    }
    assert(all.take(i as int) =~= all);
    let level: DiagnosticLevel = if errors == 0 {
        DiagnosticLevel::Good
    } else {
        DiagnosticLevel::Warning
    };
    let mut detail: String = decimal_text(registry.len() as u64);
    detail.append(" torrents loaded, ");
    detail.append(decimal_text(errors as u64).as_str());
    detail.append(" with errors");
    push_check(
        checks,
        "torrent_runtime",
        "Torrent runtime",
        level,
        detail.as_str(),
        Some("open torrent details or logs for the affected torrents"),
    );
}

fn worst_level(checks: &Vec<DoctorCheck>) -> (level: DiagnosticLevel)
    ensures
        level == worst_of(checks_of(checks@)),
{
    let ghost all = checks_of(checks@);
    let mut level: DiagnosticLevel = DiagnosticLevel::Good;
    let mut i: usize = 0;
    while i < checks.len()
        invariant
            all == checks_of(checks@),
            i <= checks@.len(),
            level == worst_of(all.take(i as int)),
        decreases checks@.len() - i,
    {
        let ghost before = all.take(i as int);
        let ghost after = all.take(i + 1);
        proof {
            assert(all[i as int] == checks@[i as int]@);
            assert(after[i as int].level == checks@[i as int].level);
            assert forall|k: int| 0 <= k < before.len() implies before[k] == #[trigger] after[k] by {}
            assert forall|k: int| 0 <= k < before.len() implies #[trigger] before[k] == after[k] by {}
        }
        level = level.worst(checks[i].level);
        i = i + 1;
    }
    assert(all.take(i as int) =~= all);
    level
}

/// Looks the installation over.
pub fn doctor_report(
    cfg: &Config,
    network: &NetworkHealth,
    findings: &Findings,
    registry: &HashIndex<Torrent>,
) -> (report: DoctorReport)
    requires
        registry.wf(),
    ensures
        checks_of(report.checks@) == all_checks(*cfg, *network, *findings, registry.seq()),
        report.level == worst_of(checks_of(report.checks@)),
        report.summary@ == summary_of(report.level),
{
    let mut checks: Vec<DoctorCheck> = Vec::new();
    assert(checks_of(checks@) =~= Seq::<CheckView>::empty());
    let valid: DiagnosticLevel = if findings.config_valid {
        DiagnosticLevel::Good
    } else {
        DiagnosticLevel::Invalid
    };
    push_check(
        &mut checks,
        "config",
        "Configuration validation",
        valid,
        "the active configuration parses and validates",
        None,
    );
    push_check(
        &mut checks,
        "network",
        "Network containment",
        traffic_level(network),
        network.detail.as_str(),
        Some("fix the configured interface/source/namespace before torrent traffic can continue"),
    );
    add_config_file_check(&mut checks, &findings.config_file);
    add_log_file_check(&mut checks, &findings.log_file);
    let download_dir: Option<&str> = match &cfg.storage.download_dir {
        Some(path) => Some(path.as_str()),
        None => None,
    };
    add_storage_check(
        &mut checks,
        "download_dir",
        "Download directory",
        download_dir,
        findings.download_dir,
    );
    let incomplete_dir: Option<&str> = match &cfg.storage.incomplete_dir {
        Some(path) => Some(path.as_str()),
        None => None,
    };
    add_storage_check(
        &mut checks,
        "incomplete_dir",
        "Incomplete directory",
        incomplete_dir,
        findings.incomplete_dir,
    );
    add_watch_checks(&mut checks, &findings.watch_folders);
    add_torrent_runtime_check(&mut checks, registry);
    assert(checks_of(checks@) =~= all_checks(*cfg, *network, *findings, registry.seq()));
    let level: DiagnosticLevel = worst_level(&checks);
    let summary: &str = match level {
        DiagnosticLevel::Good => "all doctor checks passed",
        DiagnosticLevel::Warning => "one or more doctor checks need attention",
        DiagnosticLevel::Invalid => "one or more doctor checks are invalid",
    };
    DoctorReport { level, summary: owned(summary), checks }
}

/// How well containment does.
pub fn traffic_level(network: &NetworkHealth) -> (level: DiagnosticLevel)
    ensures
        level == traffic_level_of(*network),
{
    if network.traffic_allowed {
        DiagnosticLevel::Good
    } else {
        DiagnosticLevel::Invalid
    }
}

/// Free space under one gibibyte is invalid, under ten a warning; so is space that cannot be read,
/// and a directory that is missing together with its parent. Everything else is good.
pub proof fn little_space_is_reported(probe: DirProbe, bytes: u64)
    ensures
        disk_of(probe).is_none() ==> storage_level(probe) == DiagnosticLevel::Warning,
        disk_of(probe) == Some(bytes) && bytes < 0x4000_0000 ==> storage_level(probe)
            == DiagnosticLevel::Invalid,
        disk_of(probe) == Some(bytes) && 0x4000_0000 <= bytes < 0x2_8000_0000 ==> storage_level(
            probe,
        ) == DiagnosticLevel::Warning,
        disk_of(probe) == Some(bytes) && bytes >= 0x2_8000_0000 && (probe.exists
            || probe.parent_exists) ==> storage_level(probe) == DiagnosticLevel::Good,
        disk_of(probe) == Some(bytes) && bytes >= 0x2_8000_0000 && !probe.exists
            && !probe.parent_exists ==> storage_level(probe) == DiagnosticLevel::Warning,
{
}

/// Free space is the blocks that are available times their size, as far as it can be told; that of
/// the directory itself where it can be read, else that of its parent.
pub proof fn free_space_is_of_the_directory(probe: DirProbe)
    ensures
        probe.here matches Some(stat) ==> stat.available_blocks * stat.fragment_size <= u64::MAX
            ==> disk_of(probe) == Some((stat.available_blocks * stat.fragment_size) as u64),
        probe.here.is_none() ==> (probe.parent matches Some(stat) ==> stat.available_blocks
            * stat.fragment_size <= u64::MAX ==> disk_of(probe) == Some(
            (stat.available_blocks * stat.fragment_size) as u64,
        )),
        probe.here.is_none() && probe.parent.is_none() ==> disk_of(probe).is_none(),
{
}

/// The level of a report is that of its worst check: no check is worse, and some check has it
/// unless all is good.
pub proof fn reports_are_as_bad_as_their_worst_check(checks: Seq<CheckView>, i: int)
    requires
        0 <= i < checks.len(),
    ensures
        checks[i].level == DiagnosticLevel::Invalid ==> worst_of(checks)
            == DiagnosticLevel::Invalid,
        checks[i].level == DiagnosticLevel::Warning ==> worst_of(checks) != DiagnosticLevel::Good,
        worst_of(checks) == DiagnosticLevel::Good || exists|k: int|
            0 <= k < checks.len() && (#[trigger] checks[k]).level == worst_of(checks),
        (forall|k: int|
            0 <= k < checks.len() ==> (#[trigger] checks[k]).level == DiagnosticLevel::Good)
            ==> worst_of(checks) == DiagnosticLevel::Good,
{
}

/// The worse of two levels is one of them, and no better than either; it does not matter which
/// comes first.
pub proof fn the_worse_level_counts(a: DiagnosticLevel, b: DiagnosticLevel)
    ensures
        a.worse(b) == b.worse(a),
        a.worse(b) == a || a.worse(b) == b,
        a == DiagnosticLevel::Invalid ==> a.worse(b) == DiagnosticLevel::Invalid,
        a == DiagnosticLevel::Warning && b != DiagnosticLevel::Invalid ==> a.worse(b)
            == DiagnosticLevel::Warning,
        a == DiagnosticLevel::Good ==> a.worse(b) == b,
{
}

/// A report has one check each for the configuration, the network, the configuration file, the log
/// file, the two directories, the watched folders and the torrents. A configuration that does not
/// hold and a network path that is closed are invalid; a missing file or folder, and a torrent with
/// an error, are warnings.
pub proof fn reports_check_everything(
    cfg: Config,
    network: NetworkHealth,
    findings: Findings,
    registry: Seq<(InfoHash, Torrent)>,
)
    ensures
        ({
            let checks = all_checks(cfg, network, findings, registry);
            &&& checks.len() == 8
            &&& (checks[0].level == DiagnosticLevel::Good) == findings.config_valid
            &&& (checks[0].level == DiagnosticLevel::Invalid) == !findings.config_valid
            &&& (checks[1].level == DiagnosticLevel::Good) == network.traffic_allowed
            &&& (checks[1].level == DiagnosticLevel::Invalid) == !network.traffic_allowed
            &&& checks[1].detail == network.detail@
            &&& (checks[2].level == DiagnosticLevel::Good) == (
            findings.config_file matches Some(file) && file.is_file)
            &&& checks[2].level != DiagnosticLevel::Invalid
            &&& (checks[3].level == DiagnosticLevel::Good) == (
            findings.log_file matches Some(file) && file.is_file)
            &&& checks[3].level != DiagnosticLevel::Invalid
            &&& cfg.storage.download_dir.is_some() ==> checks[4].level == storage_level(
                findings.download_dir,
            )
            &&& cfg.storage.download_dir.is_none() ==> checks[4].level == DiagnosticLevel::Warning
            &&& cfg.storage.incomplete_dir.is_some() ==> checks[5].level == storage_level(
                findings.incomplete_dir,
            )
            &&& cfg.storage.incomplete_dir.is_none() ==> checks[5].level
                == DiagnosticLevel::Warning
            &&& (checks[6].level == DiagnosticLevel::Good) == (findings.watch_folders@.len() > 0
                && forall|i: int|
                0 <= i < findings.watch_folders@.len() ==> #[trigger] findings.watch_folders@[i])
            &&& checks[6].level != DiagnosticLevel::Invalid
            &&& (checks[7].level == DiagnosticLevel::Good) == (forall|i: int|
                0 <= i < registry.len() ==> (#[trigger] registry[i]).1.error.is_none())
            &&& checks[7].level != DiagnosticLevel::Invalid
        }),
{
    let present = findings.watch_folders@;
    let any = true;
    crate::stats::counts_count(present, is_missing(), any);
    if registry.len() > 0 {
        crate::stats::counts_count(registry, is_troubled(), registry[0]);
    }
    if forall|i: int| 0 <= i < present.len() ==> #[trigger] present[i] {
        assert forall|i: int| 0 <= i < present.len() implies !is_missing()(
            #[trigger] present[i],
        ) by {}
    } else {
        let i = choose|i: int| 0 <= i < present.len() && !(#[trigger] present[i]);
        assert(is_missing()(present[i]));
    }
    if forall|i: int| 0 <= i < registry.len() ==> (#[trigger] registry[i]).1.error.is_none() {
        assert forall|i: int| 0 <= i < registry.len() implies !is_troubled()(
            #[trigger] registry[i],
        ) by {}
    } else {
        let i = choose|i: int| 0 <= i < registry.len() && !((
        #[trigger] registry[i]).1.error.is_none());
        assert(is_troubled()(registry[i]));
    }
}

} // verus!
