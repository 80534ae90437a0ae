use swarmotterd::config::{
    configs_differ_only_in_peer_limits, data_plane_config_changed, effective_per_torrent_peer_limit,
    peer_limits_changed, redact_config, resolve_download_dir_from_config,
    resolve_incomplete_dir_from_config, restart_required_fields, with_peer_limits_of, ApiConfig,
    AutopilotMode, BandwidthConfig, Config, DhtConfig, LoggingConfig, NetworkConfig, SeedingConfig,
    PeerEncryptionMode, PexConfig, QueueLimits, StartBehavior, StorageConfig, TransportConfig,
    WatchFolderConfig,
};
use swarmotterd::doctor::{
    add_storage_check, doctor_report, free_space_bytes, traffic_level, DiagnosticLevel, DirProbe,
    FileSystemStat, Findings, FoundFile,
};
use swarmotterd::error::CoreError;
use swarmotterd::hash::InfoHash;
use swarmotterd::index::HashIndex;
use swarmotterd::inspection::{containment_matrix, network_diagnostics, recent_logs};
use swarmotterd::network::{NetworkContainmentMode, NetworkContainmentStatus, NetworkHealth};
use swarmotterd::ownership::{
    ensure_storage_paths_available_except, storage_claims, validate_restored_storage_ownership,
    validate_storage_config_transition,
};
use swarmotterd::permits::{
    build_peer_permit_configuration, permits_drained, verify_peer_permit_configuration_identity,
    PermitUse,
};
use swarmotterd::probe::{FakeInterfaceProbe, InterfaceAddress, InterfaceStatus};
use swarmotterd::reconfigure::{
    choose_replacement, config_update_result, judge_replacement, keep_auth_token,
    validate_replacement_bind_path, ReplacementPath,
};
use swarmotterd::rename::{
    renamed_back, rollback_payload_rename, Failure, PayloadRenameOutcome, RenameStage, Renaming,
    Report, RollbackStep, SourceKind,
};
use swarmotterd::reset::reset_plan;
use swarmotterd::roots::{storage_diagnostics, storage_roots, StorageRootRole};
use swarmotterd::torrent::{MetaFile, Torrent, TorrentMeta, TorrentState};
use swarmotterd::trackers::{
    announce_wait, is_udp_tracker, list_trackers, make_tracker, seeder_announce_once,
    seeder_announce_step, AnnounceAction, AnnounceEvent, AnnounceInput, AnnounceOutcome,
    AnnounceState, TrackerSnapshot, TrackerStatus,
};

fn config() -> Config {
    Config {
        api: ApiConfig {
            bind_address: "127.0.0.1:9091".to_string(),
            auth_token: None,
            require_auth: false,
            max_request_body_bytes: 1 << 20,
        },
        logging: LoggingConfig {
            level: "info".to_string(),
            json: false,
            file: false,
            file_path: None,
        },
        bandwidth: BandwidthConfig {
            effective_download: 0,
            effective_upload: 0,
            max_peers: 0,
            max_peers_per_torrent: 0,
        },
        queue: QueueLimits {
            max_active_downloads: 5,
            max_active_metadata_fetches: 5,
            max_active_seeds: 5,
            auto_start: true,
        },
        seeding: SeedingConfig { global_ratio_limit: None, global_idle_limit: None },
        torrent: TransportConfig {
            listen_port: 6881,
            allow_ipv6: false,
            utp_enabled: false,
            utp_prefer_tcp: true,
            encryption_mode: PeerEncryptionMode::Preferred,
            selfish: false,
        },
        network: NetworkConfig {
            mode: NetworkContainmentMode::Disabled,
            required_interface: None,
            source_address: None,
            namespace: None,
            allow_ipv6: false,
            validate_dns: false,
            fail_closed: true,
        },
        storage: StorageConfig {
            download_dir: None,
            incomplete_dir: None,
            minimum_free_space_bytes: 0,
            minimum_free_space_percent: 0,
            preallocate: false,
            sparse: true,
        },
        dht: DhtConfig { enabled: false, port: 6881, bootstrap_nodes: Vec::new() },
        pex: PexConfig { enabled: false, max_peers: 50 },
        autopilot_mode: AutopilotMode::Observe,
        watch: Vec::new(),
    }
}

fn torrent(n: u8, name: &str, length: u64) -> Torrent {
    Torrent::new(
        TorrentMeta {
            info_hash: InfoHash::from_bytes(&[n; 20]),
            name: name.to_string(),
            piece_length: 8,
            piece_count: length.div_ceil(8) as usize,
            total_length: length,
            files: vec![MetaFile { path: vec![name.to_string()], length }],
            private: false,
            announce: None,
            announce_list: Vec::new(),
        },
        1,
    )
}

fn registry(torrents: Vec<Torrent>) -> HashIndex<Torrent> {
    let mut registry = HashIndex::new();
    for torrent in torrents {
        registry.insert(torrent.info_hash(), torrent);
    }
    registry
}

fn open_health() -> NetworkHealth {
    NetworkHealth {
        mode: NetworkContainmentMode::Strict,
        status: NetworkContainmentStatus::Healthy,
        traffic_allowed: true,
        detail: "tun0 is up".to_string(),
    }
}

fn refusal(message: &str) -> Result<(), CoreError> {
    Err(CoreError::Storage(message.to_string()))
}

// Configuration.

#[test]
fn per_torrent_worker_limit_is_independent_of_global_session_budget() {
    let built_in = 50;
    assert_eq!(effective_per_torrent_peer_limit(0, built_in), built_in);
    assert_eq!(effective_per_torrent_peer_limit(24, built_in), 24);
}

#[test]
fn encryption_mode_change_rebuilds_data_plane_without_process_restart() {
    let previous = config();
    let mut next = previous.clone();
    next.torrent.encryption_mode = PeerEncryptionMode::Required;
    assert!(data_plane_config_changed(&previous, &next));
    assert!(restart_required_fields(&previous, &next).is_empty());
    assert!(matches!(choose_replacement(&previous, &next), ReplacementPath::Rebuild));
}

#[test]
fn fields_that_need_a_restart_are_named() {
    let previous = config();
    let mut next = previous.clone();
    next.api.bind_address = "0.0.0.0:80".to_string();
    next.logging.json = true;
    assert_eq!(restart_required_fields(&previous, &next), vec!["api.bind_address", "logging.json"]);
    assert!(!data_plane_config_changed(&previous, &next));
    assert!(matches!(choose_replacement(&previous, &next), ReplacementPath::Swap));
    let shown = config_update_result(
        &Some("/etc/swarmotter.toml".to_string()),
        restart_required_fields(&previous, &next),
        next,
    );
    assert!(shown.persisted);
    assert!(shown.restart_required);
}

#[test]
fn storage_root_changes_reject_torrents_that_still_depend_on_old_roots() {
    let known = registry(vec![torrent(1, "storage-transition.bin", 26)]);
    let previous = config();
    let mut next = previous.clone();
    next.storage.download_dir = Some("/tmp/swarmotter-new-root".to_string());
    assert!(matches!(
        validate_storage_config_transition(&previous, &next, &known, Ok(())),
        Err(CoreError::InvalidConfig(_))
    ));
    assert!(validate_storage_config_transition(&previous, &previous, &known, Ok(())).is_ok());
    assert!(
        validate_storage_config_transition(&previous, &next, &registry(Vec::new()), Ok(())).is_ok()
    );
}

#[test]
fn a_new_configuration_keeps_or_replaces_the_token() {
    let mut previous = config();
    previous.api.auth_token = Some("existing-token".to_string());
    let mut next = redact_config(previous.clone());
    assert_eq!(next.api.auth_token, None);
    keep_auth_token(&mut next, &previous);
    assert_eq!(next.api.auth_token.as_deref(), Some("existing-token"));
    next.api.auth_token = Some("fresh-token".to_string());
    keep_auth_token(&mut next, &previous);
    assert_eq!(next.api.auth_token.as_deref(), Some("fresh-token"));
}

#[test]
fn peer_limits_are_told_apart_from_other_changes() {
    let previous = config();
    let mut next = previous.clone();
    next.bandwidth.max_peers = 9;
    assert!(peer_limits_changed(&previous, &next));
    let normalized = with_peer_limits_of(next.clone(), &previous);
    assert_eq!(normalized.bandwidth.max_peers, 0);
    assert!(configs_differ_only_in_peer_limits(&previous, &next, Some("same"), Some("same")));
    assert!(!configs_differ_only_in_peer_limits(&previous, &next, Some("one"), Some("other")));
    assert!(!configs_differ_only_in_peer_limits(&previous, &next, None, None));
    assert!(!configs_differ_only_in_peer_limits(&previous, &previous, Some("same"), Some("same")));
}

#[test]
fn directories_are_resolved_in_order() {
    let mut cfg = config();
    assert_eq!(resolve_download_dir_from_config(None, &cfg, "/fallback"), "/fallback");
    cfg.storage.download_dir = Some("/data".to_string());
    assert_eq!(resolve_download_dir_from_config(None, &cfg, "/fallback"), "/data");
    assert_eq!(resolve_download_dir_from_config(Some("/own"), &cfg, "/fallback"), "/own");
    assert_eq!(resolve_incomplete_dir_from_config("/own", &cfg), "/own");
    cfg.storage.incomplete_dir = Some("/part".to_string());
    assert_eq!(resolve_incomplete_dir_from_config("/own", &cfg), "/part");
}

#[test]
fn a_replacement_is_judged_in_order() {
    assert!(judge_replacement(Ok(()), false, refusal("bind"), Ok(())).is_ok());
    assert!(judge_replacement(Ok(()), true, refusal("bind"), Ok(())).is_err());
    assert!(judge_replacement(refusal("invalid"), false, Ok(()), Ok(())).is_err());
    assert!(judge_replacement(Ok(()), true, Ok(()), refusal("storage")).is_err());
    assert!(judge_replacement(Ok(()), true, Ok(()), Ok(())).is_ok());
    let taken = || Err("taken".to_string());
    assert!(validate_replacement_bind_path(&config(), taken(), taken()).is_ok());
    let mut strict = config();
    strict.network.mode = NetworkContainmentMode::Strict;
    assert!(validate_replacement_bind_path(&strict, Ok(()), Ok(())).is_ok());
    match validate_replacement_bind_path(&strict, Ok(()), taken()) {
        Err(CoreError::NetworkBlocked(message)) => assert_eq!(
            message,
            "replacement containment listener bind validation failed: taken"
        ),
        other => panic!("unexpected: {other:?}"),
    }
    match validate_replacement_bind_path(&strict, taken(), taken()) {
        Err(CoreError::NetworkBlocked(message)) => assert_eq!(
            message,
            "replacement containment UDP bind validation failed: taken"
        ),
        other => panic!("unexpected: {other:?}"),
    }
}

// Who owns which files.

#[test]
fn the_first_path_that_is_taken_is_named() {
    let clash = Some(CoreError::Storage("paths collide".to_string()));
    assert!(matches!(
        ensure_storage_paths_available_except(&vec![None], &vec![vec![clash]]),
        Err(CoreError::Storage(_))
    ));
    assert!(ensure_storage_paths_available_except(&vec![None], &vec![vec![None]]).is_ok());
    let own = Some(CoreError::Storage("own paths collide".to_string()));
    match ensure_storage_paths_available_except(&vec![own], &Vec::new()) {
        Err(CoreError::Storage(message)) => assert_eq!(message, "own paths collide"),
        other => panic!("unexpected: {other:?}"),
    }
}

#[test]
fn restored_torrents_keep_clear_of_each_other() {
    let clash = || Some(CoreError::Storage("paths collide".to_string()));
    assert!(validate_restored_storage_ownership(&vec![None, None], &vec![vec![None], vec![]]).is_ok());
    assert!(
        validate_restored_storage_ownership(&vec![None, None], &vec![vec![clash()], vec![]])
            .is_err()
    );
    assert!(
        validate_restored_storage_ownership(&vec![None, clash()], &vec![vec![None], vec![]])
            .is_err()
    );
}

#[test]
fn torrents_claim_the_directories_they_may_write_to() {
    let mut cfg = config();
    cfg.storage.download_dir = Some("/data".to_string());
    let known = registry(vec![torrent(1, "one.bin", 8), torrent(2, "two.bin", 8)]);
    let claims = storage_claims(&known, &cfg, "/fallback", None);
    assert_eq!(claims.len(), 2);
    assert!(claims.iter().all(|claim| claim.root == "/data"));
    let others = storage_claims(&known, &cfg, "/fallback", Some(InfoHash::from_bytes(&[1; 20])));
    assert_eq!(others.len(), 1);
    assert_eq!(others[0].hash, InfoHash::from_bytes(&[2; 20]));
}

#[test]
fn a_reset_touches_every_configured_directory() {
    let mut cfg = config();
    cfg.storage.download_dir = Some("/data".to_string());
    cfg.storage.incomplete_dir = Some("/part".to_string());
    let known = registry(vec![torrent(1, "one.bin", 8)]);
    let plan = reset_plan(&known, &cfg, "/fallback");
    assert!(plan.storage_paths.contains(&"/data".to_string()));
    assert!(plan.storage_paths.contains(&"/part".to_string()));
}

// Permits.

#[test]
fn permit_pools_follow_the_limits() {
    let mut cfg = config();
    cfg.bandwidth.max_peers = 3;
    let known = registry(vec![torrent(1, "one.bin", 8), torrent(2, "two.bin", 8)]);
    let built = build_peer_permit_configuration(&known, &cfg, 50, 10, Ok(()), Ok(())).unwrap();
    assert_eq!(built.global.limit, 3);
    assert_eq!(built.per_torrent.len(), 2);
    assert_eq!(built.per_torrent.value_at(0).limit, 50);
    assert_ne!(built.per_torrent.value_at(0).id, built.per_torrent.value_at(1).id);
    let again = build_peer_permit_configuration(&known, &cfg, 50, 90, Ok(()), Ok(())).unwrap();
    assert!(verify_peer_permit_configuration_identity(&built, &built).is_ok());
    assert!(verify_peer_permit_configuration_identity(&built, &again).is_err());
    assert!(
        build_peer_permit_configuration(&known, &cfg, 50, 10, refusal("too many"), Ok(())).is_err()
    );
    assert!(permits_drained(&PermitUse { global: 0, per_torrent: vec![0, 0] }));
    assert!(!permits_drained(&PermitUse { global: 0, per_torrent: vec![0, 1] }));
    assert!(!permits_drained(&PermitUse { global: 1, per_torrent: Vec::new() }));
}

// Trackers.

#[test]
fn list_trackers_uses_per_tracker_live_announce_results() {
    let primary = "http://tracker.example/announce".to_string();
    let secondary = "udp://tracker.example:6969/announce".to_string();
    let tiers = vec![vec![primary.clone(), secondary.clone()]];
    let snapshots = vec![
        TrackerSnapshot {
            url: primary.clone(),
            status: TrackerStatus::Working,
            seeders: 256,
            leechers: 12,
            downloads: 0,
            last_error: None,
            last_message: Some("announce returned 64 peers".to_string()),
            last_announce: Some(1234),
        },
        TrackerSnapshot {
            url: secondary.clone(),
            status: TrackerStatus::Error,
            seeders: 0,
            leechers: 0,
            downloads: 0,
            last_error: Some("tracker announce timed out".to_string()),
            last_message: None,
            last_announce: Some(1235),
        },
    ];
    let rows = list_trackers(&tiers, &snapshots, 1800);
    let first = rows.iter().find(|row| row.url == primary).unwrap();
    assert_eq!(first.status, TrackerStatus::Working);
    assert_eq!(first.seeders, 256);
    assert_eq!(first.leechers, 12);
    assert_eq!(first.last_error, None);
    assert_eq!(first.last_message.as_deref(), Some("announce returned 64 peers"));
    assert_eq!(first.last_announce, Some(1234));
    assert_eq!(first.tier, 0);
    let second = rows.iter().find(|row| row.url == secondary).unwrap();
    assert_eq!(second.status, TrackerStatus::Error);
    assert_eq!(second.last_error.as_deref(), Some("tracker announce timed out"));
    assert_eq!(second.last_message, None);
    assert_eq!(second.tier, 0);
    assert_eq!(make_tracker(&primary, 3).status, TrackerStatus::NotContacted);
}

#[test]
fn announce_waits_are_bounded() {
    let accepted = |interval, min_interval| AnnounceOutcome::Accepted { interval, min_interval };
    assert_eq!(announce_wait(accepted(1, None)), Some(30));
    assert_eq!(announce_wait(accepted(1800, Some(3600))), Some(3600));
    assert_eq!(announce_wait(accepted(u64::MAX, None)), Some(86_400));
    assert_eq!(announce_wait(AnnounceOutcome::TimedOut), None);
    assert_eq!(seeder_announce_once(&vec![AnnounceOutcome::Refused, accepted(600, None)]), 600);
    assert_eq!(seeder_announce_once(&vec![AnnounceOutcome::Failed]), 300);
    assert!(is_udp_tracker("udp://tracker.example:6969"));
    assert!(!is_udp_tracker("http://tracker.example"));
}

#[test]
fn announcing_says_farewell_only_after_it_began() {
    let (state, action) =
        seeder_announce_step(AnnounceState::Starting, AnnounceInput::Due);
    assert_eq!(action, AnnounceAction::Announce(AnnounceEvent::Started));
    assert_eq!(
        seeder_announce_step(state, AnnounceInput::Shutdown(true)),
        (AnnounceState::Ended, AnnounceAction::End)
    );
    let (state, action) = seeder_announce_step(state, AnnounceInput::Announced { wait: 600 });
    assert_eq!(action, AnnounceAction::Sleep { seconds: 600 });
    assert_eq!(
        seeder_announce_step(state, AnnounceInput::Due).1,
        AnnounceAction::Announce(AnnounceEvent::Empty)
    );
    assert_eq!(
        seeder_announce_step(state, AnnounceInput::Shutdown(true)),
        (AnnounceState::Ended, AnnounceAction::Farewell)
    );
}

// Renaming payload files.

fn failed(cause: &str) -> Report {
    Report::Failed(Failure {
        error: CoreError::Storage(cause.to_string()),
        cause: cause.to_string(),
        rendered: format!("storage error: {cause}"),
    })
}

fn drive(reports: Vec<Report>) -> Renaming {
    let mut renaming = Renaming::rename_payload_exclusive();
    for report in reports {
        renaming = renaming.step(report, "/d/old.bin", "/d/new.bin");
    }
    renaming
}

#[test]
fn a_file_is_linked_then_removed() {
    let renaming = drive(vec![
        Report::Done,
        Report::Found(SourceKind::File),
        Report::Done,
        Report::Done,
        Report::Done,
        Report::Done,
    ]);
    assert_eq!(renaming.stage, RenameStage::Moved);
    assert!(renaming.error.is_none());
    assert!(matches!(
        rollback_payload_rename(PayloadRenameOutcome::Moved),
        RollbackStep::RenameBack
    ));
    assert!(renamed_back(Ok(PayloadRenameOutcome::Moved)).is_ok());
}

#[test]
fn a_missing_file_reserves_its_new_name() {
    let renaming = drive(vec![
        Report::Done,
        Report::Found(SourceKind::Missing),
        Report::Done,
        Report::Done,
        Report::Done,
    ]);
    assert_eq!(renaming.stage, RenameStage::Reserved);
    assert!(matches!(
        rollback_payload_rename(PayloadRenameOutcome::PlaceholderCreated),
        RollbackStep::RemoveDestination
    ));
}

#[test]
fn a_taken_name_is_not_replaced() {
    let renaming = drive(vec![
        Report::Done,
        Report::Found(SourceKind::File),
        failed("exists"),
        Report::Done,
        failed("exists too"),
    ]);
    assert_eq!(renaming.stage, RenameStage::Failed);
    match renaming.error {
        Some(CoreError::Storage(message)) => assert_eq!(
            message,
            "cannot rename /d/old.bin to /d/new.bin without replacing data: hard link failed (exists); exclusive copy failed (exists too)"
        ),
        other => panic!("unexpected: {other:?}"),
    }
}

#[test]
fn only_plain_files_are_renamed() {
    let renaming = drive(vec![Report::Done, Report::Found(SourceKind::Other)]);
    assert_eq!(renaming.stage, RenameStage::Failed);
    match renaming.error {
        Some(CoreError::Storage(message)) => {
            assert_eq!(message, "rename source is not a regular file: /d/old.bin");
        }
        other => panic!("unexpected: {other:?}"),
    }
}

// What the daemon says of itself.

#[test]
fn free_space_decides_the_level_of_a_directory() {
    let probe = |blocks: u64| DirProbe {
        exists: true,
        parent_exists: true,
        here: Some(FileSystemStat { available_blocks: blocks, fragment_size: 4096 }),
        parent: None,
    };
    assert_eq!(
        free_space_bytes(Some(FileSystemStat { available_blocks: 3, fragment_size: 4096 })),
        Some(12_288)
    );
    assert_eq!(free_space_bytes(None), None);
    let mut checks = Vec::new();
    add_storage_check(&mut checks, "d", "Downloads", Some("/d"), probe(1 << 30));
    add_storage_check(&mut checks, "d", "Downloads", Some("/d"), probe(2_000_000));
    add_storage_check(&mut checks, "d", "Downloads", None, probe(1));
    assert_eq!(checks[0].level, DiagnosticLevel::Good);
    assert_eq!(checks[0].detail, "4.0 TB available at /d");
    assert_eq!(checks[1].level, DiagnosticLevel::Warning);
    assert_eq!(checks[2].level, DiagnosticLevel::Warning);
}

#[test]
fn the_worst_check_decides_the_report() {
    let probe = || DirProbe {
        exists: true,
        parent_exists: true,
        here: Some(FileSystemStat { available_blocks: 1 << 30, fragment_size: 4096 }),
        parent: None,
    };
    let findings = |config_valid: bool| Findings {
        config_valid,
        config_file: Some(FoundFile { path: "/etc/s.toml".to_string(), is_file: true }),
        log_file: Some(FoundFile { path: "/var/log/s".to_string(), is_file: true }),
        download_dir: probe(),
        incomplete_dir: probe(),
        watch_folders: Vec::new(),
    };
    let cfg = config();
    let known = registry(Vec::new());
    let report = doctor_report(&cfg, &open_health(), &findings(false), &known);
    assert_eq!(report.level, DiagnosticLevel::Invalid);
    assert_eq!(report.summary, "one or more doctor checks are invalid");
    assert_eq!(report.checks[0].id, "config");
    let report = doctor_report(&cfg, &open_health(), &findings(true), &known);
    assert_ne!(report.level, DiagnosticLevel::Invalid);
    assert_eq!(
        DiagnosticLevel::Good.worst(DiagnosticLevel::Warning),
        DiagnosticLevel::Warning
    );
    assert_eq!(traffic_level(&open_health()), DiagnosticLevel::Good);
}

#[test]
fn interfaces_are_shown_with_the_selected_one() {
    let mut probe = FakeInterfaceProbe::new();
    probe.set_interface(
        "tun0",
        InterfaceStatus::Up,
        vec![InterfaceAddress { text: "10.0.0.2".to_string(), ipv6: false }],
    );
    probe.set_interface("eth0", InterfaceStatus::Down, Vec::new());
    assert!(probe.source_assigned("10.0.0.2", Some("tun0")));
    assert!(!probe.source_assigned("10.0.0.2", Some("eth0")));
    let mut cfg = config();
    cfg.network.required_interface = Some("tun0".to_string());
    let shown = network_diagnostics(&cfg, &open_health(), &probe.list());
    let tun = shown.interfaces.iter().find(|found| found.name == "tun0").unwrap();
    assert!(tun.selected);
    assert!(tun.has_ipv4);
    assert!(!tun.has_ipv6);
    assert_eq!(tun.addresses, vec!["10.0.0.2"]);
    assert!(shown.interfaces.iter().any(|found| found.name == "eth0" && !found.selected));
    probe.remove_interface("tun0");
    assert!(probe.find("tun0").is_none());
    probe.set_route_valid(false);
    assert!(!probe.route_valid());
    probe.set_dns_ok(false);
    assert!(!probe.dns_constrained());
    probe.set_namespace_ok(false);
    assert!(!probe.namespace_available());
    assert!(!containment_matrix(&cfg, DiagnosticLevel::Good).is_empty());
}

#[test]
fn the_newest_log_lines_are_shown_without_sequences() {
    let lines = vec!["\u{1b}[32mone\u{1b}[0m".to_string(), "two".to_string(), "three".to_string()];
    let shown = recent_logs(Some("/var/log/s"), Some(&lines), 2);
    assert!(shown.enabled);
    assert_eq!(shown.lines, vec!["two", "three"]);
    let shown = recent_logs(None, None, 2);
    assert!(!shown.enabled);
    assert!(shown.lines.is_empty());
}

#[test]
fn storage_roots_count_their_torrents() {
    let mut cfg = config();
    cfg.storage.download_dir = Some("/data".to_string());
    cfg.watch.push(WatchFolderConfig {
        path: "/w".to_string(),
        recursive: false,
        download_dir: Some("/watched".to_string()),
        label: None,
        start_behavior: StartBehavior::Start,
        archive_dir: None,
        failure_dir: None,
        delete_after_import: false,
    });
    let mut active = torrent(1, "one.bin", 8);
    active.state = TorrentState::Downloading;
    active.rate_down = 70;
    let mut own = torrent(2, "two.bin", 8);
    own.download_dir = Some("/own".to_string());
    let known = registry(vec![active, own]);
    let roots = storage_roots(&cfg, &known, "/fallback");
    let data = roots.iter().find(|root| root.path == "/data").unwrap();
    assert!(data.roles.contains(&StorageRootRole::Download));
    assert_eq!(data.torrent_count, 1);
    assert_eq!(data.active_torrents, 1);
    assert_eq!(data.active_write_rate, 70);
    assert!(roots
        .iter()
        .any(|root| root.path == "/own" && root.roles.contains(&StorageRootRole::TorrentOverride)));
    assert!(roots
        .iter()
        .any(|root| root.path == "/watched" && root.roles.contains(&StorageRootRole::WatchDownload)));

    cfg.storage.minimum_free_space_bytes = 11;
    cfg.storage.minimum_free_space_percent = 5;
    let shown = storage_diagnostics(&cfg, &known, "/fallback", 77);
    assert_eq!(shown.roots.len(), roots.len());
    assert_eq!(shown.minimum_free_space_bytes, 11);
    assert_eq!(shown.minimum_free_space_percent, 5);
    assert_eq!(shown.generated_at, 77);
}
