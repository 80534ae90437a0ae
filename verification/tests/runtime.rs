use swarmotterd::admission::{
    added_hash, magnet_placeholder, torrent_for_magnet, AddEntry, AddStep, AddTicket,
    AddTorrentOptions, MagnetLink, TorrentAddMutationOutcome,
};
use swarmotterd::autopilot::{
    build_autopilot_input, note_autopilot_action, AutopilotAction, AutopilotActionKind,
    AutopilotDecision, AutopilotStep, EngineCommand,
};
use swarmotterd::clock::Tick;
use swarmotterd::config::{
    effective_autopilot_mode, restart_required_fields, ApiConfig, AutopilotMode, BandwidthConfig,
    Config, DhtConfig, LoggingConfig, NetworkConfig, PeerEncryptionMode, PexConfig, QueueLimits,
    SeedingConfig, StorageConfig, TransportConfig,
};
use swarmotterd::effects::{Effect, Event, TorrentEventKind};
use swarmotterd::engine::{EnginePeerHealth, EngineState, PeerSchedulerState};
use swarmotterd::error::CoreError;
use swarmotterd::fleet::{EngineTask, RateSample, SeederTask};
use swarmotterd::hash::InfoHash;
use swarmotterd::health::build_health_input;
use swarmotterd::index::HashIndex;
use swarmotterd::launch::EngineEnd;
use swarmotterd::listing::EffectiveLimits;
use swarmotterd::livework::{check_reconstruction, LivePeerWorkSnapshot};
use swarmotterd::network::{NetworkContainmentMode, NetworkContainmentStatus, NetworkHealth};
use swarmotterd::ops::Tell;
use swarmotterd::ownership::{ensure_storage_paths_available_except, storage_claims};
use swarmotterd::permits::{
    build_peer_permit_configuration, verify_peer_permit_configuration_identity,
    PeerPermitConfiguration,
};
use swarmotterd::progress::{EngineReport, FreshRates};
use swarmotterd::reconfigure::{
    choose_replacement, config_update_result, peer_budget_failure, tell_settings_changed, update_settings,
    PeerBudgetStage, Rebuild, ReplacementPath, SettingsPatch,
};
use swarmotterd::relocation::{MoveEnd, RenameEnd};
use swarmotterd::removal::{removal_dirs, removal_outcome, tell_removed};
use swarmotterd::reset::reset_plan;
use swarmotterd::restore::{restore_torrents, PayloadCheck, StoredTorrent};
use swarmotterd::runtime::{DaemonRuntime, Surroundings, TickStep};
use swarmotterd::scheduler::desired_download_hashes_excluding;
use swarmotterd::seeding::{completion_age_seconds, idle_seconds, SeedDecision};
use swarmotterd::settings::QueueMove;
use swarmotterd::start::{EngineStart, StartStep};
use swarmotterd::stats::{bytes_completed, PermitSnapshot};
use swarmotterd::torrent::{
    ContainmentRecoveryIntent, FilePriority, MetaFile, Notice, SeedingPolicy, SeedingStatus,
    Torrent, TorrentMeta, TorrentState,
};
use swarmotterd::transaction::{ChangeStep, PeerBudgetChange};
use swarmotterd::uploads::{listener_outcome, ListenerBind, SeederStep};
use swarmotterd::watch::{import_result, judge_watch_attempt, watch_event_name, ImportOutcome};

const SECOND: u64 = 1_000_000_000;
const NOW: Tick = Tick { nanos: 1_000 * SECOND };
const BUILT_IN_PEER_LIMIT: usize = 50;
const NO_LIMITS: EffectiveLimits = EffectiveLimits { ratio_limit: None, idle_limit: None };

fn ago(seconds: u64) -> Tick {
    Tick { nanos: NOW.nanos - seconds * SECOND }
}

fn config() -> Config {
    Config {
        api: ApiConfig {
            bind_address: "127.0.0.1:9091".to_string(),
            auth_token: None,
            require_auth: false,
            max_request_body_bytes: 1 << 20,
        },
        logging: LoggingConfig {
            level: "info".to_string(),
            json: false,
            file: false,
            file_path: None,
        },
        bandwidth: BandwidthConfig {
            effective_download: 0,
            effective_upload: 0,
            max_peers: 0,
            max_peers_per_torrent: 0,
        },
        queue: QueueLimits {
            max_active_downloads: 5,
            max_active_metadata_fetches: 5,
            max_active_seeds: 5,
            auto_start: true,
        },
        seeding: SeedingConfig { global_ratio_limit: None, global_idle_limit: None },
        torrent: TransportConfig {
            listen_port: 6881,
            allow_ipv6: false,
            utp_enabled: false,
            utp_prefer_tcp: true,
            encryption_mode: PeerEncryptionMode::Preferred,
            selfish: false,
        },
        network: NetworkConfig {
            mode: NetworkContainmentMode::Disabled,
            required_interface: None,
            source_address: None,
            namespace: None,
            allow_ipv6: false,
            validate_dns: false,
            fail_closed: true,
        },
        storage: StorageConfig {
            download_dir: None,
            incomplete_dir: None,
            minimum_free_space_bytes: 0,
            minimum_free_space_percent: 0,
            preallocate: false,
            sparse: true,
        },
        dht: DhtConfig { enabled: false, port: 6881, bootstrap_nodes: Vec::new() },
        pex: PexConfig { enabled: false, max_peers: 50 },
        autopilot_mode: AutopilotMode::Observe,
        watch: Vec::new(),
    }
}

/// Peer budgets of as many for all torrents together as for each.
fn peers(limit: usize) -> BandwidthConfig {
    BandwidthConfig { max_peers: limit, max_peers_per_torrent: limit, ..config().bandwidth }
}

fn disabled_health() -> NetworkHealth {
    NetworkHealth {
        mode: NetworkContainmentMode::Disabled,
        status: NetworkContainmentStatus::Disabled,
        traffic_allowed: false,
        detail: "disabled".to_string(),
    }
}

fn open_health() -> NetworkHealth {
    NetworkHealth { traffic_allowed: true, ..disabled_health() }
}

fn daemon_with(config: Config, health: NetworkHealth) -> DaemonRuntime {
    DaemonRuntime::new(
        config,
        health,
        Surroundings {
            fallback_dir: "/var/lib/swarmotter".to_string(),
            built_in_peer_limit: BUILT_IN_PEER_LIMIT,
        },
    )
}

fn daemon() -> DaemonRuntime {
    daemon_with(config(), disabled_health())
}

fn scale_hash(n: u32) -> InfoHash {
    let mut bytes = [0u8; 20];
    bytes[..4].copy_from_slice(&n.to_be_bytes());
    InfoHash::from_bytes(&bytes)
}

fn named_hash(name: &str, total: u64) -> InfoHash {
    let mut bytes = [7u8; 20];
    for (i, byte) in name.bytes().enumerate() {
        bytes[i % 18] = bytes[i % 18].wrapping_mul(31).wrapping_add(byte);
    }
    bytes[18] = (total >> 8) as u8;
    bytes[19] = total as u8;
    InfoHash::from_bytes(&bytes)
}

fn multi_file_meta(name: &str, files: &[(&str, u64)], piece_length: u64) -> TorrentMeta {
    let total: u64 = files.iter().map(|file| file.1).sum();
    TorrentMeta {
        info_hash: named_hash(name, total),
        name: name.to_string(),
        piece_length,
        piece_count: total.div_ceil(piece_length) as usize,
        total_length: total,
        files: files
            .iter()
            .map(|file| MetaFile { path: vec![file.0.to_string()], length: file.1 })
            .collect(),
        private: false,
        announce: None,
        announce_list: Vec::new(),
    }
}

fn meta(name: &str, content: &[u8], piece_length: u64) -> TorrentMeta {
    multi_file_meta(name, &[(name, content.len() as u64)], piece_length)
}

fn placeholder(hash: InfoHash, state: TorrentState, added: u64) -> Torrent {
    let mut torrent = Torrent::new(meta("magnet placeholder", b"placeholder", 8), added);
    torrent.state = state;
    torrent.needs_metadata = true;
    torrent.magnet_info_hash = Some(hash);
    torrent
}

fn magnet(n: u128, name: &str) -> Torrent {
    let mut bytes = [0u8; 20];
    bytes[4..].copy_from_slice(&n.to_be_bytes());
    magnet_torrent(MagnetLink {
        info_hash: InfoHash::from_bytes(&bytes),
        display_name: Some(name.to_string()),
        trackers: Vec::new(),
    })
}

fn magnet_torrent(link: MagnetLink) -> Torrent {
    let made_up = magnet_placeholder(&link);
    let mut parsed = meta(&made_up.name, &made_up.content, made_up.piece_length);
    parsed.announce = made_up.announce;
    parsed.private = made_up.private;
    torrent_for_magnet(link, parsed, 1)
}

fn enter(runtime: &mut DaemonRuntime, torrent: Torrent) -> InfoHash {
    let hash = torrent.info_hash();
    runtime.fleet.registry.insert(hash, torrent);
    hash
}

fn take_in(runtime: &mut DaemonRuntime, torrent: Torrent, paused: bool) -> AddTicket {
    match runtime.add_torrent_mutation(torrent, paused, Ok(()), Ok(())) {
        Ok(AddEntry::Entered(ticket)) => ticket,
        other => panic!("unexpected: {other:?}"),
    }
}

fn run(runtime: &mut DaemonRuntime, hash: InfoHash) {
    runtime.fleet.engines.insert(hash, EngineTask { finished: false });
}

fn desired(runtime: &mut DaemonRuntime) -> Vec<InfoHash> {
    let limits = runtime.config.queue;
    let fleet = &mut runtime.fleet;
    desired_download_hashes_excluding(
        &mut fleet.queue,
        limits,
        &fleet.registry,
        &fleet.retry_after,
        NOW,
        None,
    )
}

fn torrent<'a>(runtime: &'a DaemonRuntime, hash: &InfoHash) -> &'a Torrent {
    runtime.fleet.registry.get(hash).unwrap()
}

fn change(runtime: &mut DaemonRuntime, hash: &InfoHash, with: impl Fn(&mut Torrent)) {
    let position = runtime.fleet.registry.find(hash).unwrap();
    with(runtime.fleet.registry.value_at_mut(position));
}

fn reconcile(
    runtime: &mut DaemonRuntime,
    reports: Vec<EngineReport>,
    settle: bool,
) -> Vec<Effect> {
    let mut effects = Vec::new();
    let health = runtime.network_health.clone();
    runtime.fleet.reconcile_engine_progress(reports, settle, 0, &health, NOW, &mut effects);
    effects
}

fn report(hash: InfoHash, state: EngineState) -> EngineReport {
    EngineReport { hash, state, fresh: FreshRates { down: 0, up: 0 } }
}

fn sample_since(at: Tick) -> RateSample {
    RateSample {
        downloaded: 0,
        uploaded: 0,
        rate_down: 0,
        rate_up: 0,
        last_download_at: None,
        last_upload_at: None,
        no_download_since: Some(at),
        at,
        peak_rate_down: 0,
        peak_rate_up: 0,
    }
}

fn no_permits() -> PermitSnapshot {
    PermitSnapshot { limit: 0, in_use: 0, available: None, denied: 0 }
}

fn event_kinds(effects: &[Effect]) -> Vec<&'static str> {
    effects
        .iter()
        .filter_map(|effect| match effect {
            Effect::Publish(event) => Some(event.name()),
            _ => None,
        })
        .collect()
}

fn notice_text(torrent: &Torrent) -> Option<String> {
    torrent.error.as_ref().map(|notice| notice.text())
}

// Torrents that are stored and taken up again.

fn stored(torrent: Torrent) -> StoredTorrent {
    let pieces = torrent.meta.piece_count;
    let mut bits = torrent.progress.have.clone();
    bits.resize(pieces.div_ceil(8) * 8, false);
    StoredTorrent {
        torrent,
        progress_total: pieces,
        bits,
        metadata_error: None,
        decision: SeedDecision::Continue,
    }
}

#[test]
fn durable_state_restores_torrents_settings_and_queue() {
    let mut runtime = daemon();
    let hash = take_in(
        &mut runtime,
        Torrent::new(meta("persisted.bin", b"durable daemon state", 8), 1),
        true,
    )
    .hash;
    runtime.fleet.set_labels(hash, vec!["linux-release".to_string()]).unwrap();
    runtime.fleet.set_torrent_limits(hash, 111, 222).unwrap();

    let kept = torrent(&runtime, &hash).clone();
    let queue = runtime.fleet.queue;
    let mut restored = daemon();
    let registry = restore_torrents(vec![stored(kept)], false).unwrap();
    assert_eq!(restored.restore_persisted_state(registry, queue, Ok(()), Ok(()), 1).unwrap(), 1);
    let taken = torrent(&restored, &hash);
    assert_eq!(taken.state, TorrentState::Paused);
    assert_eq!(taken.labels, vec!["linux-release"]);
    assert_eq!(taken.download_limit, 111);
    assert_eq!(taken.upload_limit, 222);
    assert_eq!(restored.fleet.queue.position(&hash), Some(1));
    assert!(restored.peer_permit_pools_for_test(&hash).is_some());
}

#[test]
fn restart_reconstructs_eligible_seeder_and_preserves_automatic_and_manual_stops() {
    let finished = |name: &str, payload: &[u8]| {
        let mut torrent = Torrent::new(meta(name, payload, 8), 1);
        torrent.progress.have = vec![true; torrent.meta.piece_count];
        torrent.state = TorrentState::Completed;
        torrent
    };
    let mut eligible = finished("restart-active.bin", b"restart active payload");
    eligible.seeding.seed_forever = true;
    eligible.state = TorrentState::Seeding;
    eligible.seeding_status = SeedingStatus::Active;
    let mut automatic = finished("restart-automatic.bin", b"restart automatic payload");
    automatic.seeding.seed_forever = false;
    automatic.seeding.ratio_limit = Some(0.0f64.to_bits());
    automatic.seeding_status = SeedingStatus::StoppedRatio;
    let mut manual = finished("restart-manual.bin", b"restart manual payload");
    manual.seeding.seed_forever = true;
    manual.state = TorrentState::Paused;
    manual.seeding_status = SeedingStatus::StoppedManual;
    let (a, b, c) = (eligible.info_hash(), automatic.info_hash(), manual.info_hash());

    let mut stopped = stored(automatic);
    stopped.decision = SeedDecision::StopOnRatio;
    let registry =
        restore_torrents(vec![stored(eligible), stopped, stored(manual)], true).unwrap();
    let mut runtime = daemon_with(config(), open_health());
    let queue = daemon().fleet.queue;
    assert_eq!(runtime.restore_persisted_state(registry, queue, Ok(()), Ok(()), 1).unwrap(), 3);
    for hash in runtime.restored_to_verify() {
        let pieces = torrent(&runtime, &hash).meta.piece_count;
        runtime.verify_restored_torrent(hash, PayloadCheck::Read(vec![true; pieces]));
    }
    let mut decisions = HashIndex::new();
    decisions.insert(a, SeedDecision::Continue);
    decisions.insert(b, SeedDecision::StopOnRatio);
    decisions.insert(c, SeedDecision::Continue);
    let mut effects = Vec::new();
    let plan = runtime.fleet.reconcile_seeders(5, &decisions, &mut effects);
    assert_eq!(plan.start, vec![a]);
    runtime.fleet.begin_seeder(a);
    runtime.fleet.finish_seeder_start(a, true, &mut effects);
    assert_eq!(torrent(&runtime, &a).state, TorrentState::Seeding);
    assert_eq!(torrent(&runtime, &a).seeding_status, SeedingStatus::Active);
    assert_eq!(torrent(&runtime, &b).seeding_status, SeedingStatus::StoppedRatio);
    assert_eq!(torrent(&runtime, &c).state, TorrentState::Paused);
    assert_eq!(torrent(&runtime, &c).seeding_status, SeedingStatus::StoppedManual);
    assert!(runtime.fleet.seeders.contains(&a));
    assert!(!runtime.fleet.seeders.contains(&b));
    assert!(!runtime.fleet.seeders.contains(&c));
}

fn recheck(runtime: &mut DaemonRuntime, hash: InfoHash, have: Vec<bool>) {
    let mut effects = Vec::new();
    let cfg = runtime.config.clone();
    runtime.fleet.begin_recheck(hash, &cfg, "/var/lib/swarmotter", &mut effects).unwrap();
    assert!(runtime.fleet.finish_recheck(hash, PayloadCheck::Read(have), 5, &mut effects));
}

fn file_bytes(torrent: &Torrent) -> Vec<u64> {
    torrent.files.iter().map(|file| file.bytes_completed).collect()
}

#[test]
fn boundary_file_bytes_are_exact_after_restore_and_each_recheck() {
    let mut kept = Torrent::new(
        multi_file_meta("boundary", &[("a.bin", 3), ("b.bin", 4), ("c.bin", 2)], 4),
        1,
    );
    let hash = kept.info_hash();
    kept.state = TorrentState::Paused;
    kept.seeding.idle_limit = Some(0);
    kept.progress.have = vec![true, false, true];
    let registry = restore_torrents(vec![stored(kept)], true).unwrap();
    let mut runtime = daemon_with(config(), open_health());
    let queue = daemon().fleet.queue;
    runtime.restore_persisted_state(registry, queue, Ok(()), Ok(()), 1).unwrap();
    assert_eq!(bytes_completed(torrent(&runtime, &hash)), 5);
    assert_eq!(file_bytes(torrent(&runtime, &hash)), vec![3, 1, 1]);

    recheck(&mut runtime, hash, vec![true, false, true]);
    assert_eq!(bytes_completed(torrent(&runtime, &hash)), 5);
    assert_eq!(file_bytes(torrent(&runtime, &hash)), vec![3, 1, 1]);

    recheck(&mut runtime, hash, vec![true, true, true]);
    assert_eq!(bytes_completed(torrent(&runtime, &hash)), 9);
    assert_eq!(file_bytes(torrent(&runtime, &hash)), vec![3, 4, 2]);
}

#[test]
fn single_file_final_piece_bytes_are_exact_after_restore_and_recheck() {
    let mut kept = Torrent::new(meta("nine.bin", b"123456789", 4), 1);
    let hash = kept.info_hash();
    kept.state = TorrentState::Paused;
    kept.progress.have = vec![false, false, true];
    let registry = restore_torrents(vec![stored(kept)], true).unwrap();
    let mut runtime = daemon_with(config(), open_health());
    let queue = daemon().fleet.queue;
    runtime.restore_persisted_state(registry, queue, Ok(()), Ok(()), 1).unwrap();
    assert_eq!(bytes_completed(torrent(&runtime, &hash)), 1);
    assert_eq!(torrent(&runtime, &hash).files[0].bytes_completed, 1);
    recheck(&mut runtime, hash, vec![false, false, true]);
    assert_eq!(bytes_completed(torrent(&runtime, &hash)), 1);
    assert_eq!(torrent(&runtime, &hash).files[0].bytes_completed, 1);
    recheck(&mut runtime, hash, vec![true, true, true]);
    assert_eq!(bytes_completed(torrent(&runtime, &hash)), 9);
    assert_eq!(torrent(&runtime, &hash).files[0].bytes_completed, 9);
}

#[test]
fn durable_restore_rejects_colliding_paths_and_invalid_progress() {
    let first = Torrent::new(meta("restored.bin", b"first restored payload", 8), 1);
    let second = Torrent::new(meta("restored.bin", b"second restored payload", 8), 2);
    let registry =
        restore_torrents(vec![stored(first.clone()), stored(second)], false).unwrap();
    let mut runtime = daemon();
    let queue = daemon().fleet.queue;
    let clash = Err(CoreError::Storage("paths collide".to_string()));
    assert!(matches!(
        runtime.restore_persisted_state(registry, queue, clash, Ok(()), 1).unwrap_err(),
        CoreError::Storage(_)
    ));
    assert!(runtime.fleet.registry.is_empty());

    let mut invalid = stored(first);
    invalid.progress_total += 1;
    assert!(matches!(
        restore_torrents(vec![invalid], false).unwrap_err(),
        CoreError::Storage(_)
    ));
}

#[test]
fn durable_restore_rejects_invalid_per_torrent_ratio_policy_with_context() {
    let mut kept = Torrent::new(meta("invalid-policy.bin", b"generated invalid policy payload", 8), 1);
    let hash = kept.info_hash();
    kept.seeding.ratio_limit = Some((-1.0f64).to_bits());
    match restore_torrents(vec![stored(kept)], false) {
        Err(CoreError::Storage(message)) => {
            assert!(message.contains(&hash.to_hex()));
            assert!(message.contains("seeding.ratio_limit"));
        }
        other => panic!("unexpected: {other:?}"),
    }
}

#[test]
fn each_fault_of_a_stored_torrent_is_named() {
    let good = || Torrent::new(meta("stored.bin", b"some stored payload", 8), 1);
    let refusal = |stored: StoredTorrent| match restore_torrents(vec![stored], false) {
        Err(CoreError::Storage(message)) => message,
        other => panic!("unexpected: {other:?}"),
    };
    let mut metadata = stored(good());
    metadata.metadata_error = Some("no pieces".to_string());
    assert!(refusal(metadata).ends_with(": no pieces"));
    let mut settings = stored(good());
    settings.torrent.wanted.clear();
    assert!(refusal(settings).contains("inconsistent file settings"));
    let mut identity = stored(good());
    identity.torrent.needs_metadata = true;
    assert!(refusal(identity).contains("inconsistent magnet identity"));
    let mut progress = stored(good());
    let last = progress.bits.len() - 1;
    progress.bits[last] = true;
    assert!(refusal(progress).contains("inconsistent piece progress"));
    let mut files = stored(good());
    files.torrent.files[0].bytes_completed = 1_000;
    assert!(refusal(files).contains("file progress beyond file length"));
    let mut ratio = stored(good());
    ratio.torrent.seeding.ratio_limit = Some(f64::NAN.to_bits());
    assert!(refusal(ratio).contains("seeding.ratio_limit"));
    let mut usable = stored(good());
    usable.torrent.seeding.ratio_limit = Some(1.5f64.to_bits());
    assert!(restore_torrents(vec![usable], false).is_ok());
}

#[test]
fn recheck_preserves_selected_file_completion() {
    let mut runtime = daemon();
    let hash = take_in(
        &mut runtime,
        Torrent::new(multi_file_meta("selection", &[("first.bin", 4), ("second.bin", 4)], 4), 1),
        true,
    )
    .hash;
    change(&mut runtime, &hash, |torrent| {
        torrent.wanted[1] = false;
        torrent.priorities[1] = FilePriority::Unwanted;
        torrent.files[1].wanted = false;
        torrent.files[1].priority = FilePriority::Unwanted;
        torrent.progress.have[0] = true;
        torrent.state = TorrentState::Completed;
    });
    recheck(&mut runtime, hash, vec![true, false]);
    let checked = torrent(&runtime, &hash);
    assert_eq!(checked.state, TorrentState::Completed);
    assert_eq!(checked.pieces_have(), 1);
    assert!(!checked.progress.is_complete());
}

// Moving and renaming payload.

fn finished_torrent(name: &str, payload: &[u8], dir: &str) -> Torrent {
    let mut torrent = Torrent::new(meta(name, payload, 8), 1);
    torrent.state = TorrentState::Paused;
    torrent.download_dir = Some(dir.to_string());
    torrent.progress.have = vec![true; torrent.meta.piece_count];
    torrent
}

#[test]
fn state_save_failure_rolls_back_move_and_rename() {
    let mut runtime = daemon();
    let hash = enter(&mut runtime, finished_torrent("rollback.bin", b"rollback payload", "/old"));
    runtime.fleet.queue.add(hash);
    let before_policy = torrent(&runtime, &hash).seeding;
    let before_status = torrent(&runtime, &hash).seeding_status;
    let previous = runtime
        .fleet
        .set_torrent_seeding(
            hash,
            SeedingPolicy {
                ratio_limit: Some(1.5f64.to_bits()),
                idle_limit: Some(30),
                seed_forever: true,
            },
        )
        .unwrap();
    runtime.fleet.restore_torrent_seeding(hash, previous);
    assert_eq!(torrent(&runtime, &hash).seeding, before_policy);
    assert_eq!(torrent(&runtime, &hash).seeding_status, before_status);

    let cfg = runtime.config.clone();
    let refusal = || CoreError::Storage("state was not saved".to_string());
    let mut effects = Vec::new();
    let ticket = runtime
        .fleet
        .move_data(hash, "/new", Ok(()), &cfg, "/var/lib/swarmotter", &mut effects)
        .unwrap();
    assert_eq!(ticket.source, "/old");
    assert_eq!(ticket.destination, "/new");
    runtime.fleet.enter_move(&ticket, "/new".to_string());
    assert_eq!(torrent(&runtime, &hash).download_dir.as_deref(), Some("/new"));
    assert!(runtime
        .fleet
        .finish_move(ticket, MoveEnd::Undone(refusal()), &mut effects)
        .is_err());
    assert_eq!(torrent(&runtime, &hash).download_dir.as_deref(), Some("/old"));

    let ticket = runtime
        .fleet
        .rename_path(hash, 0, "renamed.bin", Ok(()), &cfg, "/var/lib/swarmotter", &mut effects)
        .unwrap();
    runtime.fleet.enter_rename(&ticket, "renamed.bin");
    assert_eq!(torrent(&runtime, &hash).files[0].path, "renamed.bin");
    assert!(runtime
        .fleet
        .finish_rename(ticket, RenameEnd::Undone(refusal()), &mut effects)
        .is_err());
    assert_eq!(torrent(&runtime, &hash).meta.files[0].path, vec!["rollback.bin"]);
    assert_eq!(torrent(&runtime, &hash).files[0].path, "rollback.bin");
}

#[test]
fn move_and_rename_update_payload_and_registry_paths() {
    let mut runtime = daemon();
    let hash = enter(
        &mut runtime,
        finished_torrent("original.bin", b"move and rename lawful payload", "/old"),
    );
    change(&mut runtime, &hash, |torrent| torrent.state = TorrentState::Completed);
    let cfg = runtime.config.clone();
    let mut effects = Vec::new();
    let ticket = runtime
        .fleet
        .move_data(hash, "/new", Ok(()), &cfg, "/var/lib/swarmotter", &mut effects)
        .unwrap();
    runtime.fleet.enter_move(&ticket, "/new".to_string());
    runtime.fleet.finish_move(ticket, MoveEnd::Kept, &mut effects).unwrap();
    let ticket = runtime
        .fleet
        .rename_path(hash, 0, "renamed.bin", Ok(()), &cfg, "/var/lib/swarmotter", &mut effects)
        .unwrap();
    assert_eq!(ticket.dir, "/new");
    runtime.fleet.enter_rename(&ticket, "renamed.bin");
    runtime.fleet.finish_rename(ticket, RenameEnd::Kept, &mut effects).unwrap();
    let moved = torrent(&runtime, &hash);
    assert_eq!(moved.download_dir.as_deref(), Some("/new"));
    assert_eq!(moved.files[0].path, "renamed.bin");
    assert_eq!(moved.meta.files[0].path, vec!["renamed.bin"]);
}

#[test]
fn rename_rejects_the_torrents_own_resume_path() {
    let mut runtime = daemon();
    let hash = take_in(
        &mut runtime,
        Torrent::new(meta("resume-name.bin", b"resume collision payload", 8), 1),
        true,
    )
    .hash;
    let cfg = runtime.config.clone();
    let mut effects = Vec::new();
    let taken = Err(CoreError::Storage("path belongs to the resume record".to_string()));
    let error = runtime
        .fleet
        .rename_path(
            hash,
            0,
            "resume-name.bin.swarmotter.resume",
            taken,
            &cfg,
            "/var/lib/swarmotter",
            &mut effects,
        )
        .unwrap_err();
    assert!(matches!(error, CoreError::Storage(_)));
    assert_eq!(torrent(&runtime, &hash).files[0].path, "resume-name.bin");
}

#[test]
fn unknown_torrents_and_files_are_not_moved_or_renamed() {
    let mut runtime = daemon();
    let cfg = runtime.config.clone();
    let mut effects = Vec::new();
    assert!(matches!(
        runtime.fleet.move_data(scale_hash(1), "/new", Ok(()), &cfg, "/f", &mut effects),
        Err(CoreError::NotFound(_))
    ));
    let hash = enter(&mut runtime, finished_torrent("known.bin", b"known payload", "/old"));
    assert!(runtime
        .fleet
        .rename_path(hash, 7, "new.bin", Ok(()), &cfg, "/f", &mut effects)
        .is_err());
    assert!(matches!(
        runtime.fleet.rename_path(hash, 0, "../up.bin", Ok(()), &cfg, "/f", &mut effects),
        Err(CoreError::Storage(_))
    ));
    assert_eq!(torrent(&runtime, &hash).files[0].path, "known.bin");
}

// Adding and removing.

#[test]
fn torrent_add_publishes_event() {
    let mut runtime = daemon();
    let added = Torrent::new(meta("event-add.bin", b"event add payload", 8), 1);
    let hash = added.info_hash();
    let ticket = take_in(&mut runtime, added, true);
    assert_eq!(ticket.hash, hash);
    let mut effects = Vec::new();
    let outcome = runtime.finish_add(ticket, Ok(()), 40, &mut effects).unwrap();
    assert_eq!(added_hash(outcome).unwrap(), hash);
    match &effects[0] {
        Effect::Publish(event) => {
            assert_eq!(event.name(), "torrent_added");
            assert_eq!(event.info_hash(), Some(hash));
        }
        other => panic!("unexpected: {other:?}"),
    }
    assert_eq!(event_kinds(&effects), vec!["torrent_added", "stats_updated"]);
    assert_eq!(ticket.state.as_str(), "paused");
    assert!(runtime.peer_permit_pools_for_test(&hash).is_some());
}

#[test]
fn a_waiting_torrent_has_the_queue_looked_at() {
    let mut runtime = daemon();
    let ticket = take_in(&mut runtime, magnet(5, "waiting"), false);
    let mut effects = Vec::new();
    runtime.finish_add(ticket, Ok(()), 40, &mut effects).unwrap();
    assert!(matches!(effects[0], Effect::ReconcileQueue { delay: 0 }));
}

#[test]
fn refused_storage_keeps_a_torrent_out() {
    let mut runtime = daemon();
    let refusal = || Err(CoreError::Storage("no space".to_string()));
    assert!(runtime.add_torrent_mutation(magnet(5, "a"), false, refusal(), Ok(())).is_err());
    assert!(runtime.add_torrent_mutation(magnet(5, "a"), false, Ok(()), refusal()).is_err());
    assert!(runtime.fleet.registry.is_empty());
    take_in(&mut runtime, magnet(5, "a"), false);
    match runtime.add_torrent_mutation(magnet(5, "a"), false, refusal(), refusal()) {
        Ok(AddEntry::Duplicate { hash }) => {
            let known = TorrentAddMutationOutcome::Duplicate { hash };
            match added_hash(known) {
                Err(CoreError::DuplicateTorrent(shown)) => assert_eq!(shown, hash.to_hex()),
                other => panic!("unexpected: {other:?}"),
            }
        }
        other => panic!("unexpected: {other:?}"),
    }
}

#[test]
fn torrents_are_added_below_their_own_directory() {
    let options = AddTorrentOptions { download_dir: Some("/own".to_string()), paused: true };
    assert_eq!(options.apply(magnet(1, "a")).download_dir.as_deref(), Some("/own"));
    let options = AddTorrentOptions { download_dir: None, paused: true };
    assert_eq!(options.apply(magnet(1, "a")).download_dir, None);
}

#[test]
fn distinct_same_name_magnets_cannot_share_placeholder_paths() {
    let mut runtime = daemon();
    take_in(&mut runtime, magnet(1, "shared.bin"), true);
    let clash = Err(CoreError::Storage("paths collide".to_string()));
    assert!(matches!(
        runtime.add_torrent_mutation(magnet(2, "shared.bin"), true, Ok(()), clash),
        Err(CoreError::Storage(_))
    ));
    assert_eq!(runtime.fleet.registry.len(), 1);
}

#[test]
fn state_save_failure_rolls_back_torrent_registration() {
    let mut runtime = daemon();
    let ticket = take_in(
        &mut runtime,
        Torrent::new(meta("registration-rollback.bin", b"registration rollback payload", 8), 1),
        true,
    );
    let mut effects = Vec::new();
    let failure = Err(CoreError::Storage("state was not saved".to_string()));
    assert!(runtime.finish_add(ticket, failure, 40, &mut effects).is_err());
    assert!(effects.is_empty());
    assert!(runtime.fleet.registry.is_empty());
    assert!(runtime.fleet.queue.order.is_empty());
}

#[test]
fn shared_add_persistence_failure_restores_exact_state_and_has_no_side_effects() {
    let mut runtime = daemon();
    let added = Torrent::new(meta("watch-rollback.bin", b"generated watch rollback payload", 8), 1);
    let hash = added.info_hash();
    let first = InfoHash::from_bytes(&[0x11; 20]);
    let last = InfoHash::from_bytes(&[0x22; 20]);
    runtime.fleet.queue.add_many(&vec![first, hash, last]);
    runtime.fleet.queue.start_now(&hash);
    let (order, bypass) =
        (runtime.fleet.queue.order.clone(), runtime.fleet.queue.bypass.clone());
    let ticket = take_in(&mut runtime, added, false);
    let mut effects = Vec::new();
    let failure = Err(CoreError::Storage("state was not saved".to_string()));
    let outcome = runtime.finish_add(ticket, failure, 40, &mut effects);
    assert!(outcome.is_err());
    assert!(effects.is_empty());
    assert!(runtime.fleet.registry.is_empty());
    assert_eq!(runtime.fleet.queue.order, order);
    assert_eq!(runtime.fleet.queue.bypass, bypass);
    assert!(!runtime.queue_reconcile.scheduled);
    assert!(runtime.peer_permit_pools_for_test(&hash).is_none());
    let attempt = judge_watch_attempt(Some(hash), &outcome);
    assert_eq!(attempt.outcome, ImportOutcome::TransientFailure);
    assert_eq!(attempt.action, None);
    let shown = import_result("/w/rollback.torrent".to_string(), &attempt, None, None);
    assert_eq!(watch_event_name(&shown), "watch_folder_failed");
    assert_eq!(shown.outcome.as_str(), "transient_failure");
}

#[test]
fn api_add_uses_shared_injected_rollback_without_event_or_schedule() {
    let mut runtime = daemon();
    let added = Torrent::new(meta("api-shared-rollback.bin", b"generated api rollback payload", 8), 1);
    let hash = added.info_hash();
    let order = runtime.fleet.queue.order.clone();
    let ticket = take_in(&mut runtime, added, false);
    let mut effects = Vec::new();
    let failure = Err(CoreError::Storage("state was not saved".to_string()));
    assert!(matches!(
        runtime.finish_add(ticket, failure, 40, &mut effects),
        Err(CoreError::Storage(_))
    ));
    assert!(effects.is_empty());
    assert!(!runtime.fleet.registry.contains(&hash));
    assert_eq!(runtime.fleet.queue.order, order);
    assert!(!runtime.queue_reconcile.scheduled);
}

#[test]
fn reset_downloads_clears_storage_roots_registry_and_logs() {
    let mut cfg = config();
    cfg.storage.download_dir = Some("/downloads".to_string());
    cfg.storage.incomplete_dir = Some("/incomplete".to_string());
    let mut runtime = daemon_with(cfg, disabled_health());
    let hash = enter(&mut runtime, Torrent::new(meta("reset.bin", b"0123456789abcdef", 8), 1));
    runtime.fleet.queue.add(hash);
    runtime.fleet.retry_after.insert(hash, Tick { nanos: NOW.nanos + 60 * SECOND });
    let plan = reset_plan(&runtime.fleet.registry, &runtime.config, "/f");
    assert!(plan.storage_paths.contains(&"/downloads".to_string()));
    assert!(plan.storage_paths.contains(&"/incomplete".to_string()));
    let mut effects = Vec::new();
    assert_eq!(runtime.reset_downloads(&mut effects), vec![hash]);
    assert!(runtime.fleet.registry.is_empty());
    assert!(runtime.fleet.queue.order.is_empty());
    assert!(runtime.fleet.retry_after.is_empty());
}

#[test]
fn a_reset_ends_every_task() {
    let mut runtime = daemon();
    let hash = enter(&mut runtime, Torrent::new(meta("reset.bin", b"0123456789abcdef", 8), 1));
    run(&mut runtime, hash);
    let upload = seeding(&mut runtime, "reset-seed.bin");
    let mut effects = Vec::new();
    let ended = runtime.reset_downloads(&mut effects);
    assert!(ended.len() == 2 && ended.contains(&hash) && ended.contains(&upload));
    assert!(effects.contains(&Effect::StopEngine { hash, force: true }));
    assert!(effects.contains(&Effect::StopSeeder { hash: upload, force: true }));
    assert!(effects.contains(&Effect::StopListener { force: true }));
    assert!(runtime.engine_handles_empty() && runtime.seeder_registries_empty());
    assert!(runtime.fleet.registry.is_empty());
    assert!(runtime.permits.per_torrent.is_empty());
    assert!(runtime.autopilot_last_action.is_empty());
}

#[test]
fn storage_preflight_rejects_torrent_file_add_before_registration() {
    let mut cfg = config();
    cfg.storage.download_dir = Some("/storage-preflight".to_string());
    cfg.storage.minimum_free_space_bytes = u64::MAX;
    let mut runtime = daemon_with(cfg, disabled_health());
    let added = Torrent::new(meta("too-large.bin", b"0123456789abcdef", 8), 1);
    let space = match runtime.fleet.plan_add(&added, &runtime.config, "/f") {
        AddStep::Check { dirs, content_bytes } => {
            assert_eq!(dirs, vec!["/storage-preflight"]);
            assert_eq!(content_bytes, 16);
            Err(CoreError::Storage("free space is below the minimum".to_string()))
        }
        AddStep::Duplicate => panic!("not known yet"),
    };
    let refused = runtime.add_torrent_mutation(added, false, space, Ok(()));
    assert!(matches!(refused, Err(CoreError::Storage(_))));
    assert!(runtime.fleet.registry.is_empty());
    assert!(runtime.fleet.queue.order.is_empty());
}

#[test]
fn torrent_add_rejects_cross_torrent_storage_path_collision() {
    let mut cfg = config();
    cfg.storage.download_dir = Some("/path-collision".to_string());
    let mut runtime = daemon_with(cfg, disabled_health());
    let first = Torrent::new(meta("shared-name.bin", b"first lawful payload", 8), 1);
    let second = Torrent::new(meta("shared-name.bin", b"different lawful payload", 8), 2);
    take_in(&mut runtime, first, true);

    let claims =
        storage_claims(&runtime.fleet.registry, &runtime.config, "/f", Some(second.info_hash()));
    assert_eq!(claims.len(), 1);
    assert_eq!(claims[0].root, "/path-collision");
    let clash = CoreError::Storage("paths collide".to_string());
    let paths = ensure_storage_paths_available_except(&vec![None], &vec![vec![Some(clash)]]);
    let error = runtime.add_torrent_mutation(second, true, Ok(()), paths).unwrap_err();
    assert!(matches!(error, CoreError::Storage(_)));
    assert_eq!(runtime.fleet.registry.len(), 1);
}

#[test]
fn a_known_torrent_is_not_added_again() {
    let mut runtime = daemon();
    take_in(&mut runtime, magnet(5, "once"), false);
    assert!(matches!(
        runtime.fleet.plan_add(&magnet(5, "twice"), &runtime.config, "/f"),
        AddStep::Duplicate
    ));
}

#[test]
fn paused_add_is_queued_without_reconcile_start() {
    let mut runtime = daemon();
    let hash = take_in(
        &mut runtime,
        Torrent::new(meta("paused-add.bin", b"paused add payload", 4), 1),
        true,
    )
    .hash;
    let summary = runtime.fleet.get_torrent(&hash, NO_LIMITS).unwrap();
    assert_eq!(summary.state, TorrentState::Paused);
    assert_eq!(summary.queue_position, Some(1));
    assert!(desired(&mut runtime).is_empty());
    assert!(runtime.engine_handles_empty());
    assert!(!runtime.queue_reconcile.scheduled);
}

#[test]
fn add_operations_mark_existing_queue_reconcile_dirty() {
    let mut runtime = daemon();
    runtime.queue_reconcile.scheduled = true;
    let link = MagnetLink {
        info_hash: InfoHash::from_bytes(&[
            0xdd, 0x82, 0x55, 0xec, 0xdc, 0x7c, 0xa5, 0x5f, 0xb0, 0xbb, 0xf8, 0x13, 0x23, 0xd8,
            0x70, 0x62, 0xba, 0x1f, 0x7a, 0x4e,
        ]),
        display_name: Some("bulk-one".to_string()),
        trackers: Vec::new(),
    };
    let first = take_in(&mut runtime, magnet_torrent(link), false).hash;
    assert_eq!(first.to_hex(), "dd8255ecdc7ca55fb0bbf81323d87062ba1f7a4e");
    assert!(runtime.fleet.registry.contains(&first));
    assert!(!runtime.queue_reconcile.schedule_reconcile_queue());
    assert_eq!(runtime.fleet.queue.position(&first), Some(1));
    assert!(runtime.engine_handles_empty());
    assert!(runtime.queue_reconcile.scheduled);
    assert!(runtime.queue_reconcile.dirty);
    runtime.queue_reconcile.dirty = false;
    let second = take_in(
        &mut runtime,
        Torrent::new(meta("bulk-two.bin", b"bulk torrent file payload", 4), 1),
        false,
    )
    .hash;
    assert!(runtime.fleet.registry.contains(&second));
    assert!(!runtime.queue_reconcile.schedule_reconcile_queue());
    assert_eq!(runtime.fleet.queue.position(&second), Some(2));
    assert!(runtime.engine_handles_empty());
    assert!(runtime.queue_reconcile.scheduled);
    assert!(runtime.queue_reconcile.dirty);
}

#[test]
fn queue_reconcile_scheduler_clears_after_rapid_adds() {
    let mut cfg = config();
    cfg.queue.auto_start = false;
    let mut runtime = daemon_with(cfg, disabled_health());
    let first = take_in(&mut runtime, magnet(10, "schedule-one"), false).hash;
    assert!(runtime.queue_reconcile.schedule_reconcile_queue());
    assert!(runtime.queue_reconcile.scheduled);
    assert!(!runtime.queue_reconcile.dirty);
    for index in 1..3u128 {
        take_in(&mut runtime, magnet(index + 10, &format!("schedule-{index}")), false);
        assert!(!runtime.queue_reconcile.schedule_reconcile_queue());
    }
    assert!(runtime.queue_reconcile.scheduled);
    assert!(runtime.queue_reconcile.dirty);
    let mut runs = 0;
    loop {
        runtime.queue_reconcile.begin_run();
        runs += 1;
        if !runtime.queue_reconcile.end_run() {
            break;
        }
    }
    assert_eq!(runs, 1);
    assert!(!runtime.queue_reconcile.scheduled);
    assert!(!runtime.queue_reconcile.dirty);
    assert_eq!(runtime.fleet.registry.len(), 3);
    assert_eq!(runtime.fleet.queue.order.len(), 3);
    assert_eq!(runtime.fleet.queue.position(&first), Some(1));
    assert!(runtime.engine_handles_empty());
}

#[test]
fn a_request_during_a_run_is_followed_by_another_run() {
    let mut runtime = daemon();
    assert!(runtime.queue_reconcile.schedule_reconcile_queue());
    runtime.queue_reconcile.begin_run();
    assert!(!runtime.queue_reconcile.schedule_reconcile_queue());
    assert!(runtime.queue_reconcile.end_run());
    runtime.queue_reconcile.begin_run();
    assert!(!runtime.queue_reconcile.end_run());
    assert!(runtime.queue_reconcile.schedule_reconcile_queue());
}

#[test]
fn rapid_adds_queue_without_waiting_for_reconcile() {
    let mut runtime = daemon();
    runtime.queue_reconcile.scheduled = true;
    for index in 0..200usize {
        let hash = take_in(&mut runtime, magnet(index as u128 + 1, &format!("rapid-{index}")), false).hash;
        runtime.queue_reconcile.schedule_reconcile_queue();
        assert_eq!(runtime.fleet.queue.position(&hash), Some(index + 1));
    }
    assert_eq!(runtime.fleet.registry.len(), 200);
    assert_eq!(runtime.fleet.queue.order.len(), 200);
    assert!(runtime.engine_handles_empty());
    assert!(runtime.queue_reconcile.scheduled);
    assert!(runtime.queue_reconcile.dirty);
}

#[test]
fn bulk_remove_clears_many_torrents_and_queue_entries() {
    let mut runtime = daemon();
    let mut hashes: Vec<InfoHash> = (0..98u128)
        .map(|index| {
            take_in(&mut runtime, magnet(index + 1, &format!("remove-{index}")), false).hash
        })
        .collect();
    hashes.push(InfoHash::from_bytes(&[0xff; 20]));
    let mut effects = Vec::new();
    let targets = runtime.begin_removal(&hashes, &mut effects);
    runtime.forget_torrents(&targets);
    tell_removed(&targets, false, &mut effects);
    assert_eq!(targets.len(), 98);
    let removed =
        event_kinds(&effects).into_iter().filter(|kind| *kind == "torrent_removed").count();
    assert_eq!(removed, 98);
    assert!(runtime.fleet.registry.is_empty());
    assert!(runtime.fleet.queue.order.is_empty());
    assert!(runtime.engine_handles_empty());
}

#[test]
fn bulk_remove_clears_ten_thousand_torrents_and_runtime_indexes() {
    let mut runtime = daemon();
    let hashes: Vec<InfoHash> = (0..10_000).map(scale_hash).collect();
    for (index, hash) in hashes.iter().enumerate() {
        let mut managed = Torrent::new(
            meta("managed placeholder", b"managed placeholder payload", 8),
            index as u64 + 1,
        );
        managed.magnet_info_hash = Some(*hash);
        enter(&mut runtime, managed);
    }
    runtime.fleet.queue.add_many(&hashes);
    runtime.fleet.rate_samples.insert(hashes[0], sample_since(NOW));
    runtime.fleet.retry_after.insert(hashes[1], Tick { nanos: NOW.nanos + 60 * SECOND });
    note_autopilot_action(&mut runtime.autopilot_last_action, hashes[2], NOW);
    let cfg = runtime.config.clone();
    runtime.permits.ensure_torrent_peer_permit_pool(hashes[3], &cfg, BUILT_IN_PEER_LIMIT, 7);
    let mut effects = Vec::new();
    let targets = runtime.begin_removal(&hashes, &mut effects);
    runtime.forget_torrents(&targets);
    assert!(runtime.autopilot_last_action.is_empty());
    assert!(runtime.permits.per_torrent.is_empty());
    assert_eq!(targets.len(), 10_000);
    assert!(runtime.fleet.registry.is_empty());
    assert!(runtime.fleet.queue.order.is_empty());
    assert!(runtime.fleet.queue.bypass.is_empty());
    assert!(runtime.fleet.rate_samples.is_empty());
    assert!(runtime.fleet.retry_after.is_empty());
    assert!(runtime.engine_handles_empty());
}

#[test]
fn runtime_config_sweeps_existing_completed_torrents_when_selfish() {
    let mut cfg = config();
    cfg.torrent.selfish = true;
    let mut runtime = daemon_with(cfg, disabled_health());
    let mut done = finished_torrent("selfish-sweep.bin", b"already complete payload", "/d");
    done.state = TorrentState::Completed;
    done.date_completed = Some(2);
    let hash = enter(&mut runtime, done);
    runtime.fleet.queue.add(hash);
    runtime.fleet.rate_samples.insert(hash, sample_since(NOW));
    let mut effects = Vec::new();
    runtime.apply_runtime_config_fields(true, &mut effects);
    assert!(effects.iter().any(|effect| matches!(effect, Effect::SweepCompleted)));
    let finished = runtime.sweep_selfish_completed_torrents();
    assert_eq!(finished, vec![hash]);
    let targets = runtime.begin_removal(&finished, &mut effects);
    runtime.forget_torrents(&targets);
    assert!(runtime.fleet.registry.get(&hash).is_none());
    assert_eq!(runtime.fleet.queue.position(&hash), None);
    assert!(!runtime.fleet.engines.contains(&hash));
    assert!(!runtime.fleet.rate_samples.contains(&hash));
}

#[test]
fn finished_torrents_are_kept_unless_the_daemon_is_selfish() {
    let mut runtime = daemon();
    let mut done = finished_torrent("kept.bin", b"already complete payload", "/d");
    done.state = TorrentState::Completed;
    let hash = enter(&mut runtime, done);
    runtime.fleet.queue.add(hash);
    assert!(runtime.sweep_selfish_completed_torrents().is_empty());
    let mut effects = Vec::new();
    runtime.selfish_remove_completed(hash, &mut effects);
    assert!(runtime.fleet.registry.is_empty());
    assert!(runtime.fleet.queue.order.is_empty());
    assert_eq!(event_kinds(&effects), vec!["torrent_removed", "stats_updated"]);
}

// What engines report.

#[test]
fn reconcile_publishes_completion_events() {
    let mut runtime = daemon_with(config(), open_health());
    let mut started = Torrent::new(meta("event-complete.bin", b"event complete payload", 8), 1);
    started.state = TorrentState::Downloading;
    let pieces = started.meta.piece_count;
    let total = started.meta.total_length;
    let hash = enter(&mut runtime, started);
    let state = EngineState {
        piece_count: pieces,
        total_length: total,
        downloaded: total,
        pieces_have: vec![true; pieces],
        finished: true,
        ..EngineState::default()
    };
    let effects = reconcile(&mut runtime, vec![report(hash, state)], true);
    let kinds = event_kinds(&effects);
    assert!(kinds.contains(&"torrent_changed"));
    assert!(kinds.contains(&"torrent_completed"));
    assert!(kinds.contains(&"stats_updated"));
    let told = settle_uploads(&mut runtime, &[(hash, SeedDecision::Continue)]);
    assert!(told_change(&told, hash, TorrentState::Seeding));
    assert_eq!(runtime.fleet.get_torrent(&hash, NO_LIMITS).unwrap().state, TorrentState::Seeding);
    assert!(runtime.fleet.seeders.contains(&hash));
}

#[test]
fn reconcile_updates_transfer_rates_and_global_stats() {
    let mut runtime = daemon();
    let known = Torrent::new(meta("rates.bin", b"0123456789abcdef", 8), 1);
    let pieces = known.meta.piece_count;
    let hash = enter(&mut runtime, known);
    runtime.fleet.rate_samples.insert(
        hash,
        RateSample {
            downloaded: 1_000,
            uploaded: 200,
            rate_down: 100,
            rate_up: 100,
            no_download_since: None,
            ..sample_since(ago(2))
        },
    );
    let state = EngineState {
        piece_count: pieces,
        total_length: 16,
        downloaded: 5_000,
        uploaded: 1_200,
        ..EngineState::default()
    };
    let reports =
        vec![EngineReport { hash, state, fresh: FreshRates { down: 2_000, up: 500 } }];
    reconcile(&mut runtime, reports, true);
    let summary = runtime.fleet.get_torrent(&hash, NO_LIMITS).unwrap();
    assert_eq!(summary.rate_down, 765);
    assert_eq!(summary.rate_up, 240);
    assert_eq!(summary.downloaded, 5_000);
    assert_eq!(summary.uploaded, 1_200);
    let sample = runtime.fleet.rate_samples.get(&hash).unwrap();
    assert!(sample.peak_rate_down >= summary.rate_down);
    assert!(sample.peak_rate_up >= summary.rate_up);
    assert!(sample.peak_rate_down > summary.rate_down);

    let wanted = desired(&mut runtime);
    let scheduler = runtime.fleet.scheduler_diagnostics(
        &wanted,
        &runtime.config,
        BUILT_IN_PEER_LIMIT,
        no_permits(),
        NOW,
    );
    let stats = runtime.fleet.global_stats(scheduler);
    assert_eq!(stats.download_rate, summary.rate_down);
    assert_eq!(stats.upload_rate, summary.rate_up);
    assert_eq!(stats.total_downloaded, 5_000);
    assert_eq!(stats.total_uploaded, 1_200);
}

#[test]
fn reconcile_applies_resolved_magnet_metadata_while_engine_runs() {
    let mut runtime = daemon();
    let real = meta("resolved-magnet.bin", b"resolved magnet payload", 8);
    let hash = real.info_hash;
    enter(&mut runtime, placeholder(hash, TorrentState::DownloadingMetadata, 1));
    run(&mut runtime, hash);
    let mut have = vec![false; real.piece_count];
    have[0] = true;
    let state = EngineState {
        pieces_have: have,
        piece_count: real.piece_count,
        total_length: real.total_length,
        resolved_meta: Some(real.clone()),
        ..EngineState::default()
    };
    reconcile(&mut runtime, vec![report(hash, state)], true);
    let summary = runtime.fleet.get_torrent(&hash, NO_LIMITS).unwrap();
    assert_eq!(summary.state, TorrentState::Downloading);
    assert_eq!(summary.name, "resolved-magnet.bin");
    assert_eq!(summary.total_length, real.total_length);
    assert_eq!(summary.piece_count, real.piece_count);
    assert_eq!(summary.pieces_have, 1);
    assert!(summary.bytes_completed <= summary.total_length);
    let resolved = torrent(&runtime, &hash);
    assert!(!resolved.needs_metadata);
    assert_eq!(resolved.progress.have.len(), real.piece_count);
    assert_eq!(resolved.files[0].path, "resolved-magnet.bin");
}

/// 95c6c298c84fee2eee10c044d673537da158f0f8
fn unresolved_magnet_hash() -> InfoHash {
    InfoHash::from_bytes(&[
        0x95, 0xc6, 0xc2, 0x98, 0xc8, 0x4f, 0xee, 0x2e, 0xee, 0x10, 0xc0, 0x44, 0xd6, 0x73, 0x53,
        0x7d, 0xa1, 0x58, 0xf0, 0xf8,
    ])
}

#[test]
fn reconcile_keeps_unresolved_magnet_in_metadata_state() {
    let mut runtime = daemon();
    let hash = unresolved_magnet_hash();
    enter(&mut runtime, placeholder(hash, TorrentState::Queued, 1));
    run(&mut runtime, hash);
    let state = EngineState {
        tracker_message: Some("fetching metadata via BEP 9".to_string()),
        ..EngineState::default()
    };
    reconcile(&mut runtime, vec![report(hash, state)], true);
    let summary = runtime.fleet.get_torrent(&hash, NO_LIMITS).unwrap();
    assert_eq!(summary.state, TorrentState::DownloadingMetadata);
    assert_eq!(summary.total_length, "placeholder".len() as u64);
}

#[test]
fn retryable_magnet_metadata_no_peers_stays_queued_after_progress_reconcile() {
    let mut runtime = daemon();
    let hash = unresolved_magnet_hash();
    enter(&mut runtime, placeholder(hash, TorrentState::DownloadingMetadata, 1));
    runtime.fleet.queue.add(hash);
    let message = "magnet metadata fetch failed after discovery retries: internal error: magnet metadata fetch: no peers discovered";
    let mut effects = Vec::new();
    let retry = runtime.fleet.handle_engine_task_error(
        hash,
        true,
        &CoreError::Internal(message.to_string()),
        &format!("internal error: {message}"),
        NOW,
        &mut effects,
    );
    assert!(retry);
    assert_eq!(torrent(&runtime, &hash).state, TorrentState::Queued);
    assert_eq!(torrent(&runtime, &hash).error, Some(Notice::MetadataNoPeers));
    assert!(runtime.fleet.retry_after.get(&hash).unwrap().nanos > NOW.nanos);
    assert!(desired(&mut runtime).is_empty());
    let state = EngineState { piece_count: 2, total_length: 11, ..EngineState::default() };
    reconcile(&mut runtime, vec![report(hash, state)], true);
    assert_eq!(torrent(&runtime, &hash).state, TorrentState::Queued);
}

#[test]
fn other_engine_errors_fail_the_torrent() {
    let mut runtime = daemon();
    let mut started = Torrent::new(meta("failing.bin", b"failing payload", 8), 1);
    started.state = TorrentState::Downloading;
    let hash = enter(&mut runtime, started);
    let mut effects = Vec::new();
    let retry = runtime.fleet.handle_engine_task_error(
        hash,
        false,
        &CoreError::Storage("disk full".to_string()),
        &"storage error: disk full".to_string(),
        NOW,
        &mut effects,
    );
    assert!(!retry);
    assert!(torrent(&runtime, &hash).state.is_error());
    assert_eq!(
        notice_text(torrent(&runtime, &hash)).as_deref(),
        Some("storage error: disk full")
    );
}

#[test]
fn unfinished_engine_exit_requeues_and_releases_active_slot() {
    let mut cfg = config();
    cfg.queue.max_active_downloads = 1;
    let mut runtime = daemon_with(cfg, disabled_health());
    let mut first = Torrent::new(meta("unfinished-first.bin", b"unfinished first payload", 8), 1);
    first.state = TorrentState::Downloading;
    let first = enter(&mut runtime, first);
    let second = enter(
        &mut runtime,
        Torrent::new(meta("unfinished-second.bin", b"unfinished second payload", 8), 2),
    );
    runtime.fleet.queue.add(first);
    runtime.fleet.queue.add(second);
    assert!(runtime.fleet.queue_torrent_for_retry(first, Notice::EngineIncomplete, NOW, 60));
    assert_eq!(torrent(&runtime, &first).state, TorrentState::Queued);
    assert_eq!(
        notice_text(torrent(&runtime, &first)).as_deref(),
        Some("engine stopped before completion; queued for retry")
    );
    assert_eq!(runtime.fleet.queue.position(&second), Some(1));
    assert_eq!(runtime.fleet.queue.position(&first), Some(2));
    assert!(runtime.fleet.retry_after.get(&first).unwrap().nanos > NOW.nanos);
    assert_eq!(desired(&mut runtime), vec![second]);
}

#[test]
fn engine_task_finished_clears_restart_blocking_runtime_bookkeeping() {
    let mut runtime = daemon();
    let hash = unresolved_magnet_hash();
    run(&mut runtime, hash);
    let sample = RateSample {
        downloaded: 1,
        uploaded: 1,
        rate_down: 1,
        rate_up: 1,
        last_download_at: Some(NOW),
        last_upload_at: Some(NOW),
        no_download_since: None,
        at: NOW,
        peak_rate_down: 1,
        peak_rate_up: 1,
    };
    runtime.fleet.rate_samples.insert(hash, sample);
    let mut effects = Vec::new();
    let end = EngineEnd::Ended(EngineState::default());
    runtime.engine_task_finished(hash, false, end, 7, NOW, &mut effects);
    assert!(!runtime.fleet.engines.contains(&hash));
    assert!(runtime.fleet.rate_samples.contains(&hash));
}

fn begin(runtime: &mut DaemonRuntime, hash: InfoHash) -> EngineStart {
    let mut effects = Vec::new();
    match runtime.start_engine_while_transition_locked(hash, &mut effects) {
        StartStep::Check(start) => start,
        other => panic!("unexpected: {other:?}"),
    }
}

#[test]
fn concurrent_engine_starts_create_one_owned_task() {
    let mut runtime = daemon();
    let added = Torrent::new(meta("single-engine.bin", b"single owned engine", 8), 1);
    let hash = take_in(&mut runtime, added, true).hash;
    change(&mut runtime, &hash, |torrent| torrent.state = TorrentState::Queued);

    let start = begin(&mut runtime, hash);
    assert_eq!(start.hash, hash);
    assert_eq!(start.max_peer_workers, BUILT_IN_PEER_LIMIT);
    assert_eq!(start.complete_dir, "/var/lib/swarmotter");
    assert_eq!(start.check_dirs, vec!["/var/lib/swarmotter"]);
    let mut effects = Vec::new();
    assert!(runtime.launch_engine(&start, &vec![None], &None, &mut effects));
    assert!(matches!(
        runtime.start_engine_while_transition_locked(hash, &mut effects),
        StartStep::Running
    ));
    assert_eq!(runtime.fleet.engines.len(), 1);
    assert!(runtime.engine_running_for_test(&hash));
    assert_eq!(torrent(&runtime, &hash).state, TorrentState::Downloading);
    runtime.fleet.stop_work(&hash, true, &mut effects);
    assert!(runtime.engine_handles_empty());
}

#[test]
fn nothing_starts_behind_a_closed_path() {
    let mut runtime = daemon_with(config(), open_health());
    let hash = two_files(&mut runtime);
    let mut effects = Vec::new();
    assert!(matches!(
        runtime.start_engine_while_transition_locked(scale_hash(3), &mut effects),
        StartStep::Unknown
    ));
    runtime.network_health = NetworkHealth {
        mode: NetworkContainmentMode::Strict,
        status: NetworkContainmentStatus::InterfaceDown,
        traffic_allowed: false,
        detail: "tun0 is down".to_string(),
    };
    assert!(matches!(
        runtime.start_engine_while_transition_locked(hash, &mut effects),
        StartStep::Blocked
    ));
    assert_eq!(torrent(&runtime, &hash).state, TorrentState::NetworkBlocked);
    assert_eq!(notice_text(torrent(&runtime, &hash)).as_deref(), Some("tun0 is down"));
    assert!(runtime.engine_handles_empty());
}

#[test]
fn the_first_refusal_keeps_an_engine_from_starting() {
    let mut runtime = daemon_with(config(), open_health());
    let hash = enter(&mut runtime, Torrent::new(meta("full.bin", b"full payload", 8), 1));
    let start = begin(&mut runtime, hash);
    let mut effects = Vec::new();
    let verdicts = vec![None, Some("disk full".to_string()), Some("later".to_string())];
    assert!(!runtime.launch_engine(&start, &verdicts, &None, &mut effects));
    assert_eq!(torrent(&runtime, &hash).state, TorrentState::StorageError);
    assert_eq!(notice_text(torrent(&runtime, &hash)).as_deref(), Some("disk full"));
    assert_eq!(event_kinds(&effects), vec!["torrent_error", "stats_updated"]);
    let mut effects = Vec::new();
    let layout = Some("bad layout".to_string());
    assert!(!runtime.launch_engine(&start, &vec![None], &layout, &mut effects));
    assert_eq!(event_kinds(&effects), vec!["torrent_changed", "stats_updated"]);
    assert!(runtime.engine_handles_empty());
}

#[test]
fn a_cancelled_task_leaves_a_note_and_room() {
    let mut runtime = daemon_with(config(), open_health());
    let mut started = Torrent::new(meta("cancelled.bin", b"cancelled payload", 8), 1);
    started.state = TorrentState::Downloading;
    let hash = enter(&mut runtime, started);
    run(&mut runtime, hash);
    let mut effects = Vec::new();
    runtime.engine_task_finished(hash, false, EngineEnd::Cancelled, 7, NOW, &mut effects);
    assert!(runtime.engine_handles_empty());
    assert_eq!(
        torrent(&runtime, &hash).containment_recovery_intent,
        Some(ContainmentRecoveryIntent::Downloading)
    );
}

#[test]
fn fast_candidate_completion_cannot_selfish_remove_before_failed_persistence() {
    let mut cfg = config();
    cfg.queue.auto_start = false;
    cfg.bandwidth.max_peers = 3;
    let mut runtime = daemon_with(cfg, open_health());
    let waiting = Torrent::new(
        meta("fast-candidate.bin", b"generated fast completion rollback payload", 8),
        1,
    );
    let pieces = waiting.meta.piece_count;
    let hash = enter(&mut runtime, waiting);
    runtime.fleet.queue.add(hash);
    assert!(desired(&mut runtime).is_empty());
    let mut next = runtime.config.clone();
    next.bandwidth.max_peers = 1;
    next.queue.auto_start = true;
    next.torrent.selfish = true;
    let change = begin_change(&mut runtime, next, true);
    let mut effects = Vec::new();
    let change = match runtime.apply_peer_budget_runtime_update(change, true, &mut effects) {
        ChangeStep::SetUp(change) => change,
        other => panic!("unexpected: {other:?}"),
    };
    assert_eq!(change.rebuild, Rebuild::Eligible);
    let wanted = desired(&mut runtime);
    assert_eq!(wanted, vec![hash]);
    let start = begin(&mut runtime, hash);
    assert!(runtime.launch_engine(&start, &vec![None], &None, &mut effects));
    runtime.verify_peer_budget_change(&change, &wanted, &Vec::new()).unwrap();
    let change = match runtime.apply_peer_budget_runtime_update(change, true, &mut effects) {
        ChangeStep::Check(change) => change,
        other => panic!("unexpected: {other:?}"),
    };
    let change = match runtime.apply_peer_budget_runtime_update(change, true, &mut effects) {
        ChangeStep::Write(change) => change,
        other => panic!("unexpected: {other:?}"),
    };

    let finished = EngineState {
        piece_count: pieces,
        pieces_have: vec![true; pieces],
        finished: true,
        ..EngineState::default()
    };
    let end = EngineEnd::Ended(finished);
    runtime.engine_task_finished(hash, false, end, 7, NOW, &mut effects);
    assert!(torrent(&runtime, &hash).progress.is_complete());
    assert!(!effects.iter().any(|effect| matches!(effect, Effect::RemoveCompleted { .. })));
    assert!(runtime.fleet.registry.contains(&hash));
    assert!(!runtime.selfish_completion_enabled);

    match runtime.apply_peer_budget_runtime_update(change, false, &mut effects) {
        ChangeStep::SetBack(live) => {
            assert!(live.downloads.is_empty());
            assert!(live.seeders.is_empty());
        }
        other => panic!("unexpected: {other:?}"),
    }
    assert!(runtime.fleet.registry.contains(&hash));
    assert!(!runtime.config.torrent.selfish);
    assert!(!runtime.selfish_completion_enabled);
    assert_eq!(torrent(&runtime, &hash).state, TorrentState::Queued);
}

#[test]
fn health_input_uses_recent_peer_block_activity() {
    let mut known = Torrent::new(meta("health.bin", b"0123456789abcdef", 8), 1);
    known.state = TorrentState::Downloading;
    let engine = EngineState {
        piece_count: known.meta.piece_count,
        pieces_have: vec![false; known.meta.piece_count],
        peer_health: vec![EnginePeerHealth {
            has_missing_pieces: true,
            unchoked: true,
            useful_recently: true,
            last_valid_block: Some(NOW),
            last_seen: Some(NOW),
            ..EnginePeerHealth::default()
        }],
        tracker_ok: true,
        known_peers: 1,
        block_last_seen: Some(NOW),
        ..EngineState::default()
    };
    let input = build_health_input(&known, &engine, 0, 0, &disabled_health(), NOW);
    assert!(input.received_block_recently);
    let quiet = EngineState { block_last_seen: None, peer_health: Vec::new(), ..engine };
    let input = build_health_input(&known, &quiet, 0, 0, &disabled_health(), NOW);
    assert!(!input.received_block_recently);
}

// Which torrents get to download.

#[test]
fn stale_active_without_engine_is_requeued_and_releases_active_slot() {
    let mut cfg = config();
    cfg.queue.max_active_downloads = 1;
    let mut runtime = daemon_with(cfg, disabled_health());
    let mut stale = Torrent::new(meta("stale-active.bin", b"stale active payload", 8), 1);
    stale.state = TorrentState::Downloading;
    let stale = enter(&mut runtime, stale);
    let queued = enter(
        &mut runtime,
        Torrent::new(meta("queued-behind-stale.bin", b"queued behind stale payload", 8), 2),
    );
    runtime.fleet.queue.add(stale);
    runtime.fleet.queue.add(queued);
    assert_eq!(runtime.fleet.sweep_stale_active_torrents(), vec![stale]);
    assert_eq!(torrent(&runtime, &stale).state, TorrentState::Queued);
    assert_eq!(torrent(&runtime, &stale).error, Some(Notice::StaleActive));
    assert_eq!(runtime.fleet.queue.position(&queued), Some(1));
    assert_eq!(runtime.fleet.queue.position(&stale), Some(2));
    assert_eq!(desired(&mut runtime), vec![queued]);
}

fn downloading(runtime: &DaemonRuntime) -> usize {
    (0..runtime.fleet.registry.len())
        .filter(|position| {
            matches!(
                runtime.fleet.registry.value_at(*position).state,
                TorrentState::Downloading | TorrentState::DownloadingMetadata
            )
        })
        .count()
}

fn fifty_slots() -> Config {
    let mut cfg = config();
    cfg.queue.max_active_downloads = 50;
    cfg.queue.max_active_metadata_fetches = 50;
    cfg.queue.auto_start = true;
    cfg
}

#[test]
fn stale_metadata_progress_does_not_reactivate_large_queue_above_limit() {
    let mut runtime = daemon_with(fifty_slots(), disabled_health());
    let mut reports = Vec::new();
    for n in 1..=100u8 {
        let hash = InfoHash::from_bytes(&[n; 20]);
        enter(&mut runtime, placeholder(hash, TorrentState::DownloadingMetadata, n as u64));
        runtime.fleet.queue.add(hash);
        let state = EngineState { piece_count: 2, total_length: 11, ..EngineState::default() };
        reports.push(report(hash, state));
    }
    assert_eq!(runtime.fleet.sweep_stale_active_torrents().len(), 100);
    reconcile(&mut runtime, reports, true);
    assert_eq!(downloading(&runtime), 0);
    assert_eq!(desired(&mut runtime).len(), 50);
}

#[test]
fn ten_thousand_stale_metadata_records_recover_without_active_leak() {
    let mut runtime = daemon_with(fifty_slots(), disabled_health());
    let hashes: Vec<InfoHash> = (0..10_000).map(scale_hash).collect();
    for (index, hash) in hashes.iter().enumerate() {
        let stale = placeholder(*hash, TorrentState::DownloadingMetadata, index as u64 + 1);
        enter(&mut runtime, stale);
    }
    runtime.fleet.queue.add_many(&hashes);
    assert_eq!(runtime.fleet.sweep_stale_active_torrents().len(), 10_000);
    assert_eq!(downloading(&runtime), 0);
    assert_eq!(desired(&mut runtime).len(), 50);
    assert_eq!(runtime.fleet.queue.order.len(), 10_000);
}

#[test]
fn ten_thousand_metadata_retry_backoffs_leave_no_active_desired_slots() {
    let mut runtime = daemon_with(fifty_slots(), disabled_health());
    let hashes: Vec<InfoHash> = (0..10_000).map(scale_hash).collect();
    for (index, hash) in hashes.iter().enumerate() {
        enter(&mut runtime, placeholder(*hash, TorrentState::Queued, index as u64 + 1));
        runtime.fleet.retry_after.insert(*hash, Tick { nanos: NOW.nanos + 60 * SECOND });
    }
    runtime.fleet.queue.add_many(&hashes);
    assert!(desired(&mut runtime).is_empty());
    assert_eq!(runtime.fleet.queue.order.len(), 10_000);
}

#[test]
fn ignored_thousand_mixed_state_torrents_keep_scheduler_bounds() {
    const TOTAL: usize = 1_200;
    let groups: [(TorrentState, bool, usize); 15] = [
        (TorrentState::Downloading, false, 20),
        (TorrentState::DownloadingMetadata, true, 16),
        (TorrentState::Downloading, false, 40),
        (TorrentState::DownloadingMetadata, true, 44),
        (TorrentState::Queued, false, 260),
        (TorrentState::Queued, true, 220),
        (TorrentState::Queued, true, 150),
        (TorrentState::Completed, false, 120),
        (TorrentState::Paused, false, 100),
        (TorrentState::Seeding, false, 60),
        (TorrentState::Checking, false, 50),
        (TorrentState::Error, false, 40),
        (TorrentState::NetworkBlocked, false, 30),
        (TorrentState::StorageError, false, 25),
        (TorrentState::TrackerError, false, 25),
    ];
    assert_eq!(groups.iter().map(|group| group.2).sum::<usize>(), TOTAL);
    let mut cfg = config();
    cfg.queue.max_active_downloads = 32;
    cfg.queue.max_active_metadata_fetches = 24;
    cfg.queue.auto_start = true;
    let mut runtime = daemon_with(cfg, disabled_health());
    let mut hashes = Vec::new();
    for (state, needs_metadata, count) in groups {
        for _ in 0..count {
            let hash = scale_hash(hashes.len() as u32);
            let added = hashes.len() as u64 + 1;
            let mut mixed =
                Torrent::new(meta("mixed-state placeholder", b"placeholder payload", 8), added);
            mixed.state = state;
            mixed.magnet_info_hash = Some(hash);
            mixed.needs_metadata = needs_metadata;
            if state == TorrentState::Completed {
                mixed.date_completed = Some(added);
            }
            if state.is_error() || state == TorrentState::NetworkBlocked {
                mixed.error = Some(Notice::Text("mixed-state scale fixture error".to_string()));
            }
            enter(&mut runtime, mixed);
            hashes.push(hash);
        }
    }
    runtime.fleet.queue.add_many(&hashes);
    for hash in hashes.iter().take(36) {
        run(&mut runtime, *hash);
    }
    let backing_off: Vec<InfoHash> = hashes[600..750].to_vec();
    for hash in &backing_off {
        runtime.fleet.retry_after.insert(*hash, Tick { nanos: NOW.nanos + 60 * SECOND });
    }
    let in_state = |wanted: TorrentState| {
        (0..runtime.fleet.registry.len())
            .filter(|position| runtime.fleet.registry.value_at(*position).state == wanted)
            .count()
    };
    assert_eq!(runtime.fleet.registry.len(), TOTAL);
    assert_eq!(in_state(TorrentState::Queued), 260 + 220 + 150);
    assert_eq!(in_state(TorrentState::DownloadingMetadata), 16 + 44);
    assert_eq!(in_state(TorrentState::Downloading), 20 + 40);
    assert_eq!(in_state(TorrentState::Completed), 120);
    assert_eq!(in_state(TorrentState::Paused), 100);
    assert_eq!(in_state(TorrentState::Seeding), 60);
    assert_eq!(in_state(TorrentState::Checking), 50);
    assert_eq!(in_state(TorrentState::Error), 40);
    assert_eq!(in_state(TorrentState::NetworkBlocked), 30);
    assert_eq!(in_state(TorrentState::StorageError), 25);
    assert_eq!(in_state(TorrentState::TrackerError), 25);
    assert_eq!(runtime.fleet.sweep_stale_active_torrents().len(), 84);
    let wanted = desired(&mut runtime);
    assert_eq!(wanted.len(), 56);
    assert!(wanted.iter().all(|hash| !backing_off.contains(hash)));
    let fetches =
        wanted.iter().filter(|hash| torrent(&runtime, hash).needs_metadata).count();
    assert_eq!(fetches, 24);
    let scheduler = runtime.fleet.scheduler_diagnostics(
        &wanted,
        &runtime.config,
        BUILT_IN_PEER_LIMIT,
        no_permits(),
        NOW,
    );
    assert_eq!(scheduler.requested_downloads, 20 + 40 + 260);
    assert_eq!(scheduler.requested_metadata_fetches, 16 + 44 + 220);
    assert_eq!(scheduler.granted_downloads, 32);
    assert_eq!(scheduler.granted_metadata_fetches, 24);
    assert_eq!(scheduler.retry_backoff_torrents, 150);
    assert_eq!(scheduler.queued_torrents, 260 + 220 + 150 + 40 + 44);
    assert_eq!(scheduler.running_engines, 36);
    assert_eq!(scheduler.running_downloads, 20);
    assert_eq!(scheduler.running_metadata_fetches, 16);
    assert_eq!(scheduler.active_download_limit, 32);
    assert_eq!(scheduler.active_metadata_fetch_limit, 24);
    assert_eq!(runtime.fleet.active_download_hashes().len(), 36);
    assert_eq!(runtime.fleet.retry_after.len(), 150);
    assert!(scheduler.download_slots_saturated);
    assert!(scheduler.metadata_fetch_slots_saturated);
}

#[test]
fn metadata_fetch_limit_is_separate_from_download_slot_limit() {
    let mut cfg = config();
    cfg.queue.max_active_downloads = 2;
    cfg.queue.max_active_metadata_fetches = 3;
    cfg.queue.auto_start = true;
    let mut runtime = daemon_with(cfg, disabled_health());
    let mut metadata_hashes = Vec::new();
    let mut download_hashes = Vec::new();
    for n in 0..6u32 {
        let hash = scale_hash(n);
        enter(&mut runtime, placeholder(hash, TorrentState::Queued, n as u64 + 1));
        runtime.fleet.queue.add(hash);
        metadata_hashes.push(hash);
    }
    for n in 0..5u64 {
        let name = format!("resolved-download-{n}.bin");
        let payload = format!("resolved download payload {n}");
        let hash =
            enter(&mut runtime, Torrent::new(meta(&name, payload.as_bytes(), 8), n + 10));
        runtime.fleet.queue.add(hash);
        download_hashes.push(hash);
    }
    let wanted = desired(&mut runtime);
    assert_eq!(wanted.iter().filter(|hash| metadata_hashes.contains(hash)).count(), 3);
    assert_eq!(wanted.iter().filter(|hash| download_hashes.contains(hash)).count(), 2);
    assert_eq!(wanted.len(), 5);

    let scheduler = runtime.fleet.scheduler_diagnostics(
        &wanted,
        &runtime.config,
        BUILT_IN_PEER_LIMIT,
        no_permits(),
        NOW,
    );
    let stats = runtime.fleet.global_stats(scheduler);
    assert_eq!(stats.scheduler.requested_metadata_fetches, 6);
    assert_eq!(stats.scheduler.granted_metadata_fetches, 3);
    assert_eq!(stats.scheduler.requested_downloads, 5);
    assert_eq!(stats.scheduler.granted_downloads, 2);
    assert_eq!(stats.scheduler.active_metadata_fetch_limit, 3);
    assert_eq!(stats.scheduler.active_download_limit, 2);
    assert!(stats.scheduler.metadata_fetch_slots_saturated);
    assert!(stats.scheduler.download_slots_saturated);
}

#[test]
fn queued_torrent_with_stale_engine_handle_is_cleared_for_restart() {
    let mut cfg = config();
    cfg.queue.max_active_downloads = 1;
    let mut runtime = daemon_with(cfg, disabled_health());
    let hash = enter(
        &mut runtime,
        Torrent::new(meta("stale-queued-handle.bin", b"stale queued handle payload", 8), 1),
    );
    runtime.fleet.queue.add(hash);
    run(&mut runtime, hash);
    let mut effects = Vec::new();
    assert_eq!(runtime.fleet.sweep_inactive_engine_handles(&mut effects), vec![hash]);
    assert!(!runtime.fleet.engines.contains(&hash));
    assert!(effects
        .iter()
        .any(|effect| matches!(effect, Effect::StopEngine { force: true, .. })));
    assert_eq!(torrent(&runtime, &hash).state, TorrentState::Queued);
    assert_eq!(torrent(&runtime, &hash).error, Some(Notice::StaleEngine));
    assert_eq!(desired(&mut runtime), vec![hash]);
}

#[test]
fn reconcile_queue_force_clears_over_limit_active_engine() {
    let mut cfg = config();
    cfg.queue.max_active_downloads = 1;
    cfg.queue.auto_start = true;
    let mut runtime = daemon_with(cfg, disabled_health());
    let mut hashes = Vec::new();
    for (name, payload, added) in [
        ("active-slot-one.bin", b"active slot one payload", 1),
        ("active-slot-two.bin", b"active slot two payload", 2),
    ] {
        let mut active = Torrent::new(meta(name, payload, 8), added);
        active.state = TorrentState::Downloading;
        let hash = enter(&mut runtime, active);
        runtime.fleet.queue.add(hash);
        run(&mut runtime, hash);
        hashes.push(hash);
    }
    let limits = runtime.config.queue;
    let mut effects = Vec::new();
    let done = runtime.fleet.reconcile_queue(limits, NOW, 50, &mut effects);
    assert_eq!(done.preempted, vec![hashes[1]]);
    assert!(runtime.fleet.engines.contains(&hashes[0]));
    assert!(!runtime.fleet.engines.contains(&hashes[1]));
    assert_eq!(torrent(&runtime, &hashes[0]).state, TorrentState::Downloading);
    assert_eq!(torrent(&runtime, &hashes[1]).state, TorrentState::Queued);
    assert_eq!(runtime.fleet.active_download_hashes(), vec![hashes[0]]);
}

fn large_queue_recovers(total: usize) {
    let mut cfg = config();
    cfg.queue.max_active_downloads = 50;
    cfg.queue.auto_start = true;
    let mut runtime = daemon_with(cfg, disabled_health());
    let mut hashes = Vec::new();
    for n in 0..total {
        let mut known = Torrent::new(meta("large-queue.bin", b"large queue payload", 8), 1);
        known.meta.info_hash = scale_hash(n as u32);
        if n < 18 {
            known.state = TorrentState::Downloading;
        }
        let hash = enter(&mut runtime, known);
        runtime.fleet.queue.add(hash);
        hashes.push(hash);
    }
    for hash in hashes.iter().take(50) {
        run(&mut runtime, *hash);
    }
    assert_eq!(runtime.fleet.active_download_hashes().len(), 18);
    let mut effects = Vec::new();
    assert_eq!(runtime.fleet.sweep_inactive_engine_handles(&mut effects).len(), 32);
    let wanted = desired(&mut runtime);
    assert_eq!(wanted.len(), 50);
    assert_eq!(wanted.iter().filter(|hash| hashes[..18].contains(hash)).count(), 18);
    let held = wanted
        .iter()
        .filter(|hash| !hashes[..18].contains(hash) && runtime.fleet.engines.contains(hash))
        .count();
    assert_eq!(held, 0);
}

#[test]
fn large_queue_recovery_keeps_configured_active_slots_startable() {
    large_queue_recovers(100);
}

#[test]
fn thousand_torrent_queue_recovery_keeps_configured_active_slots_startable() {
    large_queue_recovers(1_000);
}

#[test]
fn queue_scheduler_respects_auto_start_and_moves() {
    let mut cfg = config();
    cfg.queue.max_active_downloads = 1;
    cfg.queue.auto_start = false;
    let mut runtime = daemon_with(cfg, disabled_health());
    let first = enter(&mut runtime, Torrent::new(meta("q1.bin", b"queue-one", 4), 1));
    let second = enter(&mut runtime, Torrent::new(meta("q2.bin", b"queue-two", 4), 2));
    runtime.fleet.queue.add(first);
    runtime.fleet.queue.add(second);
    assert!(desired(&mut runtime).is_empty());
    runtime.fleet.queue.start_now(&second);
    assert_eq!(desired(&mut runtime), vec![second]);
    runtime.fleet.queue.clear_bypass(&second);
    runtime.fleet.queue.move_to_top(&first);
    runtime.config.queue.auto_start = true;
    assert_eq!(desired(&mut runtime), vec![first]);
}

#[test]
fn runtime_queue_limit_update_marks_scheduled_reconcile_dirty() {
    let mut cfg = config();
    cfg.queue.max_active_downloads = 25;
    let mut runtime = daemon_with(cfg, disabled_health());
    runtime.queue_reconcile.scheduled = true;
    let next = update_settings(
        &runtime.config,
        SettingsPatch {
            bandwidth: None,
            queue: Some(QueueLimits {
                max_active_downloads: 50,
                max_active_metadata_fetches: 100,
                max_active_seeds: 5,
                auto_start: true,
            }),
            seeding: None,
            autopilot_mode: None,
        },
    );
    runtime.install_config(next);
    let mut effects = Vec::new();
    runtime.apply_queue_limits(&mut effects);
    assert_eq!(effects, vec![Effect::LimitRates { download: 0, upload: 0 }]);
    runtime.apply_runtime_config_fields(true, &mut effects);
    assert!(effects.iter().any(|effect| matches!(effect, Effect::ReconcileQueue { .. })));
    assert!(!runtime.queue_reconcile.schedule_reconcile_queue());
    assert_eq!(runtime.config.queue.max_active_downloads, 50);
    assert_eq!(runtime.fleet.queue.limits.max_active_downloads, 50);
    assert!(runtime.queue_reconcile.scheduled);
    assert!(runtime.queue_reconcile.dirty);
}

// What is shown of torrents.

#[test]
fn torrent_stats_includes_live_engine_diagnostics() {
    let mut runtime = daemon();
    let mut known = Torrent::new(meta("diag.bin", b"0123456789abcdef", 8), 1);
    known.state = TorrentState::Downloading;
    let pieces = known.meta.piece_count;
    let hash = enter(&mut runtime, known);
    let state = || EngineState {
        piece_count: pieces,
        total_length: 16,
        active_peers: 4,
        known_peers: 2,
        peer_health: vec![
            EnginePeerHealth {
                has_missing_pieces: true,
                unchoked: true,
                useful_recently: true,
                last_valid_block: Some(NOW),
                last_seen: Some(NOW),
                ..EnginePeerHealth::default()
            },
            EnginePeerHealth {
                has_missing_pieces: true,
                last_seen: Some(NOW),
                ..EnginePeerHealth::default()
            },
            EnginePeerHealth {
                has_missing_pieces: true,
                unchoked: true,
                useful_recently: true,
                last_seen: Some(ago(31)),
                ..EnginePeerHealth::default()
            },
        ],
        tracker_ok: true,
        tracker_message: Some("ok".to_string()),
        last_announce: Some(123),
        tracker_failures_recent: 3,
        dht_discovery_ok: true,
        pex_discovery_ok: true,
        peer_disconnects_recent: 2,
        dht_last_seen: Some(ago(11)),
        pex_last_seen: Some(ago(13)),
        tracker_last_ok: Some(ago(7)),
        peer_scheduler: PeerSchedulerState {
            discovered_peers: 2,
            eligible_peers: 1,
            failed_peers: 1,
            peer_worker_limit: 8,
            parallel_candidates: 1,
            parallel_workers_started: 4,
            serial_peer_active: true,
            last_reason: Some("one eligible peer".to_string()),
            ..PeerSchedulerState::default()
        },
        ..EngineState::default()
    };
    reconcile(&mut runtime, vec![report(hash, state())], true);
    let engine = state();
    let stats = runtime.fleet.torrent_stats(&hash, Some(&engine), NOW).unwrap();
    assert_eq!(stats.info_hash, hash);
    assert_eq!(stats.live.active_peer_workers, 4);
    assert_eq!(stats.live.known_peers, 2);
    let scheduler = stats.live.peer_scheduler.unwrap();
    assert_eq!(scheduler.discovered_peers, 2);
    assert_eq!(scheduler.eligible_peers, 1);
    assert_eq!(scheduler.failed_peers, 1);
    assert_eq!(scheduler.peer_worker_limit, 8);
    assert_eq!(scheduler.parallel_candidates, 1);
    assert_eq!(scheduler.parallel_workers_started, 4);
    assert!(scheduler.serial_peer_active);
    assert_eq!(scheduler.last_reason.as_deref(), Some("one eligible peer"));
    assert_eq!(stats.live.useful_peers, Some(1));
    assert_eq!(stats.live.unchoked_peers, Some(1));
    assert_eq!(stats.live.choked_peers, None);
    assert_eq!(stats.live.recent_peer_failures, Some(2));
    assert_eq!(stats.live.recent_tracker_failures, Some(3));
    assert!(stats.live.tracker_ok);
    assert_eq!(stats.live.tracker_message.as_deref(), Some("ok"));
    assert_eq!(stats.live.last_announce, Some(123));
    assert_eq!(stats.live.dht_discovery_ok, Some(true));
    assert_eq!(stats.live.pex_discovery_ok, Some(true));
    assert_eq!(stats.live.tracker_last_ok_seconds_ago, Some(7));
    assert_eq!(stats.live.dht_last_seen_seconds_ago, Some(11));
    assert_eq!(stats.live.pex_last_seen_seconds_ago, Some(13));
    let summary = runtime.fleet.get_torrent(&hash, NO_LIMITS).unwrap();
    assert_eq!(summary.active_peer_workers, 4);
    assert_eq!(summary.known_peers, 2);
}

#[test]
fn peer_diagnostics_report_unlimited_observation_and_bounded_denial() {
    let mut runtime = daemon_with(config(), open_health());
    let shown = |runtime: &DaemonRuntime, permits: PermitSnapshot| {
        runtime.fleet.scheduler_diagnostics(
            &Vec::new(),
            &runtime.config,
            BUILT_IN_PEER_LIMIT,
            permits,
            NOW,
        )
    };
    let scheduler =
        shown(&runtime, PermitSnapshot { limit: 0, in_use: 1, available: None, denied: 0 });
    assert_eq!(scheduler.peer_limit, 0);
    assert_eq!(scheduler.peer_permits_in_use, 1);
    assert_eq!(scheduler.peer_permits_available, None);
    assert_eq!(scheduler.peer_sessions_denied, 0);
    assert_eq!(shown(&runtime, no_permits()).peer_permits_in_use, 0);
    runtime.config.bandwidth.max_peers = 1;
    let scheduler =
        shown(&runtime, PermitSnapshot { limit: 1, in_use: 1, available: Some(0), denied: 1 });
    assert_eq!(scheduler.peer_limit, 1);
    assert_eq!(scheduler.peer_permits_in_use, 1);
    assert_eq!(scheduler.peer_permits_available, Some(0));
    assert_eq!(scheduler.peer_sessions_denied, 1);
}

// The autopilot.

#[test]
fn autopilot_decision_uses_live_engine_telemetry() {
    let mut known = Torrent::new(meta("autopilot.bin", b"0123456789abcdef", 8), 1);
    known.state = TorrentState::Downloading;
    let engine = EngineState {
        piece_count: known.meta.piece_count,
        total_length: 16,
        dht_last_seen: Some(ago(180)),
        pex_last_seen: Some(ago(180)),
        ..EngineState::default()
    };
    let input = build_autopilot_input(
        &known,
        Some(&engine),
        Some(sample_since(ago(45))),
        NOW,
        &disabled_health(),
    );
    assert_eq!(input.state, TorrentState::Downloading);
    assert_eq!(input.known_peers, 0);
    assert_eq!(input.no_progress_seconds, Some(45));
    assert_eq!(input.dht_last_seen_seconds_ago, Some(180));
    assert_eq!(input.network_traffic_allowed, Some(true));
}

#[test]
fn torrent_autopilot_override_is_persisted_and_used() {
    let mut runtime = daemon();
    let hash = enter(
        &mut runtime,
        Torrent::new(meta("autopilot-override.bin", b"0123456789abcdef", 8), 1),
    );
    runtime
        .fleet
        .set_torrent_autopilot_mode_override(hash, Some(AutopilotMode::Disabled))
        .unwrap();
    let summary = runtime.fleet.get_torrent(&hash, NO_LIMITS).unwrap();
    assert_eq!(summary.autopilot_mode_override, Some(AutopilotMode::Disabled));
    assert_eq!(
        effective_autopilot_mode(AutopilotMode::Act, summary.autopilot_mode_override),
        AutopilotMode::Disabled
    );
    assert_eq!(effective_autopilot_mode(AutopilotMode::Act, None), AutopilotMode::Act);
    runtime.config.autopilot_mode = AutopilotMode::Act;
    assert!(!runtime.autopilot_acts_on(torrent(&runtime, &hash)));
}

fn suggestion(kind: AutopilotActionKind, limit: Option<u64>) -> AutopilotDecision {
    AutopilotDecision {
        apply: true,
        action: Some(AutopilotAction { kind, suggested_download_limit: limit }),
        peer_worker_limit: 1,
    }
}

fn act(runtime: &mut DaemonRuntime, hash: InfoHash, decision: AutopilotDecision) -> AutopilotStep {
    let cfg = runtime.config.clone();
    let mut effects = Vec::new();
    runtime.fleet.apply_autopilot_decision(
        hash,
        decision,
        &cfg,
        BUILT_IN_PEER_LIMIT,
        &runtime.autopilot_last_action,
        NOW,
        &mut effects,
    )
}

#[test]
fn autopilot_act_mode_expands_discovery_through_engine_command() {
    let mut cfg = config();
    cfg.autopilot_mode = AutopilotMode::Act;
    let mut runtime = daemon_with(cfg, disabled_health());
    let hash = enter(
        &mut runtime,
        Torrent::new(meta("autopilot-act.bin", b"0123456789abcdef", 8), 1),
    );
    run(&mut runtime, hash);
    let step = act(&mut runtime, hash, suggestion(AutopilotActionKind::ExpandDiscovery, None));
    assert!(matches!(step, AutopilotStep::Tell(EngineCommand::Reannounce)));
}

#[test]
fn autopilot_act_mode_releases_stalled_active_queue_slot() {
    let mut cfg = config();
    cfg.autopilot_mode = AutopilotMode::Act;
    cfg.queue.max_active_downloads = 1;
    let mut runtime = daemon_with(cfg, disabled_health());
    let mut stalled = Torrent::new(meta("autopilot-stalled.bin", b"stalled payload", 8), 1);
    stalled.state = TorrentState::Downloading;
    let stalled = enter(&mut runtime, stalled);
    let queued = enter(
        &mut runtime,
        Torrent::new(meta("autopilot-queued.bin", b"queued payload", 8), 2),
    );
    runtime.fleet.queue.add(stalled);
    runtime.fleet.queue.add(queued);
    run(&mut runtime, stalled);
    let step =
        act(&mut runtime, stalled, suggestion(AutopilotActionKind::ReleaseQueueSlot, None));
    assert!(matches!(step, AutopilotStep::Released));
    assert_eq!(torrent(&runtime, &stalled).state, TorrentState::Queued);
    assert_eq!(runtime.fleet.queue.position(&queued), Some(1));
    assert_eq!(runtime.fleet.queue.position(&stalled), Some(2));
    assert!(runtime.fleet.retry_after.get(&stalled).unwrap().nanos > NOW.nanos);
    assert_eq!(desired(&mut runtime), vec![queued]);
}

#[test]
fn autopilot_act_mode_skips_queue_release_without_eligible_replacement() {
    let mut cfg = config();
    cfg.autopilot_mode = AutopilotMode::Act;
    cfg.queue.max_active_downloads = 1;
    let mut runtime = daemon_with(cfg, disabled_health());
    let mut stalled = Torrent::new(meta("autopilot-stalled-alone.bin", b"stalled payload", 8), 1);
    stalled.state = TorrentState::Downloading;
    let stalled = enter(&mut runtime, stalled);
    runtime.fleet.queue.add(stalled);
    run(&mut runtime, stalled);
    let step =
        act(&mut runtime, stalled, suggestion(AutopilotActionKind::ReleaseQueueSlot, None));
    assert!(matches!(step, AutopilotStep::Skip));
    assert_eq!(torrent(&runtime, &stalled).state, TorrentState::Downloading);
    assert_eq!(runtime.fleet.queue.position(&stalled), Some(1));
    assert!(runtime.fleet.engines.contains(&stalled));
    assert!(runtime.fleet.retry_after.get(&stalled).is_none());
    assert_eq!(desired(&mut runtime), vec![stalled]);
}

#[test]
fn autopilot_actions_are_spaced() {
    let mut runtime = daemon();
    let hash = enter(&mut runtime, Torrent::new(meta("spaced.bin", b"0123456789abcdef", 8), 1));
    run(&mut runtime, hash);
    note_autopilot_action(&mut runtime.autopilot_last_action, hash, ago(59));
    let step = act(&mut runtime, hash, suggestion(AutopilotActionKind::ExpandDiscovery, None));
    assert!(matches!(step, AutopilotStep::Skip));
    note_autopilot_action(&mut runtime.autopilot_last_action, hash, ago(61));
    let step = act(&mut runtime, hash, suggestion(AutopilotActionKind::ExpandDiscovery, None));
    assert!(matches!(step, AutopilotStep::Tell(EngineCommand::Reannounce)));
}

#[test]
fn torrent_autopilot_decision_does_not_refresh_unrelated_torrents() {
    let known = Torrent::new(meta("autopilot-one.bin", b"autopilot one payload", 8), 1);
    let input = build_autopilot_input(&known, None, None, NOW, &disabled_health());
    assert_eq!(input.state, TorrentState::Queued);
    assert_eq!(input.peer_worker_limit, None);
    assert_eq!(input.no_progress_seconds, None);
}

#[test]
fn torrent_autopilot_decision_recomputes_stale_cached_snapshot() {
    let mut runtime = daemon();
    let mut known =
        Torrent::new(meta("autopilot-current.bin", b"autopilot current payload", 8), 1);
    known.state = TorrentState::Downloading;
    let engine = || EngineState {
        piece_count: 4,
        total_length: 25,
        active_peers: 2,
        known_peers: 2,
        peer_scheduler: PeerSchedulerState {
            discovered_peers: 2,
            eligible_peers: 2,
            peer_worker_limit: 8,
            parallel_workers_started: 2,
            ..PeerSchedulerState::default()
        },
        ..EngineState::default()
    };
    let hash = enter(&mut runtime, known);
    reconcile(&mut runtime, vec![report(hash, engine())], true);
    let state = engine();
    let input = build_autopilot_input(
        torrent(&runtime, &hash),
        Some(&state),
        None,
        NOW,
        &disabled_health(),
    );
    assert_eq!(input.state, TorrentState::Downloading);
    assert_eq!(input.known_peers, 2);
    assert_eq!(input.active_peer_workers, 2);
    assert_eq!(input.peer_worker_limit, Some(8));
}

// Uploading.

fn uploads_are_truthful(runtime: &DaemonRuntime) {
    for position in 0..runtime.fleet.registry.len() {
        let hash = runtime.fleet.registry.key_at(position);
        let known = runtime.fleet.registry.value_at(position);
        let shown = known.state == TorrentState::Seeding
            && known.seeding_status == SeedingStatus::Active;
        if runtime.fleet.seeders.contains(&hash) {
            assert!(shown, "a live upload is not shown");
        } else if known.state != TorrentState::NetworkBlocked {
            assert!(known.state != TorrentState::Seeding);
            assert!(known.seeding_status != SeedingStatus::Active);
        }
    }
}

fn settle_uploads(
    runtime: &mut DaemonRuntime,
    decisions: &[(InfoHash, SeedDecision)],
) -> Vec<Effect> {
    let mut index = HashIndex::new();
    for (hash, decision) in decisions {
        index.insert(*hash, *decision);
    }
    let before = runtime.fleet.standings();
    let limit = runtime.config.queue.max_active_seeds;
    let mut effects = Vec::new();
    let plan = runtime.fleet.reconcile_seeders(limit, &index, &mut effects);
    for hash in plan.start {
        runtime.fleet.begin_seeder(hash);
        runtime.fleet.finish_seeder_start(hash, true, &mut effects);
    }
    runtime.fleet.tell_changed_standings(&before, &mut effects);
    effects
}

fn told_change(effects: &[Effect], of: InfoHash, to: TorrentState) -> bool {
    effects.iter().any(|effect| match effect {
        Effect::Publish(Event::Torrent { kind: TorrentEventKind::Changed, hash, state }) => {
            *hash == of && *state == to
        }
        _ => false,
    })
}

fn add_complete(runtime: &mut DaemonRuntime, name: &str, payload: &[u8]) -> InfoHash {
    let mut done = finished_torrent(name, payload, "/d");
    done.state = TorrentState::Completed;
    done.downloaded = done.meta.total_length;
    done.date_completed = Some(1);
    done.seeding.seed_forever = true;
    let hash = enter(runtime, done);
    runtime.fleet.queue.add(hash);
    let cfg = runtime.config.clone();
    runtime.permits.ensure_torrent_peer_permit_pool(hash, &cfg, BUILT_IN_PEER_LIMIT, 90);
    hash
}

fn shown_seeds(runtime: &mut DaemonRuntime) -> usize {
    let wanted = desired(runtime);
    let scheduler = runtime.fleet.scheduler_diagnostics(
        &wanted,
        &runtime.config,
        BUILT_IN_PEER_LIMIT,
        no_permits(),
        NOW,
    );
    runtime.fleet.global_stats(scheduler).active_seeds
}

#[test]
fn complete_seeding_lifecycle_policy_slots_tasks_and_limiter_identity_are_truthful() {
    let mut cfg = config();
    cfg.queue.max_active_seeds = 1;
    let mut runtime = daemon_with(cfg, open_health());
    let first = add_complete(&mut runtime, "seed-one.bin", b"first generated seed payload");
    let second = add_complete(&mut runtime, "seed-two.bin", b"second generated seed payload");
    let go = SeedDecision::Continue;
    settle_uploads(&mut runtime, &[(first, go), (second, go)]);
    uploads_are_truthful(&runtime);
    let statuses = [
        torrent(&runtime, &first).seeding_status,
        torrent(&runtime, &second).seeding_status,
    ];
    assert_eq!(statuses.iter().filter(|status| **status == SeedingStatus::Active).count(), 1);
    assert_eq!(statuses.iter().filter(|status| **status == SeedingStatus::Queued).count(), 1);
    assert_eq!(shown_seeds(&mut runtime), 1);

    runtime.config.queue.max_active_seeds = 2;
    settle_uploads(&mut runtime, &[(first, go), (second, go)]);
    uploads_are_truthful(&runtime);
    assert_eq!(shown_seeds(&mut runtime), 2);

    change(&mut runtime, &first, |torrent| torrent.downloaded = 0);
    let policy = |ratio: Option<f64>, idle_limit: Option<u64>, seed_forever: bool| SeedingPolicy {
        ratio_limit: ratio.map(f64::to_bits),
        idle_limit,
        seed_forever,
    };
    runtime.fleet.set_torrent_seeding(first, policy(Some(0.0), None, false)).unwrap();
    let told = settle_uploads(&mut runtime, &[(first, SeedDecision::StopOnRatio), (second, go)]);
    assert_eq!(torrent(&runtime, &first).seeding_status, SeedingStatus::StoppedRatio);
    assert!(!runtime.fleet.seeders.contains(&first));
    uploads_are_truthful(&runtime);
    assert!(told_change(&told, first, TorrentState::Completed));

    runtime.fleet.set_torrent_seeding(first, policy(Some(2.0), None, false)).unwrap();
    settle_uploads(&mut runtime, &[(first, go), (second, go)]);
    assert!(runtime.fleet.seeders.contains(&first));
    uploads_are_truthful(&runtime);

    runtime.fleet.set_torrent_seeding(first, policy(Some(2.0), Some(0), false)).unwrap();
    settle_uploads(&mut runtime, &[(first, SeedDecision::StopOnIdle), (second, go)]);
    assert_eq!(torrent(&runtime, &first).seeding_status, SeedingStatus::StoppedIdle);

    runtime.fleet.set_torrent_seeding(first, policy(Some(0.0), Some(0), true)).unwrap();
    settle_uploads(&mut runtime, &[(first, go), (second, go)]);
    let mut effects = Vec::new();
    runtime.fleet.pause(first, &mut effects).unwrap();
    assert_eq!(torrent(&runtime, &first).seeding_status, SeedingStatus::StoppedManual);
    assert!(!runtime.fleet.seeders.contains(&first));

    runtime.fleet.set_torrent_seeding(first, policy(None, None, true)).unwrap();
    settle_uploads(&mut runtime, &[(first, go), (second, go)]);
    assert_eq!(
        torrent(&runtime, &first).seeding_status,
        SeedingStatus::StoppedManual,
        "a new policy does not take up what was paused by hand"
    );

    runtime.fleet.resume(first).unwrap();
    let told = settle_uploads(&mut runtime, &[(first, go), (second, go)]);
    assert!(runtime.fleet.seeders.contains(&first));
    uploads_are_truthful(&runtime);
    assert!(told_change(&told, first, TorrentState::Seeding));
    assert_eq!(runtime.fleet.get_torrent(&first, NO_LIMITS).unwrap().state, TorrentState::Seeding);

    runtime.fleet.pause(first, &mut effects).unwrap();
    runtime.fleet.start_now(first).unwrap();
    settle_uploads(&mut runtime, &[(first, go), (second, go)]);
    assert!(runtime.fleet.seeders.contains(&first));
    assert_eq!(runtime.fleet.get_torrent(&first, NO_LIMITS).unwrap().state, TorrentState::Seeding);
    uploads_are_truthful(&runtime);

    runtime.fleet.stop_seeder(&first, true, &mut effects);
    assert!(!runtime.fleet.seeders.contains(&first));
    assert_eq!(torrent(&runtime, &first).seeding_status, SeedingStatus::Queued);
    settle_uploads(&mut runtime, &[(first, go), (second, go)]);
    assert!(runtime.fleet.seeders.contains(&first));
    uploads_are_truthful(&runtime);

    let targets = runtime.begin_removal(&vec![first], &mut effects);
    runtime.forget_torrents(&targets);
    assert!(!runtime.fleet.seeders.contains(&first));
    uploads_are_truthful(&runtime);
    let targets = runtime.begin_removal(&vec![second], &mut effects);
    runtime.forget_torrents(&targets);
    assert!(runtime.fleet.registry.is_empty());
}

#[test]
fn seeding_policy_persistence_failure_restores_policy_status_and_state() {
    let mut runtime = daemon_with(config(), open_health());
    let hash =
        seeding_payload(&mut runtime, "policy-rollback.bin", b"generated rollback payload");
    uploads_are_truthful(&runtime);
    let before = runtime.fleet.get_torrent(&hash, NO_LIMITS).unwrap();
    assert_eq!(before.state, TorrentState::Seeding);
    assert_eq!(before.seeding_status, SeedingStatus::Active);
    let task = *runtime.fleet.seeders.get(&hash).unwrap();
    let previous = runtime
        .fleet
        .set_torrent_seeding(
            hash,
            SeedingPolicy {
                ratio_limit: Some(0.0f64.to_bits()),
                idle_limit: None,
                seed_forever: false,
            },
        )
        .unwrap();
    runtime.fleet.restore_torrent_seeding(hash, previous);
    let after = torrent(&runtime, &hash);
    assert_eq!(after.seeding, before.seeding);
    assert_eq!(after.seeding_status, SeedingStatus::Active);
    assert_eq!(after.state, TorrentState::Seeding);
    assert_eq!(runtime.fleet.seeders.get(&hash), Some(&task));
    assert!(runtime.fleet.listener_running);
    uploads_are_truthful(&runtime);
}

#[test]
fn policies_with_unusable_ratios_are_refused() {
    let mut runtime = daemon_with(config(), open_health());
    let hash = seeding(&mut runtime, "refused-policy.bin");
    let policy = SeedingPolicy {
        ratio_limit: Some(f64::INFINITY.to_bits()),
        idle_limit: None,
        seed_forever: false,
    };
    assert!(runtime.fleet.set_torrent_seeding(hash, policy).is_err());
    assert!(matches!(
        runtime.fleet.set_torrent_seeding(
            scale_hash(77),
            SeedingPolicy { ratio_limit: None, idle_limit: None, seed_forever: true },
        ),
        Err(CoreError::NotFound(_))
    ));
}

// Containment.

fn seeding_payload(runtime: &mut DaemonRuntime, name: &str, payload: &[u8]) -> InfoHash {
    let hash = add_complete(runtime, name, payload);
    settle_uploads(runtime, &[(hash, SeedDecision::Continue)]);
    assert!(runtime.fleet.seeders.contains(&hash));
    runtime.fleet.listener_running = true;
    hash
}

fn seeding(runtime: &mut DaemonRuntime, name: &str) -> InfoHash {
    seeding_payload(runtime, name, b"generated lawful peer reconfiguration fixture")
}

#[test]
fn active_seeding_containment_block_preserves_status_and_recovery_rebuilds_task() {
    let mut runtime = daemon_with(config(), open_health());
    let hash = seeding_payload(
        &mut runtime,
        "containment-seed.bin",
        b"generated containment seed payload",
    );
    uploads_are_truthful(&runtime);
    let mut decisions = HashIndex::new();
    decisions.insert(hash, SeedDecision::Continue);
    let mut effects = Vec::new();
    let blocked = runtime.fleet.transition_data_plane_to_blocked(
        &mut runtime.gate,
        &mut runtime.network_health,
        NetworkContainmentStatus::InterfaceMissing,
        &"test interface disappeared".to_string(),
        Vec::new(),
        &decisions,
        0,
        NOW,
        &mut effects,
    );
    assert_eq!(blocked.changed, vec![hash]);
    assert!(!runtime.fleet.seeders.contains(&hash));
    assert!(!runtime.gate.traffic_allowed());
    let held = torrent(&runtime, &hash);
    assert_eq!(held.state, TorrentState::NetworkBlocked);
    assert_eq!(held.seeding_status, SeedingStatus::Active);
    assert_eq!(held.containment_recovery_intent, Some(ContainmentRecoveryIntent::Seeding));
    let summary = runtime.fleet.get_torrent(&hash, NO_LIMITS).unwrap();
    assert_eq!(summary.state, TorrentState::NetworkBlocked);
    assert_eq!(summary.seeding_status, SeedingStatus::Active);
    assert_eq!(
        runtime
            .fleet
            .list_torrents(&HashIndex::new())
            .into_iter()
            .find(|summary| summary.info_hash == hash)
            .unwrap()
            .state,
        TorrentState::NetworkBlocked
    );
    assert_eq!(
        runtime.fleet.torrent_stats(&hash, None, NOW).unwrap().state,
        TorrentState::NetworkBlocked
    );
    assert_eq!(shown_seeds(&mut runtime), 0);
    uploads_are_truthful(&runtime);
    assert!(told_change(&effects, hash, TorrentState::NetworkBlocked));

    let recovered = NetworkHealth { detail: "recovered".to_string(), ..open_health() };
    let mut effects = Vec::new();
    let taken = runtime.fleet.recover_containment_work(
        &mut runtime.gate,
        &mut runtime.network_health,
        &recovered,
        &mut effects,
    );
    assert_eq!(taken.seeders, vec![hash]);
    assert!(runtime.gate.traffic_allowed());
    runtime.fleet.begin_seeder(hash);
    runtime.fleet.finish_seeder_start(hash, true, &mut effects);
    let again = torrent(&runtime, &hash);
    assert_eq!(again.state, TorrentState::Seeding);
    assert_eq!(again.seeding_status, SeedingStatus::Active);
    assert!(again.containment_recovery_intent.is_none());
    assert!(runtime.fleet.seeders.contains(&hash));
    let summary = runtime.fleet.get_torrent(&hash, NO_LIMITS).unwrap();
    assert_eq!(summary.state, TorrentState::Seeding);
    assert_eq!(summary.seeding_status, SeedingStatus::Active);
    assert_eq!(
        runtime.fleet.torrent_stats(&hash, None, NOW).unwrap().state,
        TorrentState::Seeding
    );
    assert_eq!(shown_seeds(&mut runtime), 1);
    uploads_are_truthful(&runtime);
    runtime.fleet.tell_recovered(&taken.changed, &recovered, &mut effects);
    assert!(told_change(&effects, hash, TorrentState::Seeding));
}

#[test]
fn torrents_at_rest_are_not_taken_up_again() {
    let mut runtime = daemon_with(config(), open_health());
    let mut resting = Vec::new();
    for (n, state) in [
        TorrentState::Queued,
        TorrentState::Paused,
        TorrentState::NetworkBlocked,
        TorrentState::Completed,
    ]
    .into_iter()
    .enumerate()
    {
        let mut torrent = finished_torrent("resting.bin", &vec![0; 10 + n], "/d");
        torrent.state = state;
        let hash = enter(&mut runtime, torrent);
        run(&mut runtime, hash);
        resting.push((hash, state));
    }
    let working = active_engine(&mut runtime);
    let mut effects = Vec::new();
    let blocked = runtime.fleet.transition_data_plane_to_blocked(
        &mut runtime.gate,
        &mut runtime.network_health,
        NetworkContainmentStatus::InterfaceMissing,
        &"tun0 is gone".to_string(),
        Vec::new(),
        &HashIndex::new(),
        0,
        NOW,
        &mut effects,
    );
    assert_eq!(blocked.changed, vec![working]);
    assert_eq!(
        torrent(&runtime, &working).containment_recovery_intent,
        Some(ContainmentRecoveryIntent::Downloading)
    );
    for (hash, state) in resting {
        assert_eq!(torrent(&runtime, &hash).containment_recovery_intent, None);
        assert_eq!(torrent(&runtime, &hash).state, state);
    }
    assert!(runtime.engine_handles_empty());
}

#[test]
fn a_bind_failure_holds_until_it_is_cured() {
    let mut runtime = daemon_with(config(), open_health());
    runtime.report_health(NetworkContainmentStatus::SocketBindFailed, "port taken".to_string());
    assert!(matches!(runtime.network_health_tick(open_health()), TickStep::Block { .. }));
    assert!(runtime.bind_failure.is_some());
    assert!(matches!(runtime.network_health_tick(open_health()), TickStep::Held));
    assert!(!runtime.gate.traffic_allowed());
    assert!(!runtime.network_health.traffic_allowed);
    runtime.cure_bind_failure(open_health());
    assert!(runtime.bind_failure.is_none());
}

#[test]
fn failed_shared_listener_bind_does_not_register_or_announce_seeder() {
    let mut runtime = daemon_with(config(), open_health());
    let mut meta = meta("bind-failure.bin", b"bind failure payload", 8);
    meta.announce = Some("http://127.0.0.1:1/announce".to_string());
    let mut done = Torrent::new(meta, 1);
    done.state = TorrentState::Completed;
    done.seeding.seed_forever = true;
    done.progress.have = vec![true; done.meta.piece_count];
    let hash = enter(&mut runtime, done);

    let mut decisions = HashIndex::new();
    decisions.insert(hash, SeedDecision::Continue);
    let mut effects = Vec::new();
    let plan = runtime.fleet.reconcile_seeders(5, &decisions, &mut effects);
    assert_eq!(plan.start, vec![hash]);
    assert_eq!(runtime.fleet.begin_seeder(hash), SeederStep::Registered);
    let refused = listener_outcome(ListenerBind::Failed).unwrap_err();
    runtime.fleet.refuse_seeder(hash);
    runtime.fleet.postpone_seeder(hash, &format!("{refused:?}"));

    assert!(!runtime.fleet.seeders.contains(&hash));
    assert!(runtime.seeder_registries_empty());
    let held = torrent(&runtime, &hash);
    assert_eq!(held.state, TorrentState::Completed);
    assert_eq!(held.seeding_status, SeedingStatus::Queued);
    assert!(held.error.is_some());
}

#[test]
fn a_failed_listener_ends_the_uploads_that_used_it() {
    assert!(listener_outcome(ListenerBind::Bound).is_ok());
    assert!(listener_outcome(ListenerBind::Failed).is_err());
    assert!(listener_outcome(ListenerBind::TimedOut).is_err());
    let mut runtime = daemon_with(config(), open_health());
    let hash = seeding(&mut runtime, "unbound.bin");
    let mut effects = Vec::new();
    runtime.fleet.deactivate_seeders_after_listener_failure(
        &vec![hash],
        &"bind failed".to_string(),
        &mut effects,
    );
    assert!(runtime.seeder_registries_empty());
    assert_ne!(torrent(&runtime, &hash).seeding_status, SeedingStatus::Active);
}

// Changing peer limits while work goes on.

fn rebuilt_permits(runtime: &DaemonRuntime, next: &Config) -> PeerPermitConfiguration {
    build_peer_permit_configuration(
        &runtime.fleet.registry,
        next,
        BUILT_IN_PEER_LIMIT,
        500,
        Ok(()),
        Ok(()),
    )
    .unwrap()
}

fn limited_daemon() -> DaemonRuntime {
    let mut cfg = config();
    cfg.bandwidth.max_peers = 3;
    cfg.bandwidth.max_peers_per_torrent = 2;
    cfg.queue.max_active_seeds = 1;
    daemon_with(cfg, open_health())
}

fn begin_change(runtime: &mut DaemonRuntime, next: Config, persists: bool) -> PeerBudgetChange {
    let limits_only = next.queue == runtime.config.queue
        && next.seeding == runtime.config.seeding
        && next.torrent == runtime.config.torrent
        && next.network.mode == runtime.config.network.mode;
    begin_change_to(runtime, next, open_health(), limits_only, persists)
}

fn begin_change_to(
    runtime: &mut DaemonRuntime,
    next: Config,
    health: NetworkHealth,
    limits_only: bool,
    persists: bool,
) -> PeerBudgetChange {
    let permits = rebuilt_permits(runtime, &next);
    let mut effects = Vec::new();
    let update =
        runtime.begin_peer_budget_update(next, permits, health, false, limits_only, &mut effects);
    PeerBudgetChange {
        update,
        stage: PeerBudgetStage::Draining,
        rebuild: Rebuild::Nothing,
        persists,
    }
}

fn set_up(runtime: &mut DaemonRuntime, live: &LivePeerWorkSnapshot) {
    let mut effects = Vec::new();
    for prior in &live.downloads {
        runtime.fleet.prepare_download_again(prior).unwrap();
        let start = begin(runtime, prior.hash);
        assert!(runtime.launch_engine(&start, &vec![None], &None, &mut effects));
    }
    for prior in &live.seeders {
        runtime.fleet.prepare_upload_again(prior).unwrap();
        runtime.fleet.begin_seeder(prior.hash);
        runtime.fleet.finish_seeder_start(prior.hash, true, &mut effects);
    }
    runtime.fleet.restore_live_lifecycle(live).unwrap();
}

#[test]
fn put_peer_limits_persists_new_pools_and_reconstructs_live_seeder() {
    let mut runtime = limited_daemon();
    let hash = seeding(&mut runtime, "peer-reconfiguration-seed.bin");
    let (old_global, old_own) = runtime.peer_permit_pools_for_test(&hash).unwrap();
    let mut next = runtime.config.clone();
    next.bandwidth = peers(1);
    let change = begin_change(&mut runtime, next, true);
    let mut effects = Vec::new();
    let change = match runtime.apply_peer_budget_runtime_update(change, true, &mut effects) {
        ChangeStep::SetUp(change) => change,
        other => panic!("unexpected: {other:?}"),
    };
    assert_eq!(change.rebuild, Rebuild::Live);
    assert!(runtime.verify_peer_budget_change(&change, &Vec::new(), &Vec::new()).is_err());
    set_up(&mut runtime, &change.update.live);
    assert!(runtime.verify_peer_budget_change(&change, &Vec::new(), &Vec::new()).is_ok());
    let change = match runtime.apply_peer_budget_runtime_update(change, true, &mut effects) {
        ChangeStep::Check(change) => change,
        other => panic!("unexpected: {other:?}"),
    };
    let change = match runtime.apply_peer_budget_runtime_update(change, true, &mut effects) {
        ChangeStep::Write(change) => change,
        other => panic!("unexpected: {other:?}"),
    };
    assert!(matches!(
        runtime.apply_peer_budget_runtime_update(change, true, &mut effects),
        ChangeStep::Committed
    ));
    let (global, own) = runtime.peer_permit_pools_for_test(&hash).unwrap();
    assert_eq!((global.limit, own.limit), (1, 1));
    assert_ne!(global.id, old_global.id);
    assert_ne!(own.id, old_own.id);
    assert!(runtime.fleet.seeders.contains(&hash));
    assert_eq!(runtime.config.bandwidth.max_peers, 1);
}

#[test]
fn put_peer_limits_failure_restores_runtime_file_and_live_ownership() {
    for failing in 0..4 {
        let mut runtime = limited_daemon();
        let hash = seeding(&mut runtime, "peer-reconfiguration-seed.bin");
        let before = torrent(&runtime, &hash).clone();
        let pools = runtime.peer_permit_pools_for_test(&hash).unwrap();
        let mut next = runtime.config.clone();
        next.bandwidth = peers(1);
        let mut change = begin_change(&mut runtime, next, true);
        let mut effects = Vec::new();
        let mut stage = 0;
        let live = loop {
            match runtime.apply_peer_budget_runtime_update(change, stage != failing, &mut effects) {
                ChangeStep::SetUp(after) => {
                    set_up(&mut runtime, &after.update.live);
                    change = after;
                }
                ChangeStep::Check(after) | ChangeStep::Write(after) => change = after,
                ChangeStep::Committed => panic!("a failed change was committed"),
                ChangeStep::SetBack(live) => break live,
            }
            stage += 1;
        };
        assert_eq!(stage, failing);
        set_up(&mut runtime, &live);
        assert_eq!(runtime.config.bandwidth.max_peers, 3);
        assert_eq!(runtime.peer_permit_pools_for_test(&hash).unwrap(), pools);
        let after = torrent(&runtime, &hash);
        assert_eq!(after.state, before.state);
        assert_eq!(after.seeding_status, before.seeding_status);
        assert_eq!(after.error, before.error);
        assert_eq!(after.containment_recovery_intent, before.containment_recovery_intent);
        assert!(runtime.fleet.seeders.contains(&hash));
    }
}

#[test]
fn combined_peer_and_seeding_policy_update_commits_only_eligible_work() {
    let mut runtime = limited_daemon();
    let hash = seeding(&mut runtime, "peer-reconfiguration-seed.bin");
    change(&mut runtime, &hash, |torrent| torrent.seeding.seed_forever = false);
    let mut next = runtime.config.clone();
    next.bandwidth.max_peers = 1;
    next.seeding.global_ratio_limit = Some(0.0f64.to_bits());
    let change = begin_change(&mut runtime, next, true);
    let mut effects = Vec::new();
    let change = match runtime.apply_peer_budget_runtime_update(change, true, &mut effects) {
        ChangeStep::SetUp(change) => change,
        other => panic!("unexpected: {other:?}"),
    };
    assert_eq!(change.rebuild, Rebuild::Eligible);
    settle_uploads(&mut runtime, &[(hash, SeedDecision::StopOnRatio)]);
    assert!(runtime.verify_peer_budget_change(&change, &Vec::new(), &Vec::new()).is_ok());
    let change = match runtime.apply_peer_budget_runtime_update(change, true, &mut effects) {
        ChangeStep::Check(change) => change,
        other => panic!("unexpected: {other:?}"),
    };
    let change = match runtime.apply_peer_budget_runtime_update(change, true, &mut effects) {
        ChangeStep::Write(change) => change,
        other => panic!("unexpected: {other:?}"),
    };
    assert!(matches!(
        runtime.apply_peer_budget_runtime_update(change, true, &mut effects),
        ChangeStep::Committed
    ));
    assert!(!runtime.fleet.seeders.contains(&hash));
    assert_eq!(torrent(&runtime, &hash).state, TorrentState::Completed);
    assert_eq!(torrent(&runtime, &hash).seeding_status, SeedingStatus::StoppedRatio);
    assert_eq!(runtime.permits.global.limit, 1);
    assert_eq!(runtime.config.seeding.global_ratio_limit, Some(0.0f64.to_bits()));
}

#[test]
fn combined_peer_and_blocked_to_healthy_update_recovers_under_transition_lock() {
    let blocked = NetworkHealth {
        mode: NetworkContainmentMode::Strict,
        status: NetworkContainmentStatus::InterfaceMissing,
        traffic_allowed: false,
        detail: "interface is missing".to_string(),
    };
    let mut cfg = config();
    cfg.network.mode = NetworkContainmentMode::Strict;
    cfg.network.required_interface = Some("swarmotter-missing-recovery-interface".to_string());
    cfg.bandwidth.max_peers = 3;
    let mut runtime = daemon_with(cfg, blocked.clone());
    let mut held =
        Torrent::new(meta("blocked-recovery.bin", b"generated blocked recovery torrent", 8), 1);
    held.state = TorrentState::NetworkBlocked;
    held.error = Some(Notice::Text(blocked.detail));
    held.containment_recovery_intent = Some(ContainmentRecoveryIntent::Downloading);
    let hash = enter(&mut runtime, held);
    runtime.fleet.queue.add(hash);
    let mut next = runtime.config.clone();
    next.network = config().network;
    next.bandwidth.max_peers = 1;
    let change = begin_change(&mut runtime, next, true);
    let mut effects = Vec::new();
    let change = match runtime.apply_peer_budget_runtime_update(change, true, &mut effects) {
        ChangeStep::SetUp(change) => change,
        other => panic!("unexpected: {other:?}"),
    };
    assert_eq!(change.rebuild, Rebuild::Eligible);
    assert_eq!(torrent(&runtime, &hash).state, TorrentState::Queued);
    assert_eq!(torrent(&runtime, &hash).containment_recovery_intent, None);
    let wanted = desired(&mut runtime);
    assert_eq!(wanted, vec![hash]);
    let start = begin(&mut runtime, hash);
    assert!(runtime.launch_engine(&start, &vec![None], &None, &mut effects));
    assert!(runtime.verify_peer_budget_change(&change, &wanted, &Vec::new()).is_ok());
    let change = match runtime.apply_peer_budget_runtime_update(change, true, &mut effects) {
        ChangeStep::Check(change) => change,
        other => panic!("unexpected: {other:?}"),
    };
    let change = match runtime.apply_peer_budget_runtime_update(change, true, &mut effects) {
        ChangeStep::Write(change) => change,
        other => panic!("unexpected: {other:?}"),
    };
    assert!(matches!(
        runtime.apply_peer_budget_runtime_update(change, true, &mut effects),
        ChangeStep::Committed
    ));
    assert!(runtime.network_health.traffic_allowed);
    assert!(runtime.gate.traffic_allowed());
    assert!(runtime.engine_running_for_test(&hash));
    assert_eq!(torrent(&runtime, &hash).state, TorrentState::Downloading);
    assert_eq!(torrent(&runtime, &hash).containment_recovery_intent, None);
    assert_eq!(runtime.permits.global.limit, 1);
    assert_eq!(runtime.config.bandwidth.max_peers, 1);
}

#[test]
fn a_new_configuration_ends_tasks_only_where_it_touches_them() {
    let mut runtime = limited_daemon();
    let hash = seeding(&mut runtime, "kept-seed.bin");
    let decisions: HashIndex<SeedDecision> = HashIndex::new();
    let mut next = runtime.config.clone();
    next.queue.max_active_downloads = 9;
    let mut effects = Vec::new();
    runtime.replace_config(next, &open_health(), &decisions, &mut effects);
    assert!(runtime.fleet.seeders.contains(&hash));
    assert!(effects.is_empty());
    assert_eq!(runtime.config.queue.max_active_downloads, 9);
    let mut next = runtime.config.clone();
    next.torrent.listen_port = 7000;
    next.torrent.selfish = true;
    runtime.replace_config(next, &open_health(), &decisions, &mut effects);
    assert!(runtime.seeder_registries_empty());
    assert!(runtime.selfish_completion_enabled);
    assert!(effects.iter().any(|effect| matches!(effect, Effect::StopDht)));
}

#[test]
fn patch_peer_limits_commits_new_pools_and_reconstructs_live_seeder() {
    let mut runtime = limited_daemon();
    let hash = seeding(&mut runtime, "peer-reconfiguration-seed.bin");
    let (old_global, old_own) = runtime.peer_permit_pools_for_test(&hash).unwrap();
    let (order, bypass) =
        (runtime.fleet.queue.order.clone(), runtime.fleet.queue.bypass.clone());
    let next = update_settings(
        &runtime.config,
        SettingsPatch {
            bandwidth: Some(peers(1)),
            queue: None,
            seeding: None,
            autopilot_mode: None,
        },
    );
    assert!(matches!(
        choose_replacement(&runtime.config, &next),
        ReplacementPath::PeerBudget
    ));
    let permits = rebuilt_permits(&runtime, &next);
    let mut effects = Vec::new();
    let mut update =
        runtime.begin_peer_budget_update(next, permits, open_health(), false, true, &mut effects);
    assert!(runtime.seeder_registries_empty());
    assert!(matches!(
        runtime.install_peer_budget_update(&mut update, &mut effects),
        Rebuild::Live
    ));
    for prior in &update.live.seeders {
        runtime.fleet.prepare_upload_again(prior).unwrap();
        runtime.fleet.begin_seeder(prior.hash);
        runtime.fleet.finish_seeder_start(prior.hash, true, &mut effects);
    }
    runtime.fleet.restore_live_lifecycle(&update.live).unwrap();
    runtime.fleet.verify_live_peer_work(&update.live).unwrap();
    runtime.commit_peer_budget_update(&mut effects);
    let (global, own) = runtime.peer_permit_pools_for_test(&hash).unwrap();
    assert_eq!(global.limit, 1);
    assert_eq!(own.limit, 1);
    assert_ne!(global.id, old_global.id);
    assert_ne!(own.id, old_own.id);
    assert!(runtime.fleet.seeders.contains(&hash));
    assert_eq!(runtime.fleet.queue.order, order);
    assert_eq!(runtime.fleet.queue.bypass, bypass);
}

#[test]
fn patch_peer_limits_failure_restores_exact_pools_lifecycle_and_queue() {
    let mut runtime = limited_daemon();
    let hash = seeding(&mut runtime, "peer-reconfiguration-seed.bin");
    let previous_permits = rebuilt_permits(&runtime, &runtime.config);
    runtime.permits = rebuilt_permits(&runtime, &runtime.config);
    let before = torrent(&runtime, &hash).clone();
    let (order, bypass) =
        (runtime.fleet.queue.order.clone(), runtime.fleet.queue.bypass.clone());
    let mut next = runtime.config.clone();
    next.bandwidth = peers(1);
    let permits = build_peer_permit_configuration(
        &runtime.fleet.registry,
        &next,
        BUILT_IN_PEER_LIMIT,
        900,
        Ok(()),
        Ok(()),
    )
    .unwrap();
    let mut effects = Vec::new();
    let mut update =
        runtime.begin_peer_budget_update(next, permits, open_health(), false, true, &mut effects);
    runtime.install_peer_budget_update(&mut update, &mut effects);
    assert_eq!(runtime.config.bandwidth.max_peers, 1);
    let live = runtime.roll_back_peer_budget_update(update, &mut effects);
    for prior in &live.seeders {
        runtime.fleet.prepare_upload_again(prior).unwrap();
        runtime.fleet.begin_seeder(prior.hash);
        runtime.fleet.finish_seeder_start(prior.hash, true, &mut effects);
    }
    runtime.fleet.restore_live_lifecycle(&live).unwrap();
    assert_eq!(runtime.config.bandwidth.max_peers, 3);
    assert_eq!(runtime.config.bandwidth.max_peers_per_torrent, 2);
    verify_peer_permit_configuration_identity(&runtime.permits, &previous_permits).unwrap();
    assert!(runtime.fleet.seeders.contains(&hash));
    let after = torrent(&runtime, &hash);
    assert_eq!(after.state, before.state);
    assert_eq!(after.seeding_status, before.seeding_status);
    assert_eq!(after.error, before.error);
    assert_eq!(after.containment_recovery_intent, before.containment_recovery_intent);
    assert_eq!(runtime.fleet.queue.order, order);
    assert_eq!(runtime.fleet.queue.bypass, bypass);
}

#[test]
fn late_persistence_failure_restores_candidate_only_queued_torrent() {
    let mut runtime = limited_daemon();
    let first = seeding(&mut runtime, "peer-reconfiguration-seed.bin");
    let second = add_complete(
        &mut runtime,
        "candidate-only-seed.bin",
        b"generated candidate-only completed payload",
    );
    let both = [(first, SeedDecision::Continue), (second, SeedDecision::Continue)];
    settle_uploads(&mut runtime, &both);
    assert_eq!(runtime.fleet.seeders.len(), 1);
    let prior_live = runtime.fleet.seeders.key_at(0);
    let queued = if prior_live == first { second } else { first };
    let before = torrent(&runtime, &queued).clone();
    assert_eq!(before.state, TorrentState::Completed);
    assert_eq!(before.seeding_status, SeedingStatus::Queued);
    let pools = runtime.peer_permit_pools_for_test(&queued).unwrap();
    let live_pools = runtime.peer_permit_pools_for_test(&prior_live).unwrap();
    let (order, bypass) =
        (runtime.fleet.queue.order.clone(), runtime.fleet.queue.bypass.clone());

    let mut next = runtime.config.clone();
    next.bandwidth.max_peers = 1;
    next.queue.max_active_seeds = 2;
    let mut change = begin_change(&mut runtime, next, true);
    let mut effects = Vec::new();
    let live = loop {
        let good = change.stage != PeerBudgetStage::Persisting;
        match runtime.apply_peer_budget_runtime_update(change, good, &mut effects) {
            ChangeStep::SetUp(after) => {
                assert_eq!(after.rebuild, Rebuild::Eligible);
                settle_uploads(&mut runtime, &both);
                assert!(runtime.fleet.seeders.contains(&queued));
                let expected = vec![first, second];
                runtime.verify_peer_budget_change(&after, &Vec::new(), &expected).unwrap();
                change = after;
            }
            ChangeStep::Check(after) | ChangeStep::Write(after) => change = after,
            ChangeStep::Committed => panic!("a failed change was committed"),
            ChangeStep::SetBack(live) => break live,
        }
    };
    set_up(&mut runtime, &live);
    runtime.fleet.verify_live_peer_work(&live).unwrap();
    assert_eq!(runtime.peer_permit_pools_for_test(&queued).unwrap(), pools);
    assert_eq!(runtime.peer_permit_pools_for_test(&prior_live).unwrap(), live_pools);
    assert_eq!(runtime.config.bandwidth.max_peers, 3);
    assert_eq!(runtime.fleet.seeders.len(), 1);
    assert!(runtime.fleet.seeders.contains(&prior_live));
    assert!(!runtime.fleet.seeders.contains(&queued));
    let after = torrent(&runtime, &queued);
    assert_eq!(after.state, before.state);
    assert_eq!(after.seeding_status, before.seeding_status);
    assert_eq!(after.error, before.error);
    assert_eq!(after.containment_recovery_intent, before.containment_recovery_intent);
    assert_eq!(runtime.fleet.queue.order, order);
    assert_eq!(runtime.fleet.queue.bypass, bypass);
}

#[test]
fn valid_blocked_peer_reconfiguration_commits_recovery_intent_without_live_tasks() {
    let mut runtime = limited_daemon();
    let mut active = Torrent::new(
        meta("active-peer-reconfiguration.bin", b"generated active engine fixture", 8),
        1,
    );
    active.state = TorrentState::Downloading;
    let hash = enter(&mut runtime, active);
    runtime.fleet.queue.add(hash);
    run(&mut runtime, hash);
    let mut next = runtime.config.clone();
    next.bandwidth.max_peers = 1;
    next.network.mode = NetworkContainmentMode::Strict;
    next.network.required_interface = Some("swarmotter-missing-interface".to_string());
    next.network.fail_closed = true;
    let blocked = NetworkHealth {
        mode: NetworkContainmentMode::Strict,
        status: NetworkContainmentStatus::InterfaceMissing,
        traffic_allowed: false,
        detail: "interface is missing".to_string(),
    };
    let old_global = runtime.permits.global;
    let permits = rebuilt_permits(&runtime, &next);
    let mut effects = Vec::new();
    let mut update =
        runtime.begin_peer_budget_update(next, permits, blocked, false, false, &mut effects);
    runtime.install_peer_budget_update(&mut update, &mut effects);
    runtime.fleet.cut_live_work(&update.live, &"interface is missing".to_string());
    runtime.fleet.verify_nothing_works("work goes on").unwrap();
    runtime.commit_peer_budget_update(&mut effects);
    assert_ne!(runtime.permits.global.id, old_global.id);
    assert_eq!(runtime.permits.global.limit, 1);
    assert!(!runtime.engine_running_for_test(&hash));
    assert!(runtime.seeder_registries_empty());
    let cut = torrent(&runtime, &hash);
    assert_eq!(cut.state, TorrentState::NetworkBlocked);
    assert_eq!(
        cut.containment_recovery_intent,
        Some(ContainmentRecoveryIntent::Downloading)
    );
    assert!(!runtime.network_health.traffic_allowed);
}

#[test]
fn active_engine_patch_reconstructs_on_commit_and_exactly_rolls_back_failure() {
    let mut runtime = limited_daemon();
    let mut active = Torrent::new(
        meta("active-peer-reconfiguration.bin", b"generated active engine fixture", 8),
        1,
    );
    active.state = TorrentState::Downloading;
    let hash = enter(&mut runtime, active);
    runtime.fleet.queue.add(hash);
    run(&mut runtime, hash);
    let (order, bypass) =
        (runtime.fleet.queue.order.clone(), runtime.fleet.queue.bypass.clone());
    let initial_global = runtime.permits.global;
    let mut effects = Vec::new();
    let mut next = runtime.config.clone();
    next.bandwidth = peers(1);
    let permits = rebuilt_permits(&runtime, &next);
    let mut update =
        runtime.begin_peer_budget_update(next, permits, open_health(), false, true, &mut effects);
    assert!(!runtime.engine_running_for_test(&hash));
    runtime.install_peer_budget_update(&mut update, &mut effects);
    for prior in &update.live.downloads {
        runtime.fleet.prepare_download_again(prior).unwrap();
        assert!(runtime.fleet.admit_engine(prior.hash, false, &mut effects));
    }
    runtime.fleet.restore_live_lifecycle(&update.live).unwrap();
    runtime.fleet.verify_live_peer_work(&update.live).unwrap();
    runtime.commit_peer_budget_update(&mut effects);
    assert!(runtime.engine_running_for_test(&hash));
    assert_eq!(runtime.permits.global.limit, 1);

    let committed_global = runtime.permits.global;
    assert_ne!(committed_global.id, initial_global.id);
    let before = torrent(&runtime, &hash).clone();
    let mut next = runtime.config.clone();
    next.bandwidth = peers(2);
    let permits = build_peer_permit_configuration(
        &runtime.fleet.registry,
        &next,
        BUILT_IN_PEER_LIMIT,
        900,
        Ok(()),
        Ok(()),
    )
    .unwrap();
    let mut update =
        runtime.begin_peer_budget_update(next, permits, open_health(), false, true, &mut effects);
    runtime.install_peer_budget_update(&mut update, &mut effects);
    let live = runtime.roll_back_peer_budget_update(update, &mut effects);
    for prior in &live.downloads {
        runtime.fleet.prepare_download_again(prior).unwrap();
        assert!(runtime.fleet.admit_engine(prior.hash, false, &mut effects));
    }
    runtime.fleet.restore_live_lifecycle(&live).unwrap();
    assert_eq!(runtime.permits.global, committed_global);
    assert!(runtime.engine_running_for_test(&hash));
    let after = torrent(&runtime, &hash);
    assert_eq!(after.state, before.state);
    assert_eq!(after.error, before.error);
    assert_eq!(after.containment_recovery_intent, before.containment_recovery_intent);
    assert_eq!(runtime.fleet.queue.order, order);
    assert_eq!(runtime.fleet.queue.bypass, bypass);
}

#[test]
fn peer_limit_changes_go_through_their_stages() {
    let stage = PeerBudgetStage::Draining;
    let stage = stage.advance(true, true);
    assert!(matches!(stage, PeerBudgetStage::Rebuilding));
    let stage = stage.advance(true, true);
    assert!(matches!(stage, PeerBudgetStage::Verifying));
    let stage = stage.advance(true, true);
    assert!(matches!(stage, PeerBudgetStage::Persisting));
    assert!(matches!(stage.advance(true, true), PeerBudgetStage::Committed));
    assert!(matches!(
        PeerBudgetStage::Verifying.advance(true, false),
        PeerBudgetStage::Committed
    ));
    assert!(matches!(
        PeerBudgetStage::Rebuilding.advance(false, true),
        PeerBudgetStage::RolledBack
    ));
    match peer_budget_failure(PeerBudgetStage::Rebuilding, "cause", "restored", "untouched") {
        CoreError::Internal(message) => assert!(message.contains("cause")),
        other => panic!("unexpected: {other:?}"),
    }
}

#[test]
fn replace_config_preserves_and_redacts_auth_token() {
    let mut cfg = config();
    cfg.api.auth_token = Some("existing-token".to_string());
    cfg.api.require_auth = true;
    let mut runtime = daemon_with(cfg, disabled_health());

    let mut next = runtime.config.clone();
    next.api.auth_token = None;
    next.api.require_auth = true;
    let fields = restart_required_fields(&runtime.config, &next);
    let mut effects = Vec::new();
    runtime.replace_config(next, &disabled_health(), &HashIndex::new(), &mut effects);
    let result = config_update_result(&None, fields, runtime.config.clone());

    assert_eq!(runtime.config.api.auth_token.as_deref(), Some("existing-token"));
    assert_eq!(result.config.api.auth_token, None);
}

#[test]
fn a_change_of_the_budgets_keeps_the_token() {
    let mut runtime = limited_daemon();
    runtime.config.api.auth_token = Some("existing-token".to_string());
    let mut next = runtime.config.clone();
    next.api.auth_token = None;
    next.bandwidth.max_peers = 1;
    let change = begin_change(&mut runtime, next, false);
    let mut effects = Vec::new();
    runtime.apply_peer_budget_runtime_update(change, true, &mut effects);
    assert_eq!(runtime.config.bandwidth.max_peers, 1);
    assert_eq!(runtime.config.api.auth_token.as_deref(), Some("existing-token"));
}

fn active_engine(runtime: &mut DaemonRuntime) -> InfoHash {
    let mut active = Torrent::new(
        meta("active-peer-reconfiguration.bin", b"generated active engine fixture", 8),
        1,
    );
    active.state = TorrentState::Downloading;
    let hash = enter(runtime, active);
    runtime.fleet.queue.add(hash);
    run(runtime, hash);
    hash
}

/// Takes a change through its stages until the one at which it fails, and sets up what is asked
/// for. Returns whether it held, the stage it failed at, and whether the file was written.
fn take_through(
    runtime: &mut DaemonRuntime,
    next: Config,
    failing: Option<PeerBudgetStage>,
) -> (bool, PeerBudgetStage, bool) {
    let mut change = begin_change(runtime, next, true);
    let mut effects = Vec::new();
    let mut written = false;
    loop {
        let stage = change.stage;
        let good = failing != Some(stage);
        if stage == PeerBudgetStage::Persisting && good {
            written = true;
        }
        match runtime.apply_peer_budget_runtime_update(change, good, &mut effects) {
            ChangeStep::SetUp(after) => {
                set_up(runtime, &after.update.live);
                runtime.verify_peer_budget_change(&after, &Vec::new(), &Vec::new()).unwrap();
                change = after;
            }
            ChangeStep::Check(after) | ChangeStep::Write(after) => change = after,
            ChangeStep::Committed => return (true, stage, written),
            ChangeStep::SetBack(live) => {
                set_up(runtime, &live);
                runtime.fleet.verify_live_peer_work(&live).unwrap();
                return (false, stage, written);
            }
        }
    }
}

#[test]
fn active_engine_put_reconstructs_persists_and_rolls_back_failure() {
    let mut runtime = limited_daemon();
    let hash = active_engine(&mut runtime);
    let mut next = runtime.config.clone();
    next.bandwidth = peers(1);
    let (held, _, written) = take_through(&mut runtime, next, None);
    assert!(held && written);
    assert_eq!(runtime.permits.global.limit, 1);
    assert!(runtime.engine_running_for_test(&hash));
    assert_eq!(runtime.config.bandwidth.max_peers, 1);

    let committed = runtime.peer_permit_pools_for_test(&hash).unwrap();
    let before = torrent(&runtime, &hash).clone();
    for failing in [PeerBudgetStage::Rebuilding, PeerBudgetStage::Persisting] {
        let mut rejected = runtime.config.clone();
        rejected.bandwidth = peers(2);
        let (held, stage, written) = take_through(&mut runtime, rejected, Some(failing));
        assert!(!held && !written);
        assert_eq!(stage, failing);
        assert_eq!(runtime.config.bandwidth.max_peers, 1);
        assert_eq!(runtime.peer_permit_pools_for_test(&hash).unwrap(), committed);
        assert!(runtime.engine_running_for_test(&hash));
        let after = torrent(&runtime, &hash);
        assert_eq!(after.state, before.state);
        assert_eq!(after.error, before.error);
        assert_eq!(after.containment_recovery_intent, before.containment_recovery_intent);
    }
    match peer_budget_failure(PeerBudgetStage::Persisting, "disk is full", "Ok(())", "Ok(())") {
        CoreError::Internal(message) => assert!(message.contains("persistence failed")),
        other => panic!("unexpected: {other:?}"),
    }
}

#[test]
fn combined_peer_and_occupied_listener_update_rolls_back_live_seeder() {
    let mut runtime = limited_daemon();
    let hash = seeding(&mut runtime, "peer-reconfiguration-seed.bin");
    let pools = runtime.peer_permit_pools_for_test(&hash).unwrap();
    let before = torrent(&runtime, &hash).clone();
    let port = runtime.config.torrent.listen_port;
    let mut next = runtime.config.clone();
    next.bandwidth.max_peers = 1;
    next.torrent.listen_port = 7000;
    let change = begin_change(&mut runtime, next, true);
    let mut effects = Vec::new();
    let change = match runtime.apply_peer_budget_runtime_update(change, true, &mut effects) {
        ChangeStep::SetUp(change) => change,
        other => panic!("unexpected: {other:?}"),
    };
    assert_eq!(change.rebuild, Rebuild::Eligible);
    assert_eq!(runtime.config.torrent.listen_port, 7000);
    runtime.fleet.begin_seeder(hash);
    let bound = listener_outcome(ListenerBind::Failed);
    assert!(bound.is_err());
    runtime.fleet.refuse_seeder(hash);
    let expected = vec![hash];
    assert!(runtime.verify_peer_budget_change(&change, &Vec::new(), &expected).is_err());
    let stage = change.stage;
    let live = match runtime.apply_peer_budget_runtime_update(change, false, &mut effects) {
        ChangeStep::SetBack(live) => live,
        other => panic!("unexpected: {other:?}"),
    };
    set_up(&mut runtime, &live);
    match peer_budget_failure(stage, "listener failed to bind", "Ok(())", "Ok(())") {
        CoreError::Internal(message) => assert!(message.contains("reconstruction failed")),
        other => panic!("unexpected: {other:?}"),
    }
    assert_eq!(runtime.peer_permit_pools_for_test(&hash).unwrap(), pools);
    assert_eq!(runtime.config.torrent.listen_port, port);
    assert_eq!(runtime.config.bandwidth.max_peers, 3);
    assert!(runtime.fleet.seeders.contains(&hash));
    let after = torrent(&runtime, &hash);
    assert_eq!(after.state, before.state);
    assert_eq!(after.seeding_status, before.seeding_status);
    assert_eq!(after.error, before.error);
    assert_eq!(after.containment_recovery_intent, before.containment_recovery_intent);
}

#[test]
fn failed_candidate_seeder_ownership_does_not_survive_state_reload() {
    let mut runtime = limited_daemon();
    let mut hashes = Vec::new();
    for (name, payload) in [
        ("state-rollback-one.bin", b"generated state rollback one"),
        ("state-rollback-two.bin", b"generated state rollback two"),
    ] {
        hashes.push((add_complete(&mut runtime, name, payload), SeedDecision::Continue));
    }
    settle_uploads(&mut runtime, &hashes);
    assert_eq!(runtime.fleet.seeders.len(), 1);
    let prior_live = runtime.fleet.seeders.key_at(0);
    let candidate_only = if hashes[0].0 == prior_live { hashes[1].0 } else { hashes[0].0 };

    let mut next = runtime.config.clone();
    next.bandwidth.max_peers = 1;
    next.queue.max_active_seeds = 2;
    let mut change = begin_change(&mut runtime, next, true);
    let mut effects = Vec::new();
    let live = loop {
        let good = change.stage != PeerBudgetStage::Persisting;
        match runtime.apply_peer_budget_runtime_update(change, good, &mut effects) {
            ChangeStep::SetUp(after) => {
                settle_uploads(&mut runtime, &hashes);
                assert_eq!(runtime.fleet.seeders.len(), 2);
                change = after;
            }
            ChangeStep::Check(after) | ChangeStep::Write(after) => change = after,
            ChangeStep::Committed => panic!("a failed change was committed"),
            ChangeStep::SetBack(live) => break live,
        }
    };
    set_up(&mut runtime, &live);
    assert_eq!(runtime.fleet.seeders.len(), 1);
    let kept_live = torrent(&runtime, &prior_live).clone();
    let kept_candidate = torrent(&runtime, &candidate_only).clone();
    assert_eq!(kept_live.state, TorrentState::Seeding);
    assert_eq!(kept_live.seeding_status, SeedingStatus::Active);
    assert_eq!(kept_candidate.state, TorrentState::Completed);
    assert_eq!(kept_candidate.seeding_status, SeedingStatus::Queued);

    let mut restored = limited_daemon();
    let registry = restore_torrents(vec![stored(kept_live), stored(kept_candidate)], true).unwrap();
    let queue = runtime.fleet.queue;
    assert_eq!(restored.restore_persisted_state(registry, queue, Ok(()), Ok(()), 1).unwrap(), 2);
    for hash in restored.restored_to_verify() {
        let pieces = torrent(&restored, &hash).meta.piece_count;
        restored.verify_restored_torrent(hash, PayloadCheck::Read(vec![true; pieces]));
    }
    settle_uploads(&mut restored, &hashes);
    assert_eq!(restored.fleet.seeders.len(), 1);
    let statuses: Vec<SeedingStatus> =
        hashes.iter().map(|known| torrent(&restored, &known.0).seeding_status).collect();
    assert_eq!(statuses.iter().filter(|status| **status == SeedingStatus::Active).count(), 1);
    assert_eq!(statuses.iter().filter(|status| **status == SeedingStatus::Queued).count(), 1);
}

// Operations on single torrents.

fn not_found<T>(outcome: &Result<T, CoreError>) -> bool {
    matches!(outcome, Err(CoreError::NotFound(message)) if message == "torrent")
}

fn two_files(runtime: &mut DaemonRuntime) -> InfoHash {
    let meta = multi_file_meta("pair", &[("a.bin", 8), ("b.bin", 8)], 8);
    let hash = enter(runtime, Torrent::new(meta, 1));
    runtime.fleet.queue.add(hash);
    hash
}

#[test]
fn files_are_wanted_and_ordered_one_by_one() {
    let mut runtime = daemon();
    let hash = two_files(&mut runtime);
    assert_eq!(runtime.fleet.set_wanted(hash, &vec![1], false), Ok(false));
    assert_eq!(torrent(&runtime, &hash).wanted, vec![true, false]);
    change(&mut runtime, &hash, |torrent| torrent.state = TorrentState::Downloading);
    assert_eq!(runtime.fleet.set_priority(hash, &vec![0], FilePriority::High), Ok(true));
    let files = runtime.fleet.list_files(&hash).unwrap();
    assert!(files[0].wanted && !files[1].wanted);
    assert_eq!(files[0].priority, FilePriority::High);
    assert_eq!(files[1].priority, FilePriority::Normal);

    let beyond = runtime.fleet.set_wanted(hash, &vec![0, 2], false);
    assert_eq!(beyond, Err(CoreError::NotFound("torrent file".to_string())));
    assert_eq!(torrent(&runtime, &hash).wanted, vec![true, false]);
    let stranger = scale_hash(99);
    assert!(not_found(&runtime.fleet.set_wanted(stranger, &vec![0], true)));
    assert!(not_found(&runtime.fleet.set_priority(stranger, &vec![0], FilePriority::Low)));
    assert!(runtime.fleet.list_files(&stranger).is_none());
}

#[test]
fn torrents_move_within_the_queue() {
    let mut runtime = daemon();
    let names = ["one", "two", "three"];
    let hashes: Vec<InfoHash> = names
        .iter()
        .map(|name| {
            let hash = enter(&mut runtime, Torrent::new(meta(name, b"queued payload", 8), 1));
            runtime.fleet.queue.add(hash);
            hash
        })
        .collect();
    let (a, b, c) = (hashes[0], hashes[1], hashes[2]);
    runtime.fleet.queue_move(c, QueueMove::Up).unwrap();
    assert_eq!(runtime.fleet.queue.order, vec![a, c, b]);
    runtime.fleet.queue_move(a, QueueMove::Down).unwrap();
    assert_eq!(runtime.fleet.queue.order, vec![c, a, b]);
    runtime.fleet.queue_move(b, QueueMove::Top).unwrap();
    assert_eq!(runtime.fleet.queue.order, vec![b, c, a]);
    runtime.fleet.queue_move(b, QueueMove::Bottom).unwrap();
    assert_eq!(runtime.fleet.queue.order, vec![c, a, b]);
    assert!(not_found(&runtime.fleet.queue_move(scale_hash(99), QueueMove::Top)));
}

#[test]
fn trackers_are_added_replaced_and_removed() {
    let mut runtime = daemon();
    let hash = two_files(&mut runtime);
    runtime.fleet.add_tracker(hash, "udp://first".to_string()).unwrap();
    runtime.fleet.add_tracker(hash, "udp://second".to_string()).unwrap();
    runtime.fleet.add_tracker(hash, "udp://third".to_string()).unwrap();
    assert_eq!(torrent(&runtime, &hash).meta.announce.as_deref(), Some("udp://first"));
    assert_eq!(
        torrent(&runtime, &hash).meta.announce_list,
        vec![vec!["udp://second".to_string()], vec!["udp://third".to_string()]]
    );
    runtime.fleet.edit_tracker(hash, "udp://first", "udp://main".to_string()).unwrap();
    runtime.fleet.edit_tracker(hash, "udp://second", "udp://spare".to_string()).unwrap();
    assert_eq!(torrent(&runtime, &hash).meta.announce.as_deref(), Some("udp://main"));
    assert_eq!(torrent(&runtime, &hash).meta.announce_list[0], vec!["udp://spare".to_string()]);
    runtime.fleet.remove_tracker(hash, "udp://main").unwrap();
    runtime.fleet.remove_tracker(hash, "udp://spare").unwrap();
    assert_eq!(torrent(&runtime, &hash).meta.announce, None);
    assert_eq!(
        torrent(&runtime, &hash).meta.announce_list,
        vec![vec!["udp://third".to_string()]]
    );
    let stranger = scale_hash(99);
    assert!(not_found(&runtime.fleet.add_tracker(stranger, "udp://first".to_string())));
    assert!(not_found(&runtime.fleet.remove_tracker(stranger, "udp://first")));
    assert!(not_found(&runtime.fleet.edit_tracker(stranger, "udp://first", String::new())));
}

#[test]
fn announcing_anew_wakes_a_torrent_without_an_engine() {
    let mut runtime = daemon();
    let hash = two_files(&mut runtime);
    run(&mut runtime, hash);
    assert_eq!(runtime.fleet.reannounce(hash), Ok(None));
    let mut effects = Vec::new();
    let paused = runtime.fleet.pause(hash, &mut effects).unwrap();
    assert_eq!(paused.tell, Tell::Moved(TorrentState::Paused));
    assert_eq!(torrent(&runtime, &hash).state, TorrentState::Paused);
    let follow = runtime.fleet.reannounce(hash).unwrap().unwrap();
    assert!(follow.reconcile_queue && follow.reconcile_seeders);
    assert_eq!(follow.tell, Tell::Standing);
    assert_eq!(torrent(&runtime, &hash).state, TorrentState::Queued);
    assert!(not_found(&runtime.fleet.reannounce(scale_hash(99))));
}

#[test]
fn a_manual_stop_outlasts_reconciliation() {
    let mut runtime = daemon_with(config(), open_health());
    let hash = seeding(&mut runtime, "stopped-by-hand.bin");
    let mut effects = Vec::new();
    runtime.fleet.pause(hash, &mut effects).unwrap();
    assert!(!runtime.fleet.seeders.contains(&hash));
    settle_uploads(&mut runtime, &[(hash, SeedDecision::Continue)]);
    assert_eq!(torrent(&runtime, &hash).state, TorrentState::Paused);
    assert_eq!(torrent(&runtime, &hash).seeding_status, SeedingStatus::StoppedManual);
    assert!(!runtime.fleet.seeders.contains(&hash));
    runtime.fleet.start_now(hash).unwrap();
    settle_uploads(&mut runtime, &[(hash, SeedDecision::Continue)]);
    assert!(runtime.fleet.seeders.contains(&hash));
}

#[test]
fn single_settings_are_replaced() {
    let mut before = config();
    before.bandwidth.effective_download = 9;
    let seeding =
        SeedingConfig { global_ratio_limit: Some(1.5f64.to_bits()), global_idle_limit: Some(60) };
    let patch =
        SettingsPatch { bandwidth: None, queue: None, seeding: Some(seeding), autopilot_mode: None };
    let next = update_settings(&before, patch);
    assert_eq!(next.seeding, seeding);
    assert_eq!(next.bandwidth, before.bandwidth);
    assert_eq!(next.queue, before.queue);
    assert!(matches!(choose_replacement(&before, &next), ReplacementPath::Swap));
    let rates = BandwidthConfig { effective_download: 100, effective_upload: 50, ..peers(0) };
    let patch =
        SettingsPatch { bandwidth: Some(rates), queue: None, seeding: None, autopilot_mode: None };
    let next = update_settings(&next, patch);
    assert_eq!(next.seeding, seeding);
    assert_eq!(next.bandwidth, rates);
    let mut runtime = daemon_with(next, disabled_health());
    let mut effects = Vec::new();
    runtime.apply_queue_limits(&mut effects);
    assert_eq!(effects, vec![Effect::LimitRates { download: 100, upload: 50 }]);
}

#[test]
fn links_without_a_name_are_called_by_their_identity() {
    let link = MagnetLink {
        info_hash: unresolved_magnet_hash(),
        display_name: None,
        trackers: vec!["udp://one".to_string(), "udp://two".to_string()],
    };
    let made_up = magnet_placeholder(&link);
    assert_eq!(made_up.name, "95c6c298c84fee2eee10c044d673537da158f0f8");
    assert_eq!(made_up.content, b"magnet placeholder data");
    assert_eq!(made_up.piece_length, 16);
    assert_eq!(made_up.announce.as_deref(), Some("udp://one"));
    assert!(!made_up.private);
    let waiting = magnet_torrent(link);
    assert!(waiting.needs_metadata);
    assert_eq!(waiting.meta.info_hash, unresolved_magnet_hash());
    assert_eq!(waiting.magnet_info_hash, Some(unresolved_magnet_hash()));
    assert_eq!(waiting.meta.total_length, 23);
    assert_eq!(
        waiting.magnet_name.as_deref(),
        Some("95c6c298c84fee2eee10c044d673537da158f0f8")
    );
    assert_eq!(waiting.magnet_trackers, vec!["udp://one", "udp://two"]);
}

#[test]
fn an_upload_named_twice_is_ended_once() {
    let mut runtime = daemon_with(config(), open_health());
    let hash = seeding(&mut runtime, "twice.bin");
    let mut effects = Vec::new();
    runtime.fleet.deactivate_seeders_after_listener_failure(
        &vec![hash, hash],
        &"port is taken".to_string(),
        &mut effects,
    );
    assert_eq!(effects, vec![Effect::StopSeeder { hash, force: true }]);
    assert_eq!(torrent(&runtime, &hash).seeding_status, SeedingStatus::Queued);
    assert_eq!(notice_text(torrent(&runtime, &hash)).as_deref(), Some("port is taken"));
}

#[test]
fn a_moved_download_has_the_queue_looked_at_at_once() {
    let mut runtime = daemon_with(config(), open_health());
    let hash = active_engine(&mut runtime);
    let cfg = runtime.config.clone();
    let mut effects = Vec::new();
    let ticket =
        runtime.fleet.move_data(hash, "/new", Ok(()), &cfg, "/f", &mut effects).unwrap();
    runtime.fleet.enter_move(&ticket, "/new".to_string());
    let mut effects = Vec::new();
    runtime.fleet.finish_move(ticket, MoveEnd::Kept, &mut effects).unwrap();
    assert!(effects.contains(&Effect::ReconcileQueueNow));
    assert!(!effects.iter().any(|effect| matches!(effect, Effect::ReconcileQueue { .. })));
    assert_eq!(torrent(&runtime, &hash).state, TorrentState::Queued);
    assert_eq!(runtime.fleet.queue.bypass, vec![hash]);
}

#[test]
fn settings_beyond_the_files_do_not_matter() {
    let mut runtime = daemon();
    let hash = two_files(&mut runtime);
    change(&mut runtime, &hash, |torrent| {
        torrent.wanted.push(true);
        torrent.priorities.pop();
    });
    runtime.fleet.set_wanted(hash, &vec![0], false).unwrap();
    assert_eq!(torrent(&runtime, &hash).wanted, vec![false, true, true]);
    assert!(!torrent(&runtime, &hash).files[0].wanted);
    assert!(matches!(
        runtime.fleet.set_priority(hash, &vec![1], FilePriority::High),
        Err(CoreError::NotFound(_))
    ));
}

#[test]
fn changed_uploads_are_told() {
    let mut runtime = daemon_with(config(), open_health());
    let hash = seeding(&mut runtime, "told.bin");
    let before = runtime.fleet.standings();
    let mut effects = Vec::new();
    assert_eq!(runtime.fleet.tell_changed_standings(&before, &mut effects), 0);
    assert_eq!(effects, vec![Effect::Persist]);
    runtime.fleet.refuse_seeder(hash);
    assert!(runtime.fleet.seeders.is_empty() && !runtime.fleet.listener_running);
    runtime.fleet.postpone_seeder(hash, &"port is taken".to_string());
    assert_eq!(torrent(&runtime, &hash).seeding_status, SeedingStatus::Queued);
    assert_eq!(notice_text(torrent(&runtime, &hash)).as_deref(), Some("port is taken"));
    assert_eq!(runtime.fleet.tell_changed_standings(&before, &mut effects), 1);
    assert_eq!(event_kinds(&effects), vec!["torrent_changed", "stats_updated"]);
}

#[test]
fn recovered_uploads_start_below_their_directories() {
    let mut runtime = daemon_with(config(), open_health());
    let hash = seeding(&mut runtime, "again.bin");
    let mut cfg = config();
    cfg.storage.incomplete_dir = Some("/partial".to_string());
    let mut effects = Vec::new();
    let start = runtime
        .fleet
        .prepare_recovered_seeder_start(hash, SeedDecision::Continue, &cfg, "/f", &mut effects)
        .unwrap()
        .unwrap();
    assert_eq!(start.active_dir, "/partial");
    assert_eq!(start.complete_dir, "/d");
    let stopped = runtime
        .fleet
        .prepare_recovered_seeder_start(hash, SeedDecision::StopOnIdle, &cfg, "/f", &mut effects)
        .unwrap();
    assert!(stopped.is_none());
    assert_eq!(torrent(&runtime, &hash).seeding_status, SeedingStatus::StoppedIdle);
    assert_eq!(effects, vec![Effect::Persist]);
    let unknown = runtime.fleet.prepare_recovered_seeder_start(
        scale_hash(99),
        SeedDecision::Continue,
        &cfg,
        "/f",
        &mut effects,
    );
    assert!(not_found(&unknown));
}

#[test]
fn idle_time_counts_from_the_last_upload() {
    let mut done = finished_torrent("idle.bin", b"idle payload", "/d");
    done.date_completed = Some(400);
    assert_eq!(completion_age_seconds(&done, 1_000), 600);
    assert_eq!(idle_seconds(&done, None, NOW, 1_000), 600);
    assert_eq!(idle_seconds(&done, Some(sample_since(ago(9))), NOW, 1_000), 600);
    let mut uploaded = sample_since(ago(9));
    uploaded.last_upload_at = Some(ago(7));
    assert_eq!(idle_seconds(&done, Some(uploaded), NOW, 1_000), 7);
    done.date_completed = None;
    assert_eq!(idle_seconds(&done, None, NOW, 1_000), 999);
    assert_eq!(completion_age_seconds(&done, 0), 0);
}

#[test]
fn a_payload_that_cannot_be_removed_fails_its_torrent() {
    let mut runtime = daemon();
    let hash = two_files(&mut runtime);
    let mut cfg = config();
    let dirs = removal_dirs(torrent(&runtime, &hash), &cfg, "/f");
    assert_eq!(dirs, vec!["/f".to_string()]);
    cfg.storage.incomplete_dir = Some("/partial".to_string());
    let dirs = removal_dirs(torrent(&runtime, &hash), &cfg, "/f");
    assert_eq!(dirs, vec!["/partial".to_string(), "/f".to_string()]);
    let mut effects = Vec::new();
    runtime.fleet.fail_removal(hash, &"disk is gone".to_string(), &mut effects);
    assert_eq!(torrent(&runtime, &hash).state, TorrentState::StorageError);
    assert_eq!(notice_text(torrent(&runtime, &hash)).as_deref(), Some("disk is gone"));
    assert_eq!(effects, vec![Effect::Persist]);
    assert_eq!(removal_outcome(&vec![hash]), Ok(()));
    assert!(not_found(&removal_outcome(&Vec::new())));
}

#[test]
fn resolved_metadata_is_kept_only_once_it_is_stored() {
    let mut runtime = daemon();
    let link = magnet(5, "resolved");
    let hash = enter(&mut runtime, link);
    let mut resolved = multi_file_meta("resolved", &[("a.bin", 8), ("b.bin", 4)], 8);

    let strange = runtime.fleet.reserve_resolved_magnet_metadata(hash, resolved.clone(), Ok(()));
    assert!(matches!(strange, Err(CoreError::MalformedTorrent(_))));
    resolved.info_hash = hash;
    let clash = Err(CoreError::Storage("claimed".to_string()));
    let refused = runtime.fleet.reserve_resolved_magnet_metadata(hash, resolved.clone(), clash);
    assert_eq!(refused.err(), Some(CoreError::Storage("claimed".to_string())));
    assert!(torrent(&runtime, &hash).needs_metadata);

    let previous =
        runtime.fleet.reserve_resolved_magnet_metadata(hash, resolved.clone(), Ok(())).unwrap();
    assert_eq!(torrent(&runtime, &hash).files.len(), 2);
    assert!(!torrent(&runtime, &hash).needs_metadata);
    let mut effects = Vec::new();
    let unsaved = Err(CoreError::Storage("disk is full".to_string()));
    let outcome = runtime.fleet.finish_reservation(hash, previous, unsaved, &mut effects);
    assert!(outcome.is_err() && effects.is_empty());
    assert!(torrent(&runtime, &hash).needs_metadata);

    let previous =
        runtime.fleet.reserve_resolved_magnet_metadata(hash, resolved, Ok(())).unwrap();
    runtime.fleet.finish_reservation(hash, previous, Ok(()), &mut effects).unwrap();
    assert_eq!(event_kinds(&effects), vec!["torrent_metadata_received"]);
    assert_eq!(torrent(&runtime, &hash).meta.total_length, 12);
}

#[test]
fn the_network_path_is_told_as_it_is() {
    let mut cfg = config();
    cfg.dht.enabled = true;
    let mut runtime = daemon_with(cfg, open_health());
    assert!(runtime.containment_gate().traffic_allowed());
    assert!(runtime.dht_wanted());
    runtime.network_health.traffic_allowed = false;
    assert!(!runtime.dht_wanted());
    let mut effects = Vec::new();
    runtime.tell_network_status(&mut effects);
    tell_settings_changed(&mut effects);
    assert_eq!(
        event_kinds(&effects),
        vec!["network_status_changed", "stats_updated", "settings_changed", "stats_updated"]
    );
    assert_eq!(
        effects[0],
        Effect::Publish(Event::NetworkStatusChanged {
            status: NetworkContainmentStatus::Disabled,
            traffic_allowed: false,
            detail: "disabled".to_string(),
        })
    );
}

#[test]
fn work_is_not_set_up_behind_a_closed_path() {
    let mut runtime = daemon_with(config(), open_health());
    let nothing = runtime.fleet.live_peer_work_snapshot();
    let closed = NetworkHealth {
        mode: NetworkContainmentMode::Strict,
        traffic_allowed: false,
        detail: "tun0 is gone".to_string(),
        ..open_health()
    };
    assert_eq!(check_reconstruction(&nothing, &closed), Ok(false));
    seeding(&mut runtime, "live.bin");
    let live = runtime.fleet.live_peer_work_snapshot();
    assert_eq!(check_reconstruction(&live, &open_health()), Ok(true));
    assert_eq!(
        check_reconstruction(&live, &closed),
        Err(CoreError::Internal(
            "cannot reconstruct peer work while containment is blocked: tun0 is gone".to_string()
        ))
    );
}

#[test]
fn starting_a_paused_torrent_does_nothing() {
    let closed = NetworkHealth {
        mode: NetworkContainmentMode::Strict,
        status: NetworkContainmentStatus::InterfaceMissing,
        traffic_allowed: false,
        detail: "tun0 is gone".to_string(),
    };
    for health in [open_health(), closed.clone()] {
        let mut runtime = daemon_with(config(), health);
        let hash = two_files(&mut runtime);
        change(&mut runtime, &hash, |torrent| {
            torrent.state = TorrentState::Paused;
            torrent.error = Some(Notice::Text("kept".to_string()));
        });
        let mut effects = Vec::new();
        assert!(matches!(
            runtime.start_engine_while_transition_locked(hash, &mut effects),
            StartStep::Paused
        ));
        assert!(effects.is_empty() && runtime.engine_handles_empty());
        assert_eq!(torrent(&runtime, &hash).state, TorrentState::Paused);
        assert_eq!(notice_text(torrent(&runtime, &hash)).as_deref(), Some("kept"));
    }

    let mut runtime = daemon_with(config(), open_health());
    let hash = two_files(&mut runtime);
    let start = begin(&mut runtime, hash);
    change(&mut runtime, &hash, |torrent| torrent.state = TorrentState::Paused);
    let mut effects = Vec::new();
    let refusal = Some("disk is full".to_string());
    assert!(!runtime.launch_engine(&start, &vec![refusal.clone()], &None, &mut effects));
    assert!(!runtime.launch_engine(&start, &vec![None], &refusal, &mut effects));
    assert!(!runtime.launch_engine(&start, &vec![None], &None, &mut effects));
    assert!(effects.is_empty() && runtime.engine_handles_empty());
    assert_eq!(torrent(&runtime, &hash).state, TorrentState::Paused);

    let mut runtime = daemon_with(config(), closed);
    let running = active_engine(&mut runtime);
    assert!(matches!(
        runtime.start_engine_while_transition_locked(running, &mut effects),
        StartStep::Running
    ));
    assert_eq!(torrent(&runtime, &running).state, TorrentState::Downloading);
}

#[test]
fn every_other_finished_torrent_is_judged_anew() {
    let mut done = finished_torrent("waiting.bin", b"finished payload", "/d");
    done.state = TorrentState::Queued;
    let mut judged = stored(done);
    judged.decision = SeedDecision::StopOnIdle;
    let registry = restore_torrents(vec![judged], true).unwrap();
    assert_eq!(registry.value_at(0).state, TorrentState::Queued);
    assert_eq!(registry.value_at(0).seeding_status, SeedingStatus::StoppedIdle);
}

#[test]
fn a_finished_torrent_leaves_as_a_removed_one() {
    let prepared = || {
        let mut runtime = daemon_with(config(), open_health());
        let hash = seeding(&mut runtime, "leaving.bin");
        run(&mut runtime, hash);
        runtime.fleet.queue.start_now(&hash);
        runtime.fleet.retry_after.insert(hash, NOW);
        runtime.fleet.rate_samples.insert(hash, sample_since(ago(1)));
        note_autopilot_action(&mut runtime.autopilot_last_action, hash, NOW);
        (runtime, hash)
    };
    let mut effects = Vec::new();
    let (mut selfish, hash) = prepared();
    selfish.selfish_remove_completed(hash, &mut effects);
    let (mut removed, hash) = prepared();
    let targets = removed.begin_removal(&vec![hash], &mut effects);
    removed.forget_torrents(&targets);
    for runtime in [selfish, removed] {
        assert!(runtime.fleet.registry.is_empty());
        assert!(runtime.fleet.queue.order.is_empty() && runtime.fleet.queue.bypass.is_empty());
        assert!(runtime.engine_handles_empty() && runtime.seeder_registries_empty());
        assert!(runtime.fleet.retry_after.is_empty());
        assert!(runtime.fleet.rate_samples.is_empty());
        assert!(runtime.permits.per_torrent.is_empty());
        assert!(runtime.autopilot_last_action.is_empty());
        assert!(!runtime.fleet.listener_running);
    }
}

#[test]
fn targets_in_force_are_listed() {
    let mut runtime = daemon();
    let hash = two_files(&mut runtime);
    let limits =
        EffectiveLimits { ratio_limit: Some(2.0f64.to_bits()), idle_limit: Some(30) };
    let summary = runtime.fleet.get_torrent(&hash, limits).unwrap();
    assert_eq!(summary.effective_ratio_limit, Some(2.0f64.to_bits()));
    assert_eq!(summary.effective_idle_limit, Some(30));
    let mut index = HashIndex::new();
    index.insert(hash, limits);
    let listed = runtime.fleet.list_torrents(&index);
    assert_eq!(listed.len(), 1);
    assert_eq!(listed[0].effective_ratio_limit, Some(2.0f64.to_bits()));
    assert_eq!(listed[0].effective_idle_limit, Some(30));
    let bare = runtime.fleet.list_torrents(&HashIndex::new());
    assert_eq!(bare[0].effective_idle_limit, None);
}
