//! Starting an engine: admission, the checks to make first, and what becomes of the torrent.
use crate::config::{
    effective_per_torrent_peer_limit, resolve_download_dir_from_config,
    resolve_incomplete_dir_from_config, Config, PeerEncryptionMode,
};
use crate::effects::{Effect, Event, TorrentEventKind};
use crate::fleet::{EngineTask, Fleet, FleetView};
use crate::hash::InfoHash;
use crate::network::NetworkHealth;
use crate::paths::unique_pathbufs;
use crate::torrent::{FilePriority, Notice, Torrent, TorrentState};
use crate::copies::{copied, copied_texts};
use vstd::prelude::*;

verus! {

/// What a torrent without metadata is looked up by.
#[derive(Debug)]
pub struct MagnetParams {
    pub info_hash: InfoHash,
    pub name: String,
    pub trackers: Vec<String>,
}

/// How an engine is built.
#[derive(Debug)]
pub struct EngineStart {
    pub hash: InfoHash,
    pub complete_dir: String,
    pub active_dir: String,
    pub needs_metadata: bool,
    pub magnet: Option<MagnetParams>,
    pub priorities: Vec<FilePriority>,
    pub wanted: Vec<bool>,
    pub download_limit: u64,
    pub upload_limit: u64,
    pub listen_port: u16,
    pub preallocate: bool,
    pub sparse: bool,
    pub max_peer_workers: usize,
    pub allow_ipv6: bool,
    pub pex_enabled: bool,
    pub pex_max_peers: usize,
    pub utp_enabled: bool,
    pub utp_prefer_tcp: bool,
    pub encryption_mode: PeerEncryptionMode,
    pub minimum_free_space_bytes: u64,
    pub minimum_free_space_percent: u64,
    /// The bytes that must fit, in each of the directories to check.
    pub content_bytes: u64,
    pub check_dirs: Vec<String>,
}

/// What an attempt to start an engine comes to.
#[derive(Debug)]
pub enum StartStep {
    /// The torrent is paused; nothing is done.
    Paused,
    /// A task runs already; nothing is done.
    Running,
    /// Containment forbids it; the torrent is shown as blocked.
    Blocked,
    /// The torrent is not known.
    Unknown,
    /// Storage is to be checked, then the task built.
    Check(EngineStart),
}

/// What a torrent without metadata is looked up by: its own identity and name where the link
/// gave none.
pub open spec fn magnet_matches(torrent: Torrent, magnet: Option<MagnetParams>) -> bool {
    &&& magnet.is_some() == torrent.needs_metadata
    &&& magnet matches Some(magnet) ==> {
        &&& magnet.info_hash == torrent.magnet_info_hash.unwrap_or(torrent.meta.info_hash)
        &&& magnet.name == torrent.magnet_name.unwrap_or(torrent.meta.name)
        &&& magnet.trackers@ == torrent.magnet_trackers@
    }
}

/// What a torrent without metadata is looked up by.
pub fn magnet_params(torrent: &Torrent) -> (magnet: Option<MagnetParams>)
    ensures
        magnet_matches(*torrent, magnet),
{
    if !torrent.needs_metadata {
        return None;
    }
    let info_hash: InfoHash = match torrent.magnet_info_hash {
        Some(hash) => hash,
        None => torrent.meta.info_hash,
    };
    let name: String = match &torrent.magnet_name {
        Some(name) => name.clone(),
        None => torrent.meta.name.clone(),
    };
    Some(MagnetParams { info_hash, name, trackers: copied_texts(&torrent.magnet_trackers) })
}

/// The bytes that must fit before an engine starts; unknown until there is metadata.
pub open spec fn content_bytes_of(torrent: Torrent) -> u64 {
    if torrent.needs_metadata {
        0
    } else {
        torrent.meta.total_length
    }
}

/// The engine is built from the torrent and the configuration.
pub open spec fn start_matches(
    start: EngineStart,
    hash: InfoHash,
    torrent: Torrent,
    cfg: Config,
    fallback_dir: Seq<char>,
    built_in_peer_limit: usize,
) -> bool {
    let complete_dir = crate::config::complete_dir_of(
        crate::config::text_of(torrent.download_dir),
        cfg,
        fallback_dir,
    );
    let active_dir = crate::config::active_dir_of(complete_dir, cfg);
    let checked = content_bytes_of(torrent) > 0 || cfg.storage.minimum_free_space_bytes > 0
        || cfg.storage.minimum_free_space_percent > 0;
    &&& start.hash == hash
    &&& start.complete_dir@ == complete_dir
    &&& start.active_dir@ == active_dir
    &&& start.needs_metadata == torrent.needs_metadata
    &&& magnet_matches(torrent, start.magnet)
    &&& start.priorities@ == torrent.priorities@
    &&& start.wanted@ == torrent.wanted@
    &&& start.download_limit == torrent.download_limit
    &&& start.upload_limit == torrent.upload_limit
    &&& start.listen_port == cfg.torrent.listen_port
    &&& start.preallocate == cfg.storage.preallocate
    &&& start.sparse == cfg.storage.sparse
    &&& start.max_peer_workers == if cfg.bandwidth.max_peers_per_torrent == 0 {
        built_in_peer_limit
    } else {
        cfg.bandwidth.max_peers_per_torrent
    }
    &&& start.allow_ipv6 == (cfg.torrent.allow_ipv6 && cfg.network.allow_ipv6)
    &&& start.pex_enabled == cfg.pex.enabled
    &&& start.pex_max_peers == cfg.pex.max_peers
    &&& start.utp_enabled == cfg.torrent.utp_enabled
    &&& start.utp_prefer_tcp == cfg.torrent.utp_prefer_tcp
    &&& start.encryption_mode == cfg.torrent.encryption_mode
    &&& start.minimum_free_space_bytes == cfg.storage.minimum_free_space_bytes
    &&& start.minimum_free_space_percent == cfg.storage.minimum_free_space_percent
    &&& start.content_bytes == content_bytes_of(torrent)
    &&& start.check_dirs@ == if checked {
        crate::paths::firsts(seq![start.active_dir, start.complete_dir])
    } else {
        Seq::<String>::empty()
    }
}

fn plan_start(
    hash: InfoHash,
    torrent: &Torrent,
    cfg: &Config,
    fallback_dir: &str,
    built_in_peer_limit: usize,
) -> (start: EngineStart)
    ensures
        start_matches(start, hash, *torrent, *cfg, fallback_dir@, built_in_peer_limit),
{
    let own_dir: Option<&str> = match &torrent.download_dir {
        Some(dir) => Some(dir.as_str()),
        None => None,
    };
    let complete_dir: String = resolve_download_dir_from_config(own_dir, cfg, fallback_dir);
    let active_dir: String = resolve_incomplete_dir_from_config(complete_dir.as_str(), cfg);
    let content_bytes: u64 = if torrent.needs_metadata {
        0
    } else {
        torrent.meta.total_length
    };
    let checked: bool = content_bytes > 0 || cfg.storage.minimum_free_space_bytes > 0
        || cfg.storage.minimum_free_space_percent > 0;
    let mut check_dirs: Vec<String> = Vec::new();
    if checked {
        let mut dirs: Vec<String> = Vec::new();
        dirs.push(active_dir.clone());
        dirs.push(complete_dir.clone());
        assert(dirs@ =~= seq![active_dir, complete_dir]);
        check_dirs = unique_pathbufs(&dirs);
    }
    EngineStart {
        hash,
        complete_dir,
        active_dir,
        needs_metadata: torrent.needs_metadata,
        magnet: magnet_params(torrent),
        priorities: copied(&torrent.priorities),
        wanted: copied(&torrent.wanted),
        download_limit: torrent.download_limit,
        upload_limit: torrent.upload_limit,
        listen_port: cfg.torrent.listen_port,
        preallocate: cfg.storage.preallocate,
        sparse: cfg.storage.sparse,
        max_peer_workers: effective_per_torrent_peer_limit(
            cfg.bandwidth.max_peers_per_torrent,
            built_in_peer_limit,
        ),
        allow_ipv6: cfg.torrent.allow_ipv6 && cfg.network.allow_ipv6,
        pex_enabled: cfg.pex.enabled,
        pex_max_peers: cfg.pex.max_peers,
        utp_enabled: cfg.torrent.utp_enabled,
        utp_prefer_tcp: cfg.torrent.utp_prefer_tcp,
        encryption_mode: cfg.torrent.encryption_mode,
        minimum_free_space_bytes: cfg.storage.minimum_free_space_bytes,
        minimum_free_space_percent: cfg.storage.minimum_free_space_percent,
        content_bytes,
        check_dirs,
    }
}

/// A torrent that containment keeps from working.
pub open spec fn network_blocked(torrent: Torrent, detail: String) -> Torrent {
    Torrent { state: TorrentState::NetworkBlocked, error: Some(Notice::Text(detail)), ..torrent }
}

/// A torrent with a storage problem.
pub open spec fn storage_failed(torrent: Torrent, rendered: String) -> Torrent {
    Torrent { state: TorrentState::StorageError, error: Some(Notice::Text(rendered)), ..torrent }
}

/// What observers are told of a known torrent.
pub open spec fn told_if(
    known: bool,
    kind: TorrentEventKind,
    hash: InfoHash,
    state: TorrentState,
) -> Seq<Effect> {
    if known {
        seq![
            crate::effects::torrent_effect(kind, hash, state),
            crate::effects::stats_effect(),
        ]
    } else {
        Seq::<Effect>::empty()
    }
}

/// The first step of starting an engine was taken. A torrent that is paused or has a task is left
/// alone, and nothing starts while containment forbids it.
pub open spec fn engine_begun(
    found: FleetView,
    fleet: FleetView,
    step: StartStep,
    hash: InfoHash,
    health: NetworkHealth,
    cfg: Config,
    fallback_dir: Seq<char>,
    built_in_peer_limit: usize,
    asked: Seq<Effect>,
    told: Seq<Effect>,
) -> bool {
    let awake = FleetView { retry_after: found.retry_after.remove(hash), ..found };
    let paused = found.is_paused(hash);
    let running = found.engines.dom().contains(hash);
    match step {
        StartStep::Paused => {
            &&& paused
            &&& fleet == found
            &&& told == asked
        },
        StartStep::Running => {
            &&& !paused
            &&& running
            &&& fleet == found
            &&& told == asked
        },
        StartStep::Blocked => {
            &&& !paused
            &&& !running
            &&& !health.permits()
            &&& fleet == (FleetView {
                registry: crate::fleet::rewritten(
                    found.registry,
                    hash,
                    network_blocked(found.registry[hash], health.detail),
                ),
                ..found
            })
            &&& told == asked + told_if(
                found.registry.dom().contains(hash),
                TorrentEventKind::Changed,
                hash,
                TorrentState::NetworkBlocked,
            )
        },
        StartStep::Unknown => {
            &&& !running
            &&& health.permits()
            &&& !found.registry.dom().contains(hash)
            &&& fleet == awake
            &&& told == asked
        },
        StartStep::Check(start) => {
            &&& !paused
            &&& !running
            &&& health.permits()
            &&& found.registry.dom().contains(hash)
            &&& start_matches(
                start,
                hash,
                found.registry[hash],
                cfg,
                fallback_dir,
                built_in_peer_limit,
            )
            &&& fleet == awake
            &&& told == asked
        },
    }
}

impl FleetView {
    /// The torrent is known and paused.
    pub open spec fn is_paused(self, hash: InfoHash) -> bool {
        self.registry.dom().contains(hash) && self.registry[hash].state == TorrentState::Paused
    }

    /// With a task for a torrent entered, if the torrent is still to download. A torrent that
    /// waited downloads from then on.
    pub open spec fn engine_entered(self, hash: InfoHash, needs_metadata: bool) -> FleetView {
        let entered = FleetView {
            engines: self.engines.insert(hash, EngineTask { finished: false }),
            ..self
        };
        if !self.may_retry(hash) {
            entered.work_stopped(hash)
        } else if self.registry[hash].state == TorrentState::Queued {
            FleetView {
                registry: self.registry.insert(
                    hash,
                    Torrent {
                        state: started_state(needs_metadata),
                        error: None,
                        containment_recovery_intent: None,
                        ..self.registry[hash]
                    },
                ),
                ..entered
            }
        } else {
            entered
        }
    }

    /// What entering a task for a torrent asks for.
    pub open spec fn engine_entry_effects(self, hash: InfoHash, needs_metadata: bool) -> Seq<
        Effect,
    > {
        let entered = FleetView {
            engines: self.engines.insert(hash, EngineTask { finished: false }),
            ..self
        };
        if !self.may_retry(hash) {
            entered.work_stop_effects(hash, true)
        } else {
            told_if(
                self.registry[hash].state == TorrentState::Queued,
                TorrentEventKind::Changed,
                hash,
                started_state(needs_metadata),
            ) + seq![Effect::RunEngine { hash }]
        }
    }

    /// With a torrent whose storage cannot be used.
    pub open spec fn storage_refused(self, hash: InfoHash, rendered: String) -> FleetView {
        FleetView {
            registry: crate::fleet::rewritten(
                self.registry,
                hash,
                storage_failed(self.registry[hash], rendered),
            ),
            ..self
        }
    }
}

impl Fleet {
    /// Whether a torrent is known and paused.
    pub fn is_paused(&self, hash: &InfoHash) -> (paused: bool)
        requires
            self.wf(),
        ensures
            paused == self@.is_paused(*hash),
    {
        match self.registry.get(hash) {
            Some(torrent) => torrent.state == TorrentState::Paused,
            None => false,
        }
    }

    /// The first step of starting an engine. A torrent that is paused or has a task is left
    /// alone, and nothing starts while containment forbids it.
    pub fn begin_engine(
        &mut self,
        hash: InfoHash,
        health: &NetworkHealth,
        cfg: &Config,
        fallback_dir: &str,
        built_in_peer_limit: usize,
        effects: &mut Vec<Effect>,
    ) -> (step: StartStep)
        requires
            old(self).wf(),
        ensures
            final(self).wf(),
            engine_begun(
                old(self)@,
                final(self)@,
                step,
                hash,
                *health,
                *cfg,
                fallback_dir@,
                built_in_peer_limit,
                old(effects)@,
                final(effects)@,
            ),
    {
        if self.is_paused(&hash) {
            return StartStep::Paused;
        }
        if self.engines.contains(&hash) {
            return StartStep::Running;
        }
        if !health.permits_traffic() {
            if let Some(position) = self.registry.find(&hash) {
                let torrent: &mut Torrent = self.registry.value_at_mut(position);
                torrent.state = TorrentState::NetworkBlocked;
                torrent.error = Some(Notice::Text(health.detail.clone()));
                effects.push(
                    Effect::Publish(
                        Event::Torrent {
                            kind: TorrentEventKind::Changed,
                            hash,
                            state: TorrentState::NetworkBlocked,
                        },
                    ),
                );
                effects.push(Effect::Publish(Event::StatsUpdated));
            }
            assert(effects@ =~= old(effects)@ + told_if(
                old(self)@.registry.dom().contains(hash),
                TorrentEventKind::Changed,
                hash,
                TorrentState::NetworkBlocked,
            ));
            return StartStep::Blocked;
        }
        let _ = self.retry_after.remove(&hash);
        match self.registry.get(&hash) {
            Some(torrent) => StartStep::Check(
                plan_start(hash, torrent, cfg, fallback_dir, built_in_peer_limit),
            ),
            None => StartStep::Unknown,
        }
    }

    /// Storage refused the engine, before it was built or while it was.
    pub fn refuse_engine(
        &mut self,
        hash: InfoHash,
        rendered: &String,
        kind: TorrentEventKind,
        effects: &mut Vec<Effect>,
    )
        requires
            old(self).wf(),
        ensures
            final(self).wf(),
            final(self)@ == old(self)@.storage_refused(hash, *rendered),
            final(effects)@ == old(effects)@ + told_if(
                true,
                kind,
                hash,
                TorrentState::StorageError,
            ),
    {
        if let Some(position) = self.registry.find(&hash) {
            let torrent: &mut Torrent = self.registry.value_at_mut(position);
            torrent.state = TorrentState::StorageError;
            torrent.error = Some(Notice::Text(rendered.clone()));
        }
        effects.push(
            Effect::Publish(Event::Torrent { kind, hash, state: TorrentState::StorageError }),
        );
        effects.push(Effect::Publish(Event::StatsUpdated));
        assert(effects@ =~= old(effects)@ + told_if(true, kind, hash, TorrentState::StorageError));
    }

    /// Enters the task of an engine that was built, and returns whether it may run. A torrent
    /// that was removed, paused or stopped in the meantime loses the task again.
    pub fn admit_engine(
        &mut self,
        hash: InfoHash,
        needs_metadata: bool,
        effects: &mut Vec<Effect>,
    ) -> (run: bool)
        requires
            old(self).wf(),
        ensures
            final(self).wf(),
            run == old(self)@.may_retry(hash),
            final(self)@ == old(self)@.engine_entered(hash, needs_metadata),
            final(effects)@ == old(effects)@ + old(self)@.engine_entry_effects(
                hash,
                needs_metadata,
            ),
    {
        self.engines.insert(hash, EngineTask { finished: false });
        let mut waiting: bool = false;
        let mut run: bool = false;
        if let Some(position) = self.registry.find(&hash) {
            let state: TorrentState = self.registry.value_at(position).state;
            waiting = state == TorrentState::Queued;
            run = waiting || matches!(
                state,
                TorrentState::Downloading | TorrentState::DownloadingMetadata
            );
            if waiting {
                let torrent: &mut Torrent = self.registry.value_at_mut(position);
                torrent.containment_recovery_intent = None;
                torrent.state = if needs_metadata {
                    TorrentState::DownloadingMetadata
                } else {
                    TorrentState::Downloading
                };
                torrent.error = None;
            }
        }
        if !run {
            self.stop_work(&hash, true, effects);
            return false;
        }
        if waiting {
            let state: TorrentState = if needs_metadata {
                TorrentState::DownloadingMetadata
            } else {
                TorrentState::Downloading
            };
            effects.push(
                Effect::Publish(Event::Torrent { kind: TorrentEventKind::Changed, hash, state }),
            );
            effects.push(Effect::Publish(Event::StatsUpdated));
        }
        effects.push(Effect::RunEngine { hash });
        assert(effects@ =~= old(effects)@ + told_if(
            waiting,
            TorrentEventKind::Changed,
            hash,
            started_state(needs_metadata),
        ) + seq![Effect::RunEngine { hash }]);
        true
    }
}

/// The state of a torrent whose engine starts.
pub open spec fn started_state(needs_metadata: bool) -> TorrentState {
    if needs_metadata {
        TorrentState::DownloadingMetadata
    } else {
        TorrentState::Downloading
    }
}

/// An engine that was built runs where its torrent still waits or downloads. A waiting torrent then
/// is shown as looking for metadata or downloading, without an error; a downloading one stays as it
/// is. Where the torrent is gone, was stopped or is over, no task is left.
pub proof fn entered_engines_run(
    fleet: FleetView,
    hash: InfoHash,
    needs_metadata: bool,
    other: InfoHash,
)
    requires
        other != hash,
    ensures
        ({
            let after = fleet.engine_entered(hash, needs_metadata);
            let was = fleet.registry[hash];
            let known = fleet.registry.dom().contains(hash);
            let waits = known && was.state == TorrentState::Queued;
            let fetches = known && (was.state == TorrentState::Downloading || was.state
                == TorrentState::DownloadingMetadata);
            &&& after.engines.dom().contains(hash) == (waits || fetches)
            &&& waits || fetches ==> !after.engines[hash].finished
            &&& waits ==> after.registry[hash] == (Torrent {
                state: if needs_metadata {
                    TorrentState::DownloadingMetadata
                } else {
                    TorrentState::Downloading
                },
                error: None,
                containment_recovery_intent: None,
                ..was
            })
            &&& known && !waits && was.state != TorrentState::Seeding ==> after.registry[hash]
                == was
            &&& waits || fetches ==> after.retry_after == fleet.retry_after && after.seeders
                == fleet.seeders && after.rate_samples == fleet.rate_samples
            &&& !(waits || fetches) ==> !after.retry_after.dom().contains(hash)
                && !after.seeders.dom().contains(hash)
            &&& after.queue == fleet.queue
            &&& after.engines.dom().contains(other) == fleet.engines.dom().contains(other)
            &&& fleet.registry.dom().contains(other) ==> after.registry[other]
                == fleet.registry[other]
        }),
{
}

/// A torrent that storage refuses is held by storage with the reason, and its work and its place
/// in the queue stay as they are.
pub proof fn refused_storage_holds_torrents(fleet: FleetView, hash: InfoHash, rendered: String)
    requires
        fleet.registry.dom().contains(hash),
    ensures
        ({
            let after = fleet.storage_refused(hash, rendered);
            &&& after.registry[hash] == (Torrent {
                state: TorrentState::StorageError,
                error: Some(Notice::Text(rendered)),
                ..fleet.registry[hash]
            })
            &&& after.engines == fleet.engines && after.queue == fleet.queue && after.seeders
                == fleet.seeders
            &&& forall|other: InfoHash|
                other != hash && fleet.registry.dom().contains(other)
                    ==> #[trigger] after.registry[other] == fleet.registry[other]
        }),
{
}

/// Whether an engine starts depends on four things: one that is paused does not, one that has a
/// task does not, one without an open network path does not and is shown as blocked with the
/// reason, and one that is not known does not. Every other one is to be checked and started, and
/// no retry holds it back any more.
pub proof fn only_free_torrents_start(
    found: FleetView,
    fleet: FleetView,
    step: StartStep,
    hash: InfoHash,
    health: NetworkHealth,
    cfg: Config,
    fallback_dir: Seq<char>,
    built_in_peer_limit: usize,
    asked: Seq<Effect>,
    told: Seq<Effect>,
)
    requires
        engine_begun(
            found,
            fleet,
            step,
            hash,
            health,
            cfg,
            fallback_dir,
            built_in_peer_limit,
            asked,
            told,
        ),
    ensures
        ({
            let known = found.registry.dom().contains(hash);
            let rests = known && found.registry[hash].state == TorrentState::Paused;
            let runs = found.engines.dom().contains(hash);
            let open = health.traffic_allowed || health.mode
                == crate::network::NetworkContainmentMode::Disabled;
            &&& (step is Check) == (known && !rests && !runs && open)
            &&& step is Check ==> !fleet.retry_after.dom().contains(hash) && fleet.registry
                == found.registry
            &&& known && !rests && !runs && !open ==> fleet.registry[hash] == (Torrent {
                state: TorrentState::NetworkBlocked,
                error: Some(Notice::Text(health.detail)),
                ..found.registry[hash]
            }) && told.last() == Effect::Publish(Event::StatsUpdated) && told[told.len() - 2]
                == Effect::Publish(
                Event::Torrent {
                    kind: TorrentEventKind::Changed,
                    hash,
                    state: TorrentState::NetworkBlocked,
                },
            )
            &&& rests || runs ==> fleet == found && told == asked
            &&& step is Check || !known ==> told == asked
            &&& fleet.retry_after.dom().contains(hash) ==> found.retry_after.dom().contains(hash)
            &&& fleet.engines == found.engines && fleet.queue == found.queue && fleet.seeders
                == found.seeders
        }),
{
}

/// An engine is started for its torrent: it looks for metadata exactly where the torrent lacks it,
/// by the hash, the name and the trackers of its link; it works where unfinished payloads lie and
/// ends where finished ones do; it fetches what is wanted under the torrent's own limits; and it
/// uses what the configuration allows.
pub proof fn engines_are_started_for_their_torrents(
    start: EngineStart,
    hash: InfoHash,
    torrent: Torrent,
    cfg: Config,
    fallback_dir: Seq<char>,
    built_in_peer_limit: usize,
)
    requires
        start_matches(start, hash, torrent, cfg, fallback_dir, built_in_peer_limit),
    ensures
        start.hash == hash,
        start.needs_metadata == torrent.needs_metadata,
        start.magnet.is_some() == torrent.needs_metadata,
        start.magnet matches Some(magnet) ==> (torrent.magnet_info_hash matches Some(own)
            ==> magnet.info_hash == own) && (torrent.magnet_info_hash.is_none()
            ==> magnet.info_hash == torrent.meta.info_hash) && (torrent.magnet_name matches Some(own)
            ==> magnet.name == own) && (torrent.magnet_name.is_none() ==> magnet.name
            == torrent.meta.name) && magnet.trackers@ == torrent.magnet_trackers@,
        torrent.download_dir matches Some(own) ==> start.complete_dir@ == own@,
        torrent.download_dir.is_none() ==> (cfg.storage.download_dir matches Some(dir)
            ==> start.complete_dir@ == dir@) && (cfg.storage.download_dir.is_none()
            ==> start.complete_dir@ == fallback_dir),
        start.wanted@ == torrent.wanted@ && start.priorities@ == torrent.priorities@,
        start.download_limit == torrent.download_limit && start.upload_limit
            == torrent.upload_limit,
        cfg.bandwidth.max_peers_per_torrent > 0 ==> start.max_peer_workers
            == cfg.bandwidth.max_peers_per_torrent,
        cfg.bandwidth.max_peers_per_torrent == 0 ==> start.max_peer_workers
            == built_in_peer_limit,
        start.listen_port == cfg.torrent.listen_port && start.encryption_mode
            == cfg.torrent.encryption_mode && start.utp_enabled == cfg.torrent.utp_enabled
            && start.utp_prefer_tcp == cfg.torrent.utp_prefer_tcp,
        start.pex_enabled == cfg.pex.enabled && start.pex_max_peers == cfg.pex.max_peers,
        start.preallocate == cfg.storage.preallocate && start.sparse == cfg.storage.sparse,
        start.minimum_free_space_bytes == cfg.storage.minimum_free_space_bytes
            && start.minimum_free_space_percent == cfg.storage.minimum_free_space_percent,
        cfg.storage.incomplete_dir matches Some(dir) ==> start.active_dir@ == dir@,
        cfg.storage.incomplete_dir.is_none() ==> start.active_dir@ == start.complete_dir@,
        start.allow_ipv6 ==> cfg.torrent.allow_ipv6 && cfg.network.allow_ipv6,
        cfg.torrent.allow_ipv6 && cfg.network.allow_ipv6 ==> start.allow_ipv6,
        torrent.needs_metadata ==> start.content_bytes == 0,
        !torrent.needs_metadata ==> start.content_bytes == torrent.meta.total_length,
        start.content_bytes > 0 || cfg.storage.minimum_free_space_bytes > 0
            || cfg.storage.minimum_free_space_percent > 0 ==> start.check_dirs@.len() > 0
            && start.check_dirs@[0] == start.active_dir,
        start.content_bytes == 0 && cfg.storage.minimum_free_space_bytes == 0
            && cfg.storage.minimum_free_space_percent == 0 ==> start.check_dirs@.len() == 0,
{
    crate::admission::lemma_firsts_of_two(start.active_dir, start.complete_dir);
}

/// An engine that may run is told to; a torrent that waited is told to have moved on. One that may
/// not run is told to end by force.
pub proof fn entered_engines_are_told(fleet: FleetView, hash: InfoHash, needs_metadata: bool)
    ensures
        ({
            let told = fleet.engine_entry_effects(hash, needs_metadata);
            let was = fleet.registry[hash];
            let known = fleet.registry.dom().contains(hash);
            let waits = known && was.state == TorrentState::Queued;
            let fetches = known && (was.state == TorrentState::Downloading || was.state
                == TorrentState::DownloadingMetadata);
            &&& waits || fetches ==> told.last() == Effect::RunEngine { hash }
            &&& fetches ==> told.len() == 1
            &&& waits ==> told.len() == 3 && told[0] == Effect::Publish(
                Event::Torrent {
                    kind: TorrentEventKind::Changed,
                    hash,
                    state: if needs_metadata {
                        TorrentState::DownloadingMetadata
                    } else {
                        TorrentState::Downloading
                    },
                },
            )
            &&& !waits && !fetches ==> told.len() > 0 && told[0] == Effect::StopEngine {
                hash,
                force: true,
            }
        }),
{
}

} // verus!
