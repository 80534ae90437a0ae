//! The daemon as a whole, and how it follows the health of the network.
use crate::clock::Tick;
use crate::config::Config;
use crate::debounce::QueueReconcileState;
use crate::effects::{Effect, Event};
use crate::error::CoreError;
use crate::fleet::{Fleet, FleetView};
use crate::gate::ContainmentGate;
use crate::hash::InfoHash;
use crate::index::HashIndex;
use crate::network::{NetworkContainmentStatus, NetworkHealth};
use crate::permits::{PeerPermitConfiguration, PermitPool};
use crate::queue::QueueState;
use crate::restore::{restore_queue, verify_restored_payload, PayloadCheck};
use crate::text::same_text;
use crate::torrent::{Torrent, TorrentState};
use crate::watch::WatchLedger;
use vstd::prelude::*;

verus! {

/// A failure to bind, listen or keep to the contained path, as it was reported.
#[derive(Debug)]
pub struct HealthReport {
    pub status: NetworkContainmentStatus,
    pub detail: String,
}

impl Clone for HealthReport {
    fn clone(&self) -> (copy: HealthReport)
        ensures
            copy == *self,
    {
        HealthReport { status: self.status, detail: self.detail.clone() }
    }
}

/// What the daemon is told of the place it runs in.
#[derive(Debug)]
pub struct Surroundings {
    /// Where payloads go when nothing is configured.
    pub fallback_dir: String,
    /// The limit on the peers of a torrent when none is configured.
    pub built_in_peer_limit: usize,
}

/// The daemon.
#[derive(Debug)]
pub struct DaemonRuntime {
    pub fleet: Fleet,
    pub config: Config,
    pub network_health: NetworkHealth,
    pub gate: ContainmentGate,
    /// Reports that no tick has taken in yet.
    pub health_reports: Vec<HealthReport>,
    /// A failure that stands until a replacement of the configuration cures it.
    pub bind_failure: Option<HealthReport>,
    pub permits: PeerPermitConfiguration,
    /// Whether finished torrents are dropped at once, as last committed.
    pub selfish_completion_enabled: bool,
    pub queue_reconcile: QueueReconcileState,
    pub watch: WatchLedger,
    pub autopilot_last_action: HashIndex<Tick>,
    pub config_path: Option<String>,
    pub log_file_path: Option<String>,
    pub state_path: Option<String>,
    pub surroundings: Surroundings,
}

/// A fleet with nothing in it.
pub open spec fn empty_fleet(limits: crate::config::QueueLimits) -> FleetView {
    FleetView {
        registry: Map::empty(),
        queue: crate::queue::QueueView {
            limits,
            order: Seq::<InfoHash>::empty(),
            bypass: Seq::<InfoHash>::empty(),
        },
        engines: Map::empty(),
        retry_after: Map::empty(),
        rate_samples: Map::empty(),
        seeders: Map::empty(),
        listener_running: false,
    }
}

/// The containment gate at the start: open or closed as the path is found.
pub open spec fn first_gate(health: NetworkHealth) -> crate::gate::GateView {
    let fresh = crate::gate::GateView {
        allowed: health.traffic_allowed,
        generation: 0,
        status: None,
        detail: Seq::<char>::empty(),
    };
    if health.traffic_allowed {
        fresh
    } else {
        crate::gate::blocked_gate(fresh, health.status, health.detail@)
    }
}

/// What a look at the network leads to.
#[derive(Debug)]
pub enum TickStep {
    /// The path is lost: everything is to be blocked.
    Block { status: NetworkContainmentStatus, detail: String },
    /// The path is back: what was cut is to be taken up.
    Recover(NetworkHealth),
    /// An earlier failure stands.
    Held,
    /// The path is lost as before.
    Unchanged,
    /// Nothing is lost or won; observers are told where something changed.
    Steady { changed: bool },
}

/// Whether a reported failure stands until it is cured.
pub open spec fn latches(status: NetworkContainmentStatus) -> bool {
    status == NetworkContainmentStatus::SocketBindFailed || status
        == NetworkContainmentStatus::BlockedFailClosed
}

/// Two findings tell the same.
pub open spec fn same_finding(a: NetworkHealth, b: NetworkHealth) -> bool {
    a.status == b.status && a.detail@ == b.detail@
}

impl DaemonRuntime {
    /// All parts are sound.
    pub open spec fn wf(&self) -> bool {
        &&& self.fleet.wf()
        &&& self.permits.per_torrent.wf()
        &&& self.watch.wf()
        &&& self.autopilot_last_action.wf()
    }

    /// A daemon without files of its own.
    pub fn new(config: Config, startup_health: NetworkHealth, surroundings: Surroundings) -> (
        runtime: DaemonRuntime)
        ensures
            runtime.is_fresh(config, startup_health, surroundings),
            runtime.config_path.is_none(),
            runtime.log_file_path.is_none(),
            runtime.state_path.is_none(),
    {
        DaemonRuntime::with_paths(config, startup_health, None, None, None, surroundings)
    }

    /// Nothing has happened yet.
    pub open spec fn is_fresh(
        &self,
        config: Config,
        startup_health: NetworkHealth,
        surroundings: Surroundings,
    ) -> bool {
        &&& self.wf()
        &&& self.fleet@ == empty_fleet(config.queue)
        &&& self.config == config
        &&& self.network_health == startup_health
        &&& self.gate@ == first_gate(startup_health)
        &&& self.health_reports@.len() == 0
        &&& self.bind_failure.is_none()
        &&& self.permits@.global == (PermitPool { id: 0, limit: config.bandwidth.max_peers })
        &&& self.permits@.per_torrent == Map::<InfoHash, PermitPool>::empty()
        &&& self.selfish_completion_enabled == config.torrent.selfish
        &&& self.queue_reconcile == (QueueReconcileState { scheduled: false, dirty: false })
        &&& self.watch@.observations.dom() == Set::<crate::watch::KeyView>::empty()
        &&& self.watch@.imports.len() == 0
        &&& self.autopilot_last_action@ == Map::<InfoHash, Tick>::empty()
        &&& self.surroundings == surroundings
    }

    /// A daemon with files for its configuration, its log and its state, as far as they are
    /// given.
    pub fn with_paths(
        config: Config,
        startup_health: NetworkHealth,
        config_path: Option<String>,
        log_file_path: Option<String>,
        state_path: Option<String>,
        surroundings: Surroundings,
    ) -> (runtime: DaemonRuntime)
        ensures
            runtime.is_fresh(config, startup_health, surroundings),
            runtime.config_path == config_path,
            runtime.log_file_path == log_file_path,
            runtime.state_path == state_path,
    {
        let mut gate: ContainmentGate = ContainmentGate::new(startup_health.traffic_allowed);
        if !startup_health.traffic_allowed {
            gate.block(startup_health.status, startup_health.detail.as_str());
        }
        let fleet: Fleet = Fleet {
            registry: HashIndex::new(),
            queue: QueueState::new(config.queue),
            engines: HashIndex::new(),
            retry_after: HashIndex::new(),
            rate_samples: HashIndex::new(),
            seeders: HashIndex::new(),
            listener_running: false,
        };
        let permits: PeerPermitConfiguration = PeerPermitConfiguration {
            global: PermitPool { id: 0, limit: config.bandwidth.max_peers },
            per_torrent: HashIndex::new(),
        };
        let watch: WatchLedger = WatchLedger::new();
        assert(watch@.observations.dom() =~= Set::<crate::watch::KeyView>::empty());
        DaemonRuntime {
            fleet,
            selfish_completion_enabled: config.torrent.selfish,
            config,
            network_health: startup_health,
            gate,
            health_reports: Vec::new(),
            bind_failure: None,
            permits,
            queue_reconcile: QueueReconcileState::new(),
            watch,
            autopilot_last_action: HashIndex::new(),
            config_path,
            log_file_path,
            state_path,
            surroundings,
        }
    }

    /// The containment gate that all torrent traffic passes.
    pub fn containment_gate(&self) -> (gate: &ContainmentGate)
        ensures
            gate@ == self.gate@,
    {
        &self.gate
    }

    /// Takes in a reported failure, for the next tick.
    pub fn report_health(&mut self, status: NetworkContainmentStatus, detail: String)
        ensures
            *final(self) == (DaemonRuntime {
                health_reports: final(self).health_reports,
                ..*old(self)
            }),
            final(self).health_reports@ == old(self).health_reports@.push(
                HealthReport { status, detail },
            ),
    {
        self.health_reports.push(HealthReport { status, detail });
    }

    /// Whether no download task is registered.
    pub fn engine_handles_empty(&self) -> (empty: bool)
        requires
            self.wf(),
        ensures
            empty == (self.fleet@.engines == Map::<InfoHash, crate::fleet::EngineTask>::empty()),
    {
        self.fleet.engines.is_empty()
    }

    /// Whether a download task that has not ended is registered for a torrent.
    pub fn engine_running_for_test(&self, hash: &InfoHash) -> (running: bool)
        requires
            self.wf(),
        ensures
            running == (self.fleet@.engines.dom().contains(*hash)
                && !self.fleet@.engines[*hash].finished),
    {
        match self.fleet.engines.get(hash) {
            Some(task) => !task.finished,
            None => false,
        }
    }

    /// Whether nothing is registered for uploading.
    pub fn seeder_registries_empty(&self) -> (empty: bool)
        requires
            self.wf(),
        ensures
            empty == (self.fleet@.seeders == Map::<InfoHash, crate::fleet::SeederTask>::empty()),
    {
        self.fleet.seeders.is_empty()
    }

    /// The pool for all torrents together and that of one, if it has one.
    pub fn peer_permit_pools_for_test(&self, hash: &InfoHash) -> (pools: Option<
        (PermitPool, PermitPool),
    >)
        requires
            self.wf(),
        ensures
            pools == if self.permits@.per_torrent.dom().contains(*hash) {
                Some((self.permits@.global, self.permits@.per_torrent[*hash]))
            } else {
                None
            },
    {
        match self.permits.per_torrent.get(hash) {
            Some(pool) => Some((self.permits.global, *pool)),
            None => None,
        }
    }

    /// Takes in a look at the network. The newest report comes first; then a failure that stands;
    /// only then what was found. While a failure stands, nothing that is found lifts it or opens
    /// the containment gate.
    pub fn network_health_tick(&mut self, evaluated: NetworkHealth) -> (step: TickStep)
        ensures
            old(self).bind_failure.is_some() ==> final(self).bind_failure.is_some() && !(
            step is Recover) && !(step is Steady) && (final(self).gate@.allowed ==> step is Block),
            final(self).health_reports@.len() == 0,
            *final(self) == (DaemonRuntime {
                health_reports: final(self).health_reports,
                bind_failure: final(self).bind_failure,
                network_health: final(self).network_health,
                gate: final(self).gate,
                ..*old(self)
            }),
            ({
                let previous = old(self).network_health;
                if old(self).health_reports@.len() > 0 {
                    let report = old(self).health_reports@.last();
                    &&& step == (TickStep::Block { status: report.status, detail: report.detail })
                    &&& final(self).bind_failure == if latches(report.status) {
                        Some(report)
                    } else {
                        old(self).bind_failure
                    }
                    &&& final(self).network_health == previous
                    &&& final(self).gate == old(self).gate
                } else if old(self).bind_failure.is_some() {
                    let report = old(self).bind_failure->0;
                    &&& step == TickStep::Held
                    &&& final(self).bind_failure == old(self).bind_failure
                    &&& final(self).network_health == (NetworkHealth {
                        status: report.status,
                        detail: report.detail,
                        traffic_allowed: false,
                        ..previous
                    })
                    &&& final(self).gate@ == if old(self).gate@.allowed {
                        crate::gate::blocked_gate(
                            old(self).gate@,
                            report.status,
                            report.detail@,
                        )
                    } else {
                        old(self).gate@
                    }
                } else if !evaluated.permits() {
                    &&& final(self).bind_failure == old(self).bind_failure
                    &&& final(self).network_health == previous
                    &&& final(self).gate == old(self).gate
                    &&& step == if previous.traffic_allowed || !same_finding(previous, evaluated)
                        || old(self).gate@.allowed {
                        TickStep::Block { status: evaluated.status, detail: evaluated.detail }
                    } else {
                        TickStep::Unchanged
                    }
                } else if evaluated.traffic_allowed && !previous.traffic_allowed {
                    &&& final(self).bind_failure == old(self).bind_failure
                    &&& final(self).network_health == previous
                    &&& final(self).gate == old(self).gate
                    &&& step == TickStep::Recover(evaluated)
                } else {
                    &&& final(self).bind_failure == old(self).bind_failure
                    &&& final(self).network_health == evaluated
                    &&& final(self).gate@ == if evaluated.traffic_allowed {
                        crate::gate::allowed_gate(old(self).gate@)
                    } else {
                        old(self).gate@
                    }
                    &&& step == (TickStep::Steady {
                        changed: !same_finding(previous, evaluated) || previous.traffic_allowed
                            != evaluated.traffic_allowed,
                    })
                }
            }),
    {
        if let Some(report) = self.health_reports.pop() {
            self.health_reports = Vec::new();
            if matches!(
                report.status,
                NetworkContainmentStatus::SocketBindFailed
                    | NetworkContainmentStatus::BlockedFailClosed
            ) {
                self.bind_failure = Some(report.clone());
            }
            return TickStep::Block { status: report.status, detail: report.detail };
        }
        if let Some(report) = &self.bind_failure {
            if self.gate.traffic_allowed() {
                self.gate.block(report.status, report.detail.as_str());
            }
            self.network_health.status = report.status;
            self.network_health.detail = report.detail.clone();
            self.network_health.traffic_allowed = false;
            return TickStep::Held;
        }
        let same: bool = self.network_health.status == evaluated.status && same_text(
            self.network_health.detail.as_str(),
            evaluated.detail.as_str(),
        );
        if !evaluated.permits_traffic() {
            if self.network_health.traffic_allowed || !same || self.gate.traffic_allowed() {
                return TickStep::Block { status: evaluated.status, detail: evaluated.detail };
            }
            return TickStep::Unchanged;
        }
        if evaluated.traffic_allowed && !self.network_health.traffic_allowed {
            return TickStep::Recover(evaluated);
        }
        let changed: bool = !same || self.network_health.traffic_allowed
            != evaluated.traffic_allowed;
        let allowed: bool = evaluated.traffic_allowed;
        self.network_health = evaluated;
        if allowed {
            self.gate.allow();
        }
        TickStep::Steady { changed }
    }

    /// Tells observers how the network stands.
    pub fn tell_network_status(&self, effects: &mut Vec<Effect>)
        ensures
            final(effects)@ == old(effects)@ + seq![
                Effect::Publish(
                    Event::NetworkStatusChanged {
                        status: self.network_health.status,
                        traffic_allowed: self.network_health.traffic_allowed,
                        detail: self.network_health.detail,
                    },
                ),
                crate::effects::stats_effect(),
            ],
    {
        effects.push(
            Effect::Publish(
                Event::NetworkStatusChanged {
                    status: self.network_health.status,
                    traffic_allowed: self.network_health.traffic_allowed,
                    detail: self.network_health.detail.clone(),
                },
            ),
        );
        effects.push(Effect::Publish(Event::StatsUpdated));
        assert(effects@ =~= old(effects)@ + seq![
            Effect::Publish(
                Event::NetworkStatusChanged {
                    status: self.network_health.status,
                    traffic_allowed: self.network_health.traffic_allowed,
                    detail: self.network_health.detail,
                },
            ),
            crate::effects::stats_effect(),
        ]);
    }

    /// Whether the hash-table node is wanted: it is switched on, and traffic may flow.
    pub fn dht_wanted(&self) -> (wanted: bool)
        ensures
            wanted == (self.config.dht.enabled && self.network_health.traffic_allowed),
    {
        self.config.dht.enabled && self.network_health.traffic_allowed
    }

    /// Whether the autopilot may act on a torrent, and not only observe it.
    pub fn autopilot_acts_on(&self, torrent: &Torrent) -> (acts: bool)
        ensures
            acts == (crate::config::autopilot_mode_of(
                self.config.autopilot_mode,
                torrent.autopilot_mode_override,
            ) == crate::config::AutopilotMode::Act),
    {
        matches!(
            crate::config::effective_autopilot_mode(
                self.config.autopilot_mode,
                torrent.autopilot_mode_override,
            ),
            crate::config::AutopilotMode::Act
        )
    }

    /// Ends all work before the program ends.
    pub fn shutdown(&mut self, effects: &mut Vec<Effect>)
        requires
            old(self).wf(),
        ensures
            final(self).wf(),
            *final(self) == (DaemonRuntime { fleet: final(self).fleet, ..*old(self) }),
            exists|hashes: Seq<InfoHash>|
                {
                    &&& crate::reset::hashes_increase(hashes)
                    &&& forall|hash: InfoHash| #[trigger]
                        hashes.contains(hash) == old(self).fleet@.concerns(hash)
                    &&& final(self).fleet@ == #[trigger] old(self).fleet@.all_stopped(hashes)
                    &&& final(effects)@ == old(effects)@ + old(self).fleet@.all_stop_effects(
                        hashes,
                        true,
                    )
                },
    {
        let hashes: Vec<InfoHash> = self.fleet.stop_all_torrent_tasks(effects);
        assert(self.fleet@ == old(self).fleet@.all_stopped(hashes@));
    }

    /// Takes over torrents and a queue that were stored, and returns how many torrents. The two
    /// verdicts say whether the torrents' files keep clear of each other, and whether a pool of
    /// permits can be made for each.
    pub fn restore_persisted_state(
        &mut self,
        registry: HashIndex<Torrent>,
        stored_queue: QueueState,
        ownership: Result<(), CoreError>,
        each_pool: Result<(), CoreError>,
        first_id: u64,
    ) -> (outcome: Result<usize, CoreError>)
        requires
            old(self).wf(),
            registry.wf(),
            stored_queue@.wf(),
            first_id + registry.seq().len() <= u64::MAX,
        ensures
            final(self).wf(),
            outcome.is_ok() == (ownership.is_ok() && (each_pool.is_ok() || registry.seq().len()
                == 0)),
            outcome matches Ok(count) ==> {
                &&& count == registry.seq().len()
                &&& *final(self) == (DaemonRuntime {
                    fleet: final(self).fleet,
                    permits: final(self).permits,
                    ..*old(self)
                })
                &&& final(self).fleet@ == (FleetView {
                    registry: registry@,
                    queue: crate::restore::queue_restored(
                        stored_queue@,
                        registry.seq(),
                        old(self).config.queue,
                    ),
                    ..old(self).fleet@
                })
                &&& final(self).permits@.global == old(self).permits@.global
                &&& final(self).permits@.per_torrent.dom() == registry@.dom()
                &&& forall|k: int|
                    0 <= k < registry.seq().len() ==> final(self).permits@.per_torrent[(
                    #[trigger] registry.seq()[k]).0] == (PermitPool {
                        id: (first_id + 1 + k) as u64,
                        limit: crate::permits::torrent_limit(
                            old(self).config,
                            old(self).surroundings.built_in_peer_limit,
                        ),
                    })
            },
            outcome matches Err(error) ==> {
                &&& *final(self) == *old(self)
                &&& if ownership.is_err() {
                    ownership == Err::<(), CoreError>(error)
                } else {
                    each_pool == Err::<(), CoreError>(error)
                }
            },
    {
        if let Err(error) = ownership {
            return Err(error);
        }
        let built: PeerPermitConfiguration =
            match crate::permits::build_peer_permit_configuration(
            &registry,
            &self.config,
            self.surroundings.built_in_peer_limit,
            first_id,
            Ok(()),
            each_pool,
        ) {
            Ok(built) => built,
            Err(error) => {
                return Err(error);
            },
        };
        let mut queue: QueueState = stored_queue;
        restore_queue(&mut queue, &registry, self.config.queue);
        let count: usize = registry.len();
        self.permits.per_torrent = built.per_torrent;
        self.fleet.registry = registry;
        self.fleet.queue = queue;
        Ok(count)
    }

    /// The restored torrents whose payload is to be read and checked, in order.
    pub fn restored_to_verify(&self) -> (hashes: Vec<InfoHash>)
        requires
            self.wf(),
        ensures
            hashes@ == self.fleet.registry.seq().filter(
                crate::stats::in_state(TorrentState::Completed),
            ).map_values(|entry: (InfoHash, Torrent)| entry.0),
    {
        let mut hashes: Vec<InfoHash> = Vec::new();
        let ghost entries = self.fleet.registry.seq();
        let ghost keep = crate::stats::in_state(TorrentState::Completed);
        let ghost key = |entry: (InfoHash, Torrent)| entry.0;
        let mut i: usize = 0;
        assert(entries.take(0).filter(keep).map_values(key) =~= hashes@) by {
            reveal(Seq::filter);
        }
        while i < self.fleet.registry.len()
            invariant
                self.wf(),
                entries == self.fleet.registry.seq(),
                i <= entries.len(),
                keep == crate::stats::in_state(TorrentState::Completed),
                key == |entry: (InfoHash, Torrent)| entry.0,
                hashes@ == entries.take(i as int).filter(keep).map_values(key),
            decreases entries.len() - i,
        {
            proof {
                reveal(Seq::filter);
                assert(entries.take(i + 1).drop_last() =~= entries.take(i as int));
            }
            let ghost before = entries.take(i as int).filter(keep);
            if matches!(self.fleet.registry.value_at(i).state, TorrentState::Completed) {
                hashes.push(self.fleet.registry.key_at(i));
                assert(hashes@ =~= before.push(entries[i as int]).map_values(key));
            }
            i = i + 1;
        }
        assert(entries.take(i as int) =~= entries);
        hashes
    }

    /// Takes in what reading the payload of a restored torrent came to.
    pub fn verify_restored_torrent(&mut self, hash: InfoHash, check: PayloadCheck)
        requires
            old(self).wf(),
        ensures
            final(self).wf(),
            *final(self) == (DaemonRuntime { fleet: final(self).fleet, ..*old(self) }),
            !old(self).fleet@.registry.dom().contains(hash) ==> final(self).fleet@ == old(
                self,
            ).fleet@,
            old(self).fleet@.registry.dom().contains(hash) ==> {
                let before = old(self).fleet@.registry[hash];
                let after = final(self).fleet@.registry[hash];
                &&& final(self).fleet@ == old(self).fleet@.with(hash, after)
                &&& match check {
                    PayloadCheck::Read(pieces) => crate::restore::payload_verified(
                        before,
                        after,
                        pieces@,
                        old(self).network_health.traffic_allowed,
                    ),
                    PayloadCheck::Unreadable(rendered) => after == crate::start::storage_failed(
                        before,
                        rendered,
                    ),
                }
            },
    {
        match self.fleet.registry.find(&hash) {
            Some(position) => {
                let allowed: bool = self.network_health.traffic_allowed;
                let torrent: &mut Torrent = self.fleet.registry.value_at_mut(position);
                verify_restored_payload(torrent, check, allowed);
            },
            None => {},
        }
    }
}

/// A failure to bind, and a path that was closed for good, stand until they are cured; nothing else
/// does.
pub proof fn only_bind_failures_stand(status: NetworkContainmentStatus)
    ensures
        latches(NetworkContainmentStatus::SocketBindFailed),
        latches(NetworkContainmentStatus::BlockedFailClosed),
        latches(status) ==> status == NetworkContainmentStatus::SocketBindFailed || status
            == NetworkContainmentStatus::BlockedFailClosed,
{
}

/// The containment gate of a fresh daemon is open exactly where the first look at the network
/// allows traffic; a closed one says why.
pub proof fn fresh_daemons_follow_the_network(health: NetworkHealth)
    ensures
        first_gate(health).allowed == health.traffic_allowed,
        !health.traffic_allowed ==> first_gate(health).status == Some(health.status)
            && first_gate(health).detail == health.detail@,
        health.traffic_allowed ==> first_gate(health).status.is_none(),
        first_gate(health).generation == 0,
{
}

/// A fresh daemon knows no torrent and runs no task, under the limits of its configuration.
pub proof fn fresh_daemons_are_empty(limits: crate::config::QueueLimits, hash: InfoHash)
    ensures
        ({
            let fleet = empty_fleet(limits);
            &&& !fleet.registry.dom().contains(hash) && !fleet.engines.dom().contains(hash)
                && !fleet.seeders.dom().contains(hash) && !fleet.retry_after.dom().contains(hash)
            &&& fleet.queue.order.len() == 0 && fleet.queue.bypass.len() == 0
            &&& fleet.queue.limits == limits
            &&& !fleet.listener_running
        }),
{
}

/// A new finding is told where its status or its detail is another than before.
pub proof fn new_findings_differ(a: NetworkHealth, b: NetworkHealth)
    ensures
        a.status != b.status ==> !same_finding(a, b),
        a.detail@ != b.detail@ ==> !same_finding(a, b),
        a.status == b.status && a.detail@ == b.detail@ ==> same_finding(a, b),
{
}

/// A fresh daemon runs under its configuration, sees the network as it was first found, has no
/// failure standing and no report waiting, has its pool of permits and none for a torrent, has
/// nothing scheduled, and remembers no file and no action.
pub proof fn fresh_daemons_start_clean(
    runtime: DaemonRuntime,
    config: Config,
    startup_health: NetworkHealth,
    surroundings: Surroundings,
)
    requires
        runtime.is_fresh(config, startup_health, surroundings),
    ensures
        runtime.config == config && runtime.network_health == startup_health
            && runtime.surroundings == surroundings,
        runtime.gate@.allowed == startup_health.traffic_allowed,
        runtime.bind_failure.is_none() && runtime.health_reports@.len() == 0,
        runtime.permits@.global.limit == config.bandwidth.max_peers && runtime.permits@.global.id
            == 0,
        runtime.permits@.per_torrent == Map::<InfoHash, PermitPool>::empty(),
        runtime.selfish_completion_enabled == config.torrent.selfish,
        !runtime.queue_reconcile.scheduled && !runtime.queue_reconcile.dirty,
        runtime.watch@.imports.len() == 0,
        runtime.watch@.observations.dom() == Set::<crate::watch::KeyView>::empty(),
        runtime.autopilot_last_action@ == Map::<InfoHash, Tick>::empty(),
        runtime.fleet@.registry == Map::<InfoHash, Torrent>::empty(),
        runtime.fleet@.queue.limits == config.queue,
        runtime.wf(),
{
}

} // verus!
