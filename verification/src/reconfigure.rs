//! Replacing the configuration of a running daemon, all or nothing.
use crate::config::{
    data_plane_config_changed, peer_limits_changed, AutopilotMode, BandwidthConfig, Config,
    QueueLimits, SeedingConfig,
};
use crate::effects::{Effect, Event};
use crate::error::{CoreError, ErrorKind, ErrorView};
use crate::fleet::{Fleet, FleetView};
use crate::gate::GateView;
use crate::hash::InfoHash;
use crate::index::HashIndex;
use crate::livework::{LivePeerWorkSnapshot, LiveTorrentTaskSnapshot};
use crate::network::NetworkHealth;
use crate::permits::{PeerPermitConfiguration, PermitView};
use crate::runtime::{DaemonRuntime, HealthReport};
use crate::seeding::SeedDecision;
use crate::text::owned;
use crate::torrent::{Notice, Torrent, TorrentState};
use vstd::prelude::*;
use vstd::string::*;

verus! {

/// A change of the peer budgets that is under way. It holds what is not installed: first what is
/// to come, then what was before.
#[derive(Debug)]
pub struct PeerBudgetUpdate {
    pub held: Config,
    pub held_permits: PeerPermitConfiguration,
    pub installed: bool,
    pub previous_health: NetworkHealth,
    pub previous_bind_failure: Option<HealthReport>,
    pub next_health: NetworkHealth,
    /// Whether a failure that stands is cured by the change.
    pub clear_bind_failure: bool,
    /// Whether nothing but the budgets changes.
    pub peer_limits_only: bool,
    /// What worked before.
    pub live: LivePeerWorkSnapshot,
    /// Where each torrent stood before.
    pub lifecycle: Vec<LiveTorrentTaskSnapshot>,
}

/// What a daemon was before a change.
pub struct Before {
    pub config: Config,
    pub permits: PermitView,
    pub health: NetworkHealth,
    pub bind_failure: Option<HealthReport>,
    pub standings: Seq<LiveTorrentTaskSnapshot>,
}

/// What a daemon is now.
pub open spec fn before_of(runtime: DaemonRuntime) -> Before {
    Before {
        config: runtime.config,
        permits: runtime.permits@,
        health: runtime.network_health,
        bind_failure: runtime.bind_failure,
        standings: crate::livework::standings_of(runtime.fleet.registry.seq()),
    }
}

/// A daemon was put back: its configuration, its pools, the health of the network and a failure
/// that stands are what they were, the containment gate is open exactly if traffic may flow, and every torrent
/// that is still known stands where it stood.
pub open spec fn put_back(
    before: Before,
    registry: Map<InfoHash, Torrent>,
    runtime: DaemonRuntime,
) -> bool {
    &&& runtime.config == before.config
    &&& runtime.permits@ == before.permits
    &&& runtime.network_health == before.health
    &&& runtime.bind_failure == before.bind_failure
    &&& runtime.gate@.allowed == before.health.permits()
    &&& runtime.fleet@.registry == crate::livework::all_relived(
        registry,
        before.standings,
        before.standings.len(),
    )
}

impl PeerBudgetUpdate {
    /// The change and the daemon together hold what was before.
    pub open spec fn remembers(&self, runtime: DaemonRuntime, before: Before) -> bool {
        &&& if self.installed {
            self.held == before.config && self.held_permits@ == before.permits
        } else {
            runtime.config == before.config && runtime.permits@ == before.permits
        }
        &&& self.previous_health == before.health
        &&& self.previous_bind_failure == before.bind_failure
        &&& self.lifecycle@ == before.standings
    }
}

/// What is to be set up again after a change was installed.
#[derive(Clone, Copy, PartialEq, Eq, Structural, Debug)]
pub enum Rebuild {
    /// Nothing may work.
    Nothing,
    /// What worked before.
    Live,
    /// What should work under the new configuration.
    Eligible,
}

/// The health that a daemon will show under a new configuration: a failure that stands and is not
/// cured keeps the health as it is.
pub open spec fn next_health_of(
    runtime: DaemonRuntime,
    evaluated: NetworkHealth,
    clear_bind_failure: bool,
) -> NetworkHealth {
    if runtime.bind_failure.is_some() && !clear_bind_failure {
        runtime.network_health
    } else {
        evaluated
    }
}

/// What closing the containment gate asks for, where it is closed.
pub open spec fn close_effects(health: NetworkHealth) -> Seq<Effect> {
    if health.permits() {
        Seq::<Effect>::empty()
    } else {
        seq![Effect::CloseGate { status: health.status, detail: health.detail }]
    }
}

/// A change of the peer budgets was begun: what works and where each torrent stands is noted, and
/// all work has ended. Where the path will be lost, the containment gate closed first.
pub open spec fn change_begun(
    found: DaemonRuntime,
    runtime: DaemonRuntime,
    update: PeerBudgetUpdate,
    health: NetworkHealth,
    asked: Seq<Effect>,
    told: Seq<Effect>,
) -> bool {
    &&& runtime == (DaemonRuntime { fleet: runtime.fleet, gate: runtime.gate, ..found })
    &&& update.next_health == health
    &&& runtime.gate@ == if health.permits() {
        found.gate@
    } else {
        crate::gate::blocked_gate(found.gate@, health.status, health.detail@)
    }
    &&& exists|hashes: Seq<InfoHash>|
        {
            &&& crate::reset::hashes_increase(hashes)
            &&& forall|hash: InfoHash| #[trigger]
                hashes.contains(hash) == found.fleet@.concerns(hash)
            &&& runtime.fleet@ == #[trigger] found.fleet@.all_stopped(hashes)
            &&& told == asked + close_effects(health) + found.fleet@.all_stop_effects(hashes, true)
                + seq![Effect::StopDht]
        }
    &&& !update.installed
    &&& update.live.downloads@ == crate::livework::running_downloads(
        found.fleet.engines.seq(),
        found.fleet@.registry,
    )
    &&& update.live.seeders@ == crate::livework::running_uploads(
        found.fleet.seeders.seq(),
        found.fleet@.registry,
    )
}

/// A change of the peer budgets was installed. Where the path is lost, what worked is blocked and
/// noted; else the containment gate is open, and where it was closed before, what was noted is
/// taken up.
pub open spec fn change_installed(
    found: DaemonRuntime,
    held: PeerBudgetUpdate,
    runtime: DaemonRuntime,
    update: PeerBudgetUpdate,
    rebuild: Rebuild,
    asked: Seq<Effect>,
    told: Seq<Effect>,
) -> bool {
    let health = held.next_health;
    let regained = health.permits() && (!held.previous_health.permits()
        || held.previous_bind_failure.is_some());
    &&& update == (PeerBudgetUpdate {
        held: found.config,
        held_permits: found.permits,
        installed: true,
        ..held
    })
    &&& runtime == (DaemonRuntime {
        config: held.held,
        permits: held.held_permits,
        bind_failure: if held.clear_bind_failure {
            None
        } else {
            found.bind_failure
        },
        network_health: health,
        fleet: runtime.fleet,
        gate: runtime.gate,
        ..found
    })
    &&& runtime.gate@ == if health.permits() {
        crate::gate::allowed_gate(found.gate@)
    } else {
        found.gate@
    }
    &&& told == asked + if health.permits() {
        seq![Effect::OpenGate]
    } else {
        Seq::<Effect>::empty()
    }
    &&& runtime.fleet@ == (FleetView {
        registry: if !health.permits() {
            crate::livework::work_cut(found.fleet@.registry, held.live, health.detail)
        } else if regained {
            found.fleet@.path_regained(Seq::<InfoHash>::empty()).registry
        } else {
            found.fleet@.registry
        },
        ..found.fleet@
    })
    &&& rebuild == if !health.permits() {
        Rebuild::Nothing
    } else if held.peer_limits_only {
        Rebuild::Live
    } else {
        Rebuild::Eligible
    }
}

/// A change of the peer budgets was undone: all work has ended, and what was before is back.
pub open spec fn change_undone(
    found: DaemonRuntime,
    update: PeerBudgetUpdate,
    runtime: DaemonRuntime,
    asked: Seq<Effect>,
    told: Seq<Effect>,
) -> bool {
    let health = update.previous_health;
    &&& runtime == (DaemonRuntime {
        config: runtime.config,
        permits: runtime.permits,
        bind_failure: update.previous_bind_failure,
        network_health: health,
        fleet: runtime.fleet,
        gate: runtime.gate,
        ..found
    })
    &&& exists|hashes: Seq<InfoHash>|
        {
            let stopped = #[trigger] found.fleet@.all_stopped(hashes);
            &&& crate::reset::hashes_increase(hashes)
            &&& forall|hash: InfoHash| #[trigger]
                hashes.contains(hash) == found.fleet@.concerns(hash)
            &&& runtime.fleet@ == (FleetView {
                registry: crate::livework::all_relived(
                    stopped.registry,
                    update.lifecycle@,
                    update.lifecycle@.len(),
                ),
                ..stopped
            })
            &&& told == asked + found.fleet@.all_stop_effects(hashes, true) + seq![Effect::StopDht]
                + if health.permits() {
                seq![Effect::OpenGate]
            } else {
                close_effects(health)
            }
            &&& forall|before: Before| #[trigger]
                update.remembers(found, before) ==> put_back(before, stopped.registry, runtime)
        }
    &&& runtime.gate@ == if health.permits() {
        crate::gate::allowed_gate(found.gate@)
    } else {
        crate::gate::blocked_gate(found.gate@, health.status, health.detail@)
    }
}

impl DaemonRuntime {
    /// Begins a change of the peer budgets: notes what works and where each torrent stands, and
    /// ends all work. Where the path will be lost, the containment gate closes first.
    pub fn begin_peer_budget_update(
        &mut self,
        next: Config,
        permits: PeerPermitConfiguration,
        evaluated: NetworkHealth,
        clear_bind_failure: bool,
        peer_limits_only: bool,
        effects: &mut Vec<Effect>,
    ) -> (update: PeerBudgetUpdate)
        requires
            old(self).wf(),
            permits.per_torrent.wf(),
        ensures
            final(self).wf(),
            update.held_permits.per_torrent.wf(),
            change_begun(
                *old(self),
                *final(self),
                update,
                next_health_of(*old(self), evaluated, clear_bind_failure),
                old(effects)@,
                final(effects)@,
            ),
            update.held == token_kept(next, old(self).config),
            update.held_permits == permits,
            update.clear_bind_failure == clear_bind_failure,
            update.peer_limits_only == peer_limits_only,
            update.remembers(*final(self), before_of(*old(self))),
    {
        let mut next: Config = next;
        keep_auth_token(&mut next, &self.config);
        let next_health: NetworkHealth = if self.bind_failure.is_some() && !clear_bind_failure {
            self.network_health.clone()
        } else {
            evaluated
        };
        let live: LivePeerWorkSnapshot = self.fleet.live_peer_work_snapshot();
        let lifecycle: Vec<LiveTorrentTaskSnapshot> = self.fleet.torrent_lifecycle_snapshot();
        let ghost asked = effects@;
        if !next_health.permits_traffic() {
            self.gate.block(next_health.status, next_health.detail.as_str());
            effects.push(
                Effect::CloseGate {
                    status: next_health.status,
                    detail: next_health.detail.clone(),
                },
            );
        }
        assert(effects@ =~= asked + close_effects(next_health));
        let hashes: Vec<InfoHash> = self.fleet.stop_all_torrent_tasks(effects);
        effects.push(Effect::StopDht);
        proof {
            assert(self.fleet@ == old(self).fleet@.all_stopped(hashes@));
            assert(effects@ =~= asked + close_effects(next_health)
                + old(self).fleet@.all_stop_effects(hashes@, true) + seq![Effect::StopDht]);
        }
        PeerBudgetUpdate {
            held: next,
            held_permits: permits,
            installed: false,
            previous_health: self.network_health.clone(),
            previous_bind_failure: match &self.bind_failure {
                Some(report) => Some(report.clone()),
                None => None,
            },
            next_health,
            clear_bind_failure,
            peer_limits_only,
            live,
            lifecycle,
        }
    }

    /// Installs the new configuration and its pools. Where the path is lost, what worked is
    /// blocked and noted; else the containment gate opens, and where it was lost before, what was noted is
    /// taken up.
    pub fn install_peer_budget_update(
        &mut self,
        update: &mut PeerBudgetUpdate,
        effects: &mut Vec<Effect>,
    ) -> (rebuild: Rebuild)
        requires
            old(self).wf(),
            old(update).held_permits.per_torrent.wf(),
            !old(update).installed,
        ensures
            final(self).wf(),
            final(update).held_permits.per_torrent.wf(),
            change_installed(
                *old(self),
                *old(update),
                *final(self),
                *final(update),
                rebuild,
                old(effects)@,
                final(effects)@,
            ),
            forall|before: Before| #[trigger]
                old(update).remembers(*old(self), before) ==> final(update).remembers(
                    *final(self),
                    before,
                ),
    {
        std::mem::swap(&mut self.config, &mut update.held);
        std::mem::swap(&mut self.permits, &mut update.held_permits);
        update.installed = true;
        if update.clear_bind_failure {
            self.bind_failure = None;
        }
        self.network_health = update.next_health.clone();
        if !update.next_health.permits_traffic() {
            self.fleet.cut_live_work(&update.live, &update.next_health.detail);
            assert(effects@ =~= old(effects)@ + Seq::<Effect>::empty());
            return Rebuild::Nothing;
        }
        self.gate.allow();
        effects.push(Effect::OpenGate);
        assert(effects@ =~= old(effects)@ + seq![Effect::OpenGate]);
        if !update.previous_health.permits_traffic() || update.previous_bind_failure.is_some() {
            let _ = self.fleet.take_up_notes();
        }
        if update.peer_limits_only {
            Rebuild::Live
        } else {
            Rebuild::Eligible
        }
    }

    /// Undoes a change, wherever it stands: ends all work, puts back what was before, and returns
    /// the work that is to be set up again.
    pub fn roll_back_peer_budget_update(
        &mut self,
        update: PeerBudgetUpdate,
        effects: &mut Vec<Effect>,
    ) -> (live: LivePeerWorkSnapshot)
        requires
            old(self).wf(),
            update.held_permits.per_torrent.wf(),
        ensures
            final(self).wf(),
            live == update.live,
            change_undone(*old(self), update, *final(self), old(effects)@, final(effects)@),
    {
        let ghost asked = effects@;
        let hashes: Vec<InfoHash> = self.fleet.stop_all_torrent_tasks(effects);
        effects.push(Effect::StopDht);
        let ghost stopped = self.fleet@;
        let PeerBudgetUpdate {
            held,
            held_permits,
            installed,
            previous_health,
            previous_bind_failure,
            live,
            lifecycle,
            ..
        } = update;
        if installed {
            self.config = held;
            self.permits = held_permits;
        }
        if previous_health.permits_traffic() {
            self.gate.allow();
            effects.push(Effect::OpenGate);
        } else {
            self.gate.block(previous_health.status, previous_health.detail.as_str());
            effects.push(
                Effect::CloseGate {
                    status: previous_health.status,
                    detail: previous_health.detail.clone(),
                },
            );
        }
        self.network_health = previous_health;
        self.bind_failure = previous_bind_failure;
        self.fleet.restore_torrent_lifecycle_snapshot(&lifecycle);
        proof {
            assert(stopped == old(self).fleet@.all_stopped(hashes@));
            assert(effects@ =~= asked + old(self).fleet@.all_stop_effects(hashes@, true)
                + seq![Effect::StopDht] + if update.previous_health.permits() {
                seq![Effect::OpenGate]
            } else {
                close_effects(update.previous_health)
            });
        }
        live
    }

    /// Commits a change that holds: only now may finished torrents be dropped under it.
    pub fn commit_peer_budget_update(&mut self, effects: &mut Vec<Effect>)
        ensures
            *final(self) == (DaemonRuntime {
                selfish_completion_enabled: old(self).config.torrent.selfish,
                ..*old(self)
            }),
            final(effects)@ == old(effects)@.push(Effect::SweepCompleted),
    {
        self.selfish_completion_enabled = self.config.torrent.selfish;
        effects.push(Effect::SweepCompleted);
    }
}

/// A change that was begun, installed or not, and undone leaves every torrent that is still known
/// where it stood before.
pub proof fn undone_changes_leave_torrents_alone(
    before: DaemonRuntime,
    registry: Map<InfoHash, Torrent>,
    after: DaemonRuntime,
    hash: InfoHash,
)
    requires
        before.wf(),
        put_back(before_of(before), registry, after),
        before.fleet@.registry.dom().contains(hash),
        registry.dom().contains(hash),
    ensures
        crate::livework::captured(hash, after.fleet@.registry[hash]) == crate::livework::captured(
            hash,
            before.fleet@.registry[hash],
        ),
        after.config == before.config,
        after.permits@ == before.permits@,
        after.network_health == before.network_health,
        after.bind_failure == before.bind_failure,
{
    crate::livework::reliving_restores(before.fleet.registry.seq(), registry, hash);
}

/// Ending work leaves the queue alone.
pub proof fn stopping_keeps_the_queue(fleet: FleetView, hashes: Seq<InfoHash>)
    ensures
        fleet.all_stopped(hashes).queue == fleet.queue,
    decreases hashes.len(),
{
    if hashes.len() > 0 {
        stopping_keeps_the_queue(fleet, hashes.drop_last());
    }
}

/// Beginning a change leaves the queue alone.
pub proof fn beginning_keeps_the_queue(
    found: DaemonRuntime,
    runtime: DaemonRuntime,
    update: PeerBudgetUpdate,
    health: NetworkHealth,
    asked: Seq<Effect>,
    told: Seq<Effect>,
)
    requires
        change_begun(found, runtime, update, health, asked, told),
    ensures
        runtime.fleet@.queue == found.fleet@.queue,
{
    let hashes = choose|hashes: Seq<InfoHash>|
        runtime.fleet@ == #[trigger] found.fleet@.all_stopped(hashes);
    stopping_keeps_the_queue(found.fleet@, hashes);
}

/// Undoing a change leaves the queue alone.
pub proof fn undoing_keeps_the_queue(
    found: DaemonRuntime,
    update: PeerBudgetUpdate,
    runtime: DaemonRuntime,
    asked: Seq<Effect>,
    told: Seq<Effect>,
)
    requires
        change_undone(found, update, runtime, asked, told),
    ensures
        runtime.fleet@.queue == found.fleet@.queue,
{
    let hashes = choose|hashes: Seq<InfoHash>|
        {
            let stopped = #[trigger] found.fleet@.all_stopped(hashes);
            runtime.fleet@ == (FleetView {
                registry: crate::livework::all_relived(
                    stopped.registry,
                    update.lifecycle@,
                    update.lifecycle@.len(),
                ),
                ..stopped
            })
        };
    stopping_keeps_the_queue(found.fleet@, hashes);
}

/// Where a change of the peer budgets stands.
#[derive(Clone, Copy, PartialEq, Eq, Structural, Debug)]
pub enum PeerBudgetStage {
    /// Sessions under the old budgets end.
    Draining,
    /// Work is set up under the new configuration.
    Rebuilding,
    /// What works is checked once more after the queue was reconciled.
    Verifying,
    /// The configuration is written to its file.
    Persisting,
    /// The change holds.
    Committed,
    /// The change is undone.
    RolledBack,
}

/// The stage that follows: any failure undoes the change, and nothing is written before the work
/// was checked.
pub open spec fn stage_after(
    stage: PeerBudgetStage,
    succeeded: bool,
    persists: bool,
) -> PeerBudgetStage {
    match stage {
        PeerBudgetStage::Committed => PeerBudgetStage::Committed,
        PeerBudgetStage::RolledBack => PeerBudgetStage::RolledBack,
        _ => if !succeeded {
            PeerBudgetStage::RolledBack
        } else {
            match stage {
                PeerBudgetStage::Draining => PeerBudgetStage::Rebuilding,
                PeerBudgetStage::Rebuilding => PeerBudgetStage::Verifying,
                PeerBudgetStage::Verifying => if persists {
                    PeerBudgetStage::Persisting
                } else {
                    PeerBudgetStage::Committed
                },
                _ => PeerBudgetStage::Committed,
            }
        },
    }
}

impl PeerBudgetStage {
    /// The stage that follows.
    pub fn advance(self, succeeded: bool, persists: bool) -> (next: PeerBudgetStage)
        ensures
            next == stage_after(self, succeeded, persists),
    {
        match self {
            PeerBudgetStage::Committed => PeerBudgetStage::Committed,
            PeerBudgetStage::RolledBack => PeerBudgetStage::RolledBack,
            _ => if !succeeded {
                PeerBudgetStage::RolledBack
            } else {
                match self {
                    PeerBudgetStage::Draining => PeerBudgetStage::Rebuilding,
                    PeerBudgetStage::Rebuilding => PeerBudgetStage::Verifying,
                    PeerBudgetStage::Verifying => if persists {
                        PeerBudgetStage::Persisting
                    } else {
                        PeerBudgetStage::Committed
                    },
                    _ => PeerBudgetStage::Committed,
                }
            },
        }
    }
}

/// What a failed stage is called.
pub open spec fn stage_complaint(stage: PeerBudgetStage) -> Seq<char> {
    match stage {
        PeerBudgetStage::Draining => "old peer permit drain failed: "@,
        PeerBudgetStage::Rebuilding => "peer permit reconstruction failed: "@,
        PeerBudgetStage::Verifying => "peer permit post-reconcile verification failed: "@,
        _ => "peer permit configuration persistence failed: "@,
    }
}

/// The error that a change ends with, from what failed and what undoing it came to.
pub fn peer_budget_failure(stage: PeerBudgetStage, error: &str, runtime: &str, file: &str) -> (
    failure: CoreError)
    ensures
        failure@ == (ErrorView {
            kind: ErrorKind::Internal,
            message: stage_complaint(stage) + error@ + "; runtime rollback: "@ + runtime@
                + "; configuration rollback: "@ + file@,
        }),
{
    let mut message: String = owned(
        match stage {
            PeerBudgetStage::Draining => "old peer permit drain failed: ",
            PeerBudgetStage::Rebuilding => "peer permit reconstruction failed: ",
            PeerBudgetStage::Verifying => "peer permit post-reconcile verification failed: ",
            _ => "peer permit configuration persistence failed: ",
        },
    );
    message.append(error);
    message.append("; runtime rollback: ");
    message.append(runtime);
    message.append("; configuration rollback: ");
    message.append(file);
    CoreError::Internal(message)
}

/// How a new configuration is taken over.
#[derive(Clone, Copy, PartialEq, Eq, Structural, Debug)]
pub enum ReplacementPath {
    /// The peer budgets change: all or nothing.
    PeerBudget,
    /// Tasks were made under settings that change: they all end first.
    Rebuild,
    /// Nothing that runs is touched.
    Swap,
}

/// How a new configuration is taken over.
pub fn choose_replacement(previous: &Config, next: &Config) -> (path: ReplacementPath)
    ensures
        path == if crate::config::peer_limits_differ(*previous, *next) {
            ReplacementPath::PeerBudget
        } else if crate::config::data_plane_differs(*previous, *next) {
            ReplacementPath::Rebuild
        } else {
            ReplacementPath::Swap
        },
{
    if peer_limits_changed(previous, next) {
        ReplacementPath::PeerBudget
    } else if data_plane_config_changed(previous, next) {
        ReplacementPath::Rebuild
    } else {
        ReplacementPath::Swap
    }
}

/// A new configuration, with the token in force where it names none.
pub open spec fn token_kept(next: Config, previous: Config) -> Config {
    Config {
        api: crate::config::ApiConfig {
            auth_token: if next.api.auth_token.is_none() {
                previous.api.auth_token
            } else {
                next.api.auth_token
            },
            ..next.api
        },
        ..next
    }
}

/// Keeps the secret of the control interface where a new configuration names none.
pub fn keep_auth_token(next: &mut Config, previous: &Config)
    ensures
        *final(next) == token_kept(*old(next), *previous),
{
    if next.api.auth_token.is_none() {
        next.api.auth_token = crate::copies::copied_text(&previous.api.auth_token);
    }
}

/// The registry with what was live blocked and noted.
pub open spec fn intents_noted(
    registry: Map<InfoHash, Torrent>,
    found: FleetView,
    decisions: Map<InfoHash, SeedDecision>,
    detail: String,
) -> Map<InfoHash, Torrent> {
    Map::new(
        |hash: InfoHash| registry.dom().contains(hash),
        |hash: InfoHash|
            if found.live_intent(hash, decisions).is_some() {
                Torrent {
                    containment_recovery_intent: found.live_intent(hash, decisions),
                    state: TorrentState::NetworkBlocked,
                    error: Some(Notice::Text(detail)),
                    ..registry[hash]
                }
            } else {
                registry[hash]
            },
    )
}

impl Fleet {
    fn note_intents(
        &mut self,
        live: &HashIndex<crate::containment::LiveWork>,
        detail: &String,
    )
        requires
            old(self).wf(),
            live.wf(),
        ensures
            final(self).wf(),
            final(self)@ == (FleetView { registry: final(self)@.registry, ..old(self)@ }),
            final(self)@.registry == Map::new(
                |hash: InfoHash| old(self)@.registry.dom().contains(hash),
                |hash: InfoHash|
                    if live@.dom().contains(hash) {
                        Torrent {
                            containment_recovery_intent: Some(live@[hash].intent),
                            state: TorrentState::NetworkBlocked,
                            error: Some(Notice::Text(*detail)),
                            ..old(self)@.registry[hash]
                        }
                    } else {
                        old(self)@.registry[hash]
                    },
            ),
    {
        let ghost before = self@;
        let ghost entries = self.registry.seq();
        let ghost change = |hash: InfoHash, torrent: Torrent|
            if live@.dom().contains(hash) {
                Torrent {
                    containment_recovery_intent: Some(live@[hash].intent),
                    state: TorrentState::NetworkBlocked,
                    error: Some(Notice::Text(*detail)),
                    ..torrent
                }
            } else {
                torrent
            };
        let mut i: usize = 0;
        while i < self.registry.len()
            invariant
                self.wf(),
                live.wf(),
                i <= entries.len(),
                crate::index::keys_increase(entries),
                self@ == (FleetView { registry: self@.registry, ..before }),
                self.registry.seq().len() == entries.len(),
                change == |hash: InfoHash, torrent: Torrent|
                    if live@.dom().contains(hash) {
                        Torrent {
                            containment_recovery_intent: Some(live@[hash].intent),
                            state: TorrentState::NetworkBlocked,
                            error: Some(Notice::Text(*detail)),
                            ..torrent
                        }
                    } else {
                        torrent
                    },
                forall|k: int|
                    0 <= k < entries.len() ==> #[trigger] self.registry.seq()[k] == (
                        entries[k].0,
                        if k < i {
                            change(entries[k].0, entries[k].1)
                        } else {
                            entries[k].1
                        },
                    ),
            decreases entries.len() - i,
        {
            let hash: InfoHash = self.registry.key_at(i);
            assert(self.registry.seq()[i as int] == (entries[i as int].0, entries[i as int].1));
            if let Some(work) = live.get(&hash) {
                let torrent: &mut Torrent = self.registry.value_at_mut(i);
                torrent.containment_recovery_intent = Some(work.intent);
                torrent.state = TorrentState::NetworkBlocked;
                torrent.error = Some(Notice::Text(detail.clone()));
            }
            i = i + 1;
        }
        proof {
            let after = self.registry.seq();
            assert forall|k: int| 0 <= k < entries.len() implies #[trigger] after[k] == (
                entries[k].0,
                change(entries[k].0, entries[k].1),
            ) by {}
            assert forall|hash: InfoHash| true implies #[trigger] crate::index::has_key(after, hash)
                == crate::index::has_key(entries, hash) by {
                if crate::index::has_key(entries, hash) {
                    let k = crate::index::position_of(entries, hash);
                    assert(after[k].0 == hash);
                }
                if crate::index::has_key(after, hash) {
                    let k = crate::index::position_of(after, hash);
                    assert(entries[k].0 == hash);
                }
            }
            assert forall|hash: InfoHash| crate::index::has_key(entries, hash) implies
                self@.registry[hash] == change(hash, before.registry[hash]) by {
                let k = crate::index::position_of(entries, hash);
                crate::index::lemma_entry(entries, k);
                crate::index::lemma_entry(after, k);
            }
            assert(self@.registry =~= Map::new(
                |hash: InfoHash| old(self)@.registry.dom().contains(hash),
                |hash: InfoHash|
                    if live@.dom().contains(hash) {
                        Torrent {
                            containment_recovery_intent: Some(live@[hash].intent),
                            state: TorrentState::NetworkBlocked,
                            error: Some(Notice::Text(*detail)),
                            ..old(self)@.registry[hash]
                        }
                    } else {
                        old(self)@.registry[hash]
                    },
            ));
        }
    }
}

/// Every task that was made under settings that change has ended. Where the path will be lost,
/// the containment gate closed first, and what was live is blocked and noted.
pub open spec fn ended_for_replacement(
    found: FleetView,
    gate: GateView,
    fleet: FleetView,
    gate_after: GateView,
    health: NetworkHealth,
    decisions: Map<InfoHash, SeedDecision>,
    asked: Seq<Effect>,
    told: Seq<Effect>,
) -> bool {
    &&& gate_after == if health.permits() {
        gate
    } else {
        crate::gate::blocked_gate(gate, health.status, health.detail@)
    }
    &&& exists|hashes: Seq<InfoHash>|
        {
            let stopped = #[trigger] found.all_stopped(hashes);
            &&& crate::reset::hashes_increase(hashes)
            &&& forall|hash: InfoHash| #[trigger] hashes.contains(hash) == found.concerns(hash)
            &&& fleet == (FleetView {
                registry: if health.permits() {
                    stopped.registry
                } else {
                    intents_noted(stopped.registry, found, decisions, health.detail)
                },
                ..stopped
            })
            &&& told == asked + close_effects(health) + found.all_stop_effects(hashes, true)
                + seq![Effect::StopDht]
        }
}

impl DaemonRuntime {
    /// Ends every task that was made under settings that change. Where the path will be lost, the
    /// gate closes first, and what was live is blocked and noted.
    pub fn stop_for_replacement(
        &mut self,
        next_health: &NetworkHealth,
        decisions: &HashIndex<SeedDecision>,
        effects: &mut Vec<Effect>,
    )
        requires
            old(self).wf(),
            decisions.wf(),
        ensures
            final(self).wf(),
            *final(self) == (DaemonRuntime {
                fleet: final(self).fleet,
                gate: final(self).gate,
                ..*old(self)
            }),
            ended_for_replacement(
                old(self).fleet@,
                old(self).gate@,
                final(self).fleet@,
                final(self).gate@,
                *next_health,
                decisions@,
                old(effects)@,
                final(effects)@,
            ),
    {
        let ghost asked = effects@;
        let blocked: bool = !next_health.permits_traffic();
        let live: HashIndex<crate::containment::LiveWork> =
            self.fleet.live_containment_recovery_intents(decisions);
        if blocked {
            self.gate.block(next_health.status, next_health.detail.as_str());
            effects.push(
                Effect::CloseGate {
                    status: next_health.status,
                    detail: next_health.detail.clone(),
                },
            );
        }
        assert(effects@ =~= asked + close_effects(*next_health));
        let hashes: Vec<InfoHash> = self.fleet.stop_all_torrent_tasks(effects);
        effects.push(Effect::StopDht);
        let ghost stopped = self.fleet@;
        if blocked {
            self.fleet.note_intents(&live, &next_health.detail);
            assert(self.fleet@.registry =~= intents_noted(
                stopped.registry,
                old(self).fleet@,
                decisions@,
                next_health.detail,
            ));
        }
        proof {
            assert(stopped == old(self).fleet@.all_stopped(hashes@));
            assert(effects@ =~= asked + close_effects(*next_health)
                + old(self).fleet@.all_stop_effects(hashes@, true) + seq![Effect::StopDht]);
        }
    }

    /// Puts a new configuration in force.
    pub fn install_config(&mut self, next: Config)
        ensures
            *final(self) == (DaemonRuntime {
                config: next,
                selfish_completion_enabled: next.torrent.selfish,
                ..*old(self)
            }),
    {
        self.selfish_completion_enabled = next.torrent.selfish;
        self.config = next;
    }

    /// Lifts a failure that stands, after a new configuration proved good, and says what follows
    /// from the network as it is then.
    pub fn cure_bind_failure(&mut self, evaluated: NetworkHealth) -> (step: Option<
        crate::runtime::TickStep,
    >)
        ensures
            *final(self) == (DaemonRuntime { bind_failure: None, ..*old(self) }),
            step == if old(self).bind_failure.is_none() {
                None
            } else if evaluated.traffic_allowed {
                Some(crate::runtime::TickStep::Recover(evaluated))
            } else {
                Some(
                    crate::runtime::TickStep::Block {
                        status: evaluated.status,
                        detail: evaluated.detail,
                    },
                )
            },
    {
        if self.bind_failure.is_none() {
            return None;
        }
        self.bind_failure = None;
        if evaluated.traffic_allowed {
            Some(crate::runtime::TickStep::Recover(evaluated))
        } else {
            Some(
                crate::runtime::TickStep::Block {
                    status: evaluated.status,
                    detail: evaluated.detail,
                },
            )
        }
    }

    /// Lets the queue and the rates follow the configuration. A look at the network comes next.
    pub fn apply_queue_limits(&mut self, effects: &mut Vec<Effect>)
        requires
            old(self).wf(),
        ensures
            final(self).wf(),
            *final(self) == (DaemonRuntime { fleet: final(self).fleet, ..*old(self) }),
            final(self).fleet@ == (FleetView {
                queue: crate::queue::QueueView {
                    limits: old(self).config.queue,
                    ..old(self).fleet@.queue
                },
                ..old(self).fleet@
            }),
            final(effects)@ == old(effects)@.push(
                Effect::LimitRates {
                    download: old(self).config.bandwidth.effective_download,
                    upload: old(self).config.bandwidth.effective_upload,
                },
            ),
    {
        self.fleet.queue.limits = self.config.queue;
        effects.push(
            Effect::LimitRates {
                download: self.config.bandwidth.effective_download,
                upload: self.config.bandwidth.effective_upload,
            },
        );
    }

    /// What a new configuration asks for after the look at the network. What cannot be undone is
    /// asked for only where that is allowed.
    pub fn apply_runtime_config_fields(&self, allow_irreversible: bool, effects: &mut Vec<Effect>)
        ensures
            final(effects)@ == old(effects)@ + seq![
                Effect::LimitPeerWorkers {
                    limit: crate::permits::torrent_limit(
                        self.config,
                        self.surroundings.built_in_peer_limit,
                    ),
                },
                Effect::ReconcileQueue { delay: 0 },
            ] + (if allow_irreversible {
                seq![Effect::SweepCompleted]
            } else {
                Seq::<Effect>::empty()
            }) + seq![Effect::ReconcileSeeders],
    {
        let ghost asked = effects@;
        let limit: usize = crate::config::effective_per_torrent_peer_limit(
            self.config.bandwidth.max_peers_per_torrent,
            self.surroundings.built_in_peer_limit,
        );
        effects.push(Effect::LimitPeerWorkers { limit });
        effects.push(Effect::ReconcileQueue { delay: 0 });
        if allow_irreversible {
            effects.push(Effect::SweepCompleted);
        }
        effects.push(Effect::ReconcileSeeders);
        assert(effects@ =~= asked + seq![
            Effect::LimitPeerWorkers { limit },
            Effect::ReconcileQueue { delay: 0 },
        ] + (if allow_irreversible {
            seq![Effect::SweepCompleted]
        } else {
            Seq::<Effect>::empty()
        }) + seq![Effect::ReconcileSeeders]);
    }
}

/// Settings that are changed by themselves.
#[derive(Clone, Copy, PartialEq, Eq, Structural, Debug)]
pub struct SettingsPatch {
    pub bandwidth: Option<BandwidthConfig>,
    pub queue: Option<QueueLimits>,
    pub seeding: Option<SeedingConfig>,
    pub autopilot_mode: Option<AutopilotMode>,
}

/// A configuration with settings changed.
pub open spec fn patched(config: Config, patch: SettingsPatch) -> Config {
    Config {
        bandwidth: patch.bandwidth.unwrap_or(config.bandwidth),
        queue: patch.queue.unwrap_or(config.queue),
        seeding: patch.seeding.unwrap_or(config.seeding),
        autopilot_mode: patch.autopilot_mode.unwrap_or(config.autopilot_mode),
        ..config
    }
}

/// The configuration with settings changed.
pub fn update_settings(config: &Config, patch: SettingsPatch) -> (next: Config)
    ensures
        crate::copies::same_config(next, patched(*config, patch)),
{
    let mut next: Config = config.clone();
    if let Some(bandwidth) = patch.bandwidth {
        next.bandwidth = bandwidth;
    }
    if let Some(queue) = patch.queue {
        next.queue = queue;
    }
    if let Some(seeding) = patch.seeding {
        next.seeding = seeding;
    }
    if let Some(mode) = patch.autopilot_mode {
        next.autopilot_mode = mode;
    }
    next
}

/// Tells observers that settings changed.
pub fn tell_settings_changed(effects: &mut Vec<Effect>)
    ensures
        final(effects)@ == old(effects)@ + seq![
            Effect::Publish(Event::SettingsChanged),
            crate::effects::stats_effect(),
        ],
{
    effects.push(Effect::Publish(Event::SettingsChanged));
    effects.push(Effect::Publish(Event::StatsUpdated));
    assert(effects@ =~= old(effects)@ + seq![
        Effect::Publish(Event::SettingsChanged),
        crate::effects::stats_effect(),
    ]);
}

/// The settings that a running daemon follows at once.
pub open spec fn followed_settings() -> Seq<Seq<char>> {
    seq![
        "bandwidth"@,
        "queue"@,
        "seeding"@,
        "network"@,
        "torrent.allow_ipv6"@,
        "torrent.utp_enabled"@,
        "torrent.utp_prefer_tcp"@,
        "torrent.listen_port"@,
        "torrent.encryption_mode"@,
        "torrent.selfish"@,
        "dht"@,
        "storage"@,
        "watch"@,
        "autopilot"@,
    ]
}

/// What a replacement of the configuration came to.
#[derive(Debug)]
pub struct ConfigUpdateResult {
    pub persisted: bool,
    pub config_path: Option<String>,
    pub restart_required: bool,
    pub restart_required_fields: Vec<String>,
    pub applied_runtime_fields: Vec<String>,
    /// The configuration in force, without its secret.
    pub config: Config,
}

fn list_followed_settings() -> (names: Vec<String>)
    ensures
        crate::config::texts_of(names@) == followed_settings(),
{
    let mut names: Vec<String> = Vec::new();
    names.push(owned("bandwidth"));
    names.push(owned("queue"));
    names.push(owned("seeding"));
    names.push(owned("network"));
    names.push(owned("torrent.allow_ipv6"));
    names.push(owned("torrent.utp_enabled"));
    names.push(owned("torrent.utp_prefer_tcp"));
    names.push(owned("torrent.listen_port"));
    names.push(owned("torrent.encryption_mode"));
    names.push(owned("torrent.selfish"));
    names.push(owned("dht"));
    names.push(owned("storage"));
    names.push(owned("watch"));
    names.push(owned("autopilot"));
    assert(crate::config::texts_of(names@) =~= followed_settings());
    names
}

/// What a replacement of the configuration came to, with the settings that need a restart.
pub fn config_update_result(
    config_path: &Option<String>,
    restart_required_fields: Vec<String>,
    config: Config,
) -> (result: ConfigUpdateResult)
    ensures
        result.persisted == config_path.is_some(),
        result.config_path == *config_path,
        result.restart_required == (restart_required_fields@.len() > 0),
        result.restart_required_fields == restart_required_fields,
        crate::config::texts_of(result.applied_runtime_fields@) == followed_settings(),
        result.config == (Config {
            api: crate::config::ApiConfig { auth_token: None, ..config.api },
            ..config
        }),
{
    ConfigUpdateResult {
        persisted: config_path.is_some(),
        config_path: crate::copies::copied_text(config_path),
        restart_required: restart_required_fields.len() > 0,
        restart_required_fields,
        applied_runtime_fields: list_followed_settings(),
        config: crate::config::redact_config(config),
    }
}

/// A path that a new configuration names and that cannot be used.
pub open spec fn unusable_path(complaint: Seq<char>, cause: Seq<char>) -> ErrorView {
    ErrorView { kind: ErrorKind::NetworkBlocked, message: complaint + cause }
}

/// Whether the path that a new configuration names can be used: with containment, a datagram
/// socket and then the listener must have been bound on it. Each failure is given in words.
pub fn validate_replacement_bind_path(
    config: &Config,
    udp: Result<(), String>,
    listener: Result<(), String>,
) -> (outcome: Result<(), CoreError>)
    ensures
        ({
            let contained = config.network.mode
                != crate::network::NetworkContainmentMode::Disabled;
            &&& outcome.is_ok() == (!contained || (udp.is_ok() && listener.is_ok()))
            &&& outcome matches Err(error) ==> error@ == match udp {
                Err(cause) => unusable_path(
                    "replacement containment UDP bind validation failed: "@,
                    cause@,
                ),
                Ok(_) => unusable_path(
                    "replacement containment listener bind validation failed: "@,
                    listener->Err_0@,
                ),
            }
        }),
{
    if config.network.mode == crate::network::NetworkContainmentMode::Disabled {
        return Ok(());
    }
    if let Err(cause) = udp {
        let mut message: String = owned("replacement containment UDP bind validation failed: ");
        message.append(cause.as_str());
        return Err(CoreError::NetworkBlocked(message));
    }
    if let Err(cause) = listener {
        let mut message: String = owned(
            "replacement containment listener bind validation failed: ",
        );
        message.append(cause.as_str());
        return Err(CoreError::NetworkBlocked(message));
    }
    Ok(())
}

/// Whether a new configuration is accepted: it must be valid; where a failure stands, the path it
/// names must be usable; and no torrent may depend on what it changes.
pub fn judge_replacement(
    valid: Result<(), CoreError>,
    failure_stands: bool,
    bind_path: Result<(), CoreError>,
    storage: Result<(), CoreError>,
) -> (outcome: Result<(), CoreError>)
    ensures
        outcome == if valid.is_err() {
            valid
        } else if failure_stands && bind_path.is_err() {
            bind_path
        } else {
            storage
        },
{
    if valid.is_err() {
        return valid;
    }
    if failure_stands && bind_path.is_err() {
        return bind_path;
    }
    storage
}

/// A change of the peer budgets goes through its stages one by one: draining, rebuilding, checking,
/// writing where there is a file, and then it holds. A failure at any of them undoes it; once it
/// holds or is undone it stays so.
pub proof fn changes_go_stage_by_stage(stage: PeerBudgetStage, persists: bool)
    ensures
        stage_after(PeerBudgetStage::Draining, true, persists) == PeerBudgetStage::Rebuilding,
        stage_after(PeerBudgetStage::Rebuilding, true, persists) == PeerBudgetStage::Verifying,
        stage_after(PeerBudgetStage::Verifying, true, true) == PeerBudgetStage::Persisting,
        stage_after(PeerBudgetStage::Verifying, true, false) == PeerBudgetStage::Committed,
        stage_after(PeerBudgetStage::Persisting, true, persists) == PeerBudgetStage::Committed,
        stage != PeerBudgetStage::Committed ==> stage_after(stage, false, persists)
            == PeerBudgetStage::RolledBack,
        forall|succeeded: bool| #[trigger]
            stage_after(PeerBudgetStage::Committed, succeeded, persists)
                == PeerBudgetStage::Committed,
        forall|succeeded: bool| #[trigger]
            stage_after(PeerBudgetStage::RolledBack, succeeded, persists)
                == PeerBudgetStage::RolledBack,
{
}

/// A patch replaces the parts that it names and no other.
pub proof fn patches_replace_what_they_name(config: Config, patch: SettingsPatch)
    ensures
        patch.bandwidth matches Some(bandwidth) ==> patched(config, patch).bandwidth == bandwidth,
        patch.bandwidth.is_none() ==> patched(config, patch).bandwidth == config.bandwidth,
        patch.queue matches Some(queue) ==> patched(config, patch).queue == queue,
        patch.queue.is_none() ==> patched(config, patch).queue == config.queue,
        patch.seeding matches Some(seeding) ==> patched(config, patch).seeding == seeding,
        patch.seeding.is_none() ==> patched(config, patch).seeding == config.seeding,
        patch.autopilot_mode matches Some(mode) ==> patched(config, patch).autopilot_mode == mode,
        patch.autopilot_mode.is_none() ==> patched(config, patch).autopilot_mode
            == config.autopilot_mode,
        patched(config, patch).storage == config.storage && patched(config, patch).network
            == config.network && patched(config, patch).api == config.api && patched(
            config,
            patch,
        ).torrent == config.torrent && patched(config, patch).watch == config.watch,
{
}

/// The token stays where a new configuration names none, and is the new one where it does; nothing
/// else of the new configuration changes.
pub proof fn tokens_are_not_lost(next: Config, previous: Config)
    ensures
        next.api.auth_token.is_none() ==> token_kept(next, previous).api.auth_token
            == previous.api.auth_token,
        next.api.auth_token.is_some() ==> token_kept(next, previous) == next,
        token_kept(next, previous).api.bind_address == next.api.bind_address,
        token_kept(next, previous).storage == next.storage && token_kept(next, previous).network
            == next.network && token_kept(next, previous).bandwidth == next.bandwidth,
{
}

/// A failure that stands is not lifted by a new look at the network, unless the change clears it.
pub proof fn standing_failures_are_not_overlooked(
    runtime: DaemonRuntime,
    evaluated: NetworkHealth,
    clear: bool,
)
    ensures
        runtime.bind_failure.is_none() ==> next_health_of(runtime, evaluated, clear) == evaluated,
        clear ==> next_health_of(runtime, evaluated, clear) == evaluated,
        runtime.bind_failure.is_some() && !clear ==> next_health_of(runtime, evaluated, clear)
            == runtime.network_health,
{
}

/// While tasks are replaced, live work is blocked with the reason and noted for what it did, and
/// every other torrent is left as it is.
pub proof fn replaced_work_is_noted(
    registry: Map<InfoHash, Torrent>,
    found: FleetView,
    decisions: Map<InfoHash, SeedDecision>,
    detail: String,
    hash: InfoHash,
)
    requires
        registry.dom().contains(hash),
    ensures
        ({
            let after = intents_noted(registry, found, decisions, detail);
            let intent = found.live_intent(hash, decisions);
            &&& after.dom() == registry.dom()
            &&& intent.is_none() ==> after[hash] == registry[hash]
            &&& intent.is_some() ==> after[hash] == (Torrent {
                containment_recovery_intent: intent,
                state: TorrentState::NetworkBlocked,
                error: Some(Notice::Text(detail)),
                ..registry[hash]
            })
        }),
{
    assert(intents_noted(registry, found, decisions, detail).dom() =~= registry.dom());
}

/// Before settings that tasks were made under are replaced, every task ends: no engine, no upload
/// and no retry is left. Where the path will be lost the containment gate closes, and live work is
/// blocked and noted; where it stays open the containment gate is left alone and no torrent is
/// blocked.
pub proof fn replacements_end_all_work(
    found: FleetView,
    gate: GateView,
    fleet: FleetView,
    gate_after: GateView,
    health: NetworkHealth,
    decisions: Map<InfoHash, SeedDecision>,
    asked: Seq<Effect>,
    told: Seq<Effect>,
    hash: InfoHash,
)
    requires
        ended_for_replacement(found, gate, fleet, gate_after, health, decisions, asked, told),
    ensures
        ({
            let open = health.traffic_allowed || health.mode
                == crate::network::NetworkContainmentMode::Disabled;
            let intent = found.live_intent(hash, decisions);
            &&& !fleet.engines.dom().contains(hash) && !fleet.seeders.dom().contains(hash)
            &&& fleet.registry.dom() == found.registry.dom()
            &&& fleet.queue == found.queue
            &&& open ==> gate_after == gate
            &&& !open ==> !gate_after.allowed && gate_after.status == Some(health.status)
                && gate_after.detail == health.detail@
            &&& !open && found.registry.dom().contains(hash) && intent.is_some()
                ==> fleet.registry[hash].state == TorrentState::NetworkBlocked
                && fleet.registry[hash].containment_recovery_intent == intent
                && fleet.registry[hash].error == Some(Notice::Text(health.detail))
            &&& found.registry.dom().contains(hash) && (open || intent.is_none())
                ==> fleet.registry[hash].state == if found.registry[hash].state
                == TorrentState::Seeding && found.registry[hash].seeding_status
                == crate::torrent::SeedingStatus::Active {
                TorrentState::Completed
            } else {
                found.registry[hash].state
            }
            &&& told.last() == Effect::StopDht
            &&& !open ==> told[asked.len() as int] == (Effect::CloseGate {
                status: health.status,
                detail: health.detail,
            })
        }),
{
    let hashes = choose|hashes: Seq<InfoHash>|
        {
            let stopped = #[trigger] found.all_stopped(hashes);
            &&& crate::reset::hashes_increase(hashes)
            &&& forall|hash: InfoHash| #[trigger] hashes.contains(hash) == found.concerns(hash)
            &&& fleet == (FleetView {
                registry: if health.permits() {
                    stopped.registry
                } else {
                    intents_noted(stopped.registry, found, decisions, health.detail)
                },
                ..stopped
            })
            &&& told == asked + close_effects(health) + found.all_stop_effects(hashes, true)
                + seq![Effect::StopDht]
        };
    crate::fleet::stopping_is_exact(found, hashes);
    assert(hashes.contains(hash) == found.concerns(hash));
    assert(fleet.registry.dom() =~= found.registry.dom());
}

/// A change of the peer budgets begins by ending all work, having noted what worked; settings stay
/// as they are until it is installed. Where the path will be lost the containment gate closes.
pub proof fn changes_begin_by_ending_all_work(
    found: DaemonRuntime,
    runtime: DaemonRuntime,
    update: PeerBudgetUpdate,
    health: NetworkHealth,
    asked: Seq<Effect>,
    told: Seq<Effect>,
    hash: InfoHash,
)
    requires
        change_begun(found, runtime, update, health, asked, told),
    ensures
        ({
            let open = health.traffic_allowed || health.mode
                == crate::network::NetworkContainmentMode::Disabled;
            &&& !runtime.fleet@.engines.dom().contains(hash)
                && !runtime.fleet@.seeders.dom().contains(hash)
            &&& runtime.fleet@.registry.dom() == found.fleet@.registry.dom()
            &&& runtime.fleet@.queue == found.fleet@.queue
            &&& runtime.config == found.config && runtime.permits == found.permits
                && runtime.network_health == found.network_health && runtime.bind_failure
                == found.bind_failure
            &&& open ==> runtime.gate@ == found.gate@
            &&& !open ==> !runtime.gate@.allowed
            &&& !update.installed && update.next_health == health
            &&& told.last() == Effect::StopDht
        }),
{
    let hashes = choose|hashes: Seq<InfoHash>|
        {
            &&& crate::reset::hashes_increase(hashes)
            &&& forall|hash: InfoHash| #[trigger]
                hashes.contains(hash) == found.fleet@.concerns(hash)
            &&& runtime.fleet@ == #[trigger] found.fleet@.all_stopped(hashes)
            &&& told == asked + close_effects(health) + found.fleet@.all_stop_effects(hashes, true)
                + seq![Effect::StopDht]
        };
    crate::fleet::stopping_is_exact(found.fleet@, hashes);
    assert(hashes.contains(hash) == found.fleet@.concerns(hash));
}

/// Installing a change puts the new settings and permits in force and keeps the old ones for its
/// undoing. Under an open path the containment gate is open and work is set up again, all that
/// worked where only the limits changed, and all that should work otherwise; under a lost path
/// nothing is set up.
pub proof fn installed_changes_are_in_force(
    found: DaemonRuntime,
    held: PeerBudgetUpdate,
    runtime: DaemonRuntime,
    update: PeerBudgetUpdate,
    rebuild: Rebuild,
    asked: Seq<Effect>,
    told: Seq<Effect>,
)
    requires
        change_installed(found, held, runtime, update, rebuild, asked, told),
    ensures
        ({
            let health = held.next_health;
            let open = health.traffic_allowed || health.mode
                == crate::network::NetworkContainmentMode::Disabled;
            &&& runtime.config == held.held && runtime.permits == held.held_permits
            &&& update.held == found.config && update.held_permits == found.permits
                && update.installed
            &&& update.previous_health == held.previous_health && update.lifecycle
                == held.lifecycle && update.live == held.live
            &&& runtime.network_health == health
            &&& held.clear_bind_failure ==> runtime.bind_failure.is_none()
            &&& !held.clear_bind_failure ==> runtime.bind_failure == found.bind_failure
            &&& open ==> runtime.gate@.allowed && told == asked.push(Effect::OpenGate)
            &&& !open ==> runtime.gate@ == found.gate@ && told == asked
            &&& !open ==> rebuild == Rebuild::Nothing
            &&& open && held.peer_limits_only ==> rebuild == Rebuild::Live
            &&& open && !held.peer_limits_only ==> rebuild == Rebuild::Eligible
            &&& runtime.fleet@.queue == found.fleet@.queue && runtime.fleet@.engines
                == found.fleet@.engines && runtime.fleet@.seeders == found.fleet@.seeders
        }),
{
    assert(asked + seq![Effect::OpenGate] =~= asked.push(Effect::OpenGate));
    assert(asked + Seq::<Effect>::empty() =~= asked);
}

/// Undoing a change brings back what it remembers, whether it was installed or not: the settings,
/// the permits, the health of the network and the failure that stood; all work that was begun under
/// it ends, and the containment gate stands as that health says.
pub proof fn undone_changes_bring_back_what_was(
    found: DaemonRuntime,
    update: PeerBudgetUpdate,
    runtime: DaemonRuntime,
    asked: Seq<Effect>,
    told: Seq<Effect>,
    before: Before,
    hash: InfoHash,
)
    requires
        change_undone(found, update, runtime, asked, told),
        update.remembers(found, before),
    ensures
        ({
            let open = before.health.traffic_allowed || before.health.mode
                == crate::network::NetworkContainmentMode::Disabled;
            &&& runtime.config == before.config
            &&& runtime.permits@ == before.permits
            &&& runtime.network_health == before.health && runtime.bind_failure
                == before.bind_failure
            &&& runtime.network_health == update.previous_health && runtime.bind_failure
                == update.previous_bind_failure
            &&& update.installed ==> before.config == update.held && before.permits
                == update.held_permits@
            &&& !update.installed ==> before.config == found.config && before.permits
                == found.permits@
            &&& update.lifecycle@ == before.standings
            &&& runtime.gate@.allowed == open
            &&& !runtime.fleet@.engines.dom().contains(hash)
                && !runtime.fleet@.seeders.dom().contains(hash)
            &&& runtime.fleet@.queue == found.fleet@.queue
            &&& open ==> told.last() == Effect::OpenGate
            &&& !open ==> told.last() == (Effect::CloseGate {
                status: before.health.status,
                detail: before.health.detail,
            })
        }),
{
    let hashes = choose|hashes: Seq<InfoHash>|
        {
            let stopped = #[trigger] found.fleet@.all_stopped(hashes);
            &&& crate::reset::hashes_increase(hashes)
            &&& forall|hash: InfoHash| #[trigger]
                hashes.contains(hash) == found.fleet@.concerns(hash)
            &&& runtime.fleet@ == (FleetView {
                registry: crate::livework::all_relived(
                    stopped.registry,
                    update.lifecycle@,
                    update.lifecycle@.len(),
                ),
                ..stopped
            })
            &&& told == asked + found.fleet@.all_stop_effects(hashes, true) + seq![Effect::StopDht]
                + if update.previous_health.permits() {
                seq![Effect::OpenGate]
            } else {
                close_effects(update.previous_health)
            }
            &&& forall|before: Before| #[trigger]
                update.remembers(found, before) ==> put_back(
                    before,
                    found.fleet@.all_stopped(hashes).registry,
                    runtime,
                )
        };
    crate::fleet::stopping_is_exact(found.fleet@, hashes);
    assert(hashes.contains(hash) == found.fleet@.concerns(hash));
    assert(update.remembers(found, before));
}

/// An installed change takes noted work up where the path was closed, or a failure stood, and is
/// open now; where the path stays open no torrent changes; and where it is lost the live work is
/// blocked with the reason.
pub proof fn installed_changes_settle_torrents(
    found: DaemonRuntime,
    held: PeerBudgetUpdate,
    runtime: DaemonRuntime,
    update: PeerBudgetUpdate,
    rebuild: Rebuild,
    asked: Seq<Effect>,
    told: Seq<Effect>,
    hash: InfoHash,
)
    requires
        change_installed(found, held, runtime, update, rebuild, asked, told),
        found.fleet@.registry.dom().contains(hash),
    ensures
        ({
            let health = held.next_health;
            let open = health.traffic_allowed || health.mode
                == crate::network::NetworkContainmentMode::Disabled;
            let was_open = held.previous_health.traffic_allowed || held.previous_health.mode
                == crate::network::NetworkContainmentMode::Disabled;
            let back = !was_open || held.previous_bind_failure.is_some();
            let was = found.fleet@.registry[hash];
            let torrent = runtime.fleet@.registry[hash];
            &&& open && back && was.containment_recovery_intent.is_some()
                ==> torrent.containment_recovery_intent.is_none() && torrent.error.is_none() && (
            torrent.state == TorrentState::Queued || torrent.state == TorrentState::Completed)
            &&& open && back && was.containment_recovery_intent.is_none() ==> torrent == was
            &&& open && !back ==> torrent == was
            &&& !open && (exists|i: int|
                0 <= i < held.live.downloads@.len() && (#[trigger] held.live.downloads@[i]).hash
                    == hash) ==> torrent.state == TorrentState::NetworkBlocked && torrent.error
                == Some(Notice::Text(health.detail))
            &&& runtime.fleet@.registry.dom() == found.fleet@.registry.dom()
        }),
{
    crate::livework::listed_work_is_cut(
        found.fleet@.registry,
        held.live,
        held.next_health.detail,
        hash,
    );
    assert(runtime.fleet@.registry.dom() =~= found.fleet@.registry.dom());
    if let Some(note) = found.fleet@.registry[hash].containment_recovery_intent {
        match note {
            crate::torrent::ContainmentRecoveryIntent::Seeding => {},
            _ => {},
        }
    }
}

} // verus!
