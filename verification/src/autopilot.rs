//! What the autopilot is told of a torrent, and what becomes of its decisions.
use crate::clock::{instant_age_seconds, later_of, Tick};
use crate::config::{effective_per_torrent_peer_limit, Config};
use crate::effects::Effect;
use crate::engine::{later_tick, EngineState};
use crate::fleet::{Fleet, FleetView, RateSample};
use crate::hash::InfoHash;
use crate::index::HashIndex;
use crate::network::NetworkHealth;
use crate::scheduler::desired_download_hashes_excluding;
use crate::stats::useful_peer_count;
use crate::torrent::{count_pieces, Notice, Torrent, TorrentState};
use vstd::prelude::*;

verus! {

/// The seconds between two actions on the same torrent.
pub const ACTION_COOLDOWN_SECONDS: u32 = 60;

/// The seconds before a torrent that gave its slot up is tried again.
pub const RELEASE_DELAY_SECONDS: u64 = 60;

/// When a torrent last got on, if ever: the latest sign of a download; else since when there was
/// none; else when it was last measured.
pub open spec fn last_progress(sample: Option<RateSample>, engine: Option<EngineState>) -> Option<
    Tick,
> {
    let measured = match sample {
        Some(sample) => sample.last_download_at,
        None => None,
    };
    let latest = match engine {
        Some(engine) => crate::clock::later(
            crate::clock::later(
                crate::clock::later(measured, engine.last_valid_block),
                engine.block_last_seen,
            ),
            engine.webseed_last_seen,
        ),
        None => measured,
    };
    if latest.is_some() {
        latest
    } else {
        match sample {
            Some(sample) => if sample.no_download_since.is_some() {
                sample.no_download_since
            } else {
                Some(sample.at)
            },
            None => None,
        }
    }
}

/// When a torrent last got on.
pub fn latest_progress_instant(sample: Option<RateSample>, engine: Option<&EngineState>) -> (latest:
    Option<Tick>)
    ensures
        latest == last_progress(
            sample,
            match engine {
                Some(engine) => Some(*engine),
                None => None,
            },
        ),
{
    let mut latest: Option<Tick> = match sample {
        Some(sample) => sample.last_download_at,
        None => None,
    };
    if let Some(engine) = engine {
        latest = later_of(latest, engine.last_valid_block);
        latest = later_of(latest, engine.block_last_seen);
        latest = later_of(latest, engine.webseed_last_seen);
    }
    if latest.is_some() {
        return latest;
    }
    match sample {
        Some(sample) => if sample.no_download_since.is_some() {
            sample.no_download_since
        } else {
            Some(sample.at)
        },
        None => None,
    }
}

/// What the autopilot is told of a torrent.
#[derive(Clone, Copy, PartialEq, Eq, Structural, Debug)]
pub struct AutopilotInput {
    pub state: TorrentState,
    pub rate_down: u64,
    pub rate_up: u64,
    pub rate_down_observed_peak: u64,
    pub download_limit: u64,
    pub piece_count: usize,
    pub pieces_have: usize,
    pub known_peers: usize,
    pub useful_peers: Option<usize>,
    pub active_peer_workers: usize,
    pub discovered_peers: Option<usize>,
    pub eligible_peers: Option<usize>,
    pub peer_worker_limit: Option<usize>,
    pub backed_off_peers: Option<usize>,
    pub tracker_ok: bool,
    pub tracker_recent_ok_seconds_ago: Option<u64>,
    pub tracker_failures_recent: u32,
    pub dht_discovery_ok: Option<bool>,
    pub dht_last_seen_seconds_ago: Option<u64>,
    pub pex_discovery_ok: Option<bool>,
    pub pex_last_seen_seconds_ago: Option<u64>,
    pub peer_failures_recent: Option<u32>,
    pub serial_peer_active: bool,
    pub no_progress_seconds: Option<u64>,
    pub network_traffic_allowed: Option<bool>,
}

/// A sum; at most what fits.
pub open spec fn bounded_sum(a: int, b: int) -> int {
    if a + b <= u32::MAX {
        a + b
    } else {
        u32::MAX as int
    }
}

/// The larger of two counts.
pub open spec fn larger(a: usize, b: usize) -> usize {
    if b > a {
        b
    } else {
        a
    }
}

/// What is told of a torrent whose engine says nothing.
pub open spec fn input_alone(
    torrent: Torrent,
    sample: Option<RateSample>,
    engine: Option<EngineState>,
    now: Tick,
    network: NetworkHealth,
) -> AutopilotInput {
    let rate_down = match sample {
        Some(sample) => sample.rate_down,
        None => torrent.rate_down,
    };
    let peak = match sample {
        Some(sample) => sample.peak_rate_down,
        None => torrent.rate_down,
    };
    AutopilotInput {
        state: torrent.state,
        rate_down,
        rate_up: match sample {
            Some(sample) => sample.rate_up,
            None => torrent.rate_up,
        },
        rate_down_observed_peak: if rate_down > peak {
            rate_down
        } else {
            peak
        },
        download_limit: torrent.download_limit,
        piece_count: torrent.meta.piece_count,
        pieces_have: crate::torrent::count_have(
            torrent.progress.have@,
            torrent.progress.have@.len(),
        ) as usize,
        known_peers: torrent.known_peers,
        useful_peers: None,
        active_peer_workers: torrent.active_peer_workers,
        discovered_peers: None,
        eligible_peers: None,
        peer_worker_limit: None,
        backed_off_peers: None,
        tracker_ok: torrent.state.active(),
        tracker_recent_ok_seconds_ago: None,
        tracker_failures_recent: 0,
        dht_discovery_ok: None,
        dht_last_seen_seconds_ago: None,
        pex_discovery_ok: None,
        pex_last_seen_seconds_ago: None,
        peer_failures_recent: None,
        serial_peer_active: false,
        no_progress_seconds: crate::stats::age(now, last_progress(sample, engine)),
        network_traffic_allowed: Some(network.permits()),
    }
}

/// What the autopilot is told of a torrent: where its engine says something, that.
pub open spec fn input_of(
    torrent: Torrent,
    engine: Option<EngineState>,
    sample: Option<RateSample>,
    now: Tick,
    network: NetworkHealth,
) -> AutopilotInput {
    let alone = input_alone(torrent, sample, engine, now, network);
    match engine {
        None => alone,
        Some(engine) => AutopilotInput {
            piece_count: larger(engine.piece_count, torrent.meta.piece_count),
            pieces_have: if engine.piece_count > 0 {
                crate::torrent::count_have(
                    engine.pieces_have@,
                    engine.piece_count as nat,
                ) as usize
            } else {
                alone.pieces_have
            },
            known_peers: engine.known_peers,
            useful_peers: Some(
                crate::stats::count_of(
                    engine.peer_health@,
                    crate::stats::is_useful(now),
                ) as usize,
            ),
            active_peer_workers: engine.active_peers,
            discovered_peers: Some(
                larger(engine.peer_scheduler.discovered_peers, engine.known_peers),
            ),
            eligible_peers: Some(engine.peer_scheduler.eligible_peers),
            peer_worker_limit: Some(engine.peer_scheduler.peer_worker_limit),
            backed_off_peers: Some(engine.peer_scheduler.backed_off_peers),
            tracker_ok: engine.tracker_ok,
            tracker_recent_ok_seconds_ago: crate::stats::age(now, engine.tracker_last_ok),
            tracker_failures_recent: engine.tracker_failures_recent,
            dht_discovery_ok: Some(engine.dht_discovery_ok),
            dht_last_seen_seconds_ago: crate::stats::age(now, engine.dht_last_seen),
            pex_discovery_ok: Some(engine.pex_discovery_ok),
            pex_last_seen_seconds_ago: crate::stats::age(now, engine.pex_last_seen),
            peer_failures_recent: Some(
                bounded_sum(
                    bounded_sum(
                        engine.peer_disconnects_recent as int,
                        engine.hash_failures as int,
                    ),
                    engine.timeout_failures as int,
                ) as u32,
            ),
            serial_peer_active: engine.peer_scheduler.serial_peer_active,
            ..alone
        },
    }
}

fn plus(a: u32, b: u32) -> (sum: u32)
    ensures
        sum == bounded_sum(a as int, b as int),
{
    match a.checked_add(b) {
        Some(sum) => sum,
        None => u32::MAX,
    }
}

fn greater(a: usize, b: usize) -> (most: usize)
    ensures
        most == larger(a, b),
{
    if b > a {
        b
    } else {
        a
    }
}

/// What the autopilot is told of a torrent.
pub fn build_autopilot_input(
    torrent: &Torrent,
    engine: Option<&EngineState>,
    sample: Option<RateSample>,
    now: Tick,
    network: &NetworkHealth,
) -> (input: AutopilotInput)
    ensures
        input == input_of(
            *torrent,
            match engine {
                Some(engine) => Some(*engine),
                None => None,
            },
            sample,
            now,
            *network,
        ),
{
    let rate_down: u64 = match sample {
        Some(sample) => sample.rate_down,
        None => torrent.rate_down,
    };
    let rate_up: u64 = match sample {
        Some(sample) => sample.rate_up,
        None => torrent.rate_up,
    };
    let peak: u64 = match sample {
        Some(sample) => sample.peak_rate_down,
        None => torrent.rate_down,
    };
    let mut input: AutopilotInput = AutopilotInput {
        state: torrent.state,
        rate_down,
        rate_up,
        rate_down_observed_peak: if rate_down > peak {
            rate_down
        } else {
            peak
        },
        download_limit: torrent.download_limit,
        piece_count: torrent.meta.piece_count,
        pieces_have: count_pieces(&torrent.progress.have, torrent.progress.have.len()),
        known_peers: torrent.known_peers,
        useful_peers: None,
        active_peer_workers: torrent.active_peer_workers,
        discovered_peers: None,
        eligible_peers: None,
        peer_worker_limit: None,
        backed_off_peers: None,
        tracker_ok: torrent.state.is_active(),
        tracker_recent_ok_seconds_ago: None,
        tracker_failures_recent: 0,
        dht_discovery_ok: None,
        dht_last_seen_seconds_ago: None,
        pex_discovery_ok: None,
        pex_last_seen_seconds_ago: None,
        peer_failures_recent: None,
        serial_peer_active: false,
        no_progress_seconds: instant_age_seconds(now, latest_progress_instant(sample, engine)),
        network_traffic_allowed: Some(network.permits_traffic()),
    };
    if let Some(engine) = engine {
        input.piece_count = greater(engine.piece_count, torrent.meta.piece_count);
        if engine.piece_count > 0 {
            input.pieces_have = count_pieces(&engine.pieces_have, engine.piece_count);
        }
        input.known_peers = engine.known_peers;
        input.useful_peers = Some(useful_peer_count(&engine.peer_health, now));
        input.active_peer_workers = engine.active_peers;
        input.discovered_peers = Some(
            greater(engine.peer_scheduler.discovered_peers, engine.known_peers),
        );
        input.eligible_peers = Some(engine.peer_scheduler.eligible_peers);
        input.peer_worker_limit = Some(engine.peer_scheduler.peer_worker_limit);
        input.backed_off_peers = Some(engine.peer_scheduler.backed_off_peers);
        input.tracker_ok = engine.tracker_ok;
        input.tracker_recent_ok_seconds_ago = instant_age_seconds(now, engine.tracker_last_ok);
        input.tracker_failures_recent = engine.tracker_failures_recent;
        input.dht_discovery_ok = Some(engine.dht_discovery_ok);
        input.dht_last_seen_seconds_ago = instant_age_seconds(now, engine.dht_last_seen);
        input.pex_discovery_ok = Some(engine.pex_discovery_ok);
        input.pex_last_seen_seconds_ago = instant_age_seconds(now, engine.pex_last_seen);
        input.peer_failures_recent = Some(
            plus(
                plus(engine.peer_disconnects_recent, engine.hash_failures),
                engine.timeout_failures,
            ),
        );
        input.serial_peer_active = engine.peer_scheduler.serial_peer_active;
    }
    input
}

/// What the autopilot would do.
#[derive(Clone, Copy, PartialEq, Eq, Structural, Debug)]
pub enum AutopilotActionKind {
    IncreasePeerWorkers,
    ExpandDiscovery,
    RelaxPeerBackoff,
    ReleaseQueueSlot,
    RaiseDownloadCeiling,
}

/// What the autopilot would do, and how far.
#[derive(Clone, Copy, PartialEq, Eq, Structural, Debug)]
pub struct AutopilotAction {
    pub kind: AutopilotActionKind,
    pub suggested_download_limit: Option<u64>,
}

/// A decision of the autopilot.
#[derive(Clone, Copy, PartialEq, Eq, Structural, Debug)]
pub struct AutopilotDecision {
    pub apply: bool,
    pub action: Option<AutopilotAction>,
    /// The limit on peer workers that the decision was made under.
    pub peer_worker_limit: usize,
}

/// Something that a running engine is told.
#[derive(Clone, Copy, PartialEq, Eq, Structural, Debug)]
pub enum EngineCommand {
    Reannounce,
    RelaxPeerBackoff,
    UpdatePeerWorkerLimit(usize),
}

/// What a decision leads to.
#[derive(Clone, Copy, PartialEq, Eq, Structural, Debug)]
pub enum AutopilotStep {
    /// Nothing is done.
    Skip,
    /// The torrent's engine is told; it counts as done if the engine hears it.
    Tell(EngineCommand),
    /// The torrent gave its slot up.
    Released,
    /// The torrent's own limit was raised.
    Raised { limit: u64 },
}

/// The next limit on peer workers: one more, but no more than may be; if it is more at all.
pub open spec fn next_peer_worker_limit(now: usize, hard_limit: usize) -> Option<usize> {
    let current = if now == 0 {
        1usize
    } else {
        now
    };
    if current < hard_limit {
        Some((current + 1) as usize)
    } else {
        None
    }
}

fn raised_peer_worker_limit(now: usize, hard_limit: usize) -> (next: Option<usize>)
    ensures
        next == next_peer_worker_limit(now, hard_limit),
{
    let current: usize = if now == 0 {
        1
    } else {
        now
    };
    if current < hard_limit {
        Some(current + 1)
    } else {
        None
    }
}

/// The autopilot acted on the torrent a short while ago.
pub open spec fn cooling_down(last_action: Map<InfoHash, Tick>, hash: InfoHash, now: Tick) -> bool {
    last_action.dom().contains(hash) && now.within(
        Some(last_action[hash]),
        ACTION_COOLDOWN_SECONDS as int,
    )
}

/// The action that a decision asks for now, if any.
pub open spec fn action_due(
    decision: AutopilotDecision,
    last_action: Map<InfoHash, Tick>,
    hash: InfoHash,
    now: Tick,
) -> Option<AutopilotAction> {
    if decision.apply && !cooling_down(last_action, hash, now) {
        decision.action
    } else {
        None
    }
}

impl FleetView {
    /// The torrents that would be downloading without one.
    pub open spec fn desired_without(self, hash: InfoHash, now: Tick) -> Seq<InfoHash> {
        (crate::scheduler::Plan {
            registry: self.registry,
            retry_after: self.retry_after,
            now,
            limits: self.queue.limits,
            bypass: self.queue.bypass,
            excluded: Some(hash),
        }).chosen(crate::scheduler::candidates(self.queue.bypass, self.queue.order))
    }

    /// A task runs for the torrent, and another torrent could take its slot.
    pub open spec fn can_give_up(
        self,
        limits: crate::config::QueueLimits,
        hash: InfoHash,
        now: Tick,
    ) -> bool {
        self.engines.dom().contains(hash) && self.with_pruned_queue(limits).desired_without(
            hash,
            now,
        ).len() > 0
    }

    /// After a known torrent gave its slot up, to be tried again later.
    pub open spec fn slot_given_up(self, hash: InfoHash, due: Tick) -> FleetView {
        let stopped = self.work_stopped(hash);
        let torrent = stopped.registry[hash];
        FleetView {
            registry: stopped.registry.insert(
                hash,
                if torrent.state.downloads() {
                    Torrent {
                        state: TorrentState::Queued,
                        error: Some(Notice::AutopilotRelease),
                        ..torrent
                    }
                } else {
                    torrent
                },
            ),
            queue: crate::queue::QueueView {
                order: crate::queue::sunk(
                    crate::queue::appended(stopped.queue.order, hash),
                    hash,
                ),
                bypass: crate::queue::without(stopped.queue.bypass, hash),
                ..stopped.queue
            },
            retry_after: stopped.retry_after.insert(hash, due),
            ..stopped
        }
    }

    /// The fleet after a torrent was to give its slot up.
    pub open spec fn released(
        self,
        limits: crate::config::QueueLimits,
        hash: InfoHash,
        now: Tick,
    ) -> FleetView {
        let ready = self.with_pruned_queue(limits);
        if !self.engines.dom().contains(hash) {
            self
        } else if ready.desired_without(hash, now).len() == 0 {
            ready
        } else if !self.registry.dom().contains(hash) {
            ready.work_stopped(hash)
        } else {
            ready.slot_given_up(
                hash,
                crate::engine::tick_after(now, RELEASE_DELAY_SECONDS),
            )
        }
    }

    /// The torrent has a limit of its own, and the suggested one is higher.
    pub open spec fn can_raise(self, hash: InfoHash, suggested: Option<u64>) -> bool {
        &&& self.registry.dom().contains(hash)
        &&& suggested matches Some(limit) && 0 < self.registry[hash].download_limit < limit
    }
}

impl Fleet {
    /// Lets a torrent give its slot up, if another could take it.
    fn apply_autopilot_queue_release(
        &mut self,
        hash: InfoHash,
        limits: crate::config::QueueLimits,
        now: Tick,
        effects: &mut Vec<Effect>,
    ) -> (released: bool)
        requires
            old(self).wf(),
        ensures
            final(self).wf(),
            final(self)@ == old(self)@.released(limits, hash, now),
            released == (old(self)@.can_give_up(limits, hash, now) && old(
                self,
            )@.registry.dom().contains(hash)),
            final(effects)@ == old(effects)@ + if old(self)@.can_give_up(limits, hash, now) {
                old(self)@.with_pruned_queue(limits).work_stop_effects(hash, true) + if released {
                    seq![Effect::ReconcileQueue { delay: 0 }]
                } else {
                    Seq::<Effect>::empty()
                }
            } else {
                Seq::<Effect>::empty()
            },
    {
        if !self.engines.contains(&hash) {
            assert(effects@ =~= old(effects)@ + Seq::<Effect>::empty());
            return false;
        }
        let others: Vec<InfoHash> = desired_download_hashes_excluding(
            &mut self.queue,
            limits,
            &self.registry,
            &self.retry_after,
            now,
            Some(hash),
        );
        assert(self@ == old(self)@.with_pruned_queue(limits));
        if others.len() == 0 {
            assert(effects@ =~= old(effects)@ + Seq::<Effect>::empty());
            return false;
        }
        self.stop_work(&hash, true, effects);
        let ghost stopped = self@;
        let position: usize = match self.registry.find(&hash) {
            Some(position) => position,
            None => {
                assert(effects@ =~= old(effects)@ + (old(self)@.with_pruned_queue(
                    limits,
                ).work_stop_effects(hash, true) + Seq::<Effect>::empty()));
                return false;
            },
        };
        let state: TorrentState = self.registry.value_at(position).state;
        if matches!(state, TorrentState::Downloading | TorrentState::DownloadingMetadata) {
            let torrent: &mut Torrent = self.registry.value_at_mut(position);
            torrent.state = TorrentState::Queued;
            torrent.error = Some(Notice::AutopilotRelease);
        } else {
            assert(self.registry@ =~= self.registry@.insert(hash, self.registry@[hash]));
        }
        self.queue.add(hash);
        self.queue.clear_bypass(&hash);
        self.queue.move_to_bottom(&hash);
        self.retry_after.insert(hash, later_tick(now, RELEASE_DELAY_SECONDS));
        effects.push(Effect::ReconcileQueue { delay: 0 });
        assert(effects@ =~= old(effects)@ + (old(self)@.with_pruned_queue(
            limits,
        ).work_stop_effects(hash, true) + seq![Effect::ReconcileQueue { delay: 0 }]));
        true
    }

    /// Raises a torrent's own download limit to a suggested one.
    fn apply_autopilot_download_ceiling(&mut self, hash: InfoHash, suggested: Option<u64>) -> (
        raised: Option<u64>)
        requires
            old(self).wf(),
        ensures
            final(self).wf(),
            raised.is_some() == old(self)@.can_raise(hash, suggested),
            raised matches Some(limit) ==> suggested == Some(limit) && final(self)@ == old(
                self,
            )@.with(
                hash,
                Torrent { download_limit: limit, ..old(self)@.registry[hash] },
            ),
            raised.is_none() ==> final(self)@ == old(self)@,
    {
        let limit: u64 = match suggested {
            Some(limit) => limit,
            None => {
                return None;
            },
        };
        let position: usize = match self.registry.find(&hash) {
            Some(position) => position,
            None => {
                return None;
            },
        };
        let own: u64 = self.registry.value_at(position).download_limit;
        if own == 0 || limit <= own {
            return None;
        }
        let torrent: &mut Torrent = self.registry.value_at_mut(position);
        torrent.download_limit = limit;
        Some(limit)
    }

    /// Carries out a decision of the autopilot, as far as that changes torrents.
    pub fn apply_autopilot_decision(
        &mut self,
        hash: InfoHash,
        decision: AutopilotDecision,
        cfg: &Config,
        built_in_peer_limit: usize,
        last_action: &HashIndex<Tick>,
        now: Tick,
        effects: &mut Vec<Effect>,
    ) -> (step: AutopilotStep)
        requires
            old(self).wf(),
            last_action.wf(),
        ensures
            final(self).wf(),
            ({
                let due = action_due(decision, last_action@, hash, now);
                let hard_limit = if cfg.bandwidth.max_peers_per_torrent == 0 {
                    built_in_peer_limit
                } else {
                    cfg.bandwidth.max_peers_per_torrent
                };
                match due {
                    None => step == AutopilotStep::Skip && final(self)@ == old(self)@
                        && final(effects)@ == old(effects)@,
                    Some(action) => match action.kind {
                        AutopilotActionKind::IncreasePeerWorkers => {
                            &&& final(self)@ == old(self)@
                            &&& final(effects)@ == old(effects)@
                            &&& step == match next_peer_worker_limit(
                                decision.peer_worker_limit,
                                hard_limit,
                            ) {
                                Some(limit) => AutopilotStep::Tell(
                                    EngineCommand::UpdatePeerWorkerLimit(limit),
                                ),
                                None => AutopilotStep::Skip,
                            }
                        },
                        AutopilotActionKind::ExpandDiscovery => {
                            &&& final(self)@ == old(self)@
                            &&& final(effects)@ == old(effects)@
                            &&& step == AutopilotStep::Tell(EngineCommand::Reannounce)
                        },
                        AutopilotActionKind::RelaxPeerBackoff => {
                            &&& final(self)@ == old(self)@
                            &&& final(effects)@ == old(effects)@
                            &&& step == AutopilotStep::Tell(EngineCommand::RelaxPeerBackoff)
                        },
                        AutopilotActionKind::ReleaseQueueSlot => {
                            let can = old(self)@.can_give_up(cfg.queue, hash, now);
                            let known = old(self)@.registry.dom().contains(hash);
                            &&& final(self)@ == old(self)@.released(cfg.queue, hash, now)
                            &&& step == if can && known {
                                AutopilotStep::Released
                            } else {
                                AutopilotStep::Skip
                            }
                            &&& final(effects)@ == old(effects)@ + if can {
                                old(self)@.with_pruned_queue(cfg.queue).work_stop_effects(
                                    hash,
                                    true,
                                ) + if known {
                                    seq![Effect::ReconcileQueue { delay: 0 }]
                                } else {
                                    Seq::<Effect>::empty()
                                }
                            } else {
                                Seq::<Effect>::empty()
                            }
                        },
                        AutopilotActionKind::RaiseDownloadCeiling => {
                            &&& final(effects)@ == old(effects)@
                            &&& if old(self)@.can_raise(hash, action.suggested_download_limit) {
                                let limit = action.suggested_download_limit->0;
                                &&& step == AutopilotStep::Raised { limit }
                                &&& final(self)@ == old(self)@.with(
                                    hash,
                                    Torrent {
                                        download_limit: limit,
                                        ..old(self)@.registry[hash]
                                    },
                                )
                            } else {
                                step == AutopilotStep::Skip && final(self)@ == old(self)@
                            }
                        },
                    },
                }
            }),
    {
        if !decision.apply {
            return AutopilotStep::Skip;
        }
        let action: AutopilotAction = match decision.action {
            Some(action) => action,
            None => {
                return AutopilotStep::Skip;
            },
        };
        if let Some(at) = last_action.get(&hash) {
            if now.seen_within(Some(*at), ACTION_COOLDOWN_SECONDS) {
                return AutopilotStep::Skip;
            }
        }
        match action.kind {
            AutopilotActionKind::IncreasePeerWorkers => {
                let hard_limit: usize = effective_per_torrent_peer_limit(
                    cfg.bandwidth.max_peers_per_torrent,
                    built_in_peer_limit,
                );
                match raised_peer_worker_limit(decision.peer_worker_limit, hard_limit) {
                    Some(limit) => AutopilotStep::Tell(
                        EngineCommand::UpdatePeerWorkerLimit(limit),
                    ),
                    None => AutopilotStep::Skip,
                }
            },
            AutopilotActionKind::ExpandDiscovery => AutopilotStep::Tell(EngineCommand::Reannounce),
            AutopilotActionKind::RelaxPeerBackoff => AutopilotStep::Tell(
                EngineCommand::RelaxPeerBackoff,
            ),
            AutopilotActionKind::ReleaseQueueSlot => {
                if self.apply_autopilot_queue_release(hash, cfg.queue, now, effects) {
                    AutopilotStep::Released
                } else {
                    AutopilotStep::Skip
                }
            },
            AutopilotActionKind::RaiseDownloadCeiling => {
                match self.apply_autopilot_download_ceiling(hash, action.suggested_download_limit) {
                    Some(limit) => AutopilotStep::Raised { limit },
                    None => AutopilotStep::Skip,
                }
            },
        }
    }
}

/// Notes that the autopilot acted on a torrent.
pub fn note_autopilot_action(last_action: &mut HashIndex<Tick>, hash: InfoHash, now: Tick)
    requires
        old(last_action).wf(),
    ensures
        final(last_action).wf(),
        final(last_action)@ == old(last_action)@.insert(hash, now),
{
    last_action.insert(hash, now);
}

/// Right after an action on a torrent, and for a minute from then, no decision on it is carried
/// out.
pub proof fn actions_are_spaced(
    decision: AutopilotDecision,
    last_action: Map<InfoHash, Tick>,
    hash: InfoHash,
    acted: Tick,
    now: Tick,
)
    requires
        acted.nanos <= now.nanos < acted.nanos + ACTION_COOLDOWN_SECONDS
            * crate::clock::NANOS_PER_SECOND,
    ensures
        action_due(decision, last_action.insert(hash, acted), hash, now).is_none(),
{
}

/// The autopilot never lets more peer workers run than the configured limit.
pub proof fn peer_worker_limits_hold(now: usize, hard_limit: usize)
    ensures
        next_peer_worker_limit(now, hard_limit) matches Some(next) ==> now < next <= hard_limit,
{
}

/// The slot of a torrent is given up only where another torrent is ready to take it.
pub proof fn slots_are_not_wasted(
    fleet: FleetView,
    limits: crate::config::QueueLimits,
    hash: InfoHash,
    now: Tick,
)
    requires
        fleet.can_give_up(limits, hash, now),
    ensures
        exists|other: InfoHash|
            other != hash && #[trigger] fleet.with_pruned_queue(limits).desired_without(
                hash,
                now,
            ).contains(other),
{
    let ready = fleet.with_pruned_queue(limits);
    let plan = crate::scheduler::Plan {
        registry: ready.registry,
        retry_after: ready.retry_after,
        now,
        limits: ready.queue.limits,
        bypass: ready.queue.bypass,
        excluded: Some(hash),
    };
    let all = crate::scheduler::candidates(ready.queue.bypass, ready.queue.order);
    crate::scheduler::choice_respects_limits(plan, all);
    let chosen = ready.desired_without(hash, now);
    assert(chosen.contains(chosen[0]));
}

/// Between two actions on a torrent lies a minute: an action is due exactly where one is to be
/// applied and none was taken in the last sixty seconds.
pub proof fn actions_come_once_a_minute(
    decision: AutopilotDecision,
    last_action: Map<InfoHash, Tick>,
    hash: InfoHash,
    now: Tick,
)
    ensures
        action_due(decision, last_action, hash, now).is_some() ==> decision.apply && action_due(
            decision,
            last_action,
            hash,
            now,
        ) == decision.action,
        decision.apply && !last_action.dom().contains(hash) ==> action_due(
            decision,
            last_action,
            hash,
            now,
        ) == decision.action,
        last_action.dom().contains(hash) && now.nanos < last_action[hash].nanos + 60_000_000_000
            ==> action_due(decision, last_action, hash, now).is_none(),
        decision.apply && last_action.dom().contains(hash) && now.nanos >= last_action[hash].nanos
            + 60_000_000_000 ==> action_due(decision, last_action, hash, now) == decision.action,
{
    assert(60 * 1_000_000_000 == 60_000_000_000int);
}

/// The peer worker limit grows by one at a time, is at least two afterwards, and is not raised
/// once it stands at the hard limit.
pub proof fn peer_worker_limits_grow_by_one(now: usize, hard_limit: usize)
    ensures
        now >= 1 && now < hard_limit ==> next_peer_worker_limit(now, hard_limit) == Some(
            (now + 1) as usize,
        ),
        now == 0 && hard_limit >= 2 ==> next_peer_worker_limit(now, hard_limit) == Some(2usize),
        now >= hard_limit || hard_limit <= 1 ==> next_peer_worker_limit(now, hard_limit).is_none(),
{
}

/// A torrent that gives up its slot has no task left, waits with a notice if it was downloading,
/// stands behind all others, does not jump the queue, and is not chosen for a minute. Nothing else
/// of it changes, and no other torrent does.
pub proof fn released_torrents_wait_a_minute(
    fleet: FleetView,
    limits: crate::config::QueueLimits,
    hash: InfoHash,
    now: Tick,
    other: InfoHash,
)
    requires
        fleet.queue.wf(),
        fleet.can_give_up(limits, hash, now),
        fleet.registry.dom().contains(hash),
        fleet.registry.dom().contains(other),
        other != hash,
    ensures
        ({
            let after = fleet.released(limits, hash, now);
            let was = fleet.registry[hash];
            let fetched = was.state == TorrentState::Downloading || was.state
                == TorrentState::DownloadingMetadata;
            &&& !after.engines.dom().contains(hash) && !after.seeders.dom().contains(hash)
            &&& fetched ==> after.registry[hash] == (Torrent {
                state: TorrentState::Queued,
                error: Some(Notice::AutopilotRelease),
                ..was
            })
            &&& !fetched && was.state != TorrentState::Seeding ==> after.registry[hash] == was
            &&& after.registry[other] == fleet.registry[other]
            &&& after.engines.dom().contains(other) == fleet.engines.dom().contains(other)
            &&& after.queue.order.last() == hash
            &&& !after.queue.bypass.contains(hash)
            &&& after.queue.limits == limits
            &&& after.retry_after.dom().contains(hash)
            &&& now.nanos + 60_000_000_000 <= u64::MAX ==> after.retry_after[hash].nanos
                == now.nanos + 60_000_000_000
            &&& after.retry_after.dom().contains(other) ==> fleet.retry_after.dom().contains(other)
                && after.retry_after[other] == fleet.retry_after[other]
            &&& forall|later: Tick|
                later.nanos < now.nanos + 60_000_000_000 && later.nanos < u64::MAX
                    ==> !(#[trigger] after.desired(later)).contains(hash)
        }),
{
    let after = fleet.released(limits, hash, now);
    let ready = fleet.with_pruned_queue(limits);
    assert(60 * 1_000_000_000 == 60_000_000_000int);
    crate::queue::lemma_filter(fleet.queue.order, crate::scheduler::known_to(fleet.registry));
    crate::queue::lemma_filter(fleet.queue.bypass, crate::scheduler::known_to(fleet.registry));
    crate::queue::lemma_appended(ready.queue.order, hash);
    crate::queue::lemma_sunk(crate::queue::appended(ready.queue.order, hash), hash);
    crate::queue::lemma_filter(ready.queue.bypass, crate::queue::other_than(hash));
    assert forall|later: Tick|
        later.nanos < now.nanos + 60_000_000_000 && later.nanos < u64::MAX implies !(
    #[trigger] after.desired(later)).contains(hash) by {
        let plan = crate::scheduler::Plan {
            registry: after.registry,
            retry_after: after.retry_after,
            now: later,
            limits: after.queue.limits,
            bypass: after.queue.bypass,
            excluded: None,
        };
        crate::scheduler::choice_respects_limits(
            plan,
            crate::scheduler::candidates(after.queue.bypass, after.queue.order),
        );
        assert(!plan.eligible(hash));
    }
}

/// A torrent keeps its slot where it has no task, and where no other torrent could use the slot:
/// no task ends and no torrent changes.
pub proof fn slots_are_released_only_for_others(
    fleet: FleetView,
    limits: crate::config::QueueLimits,
    hash: InfoHash,
    now: Tick,
)
    requires
        !fleet.engines.dom().contains(hash) || fleet.with_pruned_queue(limits).desired_without(
            hash,
            now,
        ).len() == 0,
    ensures
        fleet.released(limits, hash, now).engines == fleet.engines,
        fleet.released(limits, hash, now).registry == fleet.registry,
        fleet.released(limits, hash, now).seeders == fleet.seeders,
        fleet.released(limits, hash, now).retry_after == fleet.retry_after,
{
}

/// Only a torrent that has a download limit of its own can have it raised, and only upwards.
pub proof fn ceilings_only_rise(fleet: FleetView, hash: InfoHash, suggested: Option<u64>)
    ensures
        fleet.can_raise(hash, suggested) ==> suggested.is_some() && fleet.registry.dom().contains(
            hash,
        ) && 0 < fleet.registry[hash].download_limit < suggested->0,
        suggested.is_some() && fleet.registry.dom().contains(hash) && 0
            < fleet.registry[hash].download_limit < suggested->0 ==> fleet.can_raise(
            hash,
            suggested,
        ),
{
}

/// What was last seen of a torrent's progress is no earlier than any sign of a block or of a
/// transfer, and is one of them; where there was none, the time since which none was measured
/// counts.
pub proof fn progress_is_the_latest_sign(sample: Option<RateSample>, engine: Option<EngineState>)
    ensures
        ({
            let seen = last_progress(sample, engine);
            let transfer = match sample {
                Some(sample) => sample.last_download_at,
                None => None,
            };
            let valid = match engine {
                Some(engine) => engine.last_valid_block,
                None => None,
            };
            let block = match engine {
                Some(engine) => engine.block_last_seen,
                None => None,
            };
            let webseed = match engine {
                Some(engine) => engine.webseed_last_seen,
                None => None,
            };
            let none = transfer.is_none() && valid.is_none() && block.is_none()
                && webseed.is_none();
            &&& transfer matches Some(at) ==> seen.is_some() && seen->0.nanos >= at.nanos
            &&& valid matches Some(at) ==> seen.is_some() && seen->0.nanos >= at.nanos
            &&& block matches Some(at) ==> seen.is_some() && seen->0.nanos >= at.nanos
            &&& webseed matches Some(at) ==> seen.is_some() && seen->0.nanos >= at.nanos
            &&& !none ==> seen.is_some() && (seen == transfer || seen == valid || seen == block
                || seen == webseed)
            &&& none && sample.is_none() ==> seen.is_none()
            &&& none && sample.is_some() ==> seen == Some(
                match sample->0.no_download_since {
                    Some(since) => since,
                    None => sample->0.at,
                },
            )
        }),
{
}

/// What the autopilot is told of a torrent follows its signals. The rates are the measured ones
/// where there is a measurement; the peak is never below the rate. What an engine reports comes
/// before what was last known, and what only an engine knows is told only where one runs; failures
/// of all kinds are added up.
pub proof fn inputs_follow_the_signals(
    torrent: Torrent,
    engine: Option<EngineState>,
    sample: Option<RateSample>,
    now: Tick,
    network: NetworkHealth,
)
    ensures
        ({
            let input = input_of(torrent, engine, sample, now, network);
            &&& input.state == torrent.state && input.download_limit == torrent.download_limit
            &&& sample matches Some(sample) ==> input.rate_down == sample.rate_down && input.rate_up
                == sample.rate_up && input.rate_down_observed_peak >= sample.peak_rate_down && (
            input.rate_down_observed_peak == sample.peak_rate_down || input.rate_down_observed_peak
                == sample.rate_down)
            &&& sample.is_none() ==> input.rate_down == torrent.rate_down && input.rate_up
                == torrent.rate_up && input.rate_down_observed_peak == torrent.rate_down
            &&& input.rate_down_observed_peak >= input.rate_down
            &&& input.no_progress_seconds.is_some() == last_progress(sample, engine).is_some()
            &&& input.network_traffic_allowed == Some(
                network.traffic_allowed || network.mode
                    == crate::network::NetworkContainmentMode::Disabled,
            )
            &&& engine.is_none() ==> {
                &&& input.piece_count == torrent.meta.piece_count
                &&& input.known_peers == torrent.known_peers
                &&& input.active_peer_workers == torrent.active_peer_workers
                &&& input.useful_peers.is_none() && input.discovered_peers.is_none()
                    && input.eligible_peers.is_none() && input.peer_worker_limit.is_none()
                    && input.backed_off_peers.is_none() && input.peer_failures_recent.is_none()
                &&& input.tracker_ok == (torrent.state == TorrentState::Downloading || torrent.state
                    == TorrentState::DownloadingMetadata || torrent.state == TorrentState::Seeding)
                &&& input.tracker_failures_recent == 0 && !input.serial_peer_active
                &&& input.dht_discovery_ok.is_none() && input.pex_discovery_ok.is_none()
            }
            &&& engine matches Some(engine) ==> {
                &&& input.piece_count >= engine.piece_count && input.piece_count
                    >= torrent.meta.piece_count
                &&& input.piece_count == engine.piece_count || input.piece_count
                    == torrent.meta.piece_count
                &&& input.known_peers == engine.known_peers
                &&& input.active_peer_workers == engine.active_peers
                &&& input.discovered_peers matches Some(found) && found >= engine.known_peers
                    && found >= engine.peer_scheduler.discovered_peers && (found
                    == engine.known_peers || found == engine.peer_scheduler.discovered_peers)
                &&& input.eligible_peers == Some(engine.peer_scheduler.eligible_peers)
                &&& input.peer_worker_limit == Some(engine.peer_scheduler.peer_worker_limit)
                &&& input.backed_off_peers == Some(engine.peer_scheduler.backed_off_peers)
                &&& input.tracker_ok == engine.tracker_ok
                &&& input.tracker_failures_recent == engine.tracker_failures_recent
                &&& input.dht_discovery_ok == Some(engine.dht_discovery_ok)
                &&& input.pex_discovery_ok == Some(engine.pex_discovery_ok)
                &&& input.serial_peer_active == engine.peer_scheduler.serial_peer_active
                &&& input.tracker_recent_ok_seconds_ago.is_some()
                    == engine.tracker_last_ok.is_some()
                &&& engine.tracker_last_ok matches Some(at) ==> now.nanos >= at.nanos
                    ==> input.tracker_recent_ok_seconds_ago->0 * 1_000_000_000 <= now.nanos
                    - at.nanos < input.tracker_recent_ok_seconds_ago->0 * 1_000_000_000
                    + 1_000_000_000
                &&& input.dht_last_seen_seconds_ago.is_some() == engine.dht_last_seen.is_some()
                &&& engine.dht_last_seen matches Some(at) ==> now.nanos >= at.nanos
                    ==> input.dht_last_seen_seconds_ago->0 * 1_000_000_000 <= now.nanos - at.nanos
                    < input.dht_last_seen_seconds_ago->0 * 1_000_000_000 + 1_000_000_000
                &&& input.pex_last_seen_seconds_ago.is_some() == engine.pex_last_seen.is_some()
                &&& engine.pex_last_seen matches Some(at) ==> now.nanos >= at.nanos
                    ==> input.pex_last_seen_seconds_ago->0 * 1_000_000_000 <= now.nanos - at.nanos
                    < input.pex_last_seen_seconds_ago->0 * 1_000_000_000 + 1_000_000_000
                &&& engine.peer_disconnects_recent + engine.hash_failures + engine.timeout_failures
                    <= u32::MAX ==> input.peer_failures_recent == Some(
                    (engine.peer_disconnects_recent + engine.hash_failures
                        + engine.timeout_failures) as u32,
                )
                &&& engine.peer_disconnects_recent + engine.hash_failures + engine.timeout_failures
                    > u32::MAX ==> input.peer_failures_recent == Some(u32::MAX)
            }
        }),
{
}

} // verus!
