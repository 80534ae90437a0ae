//! Counts and sums over all torrents, and what is known of one.
use crate::clock::{instant_age_seconds, Tick};
use crate::config::{effective_per_torrent_peer_limit, Config};
use crate::engine::{EnginePeerHealth, EngineState, PeerSchedulerState};
use crate::fleet::{EngineTask, Fleet};
use crate::hash::InfoHash;
use crate::health::PEER_RECENT_SECONDS;
use crate::index::HashIndex;
use crate::scheduler::count_requested;
use crate::torrent::{count_pieces, Torrent, TorrentMeta, TorrentState};
use vstd::prelude::*;

verus! {

/// How many items pass a test.
pub open spec fn count_of<T>(items: Seq<T>, test: spec_fn(T) -> bool) -> nat
    decreases items.len(),
{
    if items.len() == 0 {
        0
    } else {
        count_of(items.drop_last(), test) + if test(items.last()) {
            1nat
        } else {
            0nat
        }
    }
}

/// A sum over items.
pub open spec fn sum_of<T>(items: Seq<T>, part: spec_fn(T) -> nat) -> nat
    decreases items.len(),
{
    if items.len() == 0 {
        0
    } else {
        sum_of(items.drop_last(), part) + part(items.last())
    }
}

proof fn lemma_count_step<T>(items: Seq<T>, test: spec_fn(T) -> bool, i: int)
    requires
        0 <= i < items.len(),
    ensures
        count_of(items.take(i + 1), test) == count_of(items.take(i), test) + if test(items[i]) {
            1nat
        } else {
            0nat
        },
{
    assert(items.take(i + 1).drop_last() =~= items.take(i));
}

proof fn lemma_sum_step<T>(items: Seq<T>, part: spec_fn(T) -> nat, i: int)
    requires
        0 <= i < items.len(),
    ensures
        sum_of(items.take(i + 1), part) == sum_of(items.take(i), part) + part(items[i]),
{
    assert(items.take(i + 1).drop_last() =~= items.take(i));
}

proof fn lemma_sum_grows<T>(items: Seq<T>, part: spec_fn(T) -> nat, i: int)
    requires
        0 <= i <= items.len(),
    ensures
        sum_of(items.take(i), part) <= sum_of(items, part),
    decreases items.len() - i,
{
    if i < items.len() {
        lemma_sum_step(items, part, i);
        lemma_sum_grows(items, part, i + 1);
    } else {
        assert(items.take(i) =~= items);
    }
}

/// Whether a torrent is in a state.
pub open spec fn in_state(state: TorrentState) -> spec_fn((InfoHash, Torrent)) -> bool {
    |entry: (InfoHash, Torrent)| entry.1.state == state
}

/// Whether a torrent downloads.
pub open spec fn downloading() -> spec_fn((InfoHash, Torrent)) -> bool {
    |entry: (InfoHash, Torrent)| entry.1.state.downloads()
}

/// The peer workers of a torrent.
pub open spec fn workers() -> spec_fn((InfoHash, Torrent)) -> nat {
    |entry: (InfoHash, Torrent)| entry.1.active_peer_workers as nat
}

/// A number of a torrent.
pub enum Amount {
    RateDown,
    RateUp,
    Downloaded,
    Uploaded,
}

/// A number of each torrent.
pub open spec fn amount(which: Amount) -> spec_fn((InfoHash, Torrent)) -> nat {
    |entry: (InfoHash, Torrent)|
        match which {
            Amount::RateDown => entry.1.rate_down as nat,
            Amount::RateUp => entry.1.rate_up as nat,
            Amount::Downloaded => entry.1.downloaded as nat,
            Amount::Uploaded => entry.1.uploaded as nat,
        }
}

/// The sum of a number over all torrents.
pub open spec fn total(registry: Seq<(InfoHash, Torrent)>, which: Amount) -> nat {
    sum_of(registry, amount(which))
}

/// Whether a retry is due only later.
pub open spec fn due_later(now: Tick) -> spec_fn((InfoHash, Tick)) -> bool {
    |entry: (InfoHash, Tick)| entry.1.nanos > now.nanos
}

/// Whether a task works on a known torrent of a class that downloads.
pub open spec fn works_on(registry: Map<InfoHash, Torrent>, metadata: bool) -> spec_fn(
    (InfoHash, EngineTask),
) -> bool {
    |entry: (InfoHash, EngineTask)|
        registry.dom().contains(entry.0) && registry[entry.0].state.downloads()
            && registry[entry.0].needs_metadata == metadata
}

/// Whether a torrent that may be unknown counts as a metadata fetch.
pub open spec fn granted_as(registry: Map<InfoHash, Torrent>, metadata: bool) -> spec_fn(
    InfoHash,
) -> bool {
    |hash: InfoHash|
        (registry.dom().contains(hash) && registry[hash].needs_metadata) == metadata
}

/// How the permits for peer sessions are used.
#[derive(Clone, Copy, PartialEq, Eq, Structural, Debug)]
pub struct PermitSnapshot {
    pub limit: usize,
    pub in_use: usize,
    /// How many are left; where there is no limit, nothing.
    pub available: Option<usize>,
    pub denied: u64,
}

/// How the queue and its limits stand.
#[derive(Clone, Copy, PartialEq, Eq, Structural, Debug)]
pub struct SchedulerDiagnostics {
    pub managed_torrents: usize,
    pub queued_torrents: usize,
    pub running_engines: usize,
    pub running_downloads: usize,
    pub running_metadata_fetches: usize,
    pub requested_downloads: usize,
    pub requested_metadata_fetches: usize,
    pub granted_downloads: usize,
    pub granted_metadata_fetches: usize,
    pub retry_backoff_torrents: usize,
    pub active_download_limit: usize,
    pub active_metadata_fetch_limit: usize,
    pub active_seed_limit: usize,
    pub peer_worker_global_limit: usize,
    pub peer_worker_per_torrent_limit: usize,
    pub effective_peer_worker_limit: usize,
    pub peer_worker_budget: usize,
    pub active_peer_workers: usize,
    pub peer_limit: usize,
    pub peer_permits_in_use: usize,
    pub peer_permits_available: Option<usize>,
    pub peer_sessions_denied: u64,
    pub download_slots_saturated: bool,
    pub metadata_fetch_slots_saturated: bool,
    pub peer_worker_budget_saturated: bool,
}

/// The limit is in force, more is wanted than granted, and as much is granted as may be.
pub open spec fn saturated(limit: usize, requested: usize, granted: usize) -> bool {
    limit > 0 && requested > granted && granted >= limit
}

fn count_classes(list: &Vec<InfoHash>, registry: &HashIndex<Torrent>) -> (counts: (usize, usize))
    requires
        registry.wf(),
    ensures
        counts.0 == count_of(list@, granted_as(registry@, false)),
        counts.1 == count_of(list@, granted_as(registry@, true)),
        counts.0 + counts.1 == list@.len(),
{
    let mut downloads: usize = 0;
    let mut fetches: usize = 0;
    let mut i: usize = 0;
    assert(list@.take(0) =~= Seq::<InfoHash>::empty());
    while i < list.len()
        invariant
            i <= list@.len(),
            registry.wf(),
            downloads + fetches == i,
            downloads == count_of(list@.take(i as int), granted_as(registry@, false)),
            fetches == count_of(list@.take(i as int), granted_as(registry@, true)),
        decreases list@.len() - i,
    {
        proof {
            lemma_count_step(list@, granted_as(registry@, false), i as int);
            lemma_count_step(list@, granted_as(registry@, true), i as int);
        }
        let fetch: bool = match registry.get(&list[i]) {
            Some(torrent) => torrent.needs_metadata,
            None => false,
        };
        if fetch {
            fetches = fetches + 1;
        } else {
            downloads = downloads + 1;
        }
        i = i + 1;
    }
    assert(list@.take(i as int) =~= list@);
    (downloads, fetches)
}

fn count_working(engines: &HashIndex<EngineTask>, registry: &HashIndex<Torrent>) -> (counts: (
    usize,
    usize,
))
    requires
        engines.wf(),
        registry.wf(),
    ensures
        counts.0 == count_of(engines.seq(), works_on(registry@, false)),
        counts.1 == count_of(engines.seq(), works_on(registry@, true)),
{
    let mut downloads: usize = 0;
    let mut fetches: usize = 0;
    let mut i: usize = 0;
    assert(engines.seq().take(0) =~= Seq::<(InfoHash, EngineTask)>::empty());
    while i < engines.len()
        invariant
            i <= engines.seq().len(),
            engines.wf(),
            registry.wf(),
            downloads + fetches <= i,
            downloads == count_of(engines.seq().take(i as int), works_on(registry@, false)),
            fetches == count_of(engines.seq().take(i as int), works_on(registry@, true)),
        decreases engines.seq().len() - i,
    {
        proof {
            lemma_count_step(engines.seq(), works_on(registry@, false), i as int);
            lemma_count_step(engines.seq(), works_on(registry@, true), i as int);
        }
        let hash: InfoHash = engines.key_at(i);
        if let Some(torrent) = registry.get(&hash) {
            if matches!(
                torrent.state,
                TorrentState::Downloading | TorrentState::DownloadingMetadata
            ) {
                if torrent.needs_metadata {
                    fetches = fetches + 1;
                } else {
                    downloads = downloads + 1;
                }
            }
        }
        i = i + 1;
    }
    assert(engines.seq().take(i as int) =~= engines.seq());
    (downloads, fetches)
}

fn count_delayed(retry_after: &HashIndex<Tick>, now: Tick) -> (count: usize)
    requires
        retry_after.wf(),
    ensures
        count == count_of(retry_after.seq(), due_later(now)),
{
    let mut count: usize = 0;
    let mut i: usize = 0;
    assert(retry_after.seq().take(0) =~= Seq::<(InfoHash, Tick)>::empty());
    while i < retry_after.len()
        invariant
            i <= retry_after.seq().len(),
            retry_after.wf(),
            count <= i,
            count == count_of(retry_after.seq().take(i as int), due_later(now)),
        decreases retry_after.seq().len() - i,
    {
        proof {
            lemma_count_step(retry_after.seq(), due_later(now), i as int);
        }
        if retry_after.value_at(i).nanos > now.nanos {
            count = count + 1;
        }
        i = i + 1;
    }
    assert(retry_after.seq().take(i as int) =~= retry_after.seq());
    count
}

fn count_queued(registry: &HashIndex<Torrent>) -> (counts: (usize, usize))
    requires
        registry.wf(),
        sum_of(registry.seq(), workers()) <= usize::MAX,
    ensures
        counts.0 == count_of(registry.seq(), in_state(TorrentState::Queued)),
        counts.1 == sum_of(registry.seq(), workers()),
{
    let mut queued: usize = 0;
    let mut active: usize = 0;
    let mut i: usize = 0;
    assert(registry.seq().take(0) =~= Seq::<(InfoHash, Torrent)>::empty());
    while i < registry.len()
        invariant
            i <= registry.seq().len(),
            registry.wf(),
            sum_of(registry.seq(), workers()) <= usize::MAX,
            queued <= i,
            queued == count_of(registry.seq().take(i as int), in_state(TorrentState::Queued)),
            active == sum_of(registry.seq().take(i as int), workers()),
        decreases registry.seq().len() - i,
    {
        proof {
            lemma_count_step(registry.seq(), in_state(TorrentState::Queued), i as int);
            lemma_sum_step(registry.seq(), workers(), i as int);
            lemma_sum_grows(registry.seq(), workers(), i + 1);
        }
        let torrent: &Torrent = registry.value_at(i);
        if matches!(torrent.state, TorrentState::Queued) {
            queued = queued + 1;
        }
        active = active + torrent.active_peer_workers;
        i = i + 1;
    }
    assert(registry.seq().take(i as int) =~= registry.seq());
    (queued, active)
}

impl Fleet {
    /// How the queue and its limits stand, with the torrents that should be downloading.
    pub fn scheduler_diagnostics(
        &self,
        desired: &Vec<InfoHash>,
        cfg: &Config,
        built_in_peer_limit: usize,
        permits: PermitSnapshot,
        now: Tick,
    ) -> (shown: SchedulerDiagnostics)
        requires
            self.wf(),
            sum_of(self.registry.seq(), workers()) <= usize::MAX,
        ensures
            shown.managed_torrents == self.registry.seq().len(),
            shown.queued_torrents == count_of(
                self.registry.seq(),
                in_state(TorrentState::Queued),
            ),
            shown.running_engines == self.engines.seq().len(),
            shown.running_downloads == count_of(
                self.engines.seq(),
                works_on(self@.registry, false),
            ),
            shown.running_metadata_fetches == count_of(
                self.engines.seq(),
                works_on(self@.registry, true),
            ),
            shown.requested_downloads == self@.requested(cfg.queue, now, false),
            shown.requested_metadata_fetches == self@.requested(cfg.queue, now, true),
            shown.granted_downloads == count_of(desired@, granted_as(self@.registry, false)),
            shown.granted_metadata_fetches == count_of(desired@, granted_as(self@.registry, true)),
            shown.retry_backoff_torrents == count_of(self.retry_after.seq(), due_later(now)),
            shown.active_download_limit == cfg.queue.max_active_downloads,
            shown.active_metadata_fetch_limit == cfg.queue.max_active_metadata_fetches,
            shown.active_seed_limit == cfg.queue.max_active_seeds,
            shown.peer_worker_global_limit == cfg.bandwidth.max_peers,
            shown.peer_worker_per_torrent_limit == cfg.bandwidth.max_peers_per_torrent,
            shown.effective_peer_worker_limit == if cfg.bandwidth.max_peers_per_torrent == 0 {
                built_in_peer_limit
            } else {
                cfg.bandwidth.max_peers_per_torrent
            },
            shown.peer_worker_budget == {
                let budget = shown.effective_peer_worker_limit * shown.running_engines;
                if budget <= usize::MAX {
                    budget
                } else {
                    usize::MAX as int
                }
            },
            shown.active_peer_workers == sum_of(self.registry.seq(), workers()),
            shown.peer_limit == permits.limit,
            shown.peer_permits_in_use == permits.in_use,
            shown.peer_permits_available == permits.available,
            shown.peer_sessions_denied == permits.denied,
            shown.download_slots_saturated == saturated(
                cfg.queue.max_active_downloads,
                shown.requested_downloads,
                shown.granted_downloads,
            ),
            shown.metadata_fetch_slots_saturated == saturated(
                cfg.queue.max_active_metadata_fetches,
                shown.requested_metadata_fetches,
                shown.granted_metadata_fetches,
            ),
            shown.peer_worker_budget_saturated == (shown.peer_worker_budget > 0
                && shown.active_peer_workers >= shown.peer_worker_budget),
    {
        let (requested_downloads, requested_metadata_fetches): (usize, usize) = count_requested(
            &self.queue,
            cfg.queue,
            &self.registry,
            &self.retry_after,
            now,
        );
        let (granted_downloads, granted_metadata_fetches): (usize, usize) = count_classes(
            desired,
            &self.registry,
        );
        let (running_downloads, running_metadata_fetches): (usize, usize) = count_working(
            &self.engines,
            &self.registry,
        );
        let (queued_torrents, active_peer_workers): (usize, usize) = count_queued(&self.registry);
        let running_engines: usize = self.engines.len();
        let effective_peer_worker_limit: usize = effective_per_torrent_peer_limit(
            cfg.bandwidth.max_peers_per_torrent,
            built_in_peer_limit,
        );
        let peer_worker_budget: usize = match effective_peer_worker_limit.checked_mul(
            running_engines,
        ) {
            Some(budget) => budget,
            None => usize::MAX,
        };
        SchedulerDiagnostics {
            managed_torrents: self.registry.len(),
            queued_torrents,
            running_engines,
            running_downloads,
            running_metadata_fetches,
            requested_downloads,
            requested_metadata_fetches,
            granted_downloads,
            granted_metadata_fetches,
            retry_backoff_torrents: count_delayed(&self.retry_after, now),
            active_download_limit: cfg.queue.max_active_downloads,
            active_metadata_fetch_limit: cfg.queue.max_active_metadata_fetches,
            active_seed_limit: cfg.queue.max_active_seeds,
            peer_worker_global_limit: cfg.bandwidth.max_peers,
            peer_worker_per_torrent_limit: cfg.bandwidth.max_peers_per_torrent,
            effective_peer_worker_limit,
            peer_worker_budget,
            active_peer_workers,
            peer_limit: permits.limit,
            peer_permits_in_use: permits.in_use,
            peer_permits_available: permits.available,
            peer_sessions_denied: permits.denied,
            download_slots_saturated: cfg.queue.max_active_downloads > 0 && requested_downloads
                > granted_downloads && granted_downloads >= cfg.queue.max_active_downloads,
            metadata_fetch_slots_saturated: cfg.queue.max_active_metadata_fetches > 0
                && requested_metadata_fetches > granted_metadata_fetches
                && granted_metadata_fetches >= cfg.queue.max_active_metadata_fetches,
            peer_worker_budget_saturated: peer_worker_budget > 0 && active_peer_workers
                >= peer_worker_budget,
        }
    }

    /// The torrents that a task runs for and that are shown as downloading, in order.
    pub fn active_download_hashes(&self) -> (hashes: Vec<InfoHash>)
        requires
            self.wf(),
        ensures
            hashes@ == self.engines.seq().filter(task_downloads(self@.registry)).map_values(
                |entry: (InfoHash, EngineTask)| entry.0,
            ),
    {
        let mut hashes: Vec<InfoHash> = Vec::new();
        let ghost entries = self.engines.seq();
        let ghost keep = task_downloads(self@.registry);
        let ghost key = |entry: (InfoHash, EngineTask)| entry.0;
        let mut i: usize = 0;
        assert(entries.take(0).filter(keep).map_values(key) =~= hashes@) by {
            reveal(Seq::filter);
        }
        while i < self.engines.len()
            invariant
                self.wf(),
                entries == self.engines.seq(),
                i <= entries.len(),
                keep == task_downloads(self@.registry),
                hashes@ == entries.take(i as int).filter(keep).map_values(key),
                key == |entry: (InfoHash, EngineTask)| entry.0,
            decreases entries.len() - i,
        {
            proof {
                reveal(Seq::filter);
                assert(entries.take(i + 1).drop_last() =~= entries.take(i as int));
            }
            let ghost before = entries.take(i as int).filter(keep);
            let hash: InfoHash = self.engines.key_at(i);
            if let Some(torrent) = self.registry.get(&hash) {
                if matches!(
                    torrent.state,
                    TorrentState::Downloading | TorrentState::DownloadingMetadata
                ) {
                    hashes.push(hash);
                    assert(hashes@ =~= before.push(entries[i as int]).map_values(key));
                }
            }
            i = i + 1;
        }
        assert(entries.take(i as int) =~= entries);
        hashes
    }
}

/// Whether a task works on a known torrent that downloads.
pub open spec fn task_downloads(registry: Map<InfoHash, Torrent>) -> spec_fn(
    (InfoHash, EngineTask),
) -> bool {
    |entry: (InfoHash, EngineTask)|
        registry.dom().contains(entry.0) && registry[entry.0].state.downloads()
}

/// Sums over all torrents.
#[derive(Clone, Copy, PartialEq, Eq, Structural, Debug)]
pub struct GlobalStats {
    pub download_rate: u64,
    pub upload_rate: u64,
    pub torrent_count: usize,
    pub active_downloads: usize,
    pub active_seeds: usize,
    pub paused: usize,
    pub total_downloaded: u64,
    pub total_uploaded: u64,
    pub scheduler: SchedulerDiagnostics,
}

impl Fleet {
    /// Sums over all torrents.
    pub fn global_stats(&self, scheduler: SchedulerDiagnostics) -> (stats: GlobalStats)
        requires
            self.wf(),
            total(self.registry.seq(), Amount::RateDown) <= u64::MAX,
            total(self.registry.seq(), Amount::RateUp) <= u64::MAX,
            total(self.registry.seq(), Amount::Downloaded) <= u64::MAX,
            total(self.registry.seq(), Amount::Uploaded) <= u64::MAX,
        ensures
            stats.download_rate == total(self.registry.seq(), Amount::RateDown),
            stats.upload_rate == total(self.registry.seq(), Amount::RateUp),
            stats.torrent_count == self.registry.seq().len(),
            stats.active_downloads == count_of(self.registry.seq(), downloading()),
            stats.active_seeds == self.seeders.seq().len(),
            stats.paused == count_of(self.registry.seq(), in_state(TorrentState::Paused)),
            stats.total_downloaded == total(self.registry.seq(), Amount::Downloaded),
            stats.total_uploaded == total(self.registry.seq(), Amount::Uploaded),
            stats.scheduler == scheduler,
    {
        let mut active_downloads: usize = 0;
        let mut paused: usize = 0;
        let mut download_rate: u64 = 0;
        let mut upload_rate: u64 = 0;
        let mut total_downloaded: u64 = 0;
        let mut total_uploaded: u64 = 0;
        let mut i: usize = 0;
        let ghost all = self.registry.seq();
        assert(all.take(0) =~= Seq::<(InfoHash, Torrent)>::empty());
        while i < self.registry.len()
            invariant
                self.wf(),
                all == self.registry.seq(),
                i <= all.len(),
                total(all, Amount::RateDown) <= u64::MAX,
                total(all, Amount::RateUp) <= u64::MAX,
                total(all, Amount::Downloaded) <= u64::MAX,
                total(all, Amount::Uploaded) <= u64::MAX,
                active_downloads <= i,
                paused <= i,
                active_downloads == count_of(all.take(i as int), downloading()),
                paused == count_of(all.take(i as int), in_state(TorrentState::Paused)),
                download_rate == total(all.take(i as int), Amount::RateDown),
                upload_rate == total(all.take(i as int), Amount::RateUp),
                total_downloaded == total(all.take(i as int), Amount::Downloaded),
                total_uploaded == total(all.take(i as int), Amount::Uploaded),
            decreases all.len() - i,
        {
            proof {
                lemma_count_step(all, downloading(), i as int);
                lemma_count_step(all, in_state(TorrentState::Paused), i as int);
                lemma_sum_step(all, amount(Amount::RateDown), i as int);
                lemma_sum_step(all, amount(Amount::RateUp), i as int);
                lemma_sum_step(all, amount(Amount::Downloaded), i as int);
                lemma_sum_step(all, amount(Amount::Uploaded), i as int);
                lemma_sum_grows(all, amount(Amount::RateDown), i + 1);
                lemma_sum_grows(all, amount(Amount::RateUp), i + 1);
                lemma_sum_grows(all, amount(Amount::Downloaded), i + 1);
                lemma_sum_grows(all, amount(Amount::Uploaded), i + 1);
            }
            let torrent: &Torrent = self.registry.value_at(i);
            match torrent.state {
                TorrentState::Downloading | TorrentState::DownloadingMetadata => {
                    active_downloads = active_downloads + 1;
                },
                TorrentState::Paused => {
                    paused = paused + 1;
                },
                _ => {},
            }
            download_rate = download_rate + torrent.rate_down;
            upload_rate = upload_rate + torrent.rate_up;
            total_downloaded = total_downloaded + torrent.downloaded;
            total_uploaded = total_uploaded + torrent.uploaded;
            i = i + 1;
        }
        assert(all.take(i as int) =~= all);
        GlobalStats {
            download_rate,
            upload_rate,
            torrent_count: self.registry.len(),
            active_downloads,
            active_seeds: self.seeders.len(),
            paused,
            total_downloaded,
            total_uploaded,
            scheduler,
        }
    }
}

/// The peer was seen a short while ago.
pub open spec fn seen_lately(peer: EnginePeerHealth, now: Tick) -> bool {
    now.within(peer.last_seen, PEER_RECENT_SECONDS as int)
}

/// Whether a peer is of use: it has pieces that are missing here, nothing blocks it, it gives them
/// out or gave some lately, and it was seen a short while ago.
pub open spec fn is_useful(now: Tick) -> spec_fn(EnginePeerHealth) -> bool {
    |peer: EnginePeerHealth|
        peer.has_missing_pieces && !peer.blocked && (peer.unchoked || peer.useful_recently)
            && seen_lately(peer, now)
}

/// Whether a peer gives pieces out and was seen a short while ago.
pub open spec fn gives_out(now: Tick) -> spec_fn(EnginePeerHealth) -> bool {
    |peer: EnginePeerHealth| peer.unchoked && seen_lately(peer, now)
}

/// How many peers are of use.
pub fn useful_peer_count(peers: &Vec<EnginePeerHealth>, now: Tick) -> (count: usize)
    ensures
        count == count_of(peers@, is_useful(now)),
{
    let mut count: usize = 0;
    let mut i: usize = 0;
    assert(peers@.take(0) =~= Seq::<EnginePeerHealth>::empty());
    while i < peers.len()
        invariant
            i <= peers@.len(),
            count <= i,
            count == count_of(peers@.take(i as int), is_useful(now)),
        decreases peers@.len() - i,
    {
        proof {
            lemma_count_step(peers@, is_useful(now), i as int);
        }
        let peer: &EnginePeerHealth = &peers[i];
        let lately: bool = now.seen_within(peer.last_seen, PEER_RECENT_SECONDS);
        if peer.has_missing_pieces && !peer.blocked && (peer.unchoked || peer.useful_recently)
            && lately {
            count = count + 1;
        }
        i = i + 1;
    }
    assert(peers@.take(i as int) =~= peers@);
    count
}

fn unchoked_peer_count(peers: &Vec<EnginePeerHealth>, now: Tick) -> (count: usize)
    ensures
        count == count_of(peers@, gives_out(now)),
{
    let mut count: usize = 0;
    let mut i: usize = 0;
    assert(peers@.take(0) =~= Seq::<EnginePeerHealth>::empty());
    while i < peers.len()
        invariant
            i <= peers@.len(),
            count <= i,
            count == count_of(peers@.take(i as int), gives_out(now)),
        decreases peers@.len() - i,
    {
        proof {
            lemma_count_step(peers@, gives_out(now), i as int);
        }
        let peer: &EnginePeerHealth = &peers[i];
        let lately: bool = now.seen_within(peer.last_seen, PEER_RECENT_SECONDS);
        if peer.unchoked && lately {
            count = count + 1;
        }
        i = i + 1;
    }
    assert(peers@.take(i as int) =~= peers@);
    count
}

/// What an engine that runs, or ran, says of a torrent.
#[derive(Debug)]
pub struct LiveTorrentDiagnostics {
    pub active_peer_workers: usize,
    pub known_peers: usize,
    pub peer_scheduler: Option<PeerSchedulerState>,
    pub useful_peers: Option<usize>,
    pub choked_peers: Option<usize>,
    pub unchoked_peers: Option<usize>,
    pub recent_peer_failures: Option<u32>,
    pub recent_tracker_failures: Option<u32>,
    pub tracker_ok: bool,
    pub tracker_message: Option<String>,
    pub last_announce: Option<u64>,
    pub tracker_last_ok_seconds_ago: Option<u64>,
    pub dht_discovery_ok: Option<bool>,
    pub dht_last_seen_seconds_ago: Option<u64>,
    pub pex_discovery_ok: Option<bool>,
    pub pex_last_seen_seconds_ago: Option<u64>,
}

/// The whole seconds since an instant, if it was seen.
pub open spec fn age(now: Tick, seen: Option<Tick>) -> Option<u64> {
    match seen {
        Some(at) => Some((now.since(at) / crate::clock::NANOS_PER_SECOND as int) as u64),
        None => None,
    }
}

/// What is shown of an engine's state, or of none.
pub open spec fn live_of(engine: Option<EngineState>, now: Tick) -> LiveTorrentDiagnostics {
    match engine {
        Some(engine) => LiveTorrentDiagnostics {
            active_peer_workers: engine.active_peers,
            known_peers: engine.known_peers,
            peer_scheduler: Some(engine.peer_scheduler),
            useful_peers: Some(count_of(engine.peer_health@, is_useful(now)) as usize),
            choked_peers: None,
            unchoked_peers: Some(count_of(engine.peer_health@, gives_out(now)) as usize),
            recent_peer_failures: Some(engine.peer_disconnects_recent),
            recent_tracker_failures: Some(engine.tracker_failures_recent),
            tracker_ok: engine.tracker_ok,
            tracker_message: engine.tracker_message,
            last_announce: engine.last_announce,
            tracker_last_ok_seconds_ago: age(now, engine.tracker_last_ok),
            dht_discovery_ok: Some(engine.dht_discovery_ok),
            dht_last_seen_seconds_ago: age(now, engine.dht_last_seen),
            pex_discovery_ok: Some(engine.pex_discovery_ok),
            pex_last_seen_seconds_ago: age(now, engine.pex_last_seen),
        },
        None => LiveTorrentDiagnostics {
            active_peer_workers: 0,
            known_peers: 0,
            peer_scheduler: None,
            useful_peers: None,
            choked_peers: None,
            unchoked_peers: None,
            recent_peer_failures: None,
            recent_tracker_failures: None,
            tracker_ok: false,
            tracker_message: None,
            last_announce: None,
            tracker_last_ok_seconds_ago: None,
            dht_discovery_ok: None,
            dht_last_seen_seconds_ago: None,
            pex_discovery_ok: None,
            pex_last_seen_seconds_ago: None,
        },
    }
}

impl LiveTorrentDiagnostics {
    /// What an engine's state says.
    pub fn from_engine_state(engine: &EngineState, now: Tick) -> (live: LiveTorrentDiagnostics)
        ensures
            live == live_of(Some(*engine), now),
    {
        LiveTorrentDiagnostics {
            active_peer_workers: engine.active_peers,
            known_peers: engine.known_peers,
            peer_scheduler: Some(engine.peer_scheduler.copied()),
            useful_peers: Some(useful_peer_count(&engine.peer_health, now)),
            choked_peers: None,
            unchoked_peers: Some(unchoked_peer_count(&engine.peer_health, now)),
            recent_peer_failures: Some(engine.peer_disconnects_recent),
            recent_tracker_failures: Some(engine.tracker_failures_recent),
            tracker_ok: engine.tracker_ok,
            tracker_message: match &engine.tracker_message {
                Some(message) => Some(message.clone()),
                None => None,
            },
            last_announce: engine.last_announce,
            tracker_last_ok_seconds_ago: instant_age_seconds(now, engine.tracker_last_ok),
            dht_discovery_ok: Some(engine.dht_discovery_ok),
            dht_last_seen_seconds_ago: instant_age_seconds(now, engine.dht_last_seen),
            pex_discovery_ok: Some(engine.pex_discovery_ok),
            pex_last_seen_seconds_ago: instant_age_seconds(now, engine.pex_last_seen),
        }
    }

    fn nothing(now: Tick) -> (live: LiveTorrentDiagnostics)
        ensures
            live == live_of(None, now),
    {
        LiveTorrentDiagnostics {
            active_peer_workers: 0,
            known_peers: 0,
            peer_scheduler: None,
            useful_peers: None,
            choked_peers: None,
            unchoked_peers: None,
            recent_peer_failures: None,
            recent_tracker_failures: None,
            tracker_ok: false,
            tracker_message: None,
            last_announce: None,
            tracker_last_ok_seconds_ago: None,
            dht_discovery_ok: None,
            dht_last_seen_seconds_ago: None,
            pex_discovery_ok: None,
            pex_last_seen_seconds_ago: None,
        }
    }
}

/// How much lies in those of the first pieces that are there.
pub open spec fn bytes_there(meta: TorrentMeta, have: Seq<bool>, pieces: nat) -> nat
    decreases pieces,
{
    if pieces == 0 {
        0
    } else {
        let last = (pieces - 1) as nat;
        bytes_there(meta, have, last) + if last < have.len() && have[last as int] {
            (crate::layout::piece_start(meta, pieces) - crate::layout::piece_start(
                meta,
                last,
            )) as nat
        } else {
            0
        }
    }
}

proof fn lemma_bytes_there(meta: TorrentMeta, have: Seq<bool>, pieces: nat)
    ensures
        bytes_there(meta, have, pieces) <= crate::layout::piece_start(meta, pieces),
        crate::layout::piece_start(meta, pieces) <= meta.total_length,
    decreases pieces,
{
    if pieces > 0 {
        let last = (pieces - 1) as nat;
        lemma_bytes_there(meta, have, last);
        assert(last * meta.piece_length <= pieces * meta.piece_length) by (nonlinear_arith)
            requires
                last <= pieces,
                0 <= meta.piece_length,
        ;
    }
}

fn start_of_piece(meta: &TorrentMeta, piece: usize) -> (start: u64)
    ensures
        start == crate::layout::piece_start(*meta, piece as nat),
{
    assert(0 <= piece * meta.piece_length <= usize::MAX * u64::MAX) by (nonlinear_arith)
        requires
            0 <= piece <= usize::MAX,
            0 <= meta.piece_length <= u64::MAX,
    ;
    let start: u128 = piece as u128 * meta.piece_length as u128;
    if start <= meta.total_length as u128 {
        start as u64
    } else {
        meta.total_length
    }
}

/// How much of a torrent lies in pieces that are there.
pub fn bytes_completed(torrent: &Torrent) -> (bytes: u64)
    ensures
        bytes == bytes_there(
            torrent.meta,
            torrent.progress.have@,
            torrent.progress.have@.len(),
        ),
        bytes <= torrent.meta.total_length,
{
    let mut bytes: u64 = 0;
    let mut piece: usize = 0;
    while piece < torrent.progress.have.len()
        invariant
            piece <= torrent.progress.have@.len(),
            bytes == bytes_there(torrent.meta, torrent.progress.have@, piece as nat),
            bytes <= torrent.meta.total_length,
        decreases torrent.progress.have@.len() - piece,
    {
        proof {
            lemma_bytes_there(torrent.meta, torrent.progress.have@, piece as nat);
            lemma_bytes_there(torrent.meta, torrent.progress.have@, (piece + 1) as nat);
            assert(piece * torrent.meta.piece_length <= (piece + 1) * torrent.meta.piece_length)
                by (nonlinear_arith)
                requires
                    0 <= torrent.meta.piece_length,
            ;
        }
        if torrent.progress.have[piece] {
            bytes = bytes + (start_of_piece(&torrent.meta, piece + 1) - start_of_piece(
                &torrent.meta,
                piece,
            ));
        }
        piece = piece + 1;
    }
    bytes
}

/// What is known of a torrent.
#[derive(Debug)]
pub struct TorrentDiagnostics {
    pub info_hash: InfoHash,
    pub name: String,
    pub state: TorrentState,
    pub total_length: u64,
    pub bytes_completed: u64,
    pub downloaded: u64,
    pub uploaded: u64,
    pub piece_count: usize,
    pub pieces_have: usize,
    pub piece_length: u64,
    pub rate_down: u64,
    pub rate_up: u64,
    pub download_limit: u64,
    pub upload_limit: u64,
    pub private: bool,
    pub live: LiveTorrentDiagnostics,
}

/// What is shown of a torrent and its engine's state.
pub open spec fn diagnosed(torrent: Torrent, engine: Option<EngineState>, now: Tick) -> TorrentDiagnostics {
    TorrentDiagnostics {
        info_hash: torrent.hash(),
        name: torrent.meta.name,
        state: torrent.state,
        total_length: torrent.meta.total_length,
        bytes_completed: bytes_there(
            torrent.meta,
            torrent.progress.have@,
            torrent.progress.have@.len(),
        ) as u64,
        downloaded: torrent.downloaded,
        uploaded: torrent.uploaded,
        piece_count: torrent.meta.piece_count,
        pieces_have: crate::torrent::count_have(
            torrent.progress.have@,
            torrent.progress.have@.len(),
        ) as usize,
        piece_length: torrent.meta.piece_length,
        rate_down: torrent.rate_down,
        rate_up: torrent.rate_up,
        download_limit: torrent.download_limit,
        upload_limit: torrent.upload_limit,
        private: torrent.meta.private,
        live: live_of(engine, now),
    }
}

impl Fleet {
    /// What is known of a torrent, if it is known at all.
    pub fn torrent_stats(&self, hash: &InfoHash, engine: Option<&EngineState>, now: Tick) -> (shown:
        Option<TorrentDiagnostics>)
        requires
            self.wf(),
        ensures
            shown == if self@.registry.dom().contains(*hash) {
                Some(
                    diagnosed(
                        self@.registry[*hash],
                        match engine {
                            Some(engine) => Some(*engine),
                            None => None,
                        },
                        now,
                    ),
                )
            } else {
                None
            },
    {
        let torrent: &Torrent = match self.registry.get(hash) {
            Some(torrent) => torrent,
            None => {
                return None;
            },
        };
        let live: LiveTorrentDiagnostics = match engine {
            Some(engine) => LiveTorrentDiagnostics::from_engine_state(engine, now),
            None => LiveTorrentDiagnostics::nothing(now),
        };
        Some(
            TorrentDiagnostics {
                info_hash: torrent.info_hash(),
                name: torrent.meta.name.clone(),
                state: torrent.state,
                total_length: torrent.meta.total_length,
                bytes_completed: bytes_completed(torrent),
                downloaded: torrent.downloaded,
                uploaded: torrent.uploaded,
                piece_count: torrent.meta.piece_count,
                pieces_have: count_pieces(&torrent.progress.have, torrent.progress.have.len()),
                piece_length: torrent.meta.piece_length,
                rate_down: torrent.rate_down,
                rate_up: torrent.rate_up,
                download_limit: torrent.download_limit,
                upload_limit: torrent.upload_limit,
                private: torrent.meta.private,
                live,
            },
        )
    }
}

/// A count is zero where nothing passes the test, is everything where all passes, and grows by one
/// with each thing that passes.
pub proof fn counts_count<T>(items: Seq<T>, test: spec_fn(T) -> bool, more: T)
    ensures
        count_of(items, test) <= items.len(),
        (forall|i: int| 0 <= i < items.len() ==> test(#[trigger] items[i])) ==> count_of(
            items,
            test,
        ) == items.len(),
        (forall|i: int| 0 <= i < items.len() ==> !test(#[trigger] items[i])) ==> count_of(
            items,
            test,
        ) == 0,
        (exists|i: int| 0 <= i < items.len() && test(#[trigger] items[i])) ==> count_of(
            items,
            test,
        ) > 0,
        count_of(items.push(more), test) == count_of(items, test) + (if test(more) {
            1nat
        } else {
            0nat
        }),
    decreases items.len(),
{
    assert(items.push(more).drop_last() =~= items);
    if items.len() > 0 {
        let rest = items.drop_last();
        counts_count(rest, test, more);
        assert(items[items.len() - 1] == items.last());
        if forall|i: int| 0 <= i < items.len() ==> test(#[trigger] items[i]) {
            assert forall|i: int| 0 <= i < rest.len() implies test(#[trigger] rest[i]) by {
                assert(rest[i] == items[i]);
            }
        }
        if forall|i: int| 0 <= i < items.len() ==> !test(#[trigger] items[i]) {
            assert forall|i: int| 0 <= i < rest.len() implies !test(#[trigger] rest[i]) by {
                assert(rest[i] == items[i]);
            }
        }
        if exists|i: int| 0 <= i < items.len() && test(#[trigger] items[i]) {
            let i = choose|i: int| 0 <= i < items.len() && test(#[trigger] items[i]);
            if i < rest.len() {
                assert(test(rest[i]));
            }
        }
    }
}

/// A sum grows by the part of each thing.
pub proof fn sums_add_up<T>(items: Seq<T>, part: spec_fn(T) -> nat, more: T)
    ensures
        sum_of(items.push(more), part) == sum_of(items, part) + part(more),
        sum_of(Seq::<T>::empty(), part) == 0,
{
    assert(items.push(more).drop_last() =~= items);
}

/// The tests and parts that the counts and sums are made with say what they are named for: states,
/// rates, amounts, workers, retries that are due later, and tasks by what they fetch.
pub proof fn counts_are_of_what_they_say(
    hash: InfoHash,
    torrent: Torrent,
    registry: Map<InfoHash, Torrent>,
    due: Tick,
    task: EngineTask,
    now: Tick,
)
    ensures
        in_state(TorrentState::Queued)((hash, torrent)) == (torrent.state == TorrentState::Queued),
        in_state(TorrentState::Paused)((hash, torrent)) == (torrent.state == TorrentState::Paused),
        downloading()((hash, torrent)) == (torrent.state == TorrentState::Downloading
            || torrent.state == TorrentState::DownloadingMetadata),
        workers()((hash, torrent)) == torrent.active_peer_workers,
        amount(Amount::RateDown)((hash, torrent)) == torrent.rate_down,
        amount(Amount::RateUp)((hash, torrent)) == torrent.rate_up,
        amount(Amount::Downloaded)((hash, torrent)) == torrent.downloaded,
        amount(Amount::Uploaded)((hash, torrent)) == torrent.uploaded,
        due_later(now)((hash, due)) == (now.nanos < due.nanos),
        works_on(registry, true)((hash, task)) == (registry.dom().contains(hash) && (
        registry[hash].state == TorrentState::Downloading || registry[hash].state
            == TorrentState::DownloadingMetadata) && registry[hash].needs_metadata),
        works_on(registry, false)((hash, task)) == (registry.dom().contains(hash) && (
        registry[hash].state == TorrentState::Downloading || registry[hash].state
            == TorrentState::DownloadingMetadata) && !registry[hash].needs_metadata),
        task_downloads(registry)((hash, task)) == (registry.dom().contains(hash) && (
        registry[hash].state == TorrentState::Downloading || registry[hash].state
            == TorrentState::DownloadingMetadata)),
        registry.dom().contains(hash) ==> granted_as(registry, true)(hash)
            == registry[hash].needs_metadata,
        registry.dom().contains(hash) ==> granted_as(registry, false)(hash)
            == !registry[hash].needs_metadata,
{
}

/// Slots count as taken up where there is a limit, all of it is granted, and more was asked for.
pub proof fn saturation_means_unmet_requests(limit: usize, requested: usize, granted: usize)
    ensures
        limit == 0 ==> !saturated(limit, requested, granted),
        requested <= granted ==> !saturated(limit, requested, granted),
        granted < limit ==> !saturated(limit, requested, granted),
        0 < limit <= granted < requested ==> saturated(limit, requested, granted),
{
}

/// A peer is useful now where it was seen in the last thirty seconds, has what we lack, is not
/// blocked, and gives out data or was useful lately.
pub proof fn useful_peers_can_help(peer: EnginePeerHealth, now: Tick)
    ensures
        ({
            let lately = peer.last_seen matches Some(at) && now.nanos < at.nanos + 30_000_000_000;
            &&& is_useful(now)(peer) == (lately && peer.has_missing_pieces && !peer.blocked && (
            peer.unchoked || peer.useful_recently))
            &&& gives_out(now)(peer) == (lately && peer.unchoked)
        }),
{
    assert(30 * 1_000_000_000 == 30_000_000_000int);
}

/// The age of a sign is the whole seconds that passed since.
pub proof fn ages_are_whole_seconds(now: Tick, at: Tick)
    ensures
        age(now, None).is_none(),
        now.nanos < at.nanos ==> age(now, Some(at)) == Some(0u64),
        now.nanos >= at.nanos ==> (age(now, Some(at)) matches Some(seconds) && seconds
            * 1_000_000_000 <= now.nanos - at.nanos < seconds * 1_000_000_000 + 1_000_000_000),
{
}

/// What is there of a torrent is nothing without a piece, no more than its pieces are long, all of
/// it with all pieces, and never less for one more piece.
pub proof fn bytes_come_with_pieces(
    meta: TorrentMeta,
    have: Seq<bool>,
    more: Seq<bool>,
    pieces: nat,
)
    requires
        have.len() == more.len(),
        forall|i: int| 0 <= i < have.len() && #[trigger] have[i] ==> more[i],
    ensures
        (forall|i: int| 0 <= i < have.len() ==> !(#[trigger] have[i])) ==> bytes_there(
            meta,
            have,
            pieces,
        ) == 0,
        bytes_there(meta, have, pieces) <= bytes_there(meta, more, pieces),
        pieces <= have.len() && (forall|i: int| 0 <= i < have.len() ==> #[trigger] have[i])
            ==> bytes_there(meta, have, pieces) == crate::layout::piece_start(meta, pieces),
        pieces * meta.piece_length >= meta.total_length ==> crate::layout::piece_start(meta, pieces)
            == meta.total_length,
        pieces * meta.piece_length <= meta.total_length ==> crate::layout::piece_start(meta, pieces)
            == pieces * meta.piece_length,
    decreases pieces,
{
    if pieces > 0 {
        let last = (pieces - 1) as nat;
        bytes_come_with_pieces(meta, have, more, last);
        assert(last * meta.piece_length <= pieces * meta.piece_length) by (nonlinear_arith)
            requires
                last <= pieces,
                0 <= meta.piece_length,
        ;
    }
}

/// What is told of one torrent is the torrent's own: its amounts, its pieces and its limits; what
/// only an engine knows is told only where one runs.
pub proof fn diagnostics_tell_of_the_torrent(
    torrent: Torrent,
    engine: Option<EngineState>,
    now: Tick,
)
    ensures
        ({
            let shown = diagnosed(torrent, engine, now);
            &&& shown.state == torrent.state && shown.name == torrent.meta.name
            &&& shown.total_length == torrent.meta.total_length && shown.piece_count
                == torrent.meta.piece_count && shown.piece_length == torrent.meta.piece_length
            &&& shown.downloaded == torrent.downloaded && shown.uploaded == torrent.uploaded
            &&& shown.rate_down == torrent.rate_down && shown.rate_up == torrent.rate_up
            &&& shown.download_limit == torrent.download_limit && shown.upload_limit
                == torrent.upload_limit
            &&& shown.private == torrent.meta.private
            &&& engine.is_none() ==> shown.live.useful_peers.is_none() && !shown.live.tracker_ok
                && shown.live.active_peer_workers == 0 && shown.live.known_peers == 0
                && shown.live.peer_scheduler.is_none() && shown.live.recent_peer_failures.is_none()
            &&& engine matches Some(engine) ==> shown.live.active_peer_workers
                == engine.active_peers && shown.live.known_peers == engine.known_peers
                && shown.live.tracker_ok == engine.tracker_ok && shown.live.recent_peer_failures
                == Some(engine.peer_disconnects_recent) && shown.live.recent_tracker_failures
                == Some(engine.tracker_failures_recent) && shown.live.tracker_message
                == engine.tracker_message && shown.live.last_announce == engine.last_announce
                && shown.live.peer_scheduler == Some(engine.peer_scheduler)
                && shown.live.dht_discovery_ok == Some(engine.dht_discovery_ok)
                && shown.live.pex_discovery_ok == Some(engine.pex_discovery_ok)
                && shown.live.useful_peers.is_some() && shown.live.unchoked_peers.is_some()
            &&& engine matches Some(engine) ==> shown.live.tracker_last_ok_seconds_ago.is_some()
                == engine.tracker_last_ok.is_some() && shown.live.dht_last_seen_seconds_ago.is_some()
                == engine.dht_last_seen.is_some() && shown.live.pex_last_seen_seconds_ago.is_some()
                == engine.pex_last_seen.is_some()
        }),
{
}

} // verus!
