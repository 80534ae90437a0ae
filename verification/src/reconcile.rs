//! Bringing running tasks in line with the queue.
use crate::clock::Tick;
use crate::config::QueueLimits;
use crate::effects::Effect;
use crate::fleet::{Fleet, FleetView};
use crate::hash::InfoHash;
use crate::queue::contains_hash;
use crate::scheduler::desired_download_hashes_excluding;
use crate::torrent::{Notice, Torrent, TorrentState};
use vstd::prelude::*;

verus! {

/// What a reconciliation did and wants done.
#[derive(Debug)]
pub struct Reconciliation {
    /// Tasks that no downloading torrent owned; they were ended.
    pub lost: Vec<InfoHash>,
    /// Torrents that were shown as downloading without a task; they wait again.
    pub stale: Vec<InfoHash>,
    /// Torrents that lost their slot; their tasks were ended and they wait again.
    pub preempted: Vec<InfoHash>,
    /// Torrents that hold a slot, in the order in which they start.
    pub start: Vec<InfoHash>,
}

impl FleetView {
    /// The torrent is known and downloads.
    pub open spec fn downloading(self, hash: InfoHash) -> bool {
        self.registry.dom().contains(hash) && self.registry[hash].state.downloads()
    }

    /// A task runs for a torrent that does not download.
    pub open spec fn lost_engine(self, hash: InfoHash) -> bool {
        self.engines.dom().contains(hash) && !self.downloading(hash)
    }

    /// The torrent downloads and no task runs for it.
    pub open spec fn stale_active(self, hash: InfoHash) -> bool {
        self.downloading(hash) && !self.engines.dom().contains(hash)
    }

    /// After lost tasks were ended. A torrent that was waiting all along is told.
    pub open spec fn without_lost(self, lost: Seq<InfoHash>) -> FleetView {
        let stopped = self.all_stopped(lost);
        FleetView {
            registry: Map::new(
                |hash: InfoHash| stopped.registry.dom().contains(hash),
                |hash: InfoHash| noticed(stopped.registry[hash], lost.contains(hash)),
            ),
            ..stopped
        }
    }

    /// After torrents without a task were put back to waiting, behind all others.
    pub open spec fn without_stale(self, stale: Seq<InfoHash>) -> FleetView {
        FleetView {
            registry: Map::new(
                |hash: InfoHash| self.registry.dom().contains(hash),
                |hash: InfoHash| recovered(self.registry[hash], self.stale_active(hash)),
            ),
            queue: crate::queue::QueueView {
                order: crate::queue::sunk_all(
                    crate::queue::appended_all(self.queue.order, stale),
                    stale,
                ),
                bypass: crate::queue::without_all(self.queue.bypass, stale),
                ..self.queue
            },
            ..self
        }
    }

    /// After torrents lost their slots.
    pub open spec fn without_slots(self, preempted: Seq<InfoHash>) -> FleetView {
        let stopped = self.all_stopped(preempted);
        FleetView {
            registry: Map::new(
                |hash: InfoHash| stopped.registry.dom().contains(hash),
                |hash: InfoHash| waiting_again(stopped.registry[hash], preempted.contains(hash)),
            ),
            ..stopped
        }
    }
}

/// A waiting torrent that is told of a lost task.
pub open spec fn noticed(torrent: Torrent, lost: bool) -> Torrent {
    if lost && torrent.state == TorrentState::Queued {
        Torrent { error: Some(Notice::StaleEngine), ..torrent }
    } else {
        torrent
    }
}

/// A torrent that is put back to waiting because no task ran for it.
pub open spec fn recovered(torrent: Torrent, stale: bool) -> Torrent {
    if stale {
        Torrent { state: TorrentState::Queued, error: Some(Notice::StaleActive), ..torrent }
    } else {
        torrent
    }
}

/// A torrent that is put back to waiting because it lost its slot.
pub open spec fn waiting_again(torrent: Torrent, preempted: bool) -> Torrent {
    if preempted && torrent.state != TorrentState::Paused && torrent.state
        != TorrentState::Completed {
        Torrent { state: TorrentState::Queued, ..torrent }
    } else {
        torrent
    }
}

/// Whether a state is one of downloading.
pub fn state_downloads(state: TorrentState) -> (downloads: bool)
    ensures
        downloads == state.downloads(),
{
    matches!(state, TorrentState::Downloading | TorrentState::DownloadingMetadata)
}

impl Fleet {
    /// The tasks that no downloading torrent owns, in key order.
    fn lost_engines(&self) -> (lost: Vec<InfoHash>)
        requires
            self.wf(),
        ensures
            lost@.no_duplicates(),
            forall|hash: InfoHash| #[trigger] lost@.contains(hash) == self@.lost_engine(hash),
    {
        let mut lost: Vec<InfoHash> = Vec::new();
        let mut i: usize = 0;
        while i < self.engines.len()
            invariant
                i <= self.engines.seq().len(),
                self.wf(),
                lost@.no_duplicates(),
                forall|hash: InfoHash| #[trigger]
                    lost@.contains(hash) == (self@.lost_engine(hash) && seen_before(
                        self.engines.seq(),
                        i as int,
                        hash,
                    )),
            decreases self.engines.seq().len() - i,
        {
            let hash: InfoHash = self.engines.key_at(i);
            let owned: bool = match self.registry.get(&hash) {
                Some(torrent) => state_downloads(torrent.state),
                None => false,
            };
            proof {
                lemma_seen_step(self.engines.seq(), i as int);
            }
            if !owned {
                let ghost before = lost@;
                lost.push(hash);
                proof {
                    lemma_pushed(before, hash);
                }
            }
            i = i + 1;
        }
        proof {
            lemma_seen_all(self.engines.seq());
        }
        lost
    }

    /// Ends the tasks that no downloading torrent owns, and returns which.
    pub fn sweep_inactive_engine_handles(&mut self, effects: &mut Vec<Effect>) -> (lost: Vec<
        InfoHash,
    >)
        requires
            old(self).wf(),
        ensures
            final(self).wf(),
            lost@.no_duplicates(),
            forall|hash: InfoHash| #[trigger] lost@.contains(hash) == old(self)@.lost_engine(hash),
            final(self)@ == old(self)@.without_lost(lost@),
            final(effects)@ == old(effects)@ + old(self)@.all_stop_effects(lost@, true),
    {
        let lost: Vec<InfoHash> = self.lost_engines();
        self.stop_all(&lost, true, effects);
        let ghost stopped = self@;
        let mut i: usize = 0;
        while i < lost.len()
            invariant
                i <= lost.len(),
                self.wf(),
                self@.queue == stopped.queue,
                self@.engines == stopped.engines,
                self@.retry_after == stopped.retry_after,
                self@.rate_samples == stopped.rate_samples,
                self@.seeders == stopped.seeders,
                self@.listener_running == stopped.listener_running,
                self@.registry.dom() == stopped.registry.dom(),
                forall|hash: InfoHash|
                    stopped.registry.dom().contains(hash) ==> #[trigger] self@.registry[hash]
                        == noticed(stopped.registry[hash], lost@.take(i as int).contains(hash)),
            decreases lost.len() - i,
        {
            let hash: InfoHash = lost[i];
            proof {
                assert forall|other: InfoHash| #[trigger] lost@.take(i + 1).contains(other) == (
                lost@.take(i as int).contains(other) || other == hash) by {
                    lemma_take_contains(lost@, i as int, other);
                }
            }
            if let Some(position) = self.registry.find(&hash) {
                let torrent: &mut Torrent = self.registry.value_at_mut(position);
                if torrent.state == TorrentState::Queued {
                    torrent.error = Some(Notice::StaleEngine);
                }
            }
            i = i + 1;
        }
        assert(lost@.take(i as int) =~= lost@);
        assert(self@.registry =~= old(self)@.without_lost(lost@).registry);
        lost
    }

    /// Puts torrents that are shown as downloading without a task back to waiting, behind all
    /// others, and returns which.
    pub fn sweep_stale_active_torrents(&mut self) -> (stale: Vec<InfoHash>)
        requires
            old(self).wf(),
        ensures
            final(self).wf(),
            stale@.no_duplicates(),
            forall|hash: InfoHash| #[trigger]
                stale@.contains(hash) == old(self)@.stale_active(hash),
            final(self)@ == old(self)@.without_stale(stale@),
    {
        let ghost before = self@;
        let ghost entries = self.registry.seq();
        let mut stale: Vec<InfoHash> = Vec::new();
        let mut i: usize = 0;
        while i < self.registry.len()
            invariant
                i <= self.registry.seq().len(),
                self.wf(),
                crate::index::keys_increase(entries),
                before.registry == crate::index::entry_map(entries),
                self@.queue == before.queue,
                self@.engines == before.engines,
                self@.retry_after == before.retry_after,
                self@.rate_samples == before.rate_samples,
                self@.seeders == before.seeders,
                self@.listener_running == before.listener_running,
                self.registry.seq().len() == entries.len(),
                forall|k: int|
                    0 <= k < entries.len() ==> #[trigger] self.registry.seq()[k] == (
                        entries[k].0,
                        recovered(entries[k].1, k < i && before.stale_active(entries[k].0)),
                    ),
                stale@.no_duplicates(),
                forall|hash: InfoHash| #[trigger]
                    stale@.contains(hash) == (before.stale_active(hash) && seen_before(
                        entries,
                        i as int,
                        hash,
                    )),
            decreases entries.len() - i,
        {
            let hash: InfoHash = self.registry.key_at(i);
            let running: bool = self.engines.contains(&hash);
            proof {
                lemma_seen_step(entries, i as int);
                crate::index::lemma_entry(entries, i as int);
                assert(self.registry.seq()[i as int] == (
                    entries[i as int].0,
                    recovered(entries[i as int].1, false),
                ));
            }
            let torrent: &mut Torrent = self.registry.value_at_mut(i);
            if state_downloads(torrent.state) && !running {
                torrent.state = TorrentState::Queued;
                torrent.error = Some(Notice::StaleActive);
                let ghost listed = stale@;
                stale.push(hash);
                proof {
                    lemma_pushed(listed, hash);
                }
            }
            i = i + 1;
        }
        proof {
            lemma_seen_all(entries);
            crate::index::lemma_rewritten(
                entries,
                self.registry.seq(),
                |hash: InfoHash, torrent: Torrent| recovered(torrent, before.stale_active(hash)),
            );
            assert(self@.registry =~= before.without_stale(stale@).registry);
        }
        self.queue.add_many(&stale);
        self.queue.clear_bypass_many(&stale);
        self.queue.move_many_to_bottom(&stale);
        stale
    }
}

impl FleetView {
    /// With the queue brought up to date.
    pub open spec fn with_pruned_queue(self, limits: QueueLimits) -> FleetView {
        FleetView { queue: crate::scheduler::pruned(self.queue, limits, self.registry), ..self }
    }

    /// The torrents that should be downloading.
    pub open spec fn desired(self, now: Tick) -> Seq<InfoHash> {
        (crate::scheduler::Plan {
            registry: self.registry,
            retry_after: self.retry_after,
            now,
            limits: self.queue.limits,
            bypass: self.queue.bypass,
            excluded: None,
        }).chosen(crate::scheduler::candidates(self.queue.bypass, self.queue.order))
    }

    /// The torrent downloads, a task runs for it, and it should not be downloading.
    pub open spec fn loses_slot(self, desired: Seq<InfoHash>, hash: InfoHash) -> bool {
        self.engines.dom().contains(hash) && self.downloading(hash) && !desired.contains(hash)
    }
}

/// What starting torrents asks for.
pub open spec fn start_effects(start: Seq<InfoHash>) -> Seq<Effect> {
    start.map_values(|hash: InfoHash| Effect::StartEngine { hash })
}

impl Fleet {
    fn slotless(&self, desired: &Vec<InfoHash>) -> (preempted: Vec<InfoHash>)
        requires
            self.wf(),
        ensures
            preempted@.no_duplicates(),
            forall|hash: InfoHash| #[trigger]
                preempted@.contains(hash) == self@.loses_slot(desired@, hash),
    {
        let mut preempted: Vec<InfoHash> = Vec::new();
        let mut i: usize = 0;
        while i < self.engines.len()
            invariant
                i <= self.engines.seq().len(),
                self.wf(),
                preempted@.no_duplicates(),
                forall|hash: InfoHash| #[trigger]
                    preempted@.contains(hash) == (self@.loses_slot(desired@, hash) && seen_before(
                        self.engines.seq(),
                        i as int,
                        hash,
                    )),
            decreases self.engines.seq().len() - i,
        {
            let hash: InfoHash = self.engines.key_at(i);
            let downloading: bool = match self.registry.get(&hash) {
                Some(torrent) => state_downloads(torrent.state),
                None => false,
            };
            proof {
                lemma_seen_step(self.engines.seq(), i as int);
            }
            if downloading && !contains_hash(desired, &hash) {
                let ghost before = preempted@;
                preempted.push(hash);
                proof {
                    lemma_pushed(before, hash);
                }
            }
            i = i + 1;
        }
        proof {
            lemma_seen_all(self.engines.seq());
        }
        preempted
    }

    fn release_slots(&mut self, preempted: &Vec<InfoHash>, effects: &mut Vec<Effect>)
        requires
            old(self).wf(),
        ensures
            final(self).wf(),
            final(self)@ == old(self)@.without_slots(preempted@),
            final(effects)@ == old(effects)@ + old(self)@.all_stop_effects(preempted@, true),
    {
        self.stop_all(preempted, true, effects);
        let ghost stopped = self@;
        let mut i: usize = 0;
        while i < preempted.len()
            invariant
                i <= preempted.len(),
                self.wf(),
                self@.queue == stopped.queue,
                self@.engines == stopped.engines,
                self@.retry_after == stopped.retry_after,
                self@.rate_samples == stopped.rate_samples,
                self@.seeders == stopped.seeders,
                self@.listener_running == stopped.listener_running,
                self@.registry.dom() == stopped.registry.dom(),
                forall|hash: InfoHash|
                    stopped.registry.dom().contains(hash) ==> #[trigger] self@.registry[hash]
                        == waiting_again(
                        stopped.registry[hash],
                        preempted@.take(i as int).contains(hash),
                    ),
            decreases preempted.len() - i,
        {
            let hash: InfoHash = preempted[i];
            proof {
                assert forall|other: InfoHash| #[trigger]
                    preempted@.take(i + 1).contains(other) == (preempted@.take(i as int).contains(
                        other,
                    ) || other == hash) by {
                    lemma_take_contains(preempted@, i as int, other);
                }
            }
            if let Some(position) = self.registry.find(&hash) {
                let torrent: &mut Torrent = self.registry.value_at_mut(position);
                if torrent.state != TorrentState::Paused && torrent.state
                    != TorrentState::Completed {
                    torrent.state = TorrentState::Queued;
                }
            }
            i = i + 1;
        }
        assert(preempted@.take(i as int) =~= preempted@);
        assert(self@.registry =~= old(self)@.without_slots(preempted@).registry);
    }

    /// Ends tasks that should not run, puts torrents without a task back to waiting, and returns
    /// which torrents should be started.
    pub fn reconcile_queue(
        &mut self,
        limits: QueueLimits,
        now: Tick,
        peer_worker_limit: usize,
        effects: &mut Vec<Effect>,
    ) -> (done: Reconciliation)
        requires
            old(self).wf(),
        ensures
            final(self).wf(),
            done.lost@.no_duplicates(),
            done.stale@.no_duplicates(),
            done.preempted@.no_duplicates(),
            ({
                let found = old(self)@;
                let owned = found.without_lost(done.lost@);
                let ready = owned.without_stale(done.stale@).with_pruned_queue(limits);
                &&& forall|hash: InfoHash| #[trigger]
                    done.lost@.contains(hash) == found.lost_engine(hash)
                &&& forall|hash: InfoHash| #[trigger]
                    done.stale@.contains(hash) == owned.stale_active(hash)
                &&& done.start@ == ready.desired(now)
                &&& forall|hash: InfoHash| #[trigger]
                    done.preempted@.contains(hash) == ready.loses_slot(done.start@, hash)
                &&& final(self)@ == ready.without_slots(done.preempted@)
                &&& final(effects)@ == old(effects)@ + found.all_stop_effects(done.lost@, true)
                    + ready.all_stop_effects(done.preempted@, true) + start_effects(done.start@)
                    + seq![Effect::LimitPeerWorkers { limit: peer_worker_limit }]
            }),
            forall|hash: InfoHash| #[trigger]
                final(self)@.engines.dom().contains(hash) ==> done.start@.contains(hash),
    {
        let lost: Vec<InfoHash> = self.sweep_inactive_engine_handles(effects);
        let ghost owned = self@;
        let stale: Vec<InfoHash> = self.sweep_stale_active_torrents();
        let start: Vec<InfoHash> = desired_download_hashes_excluding(
            &mut self.queue,
            limits,
            &self.registry,
            &self.retry_after,
            now,
            None,
        );
        let ghost ready = self@;
        let preempted: Vec<InfoHash> = self.slotless(&start);
        self.release_slots(&preempted, effects);
        let ghost asked = effects@;
        let mut i: usize = 0;
        while i < start.len()
            invariant
                i <= start.len(),
                effects@ == asked + start_effects(start@.take(i as int)),
            decreases start.len() - i,
        {
            effects.push(Effect::StartEngine { hash: start[i] });
            i = i + 1;
            assert(effects@ =~= asked + start_effects(start@.take(i as int)));
        }
        assert(start@.take(i as int) =~= start@);
        effects.push(Effect::LimitPeerWorkers { limit: peer_worker_limit });
        proof {
            crate::fleet::stopping_is_exact(old(self)@, lost@);
            crate::fleet::stopping_is_exact(ready, preempted@);
            assert forall|hash: InfoHash| #[trigger] self@.engines.dom().contains(hash) implies
                start@.contains(hash) by {
                assert(ready.engines.dom().contains(hash) && !preempted@.contains(hash));
                assert(!old(self)@.lost_engine(hash)) by {
                    assert(!lost@.contains(hash));
                }
                assert(owned.downloading(hash));
                assert(!owned.stale_active(hash));
                assert(ready.downloading(hash));
            }
            let found = old(self)@;
            assert(effects@ =~= old(effects)@ + found.all_stop_effects(lost@, true)
                + ready.all_stop_effects(preempted@, true) + start_effects(start@)
                + seq![Effect::LimitPeerWorkers { limit: peer_worker_limit }]);
        }
        Reconciliation { lost, stale, preempted, start }
    }
}

/// A key among the first entries.
pub open spec fn seen_before<V>(entries: Seq<(InfoHash, V)>, count: int, hash: InfoHash) -> bool {
    exists|k: int| 0 <= k < count && k < entries.len() && (#[trigger] entries[k]).0 == hash
}

/// One more entry adds its key, which was not among the earlier ones.
pub proof fn lemma_seen_step<V>(entries: Seq<(InfoHash, V)>, count: int)
    requires
        crate::index::keys_increase(entries),
        0 <= count < entries.len(),
    ensures
        !seen_before(entries, count, entries[count].0),
        forall|hash: InfoHash| #[trigger]
            seen_before(entries, count + 1, hash) == (seen_before(entries, count, hash) || hash
                == entries[count].0),
{
    if seen_before(entries, count, entries[count].0) {
        let k = choose|k: int|
            0 <= k < count && k < entries.len() && (#[trigger] entries[k]).0 == entries[count].0;
        assert(entries[k].0.rank() < entries[count].0.rank());
    }
    assert forall|hash: InfoHash| #[trigger] seen_before(entries, count + 1, hash) == (seen_before(
        entries,
        count,
        hash,
    ) || hash == entries[count].0) by {
        if hash == entries[count].0 {
            assert(entries[count].0 == hash);
        }
    }
}

/// All entries together have all keys.
pub proof fn lemma_seen_all<V>(entries: Seq<(InfoHash, V)>)
    ensures
        forall|hash: InfoHash| #[trigger]
            seen_before(entries, entries.len() as int, hash) == crate::index::entry_map(
                entries,
            ).dom().contains(hash),
{
}

/// Adding a torrent that was not listed keeps a list free of repetitions.
pub proof fn lemma_pushed(list: Seq<InfoHash>, hash: InfoHash)
    requires
        list.no_duplicates(),
        !list.contains(hash),
    ensures
        list.push(hash).no_duplicates(),
        forall|other: InfoHash| #[trigger]
            list.push(hash).contains(other) == (other == hash || list.contains(other)),
{
    crate::queue::lemma_appended(list, hash);
}

/// One more listed torrent.
pub proof fn lemma_take_contains(list: Seq<InfoHash>, count: int, hash: InfoHash)
    requires
        0 <= count < list.len(),
    ensures
        list.take(count + 1).contains(hash) == (list.take(count).contains(hash) || hash
            == list[count]),
{
    let shorter = list.take(count);
    let longer = list.take(count + 1);
    if shorter.contains(hash) {
        assert(longer[shorter.index_of(hash)] == hash);
    }
    assert(longer[count] == list[count]);
    if longer.contains(hash) && hash != list[count] {
        let i = longer.index_of(hash);
        assert(shorter[i] == hash);
    }
}

/// A task goes on only where its torrent is known and downloads. A waiting torrent whose task was
/// lost is told so. No other torrent changes, but for one that is no longer shown as uploading,
/// and the queue stays as it is.
pub proof fn lost_tasks_end(fleet: FleetView, lost: Seq<InfoHash>, hash: InfoHash)
    requires
        forall|other: InfoHash| #[trigger] lost.contains(other) == fleet.lost_engine(other),
    ensures
        ({
            let after = fleet.without_lost(lost);
            let known = fleet.registry.dom().contains(hash);
            let was = fleet.registry[hash];
            let fetches = known && (was.state == TorrentState::Downloading || was.state
                == TorrentState::DownloadingMetadata);
            let ended = fleet.engines.dom().contains(hash) && !fetches;
            &&& after.engines.dom().contains(hash) == (fleet.engines.dom().contains(hash)
                && fetches)
            &&& ended ==> !after.retry_after.dom().contains(hash)
                && !after.rate_samples.dom().contains(hash) && !after.seeders.dom().contains(hash)
            &&& after.registry.dom() == fleet.registry.dom()
            &&& known && !ended ==> after.registry[hash] == was
            &&& known && ended && was.state == TorrentState::Queued ==> after.registry[hash] == (
            Torrent { error: Some(Notice::StaleEngine), ..was })
            &&& known && ended && was.state != TorrentState::Queued && was.state
                != TorrentState::Seeding ==> after.registry[hash] == was
            &&& known && ended && was.state == TorrentState::Seeding
                ==> after.registry[hash].seeding_status
                != crate::torrent::SeedingStatus::Active
            &&& after.queue == fleet.queue
        }),
{
    crate::fleet::stopping_is_exact(fleet, lost);
    let after = fleet.without_lost(lost);
    assert(after.registry.dom() =~= fleet.registry.dom());
    assert(lost.contains(hash) == fleet.lost_engine(hash));
}

/// A torrent that is shown as downloading while no task runs for it waits again and says so. It
/// stands behind all others and does not jump the queue. Other torrents do not change, keep their
/// order, and jump the queue as they did.
pub proof fn torrents_without_tasks_wait(
    fleet: FleetView,
    stale: Seq<InfoHash>,
    hash: InfoHash,
    other: InfoHash,
)
    requires
        fleet.queue.wf(),
        forall|one: InfoHash| #[trigger] stale.contains(one) == fleet.stale_active(one),
        fleet.registry.dom().contains(hash),
        fleet.queue.order.contains(other),
        !fleet.stale_active(other),
    ensures
        ({
            let after = fleet.without_stale(stale);
            let was = fleet.registry[hash];
            let left = (was.state == TorrentState::Downloading || was.state
                == TorrentState::DownloadingMetadata) && !fleet.engines.dom().contains(hash);
            let order = after.queue.order;
            &&& left ==> {
                &&& after.registry[hash] == (Torrent {
                    state: TorrentState::Queued,
                    error: Some(Notice::StaleActive),
                    ..was
                })
                &&& order.contains(hash)
                &&& order.index_of(other) < order.index_of(hash)
                &&& !after.queue.bypass.contains(hash)
            }
            &&& !left ==> {
                &&& after.registry[hash] == was
                &&& order.contains(hash) == fleet.queue.order.contains(hash)
                &&& after.queue.bypass.contains(hash) == fleet.queue.bypass.contains(hash)
                &&& fleet.queue.order.contains(hash) && fleet.queue.order.index_of(other)
                    < fleet.queue.order.index_of(hash) ==> order.index_of(other)
                    < order.index_of(hash)
            }
            &&& after.engines == fleet.engines
            &&& after.seeders == fleet.seeders
            &&& after.retry_after == fleet.retry_after
        }),
{
    let order = fleet.queue.order;
    let grown = crate::queue::appended_all(order, stale);
    crate::queue::lemma_all_appended(order, stale);
    crate::queue::lemma_all_sunk(grown, stale);
    crate::queue::lemma_filter(fleet.queue.bypass, crate::queue::none_of(stale));
    let after = fleet.without_stale(stale);
    assert(stale.contains(hash) == fleet.stale_active(hash));
    assert(!stale.contains(other));
    assert(grown.contains(other));
    let moved = after.queue.order;
    assert(moved == crate::queue::sunk_all(grown, stale));
    if stale.contains(hash) {
        assert(grown.contains(hash));
        assert(moved.index_of(other) < moved.index_of(hash));
    } else if order.contains(hash) && order.index_of(other) < order.index_of(hash) {
        assert(grown.take(order.len() as int) == order);
        let i = order.index_of(other);
        let j = order.index_of(hash);
        assert(grown[i] == order[i] && grown[j] == order[j]);
        assert(grown.index_of(other) == i && grown.index_of(hash) == j);
        assert(moved.index_of(other) < moved.index_of(hash));
    }
}

/// A downloading torrent that was not chosen loses its task and waits; nothing else of it changes.
/// All others stay as they are, and so does the queue.
pub proof fn slots_follow_the_choice(
    ready: FleetView,
    start: Seq<InfoHash>,
    preempted: Seq<InfoHash>,
    hash: InfoHash,
)
    requires
        forall|other: InfoHash| #[trigger]
            preempted.contains(other) == ready.loses_slot(start, other),
        ready.registry.dom().contains(hash),
    ensures
        ({
            let after = ready.without_slots(preempted);
            let was = ready.registry[hash];
            let fetches = was.state == TorrentState::Downloading || was.state
                == TorrentState::DownloadingMetadata;
            let ousted = ready.engines.dom().contains(hash) && fetches && !start.contains(hash);
            &&& after.engines.dom().contains(hash) == (ready.engines.dom().contains(hash)
                && !ousted)
            &&& ousted ==> after.registry[hash] == (Torrent { state: TorrentState::Queued, ..was })
            &&& !ousted ==> after.registry[hash] == was
            &&& after.queue == ready.queue
            &&& after.registry.dom() == ready.registry.dom()
        }),
{
    crate::fleet::stopping_is_exact(ready, preempted);
    let after = ready.without_slots(preempted);
    assert(after.registry.dom() =~= ready.registry.dom());
    assert(preempted.contains(hash) == ready.loses_slot(start, hash));
}

/// After the queue was reconciled, a torrent is shown as downloading exactly where a task runs for
/// it, and a task runs only for torrents that were chosen. A torrent that neither downloaded nor
/// had a task is left as it was.
pub proof fn downloads_are_shown_truthfully(
    found: FleetView,
    lost: Seq<InfoHash>,
    stale: Seq<InfoHash>,
    preempted: Seq<InfoHash>,
    start: Seq<InfoHash>,
    limits: QueueLimits,
    hash: InfoHash,
)
    requires
        forall|other: InfoHash| #[trigger] lost.contains(other) == found.lost_engine(other),
        forall|other: InfoHash| #[trigger]
            stale.contains(other) == found.without_lost(lost).stale_active(other),
        forall|other: InfoHash| #[trigger]
            preempted.contains(other) == found.without_lost(lost).without_stale(
                stale,
            ).with_pruned_queue(limits).loses_slot(start, other),
        found.registry.dom().contains(hash),
    ensures
        ({
            let after = found.without_lost(lost).without_stale(stale).with_pruned_queue(
                limits,
            ).without_slots(preempted);
            let was = found.registry[hash];
            let torrent = after.registry[hash];
            let fetched = was.state == TorrentState::Downloading || was.state
                == TorrentState::DownloadingMetadata;
            let fetches = torrent.state == TorrentState::Downloading || torrent.state
                == TorrentState::DownloadingMetadata;
            let runs = after.engines.dom().contains(hash);
            &&& fetches == runs
            &&& runs == (found.engines.dom().contains(hash) && fetched && start.contains(hash))
            &&& runs ==> torrent == was
            &&& fetched && !runs ==> torrent.state == TorrentState::Queued
            &&& !fetched && !found.engines.dom().contains(hash) ==> torrent == was
        }),
{
    let owned = found.without_lost(lost);
    let settled = owned.without_stale(stale);
    let ready = settled.with_pruned_queue(limits);
    lost_tasks_end(found, lost, hash);
    assert(settled.registry.dom().contains(hash));
    assert(settled.registry[hash] == recovered(owned.registry[hash], owned.stale_active(hash)));
    slots_follow_the_choice(ready, start, preempted, hash);
}

/// Every chosen torrent, and no other, is asked to start.
pub proof fn chosen_torrents_are_asked_to_start(start: Seq<InfoHash>, hash: InfoHash)
    ensures
        start_effects(start).contains(Effect::StartEngine { hash }) == start.contains(hash),
        start_effects(start).len() == start.len(),
{
    let asked = start_effects(start);
    if start.contains(hash) {
        assert(asked[start.index_of(hash)] == Effect::StartEngine { hash });
    }
    if asked.contains(Effect::StartEngine { hash }) {
        let k = asked.index_of(Effect::StartEngine { hash });
        assert(start[k] == hash);
    }
}

} // verus!
