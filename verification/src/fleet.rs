//! Torrents together with the tasks that work on them.
use crate::clock::Tick;
use crate::effects::Effect;
use crate::hash::InfoHash;
use crate::index::HashIndex;
use crate::queue::QueueState;
use crate::torrent::{SeedingStatus, Torrent, TorrentState};
use vstd::prelude::*;

verus! {

/// A downloading task.
#[derive(Clone, Copy, PartialEq, Eq, Structural, Debug)]
pub struct EngineTask {
    pub finished: bool,
}

/// An uploading registration.
#[derive(Clone, Copy, PartialEq, Eq, Structural, Debug)]
pub struct SeederTask {
    pub announcing: bool,
}

/// What was last measured of a torrent's transfer.
#[derive(Clone, Copy, PartialEq, Eq, Structural, Debug)]
pub struct RateSample {
    pub downloaded: u64,
    pub uploaded: u64,
    pub rate_down: u64,
    pub rate_up: u64,
    pub last_download_at: Option<Tick>,
    pub last_upload_at: Option<Tick>,
    pub no_download_since: Option<Tick>,
    pub at: Tick,
    pub peak_rate_down: u64,
    pub peak_rate_up: u64,
}

/// All torrents, the queue, and the tasks.
#[derive(Debug)]
pub struct Fleet {
    pub registry: HashIndex<Torrent>,
    pub queue: QueueState,
    pub engines: HashIndex<EngineTask>,
    pub retry_after: HashIndex<Tick>,
    pub rate_samples: HashIndex<RateSample>,
    pub seeders: HashIndex<SeederTask>,
    pub listener_running: bool,
}

/// A fleet as a value.
pub struct FleetView {
    pub registry: Map<InfoHash, Torrent>,
    pub queue: crate::queue::QueueView,
    pub engines: Map<InfoHash, EngineTask>,
    pub retry_after: Map<InfoHash, Tick>,
    pub rate_samples: Map<InfoHash, RateSample>,
    pub seeders: Map<InfoHash, SeederTask>,
    pub listener_running: bool,
}

impl View for Fleet {
    type V = FleetView;

    open spec fn view(&self) -> FleetView {
        FleetView {
            registry: self.registry@,
            queue: self.queue@,
            engines: self.engines@,
            retry_after: self.retry_after@,
            rate_samples: self.rate_samples@,
            seeders: self.seeders@,
            listener_running: self.listener_running,
        }
    }
}

/// The registry with one torrent rewritten, where it is known.
pub open spec fn rewritten(
    registry: Map<InfoHash, Torrent>,
    hash: InfoHash,
    torrent: Torrent,
) -> Map<InfoHash, Torrent> {
    if registry.dom().contains(hash) {
        registry.insert(hash, torrent)
    } else {
        registry
    }
}

/// The upload status of a torrent that has just stopped uploading or downloading.
pub open spec fn idle_seeding_status(torrent: Torrent) -> SeedingStatus {
    if torrent.progress.complete() {
        SeedingStatus::Queued
    } else {
        SeedingStatus::NotEligible
    }
}

/// A torrent after its uploading ended: no longer shown as uploading.
pub open spec fn after_seeding(torrent: Torrent) -> Torrent {
    if torrent.state == TorrentState::Seeding && torrent.seeding_status == SeedingStatus::Active {
        Torrent {
            state: TorrentState::Completed,
            seeding_status: idle_seeding_status(torrent),
            ..torrent
        }
    } else {
        torrent
    }
}

impl FleetView {
    /// After a torrent's uploading ended. The listener ends with the last of them.
    pub open spec fn seeder_stopped(self, hash: InfoHash) -> FleetView {
        let seeders = self.seeders.remove(hash);
        FleetView {
            registry: rewritten(self.registry, hash, after_seeding(self.registry[hash])),
            seeders,
            listener_running: self.listener_running && seeders
                != Map::<InfoHash, SeederTask>::empty(),
            ..self
        }
    }

    /// After all work on a torrent ended.
    pub open spec fn work_stopped(self, hash: InfoHash) -> FleetView {
        FleetView {
            engines: self.engines.remove(hash),
            retry_after: self.retry_after.remove(hash),
            rate_samples: self.rate_samples.remove(hash),
            ..self.seeder_stopped(hash)
        }
    }

    /// What ending a torrent's uploading asks for.
    pub open spec fn seeder_stop_effects(self, hash: InfoHash, force: bool) -> Seq<Effect> {
        let stop = if self.seeders.dom().contains(hash) {
            seq![Effect::StopSeeder { hash, force }]
        } else {
            Seq::<Effect>::empty()
        };
        if self.listener_running && self.seeders.remove(hash)
            == Map::<InfoHash, SeederTask>::empty() {
            stop.push(Effect::StopListener { force })
        } else {
            stop
        }
    }

    /// What ending all work on a torrent asks for.
    pub open spec fn work_stop_effects(self, hash: InfoHash, force: bool) -> Seq<Effect> {
        let stop = if self.engines.dom().contains(hash) {
            seq![Effect::StopEngine { hash, force }]
        } else {
            Seq::<Effect>::empty()
        };
        stop + self.seeder_stop_effects(hash, force)
    }

    /// After all work on some torrents ended, one after the other.
    pub open spec fn all_stopped(self, hashes: Seq<InfoHash>) -> FleetView
        decreases hashes.len(),
    {
        if hashes.len() == 0 {
            self
        } else {
            self.all_stopped(hashes.drop_last()).work_stopped(hashes.last())
        }
    }

    /// What ending all work on some torrents asks for.
    pub open spec fn all_stop_effects(self, hashes: Seq<InfoHash>, force: bool) -> Seq<Effect>
        decreases hashes.len(),
    {
        if hashes.len() == 0 {
            Seq::<Effect>::empty()
        } else {
            let rest = hashes.drop_last();
            self.all_stop_effects(rest, force) + self.all_stopped(rest).work_stop_effects(
                hashes.last(),
                force,
            )
        }
    }
}

/// A table without some torrents.
pub open spec fn table_without<V>(
    table: Map<InfoHash, V>,
    hashes: Seq<InfoHash>,
) -> Map<InfoHash, V> {
    Map::new(
        |hash: InfoHash| table.dom().contains(hash) && !hashes.contains(hash),
        |hash: InfoHash| table[hash],
    )
}

proof fn lemma_table_without_step<V>(table: Map<InfoHash, V>, hashes: Seq<InfoHash>)
    requires
        hashes.len() > 0,
    ensures
        table_without(table, hashes) == table_without(table, hashes.drop_last()).remove(
            hashes.last(),
        ),
{
    let rest = hashes.drop_last();
    assert forall|hash: InfoHash| #[trigger] hashes.contains(hash) == (rest.contains(hash) || hash
        == hashes.last()) by {
        if rest.contains(hash) {
            assert(hashes[rest.index_of(hash)] == hash);
        }
        if hashes.contains(hash) && hash != hashes.last() {
            let i = hashes.index_of(hash);
            assert(rest[i] == hash);
        }
        assert(hashes[hashes.len() - 1] == hashes.last());
    }
    assert(table_without(table, hashes) =~= table_without(table, rest).remove(hashes.last()));
}

/// Ending all work on some torrents takes exactly them out of every table, shows none of them as
/// uploading, and leaves the queue and the other torrents as they were.
pub proof fn stopping_is_exact(fleet: FleetView, hashes: Seq<InfoHash>)
    ensures
        fleet.all_stopped(hashes).queue == fleet.queue,
        fleet.all_stopped(hashes).engines == table_without(fleet.engines, hashes),
        fleet.all_stopped(hashes).retry_after == table_without(fleet.retry_after, hashes),
        fleet.all_stopped(hashes).rate_samples == table_without(fleet.rate_samples, hashes),
        fleet.all_stopped(hashes).seeders == table_without(fleet.seeders, hashes),
        fleet.all_stopped(hashes).registry.dom() == fleet.registry.dom(),
        forall|hash: InfoHash|
            fleet.registry.dom().contains(hash) ==> #[trigger] fleet.all_stopped(
                hashes,
            ).registry[hash] == if hashes.contains(hash) {
                after_seeding(fleet.registry[hash])
            } else {
                fleet.registry[hash]
            },
        hashes.len() == 0 ==> fleet.all_stopped(hashes).listener_running == fleet.listener_running,
        hashes.len() > 0 ==> fleet.all_stopped(hashes).listener_running == (fleet.listener_running
            && table_without(fleet.seeders, hashes) != Map::<InfoHash, SeederTask>::empty()),
    decreases hashes.len(),
{
    let done = fleet.all_stopped(hashes);
    if hashes.len() == 0 {
        assert(table_without(fleet.engines, hashes) =~= fleet.engines);
        assert(table_without(fleet.retry_after, hashes) =~= fleet.retry_after);
        assert(table_without(fleet.rate_samples, hashes) =~= fleet.rate_samples);
        assert(table_without(fleet.seeders, hashes) =~= fleet.seeders);
    } else {
        let rest = hashes.drop_last();
        let last = hashes.last();
        stopping_is_exact(fleet, rest);
        lemma_table_without_step(fleet.engines, hashes);
        lemma_table_without_step(fleet.retry_after, hashes);
        lemma_table_without_step(fleet.rate_samples, hashes);
        lemma_table_without_step(fleet.seeders, hashes);
        let before = fleet.all_stopped(rest);
        assert(done.registry.dom() =~= fleet.registry.dom());
        assert forall|hash: InfoHash| fleet.registry.dom().contains(hash) implies
            #[trigger] done.registry[hash] == if hashes.contains(hash) {
            after_seeding(fleet.registry[hash])
        } else {
            fleet.registry[hash]
        } by {
            if rest.contains(hash) {
                assert(hashes[rest.index_of(hash)] == hash);
            }
            if hashes.contains(hash) && hash != last {
                assert(rest[hashes.index_of(hash)] == hash);
            }
            assert(hashes[hashes.len() - 1] == last);
            assert(after_seeding(after_seeding(fleet.registry[hash])) == after_seeding(
                fleet.registry[hash],
            ));
        }
        if before.seeders == Map::<InfoHash, SeederTask>::empty() {
            assert(before.seeders.remove(last) =~= Map::<InfoHash, SeederTask>::empty());
        }
    }
}

/// A torrent's uploading ended.
pub fn leave_seeding(torrent: &mut Torrent)
    ensures
        *final(torrent) == after_seeding(*old(torrent)),
{
    if torrent.state == TorrentState::Seeding && torrent.seeding_status == SeedingStatus::Active {
        torrent.state = TorrentState::Completed;
        torrent.seeding_status = if torrent.progress.is_complete() {
            SeedingStatus::Queued
        } else {
            SeedingStatus::NotEligible
        };
    }
}

impl Fleet {
    /// Every table is in order.
    pub open spec fn wf(&self) -> bool {
        &&& self.registry.wf()
        &&& self.queue@.wf()
        &&& self.engines.wf()
        &&& self.retry_after.wf()
        &&& self.rate_samples.wf()
        &&& self.seeders.wf()
    }

    /// Ends a torrent's uploading. The listener ends with the last of them.
    pub fn stop_seeder(&mut self, hash: &InfoHash, force: bool, effects: &mut Vec<Effect>)
        requires
            old(self).wf(),
        ensures
            final(self).wf(),
            final(self)@ == old(self)@.seeder_stopped(*hash),
            final(effects)@ == old(effects)@ + old(self)@.seeder_stop_effects(*hash, force),
    {
        let ghost before = self@;
        let was_live: bool = self.seeders.contains(hash);
        let _ = self.seeders.remove(hash);
        if was_live {
            effects.push(Effect::StopSeeder { hash: *hash, force });
        }
        if self.seeders.is_empty() {
            if self.listener_running {
                effects.push(Effect::StopListener { force });
            }
            self.listener_running = false;
        }
        if let Some(position) = self.registry.find(hash) {
            leave_seeding(self.registry.value_at_mut(position));
        }
        assert(effects@ =~= old(effects)@ + before.seeder_stop_effects(*hash, force));
    }

    /// Ends all work on a torrent.
    pub fn stop_work(&mut self, hash: &InfoHash, force: bool, effects: &mut Vec<Effect>)
        requires
            old(self).wf(),
        ensures
            final(self).wf(),
            final(self)@ == old(self)@.work_stopped(*hash),
            final(effects)@ == old(effects)@ + old(self)@.work_stop_effects(*hash, force),
    {
        let ghost before = self@;
        let _ = self.retry_after.remove(hash);
        let was_running: bool = self.engines.contains(hash);
        let _ = self.engines.remove(hash);
        if was_running {
            effects.push(Effect::StopEngine { hash: *hash, force });
        }
        self.stop_seeder(hash, force, effects);
        let _ = self.rate_samples.remove(hash);
        assert(effects@ =~= old(effects)@ + before.work_stop_effects(*hash, force));
    }

    /// Ends all work on some torrents, one after the other.
    pub fn stop_all(&mut self, hashes: &Vec<InfoHash>, force: bool, effects: &mut Vec<Effect>)
        requires
            old(self).wf(),
        ensures
            final(self).wf(),
            final(self)@ == old(self)@.all_stopped(hashes@),
            final(effects)@ == old(effects)@ + old(self)@.all_stop_effects(hashes@, force),
    {
        let ghost before = self@;
        let ghost asked = effects@;
        let mut i: usize = 0;
        assert(effects@ =~= asked + before.all_stop_effects(hashes@.take(0), force));
        while i < hashes.len()
            invariant
                i <= hashes.len(),
                self.wf(),
                self@ == before.all_stopped(hashes@.take(i as int)),
                effects@ == asked + before.all_stop_effects(hashes@.take(i as int), force),
            decreases hashes.len() - i,
        {
            assert(hashes@.take(i + 1).drop_last() =~= hashes@.take(i as int));
            self.stop_work(&hashes[i], force, effects);
            assert(effects@ =~= asked + before.all_stop_effects(hashes@.take(i + 1), force));
            i = i + 1;
        }
        assert(hashes@.take(i as int) =~= hashes@);
    }
}

/// Once a torrent's uploading ended it is not shown as uploading: it is completed, and waits to
/// upload where all its pieces are there. A torrent that was not shown as uploading is left alone.
pub proof fn ended_uploads_are_not_shown(torrent: Torrent)
    ensures
        ({
            let after = after_seeding(torrent);
            let have = torrent.progress.have@;
            let whole = have.len() > 0 && forall|piece: int|
                0 <= piece < have.len() ==> #[trigger] have[piece];
            let shown = torrent.state == TorrentState::Seeding && torrent.seeding_status
                == SeedingStatus::Active;
            &&& shown ==> after == (Torrent {
                state: TorrentState::Completed,
                seeding_status: if whole {
                    SeedingStatus::Queued
                } else {
                    SeedingStatus::NotEligible
                },
                ..torrent
            })
            &&& !shown ==> after == torrent
        }),
{
}

/// Ending the work on a torrent ends exactly the tasks that it has: its engine, its upload, and the
/// listener with the last upload; and afterwards none of them is left.
pub proof fn ending_work_ends_its_tasks(
    fleet: FleetView,
    hash: InfoHash,
    force: bool,
    other: InfoHash,
)
    requires
        other != hash,
    ensures
        ({
            let told = fleet.work_stop_effects(hash, force);
            let after = fleet.work_stopped(hash);
            let last = forall|one: InfoHash| #[trigger]
                fleet.seeders.dom().contains(one) ==> one == hash;
            &&& told.contains(Effect::StopEngine { hash, force })
                == fleet.engines.dom().contains(hash)
            &&& told.contains(Effect::StopSeeder { hash, force })
                == fleet.seeders.dom().contains(hash)
            &&& told.contains(Effect::StopListener { force }) == (fleet.listener_running && last)
            &&& after.listener_running == (fleet.listener_running && !last)
            &&& !after.engines.dom().contains(hash) && !after.seeders.dom().contains(hash)
                && !after.retry_after.dom().contains(hash)
                && !after.rate_samples.dom().contains(hash)
            &&& after.engines.dom().contains(other) == fleet.engines.dom().contains(other)
            &&& after.seeders.dom().contains(other) == fleet.seeders.dom().contains(other)
            &&& after.retry_after.dom().contains(other) == fleet.retry_after.dom().contains(other)
            &&& after.rate_samples.dom().contains(other) == fleet.rate_samples.dom().contains(other)
            &&& after.queue == fleet.queue
        }),
{
    let told = fleet.work_stop_effects(hash, force);
    let rest = fleet.seeders.remove(hash);
    let last = forall|one: InfoHash| #[trigger]
        fleet.seeders.dom().contains(one) ==> one == hash;
    if last {
        assert(rest =~= Map::<InfoHash, SeederTask>::empty());
    } else {
        let one = choose|one: InfoHash| #[trigger]
            fleet.seeders.dom().contains(one) && one != hash;
        assert(rest.dom().contains(one));
        assert(rest != Map::<InfoHash, SeederTask>::empty());
    }
    let skip: int = if fleet.engines.dom().contains(hash) {
        1
    } else {
        0
    };
    let next: int = if fleet.seeders.dom().contains(hash) {
        skip + 1
    } else {
        skip
    };
    if fleet.engines.dom().contains(hash) {
        assert(told[0] == Effect::StopEngine { hash, force });
    }
    if fleet.seeders.dom().contains(hash) {
        assert(told[skip] == Effect::StopSeeder { hash, force });
    }
    if fleet.listener_running && last {
        assert(told[next] == Effect::StopListener { force });
    }
}

} // verus!
