//! Removing torrents.
use crate::clock::Tick;
use crate::config::{resolve_download_dir_from_config, resolve_incomplete_dir_from_config, Config};
use crate::effects::{Effect, Event};
use crate::error::CoreError;
use crate::fleet::{Fleet, FleetView};
use crate::hash::InfoHash;
use crate::index::HashIndex;
use crate::permits::{PermitPool, PermitView};
use crate::queue::contains_hash;
use crate::runtime::DaemonRuntime;
use crate::text::same_text;
use crate::torrent::{Notice, Torrent, TorrentState};
use vstd::prelude::*;

verus! {

/// The known torrents of a list, each once, in the order of the list.
pub open spec fn removal_targets(
    hashes: Seq<InfoHash>,
    registry: Map<InfoHash, Torrent>,
) -> Seq<InfoHash>
    decreases hashes.len(),
{
    if hashes.len() == 0 {
        Seq::<InfoHash>::empty()
    } else {
        let before = removal_targets(hashes.drop_last(), registry);
        let hash = hashes.last();
        if registry.dom().contains(hash) {
            crate::queue::appended(before, hash)
        } else {
            before
        }
    }
}

impl FleetView {
    /// Without some torrents.
    pub open spec fn without_torrents(self, hashes: Seq<InfoHash>) -> FleetView {
        FleetView {
            registry: crate::fleet::table_without(self.registry, hashes),
            queue: crate::queue::QueueView {
                order: crate::queue::without_all(self.queue.order, hashes),
                bypass: crate::queue::without_all(self.queue.bypass, hashes),
                ..self.queue
            },
            rate_samples: crate::fleet::table_without(self.rate_samples, hashes),
            ..self
        }
    }

    /// Without a finished torrent whose own task removes it.
    pub open spec fn without_completed(self, hash: InfoHash) -> FleetView {
        let stopped = self.work_stopped(hash);
        FleetView {
            registry: stopped.registry.remove(hash),
            queue: crate::queue::QueueView {
                order: crate::queue::without(self.queue.order, hash),
                bypass: crate::queue::without(self.queue.bypass, hash),
                ..self.queue
            },
            ..stopped
        }
    }

    /// The torrent is finished or uploads.
    pub open spec fn finished_with(self, hash: InfoHash) -> bool {
        self.registry.dom().contains(hash) && (self.registry[hash].state == TorrentState::Completed
            || self.registry[hash].state == TorrentState::Seeding)
    }
}

/// What observers are told of removed torrents.
pub open spec fn removed_events(hashes: Seq<InfoHash>, delete_data: bool) -> Seq<Effect> {
    hashes.map_values(
        |hash: InfoHash| Effect::Publish(Event::TorrentRemoved { hash, delete_data }),
    )
}

/// Unbinds some torrents in a table.
fn drop_from_table<V>(table: &mut HashIndex<V>, hashes: &Vec<InfoHash>)
    requires
        old(table).wf(),
    ensures
        final(table).wf(),
        final(table)@ == crate::fleet::table_without(old(table)@, hashes@),
{
    let ghost before = table@;
    let mut i: usize = 0;
    assert(table@ =~= crate::fleet::table_without(before, hashes@.take(0)));
    while i < hashes.len()
        invariant
            i <= hashes@.len(),
            table.wf(),
            table@ == crate::fleet::table_without(before, hashes@.take(i as int)),
        decreases hashes@.len() - i,
    {
        let hash: InfoHash = hashes[i];
        let _ = table.remove(&hash);
        proof {
            assert forall|other: InfoHash| #[trigger] hashes@.take(i + 1).contains(other) == (
            hashes@.take(i as int).contains(other) || other == hash) by {
                crate::reconcile::lemma_take_contains(hashes@, i as int, other);
            }
            assert(table@ =~= crate::fleet::table_without(before, hashes@.take(i + 1)));
        }
        i = i + 1;
    }
    assert(hashes@.take(i as int) =~= hashes@);
}

impl Fleet {
    /// The known torrents of a list, each once, in the order of the list.
    pub fn known_among(&self, hashes: &Vec<InfoHash>) -> (targets: Vec<InfoHash>)
        requires
            self.wf(),
        ensures
            targets@ == removal_targets(hashes@, self@.registry),
            targets@.no_duplicates(),
            forall|hash: InfoHash| #[trigger]
                targets@.contains(hash) == (hashes@.contains(hash)
                    && self@.registry.dom().contains(hash)),
    {
        let mut targets: Vec<InfoHash> = Vec::new();
        let mut i: usize = 0;
        while i < hashes.len()
            invariant
                i <= hashes@.len(),
                self.wf(),
                targets@ == removal_targets(hashes@.take(i as int), self@.registry),
                targets@.no_duplicates(),
                forall|hash: InfoHash| #[trigger]
                    targets@.contains(hash) == (hashes@.take(i as int).contains(hash)
                        && self@.registry.dom().contains(hash)),
            decreases hashes@.len() - i,
        {
            let hash: InfoHash = hashes[i];
            proof {
                assert(hashes@.take(i + 1).drop_last() =~= hashes@.take(i as int));
                crate::queue::lemma_appended(targets@, hash);
                assert forall|other: InfoHash| #[trigger]
                    hashes@.take(i + 1).contains(other) == (hashes@.take(i as int).contains(other)
                        || other == hash) by {
                    crate::reconcile::lemma_take_contains(hashes@, i as int, other);
                }
            }
            if self.registry.contains(&hash) && !contains_hash(&targets, &hash) {
                targets.push(hash);
            }
            i = i + 1;
        }
        assert(hashes@.take(i as int) =~= hashes@);
        targets
    }

    /// The data of a torrent could not be deleted; the torrent stays.
    pub fn fail_removal(&mut self, hash: InfoHash, rendered: &String, effects: &mut Vec<Effect>)
        requires
            old(self).wf(),
        ensures
            final(self).wf(),
            final(self)@ == (FleetView {
                registry: crate::fleet::rewritten(
                    old(self)@.registry,
                    hash,
                    crate::start::storage_failed(old(self)@.registry[hash], *rendered),
                ),
                ..old(self)@
            }),
            final(effects)@ == old(effects)@.push(Effect::Persist),
    {
        if let Some(position) = self.registry.find(&hash) {
            let torrent: &mut Torrent = self.registry.value_at_mut(position);
            torrent.state = TorrentState::StorageError;
            torrent.error = Some(Notice::Text(rendered.clone()));
        }
        effects.push(Effect::Persist);
    }

    /// Takes out torrents whose work has ended and whose data is dealt with.
    pub fn forget_torrents(&mut self, targets: &Vec<InfoHash>)
        requires
            old(self).wf(),
        ensures
            final(self).wf(),
            final(self)@ == old(self)@.without_torrents(targets@),
    {
        drop_from_table(&mut self.registry, targets);
        self.queue.remove_many(targets);
        drop_from_table(&mut self.rate_samples, targets);
    }

    /// Takes out a finished torrent and keeps its data.
    pub fn selfish_remove_completed(&mut self, hash: InfoHash, effects: &mut Vec<Effect>)
        requires
            old(self).wf(),
        ensures
            final(self).wf(),
            final(self)@ == old(self)@.without_completed(hash),
            final(effects)@ == old(effects)@ + old(self)@.seeder_stop_effects(hash, false) + seq![
                Effect::Publish(Event::TorrentRemoved { hash, delete_data: false }),
                crate::effects::stats_effect(),
                Effect::Persist,
            ],
    {
        let ghost asked = effects@;
        self.stop_seeder(&hash, false, effects);
        let _ = self.engines.remove(&hash);
        let _ = self.retry_after.remove(&hash);
        let _ = self.rate_samples.remove(&hash);
        let _ = self.registry.remove(&hash);
        proof {
            crate::queue::lemma_filter(self.queue.order@, crate::queue::other_than(hash));
        }
        let order: Vec<InfoHash> = crate::queue::drop_hash(&self.queue.order, &hash);
        self.queue.order = order;
        self.queue.clear_bypass(&hash);
        effects.push(Effect::Publish(Event::TorrentRemoved { hash, delete_data: false }));
        effects.push(Effect::Publish(Event::StatsUpdated));
        effects.push(Effect::Persist);
        assert(effects@ =~= asked + old(self)@.seeder_stop_effects(hash, false) + seq![
            Effect::Publish(Event::TorrentRemoved { hash, delete_data: false }),
            crate::effects::stats_effect(),
            Effect::Persist,
        ]);
    }

    /// The torrents that are finished or upload.
    pub fn completed_torrents(&self) -> (hashes: Vec<InfoHash>)
        requires
            self.wf(),
        ensures
            hashes@.no_duplicates(),
            forall|hash: InfoHash| #[trigger] hashes@.contains(hash) == self@.finished_with(hash),
    {
        let mut hashes: Vec<InfoHash> = Vec::new();
        let ghost entries = self.registry.seq();
        let mut i: usize = 0;
        while i < self.registry.len()
            invariant
                i <= entries.len(),
                entries == self.registry.seq(),
                self.wf(),
                hashes@.no_duplicates(),
                forall|hash: InfoHash| #[trigger]
                    hashes@.contains(hash) == (crate::reconcile::seen_before(
                        entries,
                        i as int,
                        hash,
                    ) && self@.finished_with(hash)),
            decreases entries.len() - i,
        {
            let hash: InfoHash = self.registry.key_at(i);
            let state: TorrentState = self.registry.value_at(i).state;
            proof {
                crate::reconcile::lemma_seen_step(entries, i as int);
            }
            if matches!(state, TorrentState::Completed | TorrentState::Seeding) {
                proof {
                    crate::reconcile::lemma_pushed(hashes@, hash);
                }
                hashes.push(hash);
            }
            i = i + 1;
        }
        proof {
            crate::reconcile::lemma_seen_all(entries);
        }
        hashes
    }
}

impl DaemonRuntime {
    /// Ends all work on the known torrents of a list by force, before they are removed.
    pub fn begin_removal(&mut self, hashes: &Vec<InfoHash>, effects: &mut Vec<Effect>) -> (targets:
        Vec<InfoHash>)
        requires
            old(self).wf(),
        ensures
            final(self).wf(),
            targets@ == removal_targets(hashes@, old(self).fleet@.registry),
            *final(self) == (DaemonRuntime { fleet: final(self).fleet, ..*old(self) }),
            final(self).fleet@ == old(self).fleet@.all_stopped(targets@),
            final(effects)@ == old(effects)@ + old(self).fleet@.all_stop_effects(targets@, true),
    {
        let targets: Vec<InfoHash> = self.fleet.known_among(hashes);
        self.fleet.stop_all(&targets, true, effects);
        targets
    }

    /// Takes out torrents whose work has ended and whose data is dealt with, and all that is kept
    /// for them.
    pub fn forget_torrents(&mut self, targets: &Vec<InfoHash>)
        requires
            old(self).wf(),
        ensures
            final(self).wf(),
            *final(self) == (DaemonRuntime {
                fleet: final(self).fleet,
                permits: final(self).permits,
                autopilot_last_action: final(self).autopilot_last_action,
                ..*old(self)
            }),
            final(self).fleet@ == old(self).fleet@.without_torrents(targets@),
            final(self).permits@ == (PermitView {
                per_torrent: crate::fleet::table_without(
                    old(self).permits@.per_torrent,
                    targets@,
                ),
                ..old(self).permits@
            }),
            final(self).autopilot_last_action@ == crate::fleet::table_without(
                old(self).autopilot_last_action@,
                targets@,
            ),
    {
        self.fleet.forget_torrents(targets);
        drop_from_table(&mut self.autopilot_last_action, targets);
        drop_from_table(&mut self.permits.per_torrent, targets);
    }

    /// Takes out a finished torrent on behalf of its own task, and keeps its data.
    pub fn selfish_remove_completed(&mut self, hash: InfoHash, effects: &mut Vec<Effect>)
        requires
            old(self).wf(),
        ensures
            final(self).wf(),
            *final(self) == (DaemonRuntime {
                fleet: final(self).fleet,
                permits: final(self).permits,
                autopilot_last_action: final(self).autopilot_last_action,
                ..*old(self)
            }),
            final(self).fleet@ == old(self).fleet@.without_completed(hash),
            final(self).permits@ == (PermitView {
                per_torrent: old(self).permits@.per_torrent.remove(hash),
                ..old(self).permits@
            }),
            final(self).autopilot_last_action@ == old(self).autopilot_last_action@.remove(hash),
            final(effects)@ == old(effects)@ + old(self).fleet@.seeder_stop_effects(hash, false)
                + seq![
                Effect::Publish(Event::TorrentRemoved { hash, delete_data: false }),
                crate::effects::stats_effect(),
                Effect::Persist,
            ],
    {
        self.fleet.selfish_remove_completed(hash, effects);
        let _ = self.permits.per_torrent.remove(&hash);
        let _ = self.autopilot_last_action.remove(&hash);
    }

    /// The torrents that are removed because they are finished: none, unless the daemon keeps no
    /// finished torrents.
    pub fn sweep_selfish_completed_torrents(&self) -> (hashes: Vec<InfoHash>)
        requires
            self.wf(),
        ensures
            hashes@.no_duplicates(),
            forall|hash: InfoHash| #[trigger]
                hashes@.contains(hash) == (self.config.torrent.selfish
                    && self.fleet@.finished_with(hash)),
    {
        if !self.config.torrent.selfish {
            return Vec::new();
        }
        self.fleet.completed_torrents()
    }
}

/// Tells observers of removed torrents.
pub fn tell_removed(hashes: &Vec<InfoHash>, delete_data: bool, effects: &mut Vec<Effect>)
    ensures
        final(effects)@ == old(effects)@ + removed_events(hashes@, delete_data) + seq![
            crate::effects::stats_effect(),
        ],
{
    let ghost asked = effects@;
    let mut i: usize = 0;
    while i < hashes.len()
        invariant
            i <= hashes@.len(),
            effects@ == asked + removed_events(hashes@.take(i as int), delete_data),
        decreases hashes@.len() - i,
    {
        effects.push(Effect::Publish(Event::TorrentRemoved { hash: hashes[i], delete_data }));
        i = i + 1;
        assert(effects@ =~= asked + removed_events(hashes@.take(i as int), delete_data));
    }
    assert(hashes@.take(i as int) =~= hashes@);
    effects.push(Effect::Publish(Event::StatsUpdated));
    assert(effects@ =~= asked + removed_events(hashes@, delete_data) + seq![
        crate::effects::stats_effect(),
    ]);
}

/// What a caller who asked for the removal of one torrent is told.
pub fn removal_outcome(removed: &Vec<InfoHash>) -> (outcome: Result<(), CoreError>)
    ensures
        outcome.is_ok() == (removed@.len() > 0),
        outcome matches Err(error) ==> error@ == crate::error::no_torrent(),
{
    if removed.len() == 0 {
        Err(CoreError::unknown_torrent())
    } else {
        Ok(())
    }
}

/// The directories from which a torrent's data is deleted: the one while it is unfinished, then
/// the one when it is finished, once where they are written the same.
pub fn removal_dirs(torrent: &Torrent, cfg: &Config, fallback_dir: &str) -> (dirs: Vec<String>)
    ensures
        ({
            let complete_dir = crate::config::complete_dir_of(
                crate::config::text_of(torrent.download_dir),
                *cfg,
                fallback_dir@,
            );
            let active_dir = crate::config::active_dir_of(complete_dir, *cfg);
            crate::config::texts_of(dirs@) == if active_dir == complete_dir {
                seq![active_dir]
            } else {
                seq![active_dir, complete_dir]
            }
        }),
{
    let own_dir: Option<&str> = match &torrent.download_dir {
        Some(dir) => Some(dir.as_str()),
        None => None,
    };
    let complete_dir: String = resolve_download_dir_from_config(own_dir, cfg, fallback_dir);
    let active_dir: String = resolve_incomplete_dir_from_config(complete_dir.as_str(), cfg);
    let same: bool = same_text(active_dir.as_str(), complete_dir.as_str());
    let ghost active = active_dir@;
    let ghost complete = complete_dir@;
    let mut dirs: Vec<String> = Vec::new();
    dirs.push(active_dir);
    if same {
        assert(crate::config::texts_of(dirs@) =~= seq![active]);
    } else {
        dirs.push(complete_dir);
        assert(crate::config::texts_of(dirs@) =~= seq![active, complete]);
    }
    dirs
}

/// A finished torrent that is taken out on behalf of its own task is as gone as one that is
/// removed while its data is kept: its work ends, and registry, queue, tasks, retry times,
/// samples, pools and last actions come out the same.
pub proof fn finished_torrents_leave_as_removed_ones(
    fleet: FleetView,
    pools: Map<InfoHash, PermitPool>,
    last_actions: Map<InfoHash, Tick>,
    hash: InfoHash,
)
    requires
        fleet.registry.dom().contains(hash),
    ensures
        ({
            let targets = removal_targets(seq![hash], fleet.registry);
            &&& fleet.without_completed(hash) == fleet.all_stopped(targets).without_torrents(targets)
            &&& pools.remove(hash) == crate::fleet::table_without(pools, targets)
            &&& last_actions.remove(hash) == crate::fleet::table_without(last_actions, targets)
        }),
{
    let one = seq![hash];
    let targets = removal_targets(one, fleet.registry);
    assert(one.drop_last() =~= Seq::<InfoHash>::empty());
    assert(removal_targets(one.drop_last(), fleet.registry) =~= Seq::<InfoHash>::empty());
    crate::queue::lemma_appended(Seq::<InfoHash>::empty(), hash);
    assert(targets =~= one);
    assert forall|other: InfoHash| #[trigger] one.contains(other) == (other == hash) by {
        assert(one[0] == hash);
    }
    assert(fleet.all_stopped(one.drop_last()) == fleet);
    assert(fleet.all_stopped(one) == fleet.work_stopped(hash));
    let one_by_one = fleet.without_completed(hash);
    let removed = fleet.all_stopped(one).without_torrents(one);
    assert(crate::queue::other_than(hash) =~= crate::queue::none_of(one));
    assert(one_by_one.registry =~= removed.registry);
    assert(one_by_one.rate_samples =~= removed.rate_samples);
    assert(pools.remove(hash) =~= crate::fleet::table_without(pools, one));
    assert(last_actions.remove(hash) =~= crate::fleet::table_without(last_actions, one));
}

/// A removed torrent is nowhere any more.
pub proof fn removed_torrents_leave_nothing(fleet: FleetView, targets: Seq<InfoHash>, hash: InfoHash)
    requires
        fleet.queue.wf(),
        targets.contains(hash),
    ensures
        ({
            let after = fleet.all_stopped(targets).without_torrents(targets);
            &&& !after.registry.dom().contains(hash)
            &&& !after.engines.dom().contains(hash)
            &&& !after.seeders.dom().contains(hash)
            &&& !after.retry_after.dom().contains(hash)
            &&& !after.rate_samples.dom().contains(hash)
            &&& !after.queue.order.contains(hash)
            &&& !after.queue.bypass.contains(hash)
        }),
{
    crate::fleet::stopping_is_exact(fleet, targets);
    crate::queue::lemma_filter(fleet.queue.order, crate::queue::none_of(targets));
    crate::queue::lemma_filter(fleet.queue.bypass, crate::queue::none_of(targets));
}

/// The torrents to remove are those of the list that are known, each once; of two of them the one
/// that is asked for first comes first.
pub proof fn known_torrents_are_removed(
    hashes: Seq<InfoHash>,
    registry: Map<InfoHash, Torrent>,
    hash: InfoHash,
)
    ensures
        removal_targets(hashes, registry).no_duplicates(),
        removal_targets(hashes, registry).contains(hash) == (hashes.contains(hash)
            && registry.dom().contains(hash)),
        removal_targets(hashes, registry).len() <= hashes.len(),
        hashes.no_duplicates() && (forall|i: int|
            0 <= i < hashes.len() ==> registry.dom().contains(#[trigger] hashes[i]))
            ==> removal_targets(hashes, registry) == hashes,
    decreases hashes.len(),
{
    if hashes.len() > 0 {
        let rest = hashes.drop_last();
        let last = hashes.last();
        let before = removal_targets(rest, registry);
        known_torrents_are_removed(rest, registry, hash);
        known_torrents_are_removed(rest, registry, last);
        crate::queue::lemma_appended(before, last);
        assert(hashes.take(rest.len() as int) =~= rest);
        assert(hashes.take(rest.len() as int + 1) =~= hashes);
        crate::reconcile::lemma_take_contains(hashes, rest.len() as int, hash);
        if hashes.no_duplicates() && (forall|i: int|
            0 <= i < hashes.len() ==> registry.dom().contains(#[trigger] hashes[i])) {
            assert forall|i: int| 0 <= i < rest.len() implies registry.dom().contains(
                #[trigger] rest[i],
            ) by {
                assert(rest[i] == hashes[i]);
            }
            assert(registry.dom().contains(hashes[hashes.len() - 1]));
            assert(!rest.contains(last)) by {
                if rest.contains(last) {
                    assert(hashes[rest.index_of(last)] == hashes[hashes.len() - 1]);
                }
            }
            assert(rest.push(last) =~= hashes);
        }
    }
}

/// Forgetting torrents takes out exactly them: every other torrent stays as it is, listed where it
/// was among the others, and ahead of the queue where it was.
pub proof fn forgetting_is_exact(
    fleet: FleetView,
    targets: Seq<InfoHash>,
    hash: InfoHash,
    other: InfoHash,
)
    requires
        fleet.queue.wf(),
        targets.contains(hash),
        !targets.contains(other),
    ensures
        ({
            let after = fleet.without_torrents(targets);
            &&& !after.registry.dom().contains(hash) && !after.rate_samples.dom().contains(hash)
            &&& !after.queue.order.contains(hash) && !after.queue.bypass.contains(hash)
            &&& after.registry.dom().contains(other) == fleet.registry.dom().contains(other)
            &&& fleet.registry.dom().contains(other) ==> after.registry[other]
                == fleet.registry[other]
            &&& after.queue.order.contains(other) == fleet.queue.order.contains(other)
            &&& after.queue.bypass.contains(other) == fleet.queue.bypass.contains(other)
            &&& after.queue.limits == fleet.queue.limits
            &&& after.engines == fleet.engines && after.seeders == fleet.seeders
            &&& forall|i: int, j: int|
                #![trigger after.queue.order[i], after.queue.order[j]]
                0 <= i < j < after.queue.order.len() ==> fleet.queue.order.index_of(
                    after.queue.order[i],
                ) < fleet.queue.order.index_of(after.queue.order[j])
        }),
{
    crate::queue::lemma_filter(fleet.queue.order, crate::queue::none_of(targets));
    crate::queue::lemma_filter(fleet.queue.bypass, crate::queue::none_of(targets));
    crate::scheduler::lemma_kept_in_order(fleet.queue.order, crate::queue::none_of(targets));
}

/// A finished torrent that leaves has no work, no entry and no place in the queue left; every other
/// torrent stays as it is.
pub proof fn finished_torrents_leave_nothing(fleet: FleetView, hash: InfoHash, other: InfoHash)
    requires
        fleet.queue.wf(),
        other != hash,
    ensures
        ({
            let after = fleet.without_completed(hash);
            &&& !after.registry.dom().contains(hash) && !after.engines.dom().contains(hash)
                && !after.seeders.dom().contains(hash) && !after.retry_after.dom().contains(hash)
                && !after.rate_samples.dom().contains(hash)
            &&& !after.queue.order.contains(hash) && !after.queue.bypass.contains(hash)
            &&& after.registry.dom().contains(other) == fleet.registry.dom().contains(other)
            &&& fleet.registry.dom().contains(other) ==> after.registry[other]
                == fleet.registry[other]
            &&& after.queue.order.contains(other) == fleet.queue.order.contains(other)
            &&& after.queue.bypass.contains(other) == fleet.queue.bypass.contains(other)
            &&& after.engines.dom().contains(other) == fleet.engines.dom().contains(other)
            &&& after.seeders.dom().contains(other) == fleet.seeders.dom().contains(other)
        }),
{
    crate::queue::lemma_filter(fleet.queue.order, crate::queue::other_than(hash));
    crate::queue::lemma_filter(fleet.queue.bypass, crate::queue::other_than(hash));
}

/// Only torrents that are completed or upload count as finished.
pub proof fn only_finished_torrents_are_swept(fleet: FleetView, hash: InfoHash)
    requires
        fleet.registry.dom().contains(hash),
    ensures
        fleet.finished_with(hash) == (fleet.registry[hash].state == TorrentState::Completed
            || fleet.registry[hash].state == TorrentState::Seeding),
{
}

/// Observers are told of every removed torrent, and whether its data went too.
pub proof fn removals_are_told(hashes: Seq<InfoHash>, delete_data: bool, hash: InfoHash)
    ensures
        removed_events(hashes, delete_data).contains(
            Effect::Publish(Event::TorrentRemoved { hash, delete_data }),
        ) == hashes.contains(hash),
        removed_events(hashes, delete_data).len() == hashes.len(),
{
    let told = removed_events(hashes, delete_data);
    let event = Effect::Publish(Event::TorrentRemoved { hash, delete_data });
    if hashes.contains(hash) {
        assert(told[hashes.index_of(hash)] == event);
    }
    if told.contains(event) {
        assert(hashes[told.index_of(event)] == hash);
    }
}

} // verus!
