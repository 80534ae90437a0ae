//! Ending all work at once, and forgetting everything.
use crate::clock::Tick;
use crate::config::{resolve_download_dir_from_config, resolve_incomplete_dir_from_config, Config};
use crate::effects::Effect;
use crate::fleet::{Fleet, FleetView};
use crate::hash::InfoHash;
use crate::index::HashIndex;
use crate::ownership::{storage_claims, StorageClaim};
use crate::paths::{push_display_path, unique_pathbufs};
use crate::permits::PermitView;
use crate::runtime::DaemonRuntime;
use crate::torrent::Torrent;
use vstd::prelude::*;

verus! {

impl FleetView {
    /// The torrent is known, or a task works on it.
    pub open spec fn concerns(self, hash: InfoHash) -> bool {
        self.registry.dom().contains(hash) || self.engines.dom().contains(hash)
            || self.seeders.dom().contains(hash)
    }

    /// A fleet with nothing in it.
    pub open spec fn cleared(self) -> FleetView {
        FleetView {
            registry: Map::empty(),
            queue: crate::queue::QueueView {
                order: Seq::<InfoHash>::empty(),
                bypass: Seq::<InfoHash>::empty(),
                ..self.queue
            },
            engines: Map::empty(),
            retry_after: Map::empty(),
            rate_samples: Map::empty(),
            seeders: Map::empty(),
            listener_running: false,
        }
    }

    /// What ending the work on all concerned torrents and then forgetting them asks for.
    pub open spec fn reset_effects(self, hashes: Seq<InfoHash>) -> Seq<Effect> {
        self.all_stop_effects(hashes, true) + if self.all_stopped(hashes).listener_running {
            seq![listener_end(false)]
        } else {
            Seq::<Effect>::empty()
        }
    }
}

/// That the listener is to end.
pub open spec fn listener_end(force: bool) -> Effect {
    Effect::StopListener { force }
}

/// The identities stand in their order, each once.
pub open spec fn hashes_increase(hashes: Seq<InfoHash>) -> bool {
    forall|i: int, k: int|
        0 <= i < k < hashes.len() ==> (#[trigger] hashes[i]).rank() < (#[trigger] hashes[k]).rank()
}

fn note_keys<V>(found: &mut HashIndex<bool>, index: &HashIndex<V>)
    requires
        old(found).wf(),
        index.wf(),
    ensures
        final(found).wf(),
        forall|hash: InfoHash| #[trigger]
            final(found)@.dom().contains(hash) == (old(found)@.dom().contains(hash)
                || index@.dom().contains(hash)),
{
    let mut i: usize = 0;
    while i < index.len()
        invariant
            i <= index.seq().len(),
            index.wf(),
            found.wf(),
            forall|hash: InfoHash| #[trigger]
                found@.dom().contains(hash) == (old(found)@.dom().contains(hash) || exists|k: int|
                    0 <= k < i && (#[trigger] index.seq()[k]).0 == hash),
        decreases index.seq().len() - i,
    {
        let hash: InfoHash = index.key_at(i);
        assert(hash == index.seq()[i as int].0);
        found.insert(hash, true);
        i = i + 1;
    }
    assert forall|hash: InfoHash| index@.dom().contains(hash) implies exists|k: int|
        0 <= k < i && (#[trigger] index.seq()[k]).0 == hash by {
        let k = crate::index::position_of(index.seq(), hash);
        assert(index.seq()[k].0 == hash);
    }
    assert forall|k: int| 0 <= k < index.seq().len() implies index@.dom().contains(
        (#[trigger] index.seq()[k]).0,
    ) by {
        crate::index::lemma_entry(index.seq(), k);
    }
}

impl Fleet {
    /// All torrents that are known or worked on, in order.
    pub fn all_concerned(&self) -> (hashes: Vec<InfoHash>)
        requires
            self.wf(),
        ensures
            hashes_increase(hashes@),
            forall|hash: InfoHash| #[trigger] hashes@.contains(hash) == self@.concerns(hash),
    {
        let mut found: HashIndex<bool> = HashIndex::new();
        note_keys(&mut found, &self.registry);
        note_keys(&mut found, &self.engines);
        note_keys(&mut found, &self.seeders);
        let mut hashes: Vec<InfoHash> = Vec::new();
        let mut i: usize = 0;
        while i < found.len()
            invariant
                i <= found.seq().len(),
                found.wf(),
                hashes@.len() == i,
                forall|k: int| 0 <= k < i ==> #[trigger] hashes@[k] == found.seq()[k].0,
            decreases found.seq().len() - i,
        {
            hashes.push(found.key_at(i));
            i = i + 1;
        }
        proof {
            assert forall|a: int, b: int| 0 <= a < b < hashes@.len() implies (
            #[trigger] hashes@[a]).rank() < (#[trigger] hashes@[b]).rank() by {
                assert(found.seq()[a].0.rank() < found.seq()[b].0.rank());
            }
            assert forall|hash: InfoHash| #[trigger]
                hashes@.contains(hash) == self@.concerns(hash) by {
                if hashes@.contains(hash) {
                    let k = hashes@.index_of(hash);
                    crate::index::lemma_entry(found.seq(), k);
                    assert(found@.dom().contains(hash));
                }
                if found@.dom().contains(hash) {
                    let k = crate::index::position_of(found.seq(), hash);
                    assert(hashes@[k] == hash);
                }
                assert(found@.dom().contains(hash) == self@.concerns(hash));
            }
        }
        hashes
    }

    /// Ends all work by force.
    pub fn stop_all_torrent_tasks(&mut self, effects: &mut Vec<Effect>) -> (hashes: Vec<InfoHash>)
        requires
            old(self).wf(),
        ensures
            final(self).wf(),
            hashes_increase(hashes@),
            forall|hash: InfoHash| #[trigger]
                hashes@.contains(hash) == old(self)@.concerns(hash),
            final(self)@ == old(self)@.all_stopped(hashes@),
            final(effects)@ == old(effects)@ + old(self)@.all_stop_effects(hashes@, true),
    {
        let hashes: Vec<InfoHash> = self.all_concerned();
        self.stop_all(&hashes, true, effects);
        hashes
    }

    /// Forgets everything. The listener ends if it runs.
    pub fn clear_download_runtime_state(&mut self, effects: &mut Vec<Effect>)
        requires
            old(self).wf(),
        ensures
            final(self).wf(),
            final(self)@ == old(self)@.cleared(),
            final(effects)@ == old(effects)@ + if old(self)@.listener_running {
                seq![Effect::StopListener { force: false }]
            } else {
                Seq::<Effect>::empty()
            },
    {
        self.registry.clear();
        self.queue.clear();
        self.engines.clear();
        self.retry_after.clear();
        self.rate_samples.clear();
        self.seeders.clear();
        if self.listener_running {
            effects.push(Effect::StopListener { force: false });
        }
        assert(effects@ =~= old(effects)@ + if old(self)@.listener_running {
            seq![Effect::StopListener { force: false }]
        } else {
            Seq::<Effect>::empty()
        });
        self.listener_running = false;
    }
}

impl DaemonRuntime {
    /// Forgets everything about torrents. The listener ends if it runs.
    pub fn clear_download_runtime_state(&mut self, effects: &mut Vec<Effect>)
        requires
            old(self).wf(),
        ensures
            final(self).wf(),
            *final(self) == (DaemonRuntime {
                fleet: final(self).fleet,
                permits: final(self).permits,
                autopilot_last_action: final(self).autopilot_last_action,
                ..*old(self)
            }),
            final(self).fleet@ == old(self).fleet@.cleared(),
            final(self).permits@ == (PermitView {
                per_torrent: Map::empty(),
                ..old(self).permits@
            }),
            final(self).autopilot_last_action@ == Map::<InfoHash, Tick>::empty(),
            final(effects)@ == old(effects)@ + if old(self).fleet@.listener_running {
                seq![Effect::StopListener { force: false }]
            } else {
                Seq::<Effect>::empty()
            },
    {
        self.fleet.clear_download_runtime_state(effects);
        self.permits.per_torrent.clear();
        self.autopilot_last_action.clear();
    }

    /// Ends all work by force and then forgets everything about torrents. Returns the torrents
    /// that were known or worked on.
    pub fn reset_downloads(&mut self, effects: &mut Vec<Effect>) -> (hashes: Vec<InfoHash>)
        requires
            old(self).wf(),
        ensures
            final(self).wf(),
            hashes_increase(hashes@),
            forall|hash: InfoHash| #[trigger]
                hashes@.contains(hash) == old(self).fleet@.concerns(hash),
            *final(self) == (DaemonRuntime {
                fleet: final(self).fleet,
                permits: final(self).permits,
                autopilot_last_action: final(self).autopilot_last_action,
                ..*old(self)
            }),
            final(self).fleet@ == old(self).fleet@.cleared(),
            final(self).permits@ == (PermitView {
                per_torrent: Map::empty(),
                ..old(self).permits@
            }),
            final(self).autopilot_last_action@ == Map::<InfoHash, Tick>::empty(),
            final(effects)@ == old(effects)@ + old(self).fleet@.reset_effects(hashes@),
    {
        let ghost asked = effects@;
        let hashes: Vec<InfoHash> = self.fleet.stop_all_torrent_tasks(effects);
        self.clear_download_runtime_state(effects);
        proof {
            crate::fleet::stopping_is_exact(old(self).fleet@, hashes@);
            assert(effects@ =~= asked + old(self).fleet@.reset_effects(hashes@));
        }
        hashes
    }
}

/// A reset ends every task that works on a torrent, by force, and the listener if it runs; and it
/// leaves nothing behind.
pub proof fn resets_end_every_task(fleet: FleetView, hashes: Seq<InfoHash>, hash: InfoHash)
    requires
        forall|other: InfoHash| #[trigger] hashes.contains(other) == fleet.concerns(other),
    ensures
        fleet.engines.dom().contains(hash) ==> fleet.reset_effects(hashes).contains(
            Effect::StopEngine { hash, force: true },
        ),
        fleet.seeders.dom().contains(hash) ==> fleet.reset_effects(hashes).contains(
            Effect::StopSeeder { hash, force: true },
        ),
        fleet.listener_running ==> exists|force: bool|
            fleet.reset_effects(hashes).contains(#[trigger] listener_end(force)),
        !fleet.cleared().concerns(hash),
{
    let stops = fleet.all_stop_effects(hashes, true);
    let all = fleet.reset_effects(hashes);
    assert(stops =~= all.take(stops.len() as int));
    crate::fleet::stopping_is_exact(fleet, hashes);
    if fleet.engines.dom().contains(hash) {
        lemma_tasks_end(fleet, hashes, hash);
        lemma_kept(stops, all, Effect::StopEngine { hash, force: true });
    }
    if fleet.seeders.dom().contains(hash) {
        lemma_tasks_end(fleet, hashes, hash);
        lemma_kept(stops, all, Effect::StopSeeder { hash, force: true });
    }
    if fleet.listener_running {
        if fleet.all_stopped(hashes).listener_running {
            assert(all.last() == listener_end(false));
            assert(all[all.len() - 1] == listener_end(false));
        } else {
            lemma_listener_ends(fleet, hashes);
            lemma_kept(stops, all, listener_end(true));
        }
    }
}

proof fn lemma_kept(part: Seq<Effect>, all: Seq<Effect>, effect: Effect)
    requires
        part.len() <= all.len(),
        part == all.take(part.len() as int),
        part.contains(effect),
    ensures
        all.contains(effect),
{
    let i = part.index_of(effect);
    assert(all[i] == effect);
}

proof fn lemma_tasks_end(fleet: FleetView, hashes: Seq<InfoHash>, hash: InfoHash)
    requires
        hashes.contains(hash),
    ensures
        fleet.engines.dom().contains(hash) ==> fleet.all_stop_effects(hashes, true).contains(
            Effect::StopEngine { hash, force: true },
        ),
        fleet.seeders.dom().contains(hash) ==> fleet.all_stop_effects(hashes, true).contains(
            Effect::StopSeeder { hash, force: true },
        ),
    decreases hashes.len(),
{
    let rest = hashes.drop_last();
    let before = fleet.all_stop_effects(rest, true);
    let all = fleet.all_stop_effects(hashes, true);
    let engine = Effect::StopEngine { hash, force: true };
    let seeder = Effect::StopSeeder { hash, force: true };
    assert(before =~= all.take(before.len() as int));
    if rest.contains(hash) {
        lemma_tasks_end(fleet, rest, hash);
        if fleet.engines.dom().contains(hash) {
            lemma_kept(before, all, engine);
        }
        if fleet.seeders.dom().contains(hash) {
            lemma_kept(before, all, seeder);
        }
    } else {
        let i = hashes.index_of(hash);
        assert(i < rest.len() ==> rest[i] == hash);
        assert(hashes.last() == hash);
        crate::fleet::stopping_is_exact(fleet, rest);
        let found = fleet.all_stopped(rest);
        let more = found.work_stop_effects(hash, true);
        if fleet.engines.dom().contains(hash) {
            assert(more[0] == engine);
            assert(all[before.len() as int] == engine);
        }
        if fleet.seeders.dom().contains(hash) {
            let at = if fleet.engines.dom().contains(hash) {
                1int
            } else {
                0int
            };
            assert(found.seeder_stop_effects(hash, true)[0] == seeder);
            assert(more[at] == seeder);
            assert(all[before.len() + at] == seeder);
        }
    }
}

proof fn lemma_listener_ends(fleet: FleetView, hashes: Seq<InfoHash>)
    requires
        fleet.listener_running,
        !fleet.all_stopped(hashes).listener_running,
    ensures
        fleet.all_stop_effects(hashes, true).contains(listener_end(true)),
    decreases hashes.len(),
{
    assert(hashes.len() > 0);
    let rest = hashes.drop_last();
    let before = fleet.all_stop_effects(rest, true);
    let all = fleet.all_stop_effects(hashes, true);
    assert(before =~= all.take(before.len() as int));
    if !fleet.all_stopped(rest).listener_running {
        lemma_listener_ends(fleet, rest);
        lemma_kept(before, all, listener_end(true));
    } else {
        let more = fleet.all_stopped(rest).work_stop_effects(hashes.last(), true);
        assert(more.last() == listener_end(true));
        assert(all[all.len() - 1] == listener_end(true));
    }
}

/// What a reset removes.
#[derive(Debug)]
pub struct ResetPlan {
    /// The files of these torrents below these directories.
    pub claims: Vec<StorageClaim>,
    /// All that is in these directories.
    pub shared_dirs: Vec<String>,
    /// All directories that are touched, each once.
    pub storage_paths: Vec<String>,
}

/// The directories of claims, each once, in the order in which they are first named.
pub open spec fn shown_paths(texts: Seq<Seq<char>>, count: nat) -> Seq<Seq<char>>
    decreases count,
{
    if count == 0 {
        Seq::<Seq<char>>::empty()
    } else {
        let before = shown_paths(texts, (count - 1) as nat);
        if before.contains(texts[count - 1]) {
            before
        } else {
            before.push(texts[count - 1])
        }
    }
}

/// The directories that all torrents share: the one while they are unfinished, then the one when
/// they are finished, once where they are the same path.
pub open spec fn shared_dirs_of(cfg: Config, fallback: Seq<char>) -> Seq<Seq<char>> {
    let download_dir = crate::config::complete_dir_of(None, cfg, fallback);
    let incomplete_dir = crate::config::active_dir_of(download_dir, cfg);
    if crate::paths::same_path(incomplete_dir, download_dir) {
        seq![incomplete_dir]
    } else {
        seq![incomplete_dir, download_dir]
    }
}

/// The directories that a reset touches, in order.
pub open spec fn touched_dirs(
    claims: Seq<(InfoHash, Seq<char>)>,
    shared: Seq<Seq<char>>,
) -> Seq<Seq<char>> {
    claims.map_values(|claim: (InfoHash, Seq<char>)| claim.1) + shared
}

fn show_paths(texts: &Vec<String>) -> (shown: Vec<String>)
    ensures
        crate::config::texts_of(shown@) == shown_paths(
            crate::config::texts_of(texts@),
            texts@.len(),
        ),
{
    let mut shown: Vec<String> = Vec::new();
    let ghost all = crate::config::texts_of(texts@);
    let mut i: usize = 0;
    assert(crate::config::texts_of(shown@) =~= Seq::<Seq<char>>::empty());
    while i < texts.len()
        invariant
            i <= texts@.len(),
            all == crate::config::texts_of(texts@),
            crate::config::texts_of(shown@) == shown_paths(all, i as nat),
        decreases texts@.len() - i,
    {
        let ghost before = shown@;
        push_display_path(&mut shown, texts[i].as_str());
        proof {
            let views = crate::config::texts_of(before);
            assert(all[i as int] == texts@[i as int]@);
            if crate::paths::lists_text(before, texts@[i as int]@) {
                let k = choose|k: int|
                    0 <= k < before.len() && (#[trigger] before[k])@ == texts@[i as int]@;
                assert(views[k] == all[i as int]);
            } else {
                if views.contains(all[i as int]) {
                    let k = views.index_of(all[i as int]);
                    assert(before[k]@ == texts@[i as int]@);
                }
                assert(crate::config::texts_of(shown@) =~= views.push(all[i as int])) by {
                    assert(shown@.drop_last() =~= before);
                }
            }
        }
        i = i + 1;
    }
    shown
}

/// What a reset removes, with the torrents that are known before it.
pub fn reset_plan(registry: &HashIndex<Torrent>, cfg: &Config, fallback: &str) -> (plan: ResetPlan)
    requires
        registry.wf(),
    ensures
        ({
            let claims = crate::ownership::claims_among(
                registry.seq(),
                *cfg,
                fallback@,
                None,
                registry.seq().len(),
            );
            let shared = shared_dirs_of(*cfg, fallback@);
            let touched = touched_dirs(claims, shared);
            &&& crate::ownership::claims_of(plan.claims@) == claims
            &&& crate::config::texts_of(plan.shared_dirs@) == shared
            &&& crate::config::texts_of(plan.storage_paths@) == shown_paths(touched, touched.len())
        }),
{
    let claims: Vec<StorageClaim> = storage_claims(registry, cfg, fallback, None);
    let download_dir: String = resolve_download_dir_from_config(None, cfg, fallback);
    let incomplete_dir: String = resolve_incomplete_dir_from_config(download_dir.as_str(), cfg);
    let mut both: Vec<String> = Vec::new();
    both.push(incomplete_dir.clone());
    both.push(download_dir.clone());
    let shared_dirs: Vec<String> = unique_pathbufs(&both);
    proof {
        crate::admission::lemma_firsts_of_two(incomplete_dir, download_dir);
        assert(both@ =~= seq![incomplete_dir, download_dir]);
        if crate::paths::same_path(incomplete_dir@, download_dir@) {
            assert(crate::config::texts_of(shared_dirs@) =~= seq![incomplete_dir@]);
        } else {
            assert(crate::config::texts_of(shared_dirs@) =~= seq![incomplete_dir@, download_dir@]);
        }
    }
    let ghost claimed = crate::ownership::claims_of(claims@);
    let ghost shared = shared_dirs_of(*cfg, fallback@);
    let mut touched: Vec<String> = Vec::new();
    let mut i: usize = 0;
    while i < claims.len()
        invariant
            i <= claims@.len(),
            touched@.len() == i,
            forall|k: int| 0 <= k < i ==> #[trigger] touched@[k] == claims@[k].root,
        decreases claims@.len() - i,
    {
        touched.push(claims[i].root.clone());
        i = i + 1;
    }
    let mut k: usize = 0;
    while k < shared_dirs.len()
        invariant
            k <= shared_dirs@.len(),
            touched@.len() == claims@.len() + k,
            forall|j: int| 0 <= j < claims@.len() ==> #[trigger] touched@[j] == claims@[j].root,
            forall|j: int|
                0 <= j < k ==> #[trigger] touched@[claims@.len() + j] == shared_dirs@[j],
        decreases shared_dirs@.len() - k,
    {
        touched.push(shared_dirs[k].clone());
        k = k + 1;
    }
    proof {
        let texts = crate::config::texts_of(touched@);
        let wanted = touched_dirs(claimed, shared);
        assert(crate::config::texts_of(shared_dirs@).len() == shared_dirs@.len());
        assert(texts.len() == wanted.len());
        assert forall|j: int| 0 <= j < texts.len() implies texts[j] == wanted[j] by {
            if j >= claims@.len() {
                let at = j - claims@.len();
                assert(touched@[claims@.len() + at] == shared_dirs@[at]);
                assert(crate::config::texts_of(shared_dirs@)[at] == shared_dirs@[at]@);
            } else {
                assert(touched@[j] == claims@[j].root);
                assert(claimed[j].1 == claims@[j].root@);
            }
        }
        assert(texts =~= wanted);
    }
    let storage_paths: Vec<String> = show_paths(&touched);
    ResetPlan { claims, shared_dirs, storage_paths }
}

/// The directories that a reset names are those that it touches, each once, in the order in which
/// they are first touched.
pub proof fn touched_directories_are_named_once(texts: Seq<Seq<char>>, count: nat)
    requires
        count <= texts.len(),
    ensures
        shown_paths(texts, count).no_duplicates(),
        shown_paths(texts, count).len() <= count,
        forall|i: int| 0 <= i < count ==> shown_paths(texts, count).contains(#[trigger] texts[i]),
        forall|path: Seq<char>| #[trigger]
            shown_paths(texts, count).contains(path) ==> exists|i: int|
                0 <= i < count && #[trigger] texts[i] == path,
    decreases count,
{
    if count > 0 {
        let before = shown_paths(texts, (count - 1) as nat);
        let after = shown_paths(texts, count);
        let last = texts[count - 1];
        touched_directories_are_named_once(texts, (count - 1) as nat);
        assert forall|i: int| 0 <= i < count implies after.contains(#[trigger] texts[i]) by {
            if i < count - 1 {
                assert(before.contains(texts[i]));
                assert(after[before.index_of(texts[i])] == texts[i]);
            } else if after != before {
                assert(after[before.len() as int] == last);
            }
        }
        assert forall|path: Seq<char>| #[trigger] after.contains(path) implies exists|i: int|
            0 <= i < count && #[trigger] texts[i] == path by {
            let k = after.index_of(path);
            if k < before.len() {
                assert(before[k] == path);
                assert(before.contains(path));
            } else {
                assert(texts[count - 1] == path);
            }
        }
        if after != before {
            assert forall|i: int, k: int|
                0 <= i < after.len() && 0 <= k < after.len() && i != k implies after[i]
                != after[k] by {
                if i == before.len() {
                    assert(before.contains(before[k]));
                } else if k == before.len() {
                    assert(before.contains(before[i]));
                }
            }
        }
    }
}

/// A reset touches the directories that torrents share: where unfinished ones lie, then where
/// finished ones do, once where that is the same; and every directory that a torrent claims, before
/// these.
pub proof fn resets_touch_shared_and_claimed_directories(
    claims: Seq<(InfoHash, Seq<char>)>,
    cfg: Config,
    fallback: Seq<char>,
    i: int,
)
    ensures
        ({
            let shared = shared_dirs_of(cfg, fallback);
            let download_dir = match cfg.storage.download_dir {
                Some(dir) => dir@,
                None => fallback,
            };
            let incomplete_dir = match cfg.storage.incomplete_dir {
                Some(dir) => dir@,
                None => download_dir,
            };
            let touched = touched_dirs(claims, shared);
            &&& shared[0] == incomplete_dir
            &&& crate::paths::same_path(incomplete_dir, download_dir) ==> shared.len() == 1
            &&& !crate::paths::same_path(incomplete_dir, download_dir) ==> shared.len() == 2
                && shared[1] == download_dir
            &&& touched.len() == claims.len() + shared.len()
            &&& 0 <= i < claims.len() ==> touched[i] == claims[i].1
            &&& 0 <= i < shared.len() ==> touched[claims.len() + i] == shared[i]
        }),
{
}

} // verus!
