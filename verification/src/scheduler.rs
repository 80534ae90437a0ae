//! Which torrents download next.
use crate::clock::Tick;
use crate::config::QueueLimits;
use crate::hash::InfoHash;
use crate::index::HashIndex;
use crate::queue::{contains_hash, QueueState};
use crate::torrent::{Torrent, TorrentState};
use vstd::prelude::*;

verus! {

/// What a choice of downloads is made from.
pub struct Plan {
    pub registry: Map<InfoHash, Torrent>,
    pub retry_after: Map<InfoHash, Tick>,
    pub now: Tick,
    pub limits: QueueLimits,
    pub bypass: Seq<InfoHash>,
    pub excluded: Option<InfoHash>,
}

/// A retry is due only later.
pub open spec fn backing_off(retry_after: Map<InfoHash, Tick>, now: Tick, hash: InfoHash) -> bool {
    retry_after.dom().contains(hash) && retry_after[hash].nanos > now.nanos
}

/// The torrent waits for a download slot or holds one.
pub open spec fn wants_slot(state: TorrentState) -> bool {
    state == TorrentState::Queued || state.downloads()
}

impl Plan {
    /// The torrent may hold a slot: it is known and not left out, no retry delay holds it back,
    /// it wants a slot, and it started already, was told to start, or starts by itself.
    pub open spec fn eligible(self, hash: InfoHash) -> bool {
        &&& self.excluded != Some(hash)
        &&& !backing_off(self.retry_after, self.now, hash)
        &&& self.registry.dom().contains(hash)
        &&& wants_slot(self.registry[hash].state)
        &&& (self.limits.auto_start || self.bypass.contains(hash)
            || self.registry[hash].state.downloads())
    }

    /// The torrent still needs its metadata.
    pub open spec fn fetches_metadata(self, hash: InfoHash) -> bool {
        self.registry[hash].needs_metadata
    }

    /// The torrents of a class.
    pub open spec fn of_class(self, metadata: bool) -> spec_fn(InfoHash) -> bool {
        |hash: InfoHash| self.fetches_metadata(hash) == metadata
    }

    /// The limit on torrents of a class; zero is no limit.
    pub open spec fn limit(self, metadata: bool) -> usize {
        if metadata {
            self.limits.max_active_metadata_fetches
        } else {
            self.limits.max_active_downloads
        }
    }

    /// How many of the chosen torrents are of a class.
    pub open spec fn used(self, chosen: Seq<InfoHash>, metadata: bool) -> nat
        decreases chosen.len(),
    {
        if chosen.len() == 0 {
            0
        } else {
            self.used(chosen.drop_last(), metadata) + if self.fetches_metadata(chosen.last())
                == metadata {
                1nat
            } else {
                0nat
            }
        }
    }

    /// The class has a free slot.
    pub open spec fn has_room(self, chosen: Seq<InfoHash>, metadata: bool) -> bool {
        self.limit(metadata) == 0 || self.used(chosen, metadata) < self.limit(metadata)
    }

    /// The choice: candidates in their order, each once, as long as their class has room.
    pub open spec fn chosen(self, candidates: Seq<InfoHash>) -> Seq<InfoHash>
        decreases candidates.len(),
    {
        if candidates.len() == 0 {
            Seq::<InfoHash>::empty()
        } else {
            let before = self.chosen(candidates.drop_last());
            let hash = candidates.last();
            if self.eligible(hash) && !before.contains(hash) && self.has_room(
                before,
                self.fetches_metadata(hash),
            ) {
                before.push(hash)
            } else {
                before
            }
        }
    }

    /// The same, with no limits on how many.
    pub open spec fn unlimited(self) -> Plan {
        Plan {
            limits: QueueLimits {
                max_active_downloads: 0,
                max_active_metadata_fetches: 0,
                ..self.limits
            },
            ..self
        }
    }
}

/// The order in which torrents are considered.
pub open spec fn candidates(bypass: Seq<InfoHash>, order: Seq<InfoHash>) -> Seq<InfoHash> {
    bypass + order
}

/// A full class takes no further candidate.
proof fn lemma_full_plan(plan: Plan, all: Seq<InfoHash>, from: int)
    requires
        0 <= from <= all.len(),
        !plan.has_room(plan.chosen(all.take(from)), true),
        !plan.has_room(plan.chosen(all.take(from)), false),
    ensures
        plan.chosen(all) == plan.chosen(all.take(from)),
    decreases all.len() - from,
{
    if from < all.len() {
        assert(all.take(from + 1).drop_last() =~= all.take(from));
        assert(plan.chosen(all.take(from + 1)) == plan.chosen(all.take(from)));
        lemma_full_plan(plan, all, from + 1);
    } else {
        assert(all.take(from) =~= all);
    }
}

/// Every chosen torrent is an eligible candidate, no torrent is chosen twice, and no class has
/// more torrents than its limit.
pub proof fn choice_respects_limits(plan: Plan, all: Seq<InfoHash>)
    ensures
        plan.chosen(all).no_duplicates(),
        forall|hash: InfoHash| #[trigger]
            plan.chosen(all).contains(hash) ==> plan.eligible(hash) && all.contains(hash),
        forall|metadata: bool|
            plan.limit(metadata) > 0 ==> #[trigger] plan.used(plan.chosen(all), metadata)
                <= plan.limit(metadata),
    decreases all.len(),
{
    if all.len() > 0 {
        let rest = all.drop_last();
        let hash = all.last();
        let before = plan.chosen(rest);
        choice_respects_limits(plan, rest);
        let after = plan.chosen(all);
        assert forall|other: InfoHash| #[trigger] after.contains(other) implies plan.eligible(other)
            && all.contains(other) by {
            let at = after.index_of(other);
            if at < before.len() {
                assert(before[at] == other);
                assert(before.contains(other));
                assert(all[rest.index_of(other)] == other);
            } else {
                assert(all[all.len() - 1] == other);
            }
        }
        if after != before {
            assert(after == before.push(hash));
            assert(after.drop_last() =~= before);
            assert forall|i: int, j: int|
                0 <= i < after.len() && 0 <= j < after.len() && i != j implies after[i]
                != after[j] by {
                if i < before.len() {
                    assert(before.contains(before[i]));
                }
                if j < before.len() {
                    assert(before.contains(before[j]));
                }
            }
            assert forall|metadata: bool| plan.limit(metadata) > 0 implies #[trigger] plan.used(
                after,
                metadata,
            ) <= plan.limit(metadata) by {
                assert(plan.used(before, metadata) <= plan.limit(metadata));
            }
        }
    }
}

proof fn lemma_used_grows(plan: Plan, all: Seq<InfoHash>, from: int, metadata: bool)
    requires
        0 <= from <= all.len(),
    ensures
        plan.used(plan.chosen(all.take(from)), metadata) <= plan.used(plan.chosen(all), metadata),
        forall|hash: InfoHash| #[trigger]
            plan.chosen(all.take(from)).contains(hash) ==> plan.chosen(all).contains(hash),
    decreases all.len() - from,
{
    if from < all.len() {
        let now = plan.chosen(all.take(from));
        let next = plan.chosen(all.take(from + 1));
        assert(all.take(from + 1).drop_last() =~= all.take(from));
        lemma_used_grows(plan, all, from + 1, metadata);
        if next != now {
            assert(next.drop_last() =~= now);
            assert forall|hash: InfoHash| #[trigger] now.contains(hash) implies next.contains(
                hash,
            ) by {
                assert(next[now.index_of(hash)] == hash);
            }
        }
    } else {
        assert(all.take(from) =~= all);
    }
}

/// No slot stays free while an eligible candidate of its class waits.
pub proof fn choice_leaves_no_slot_unused(plan: Plan, all: Seq<InfoHash>, hash: InfoHash)
    requires
        all.contains(hash),
        plan.eligible(hash),
        !plan.chosen(all).contains(hash),
    ensures
        !plan.has_room(plan.chosen(all), plan.fetches_metadata(hash)),
{
    let at = all.index_of(hash);
    let metadata = plan.fetches_metadata(hash);
    let before = plan.chosen(all.take(at));
    assert(all.take(at + 1).drop_last() =~= all.take(at));
    assert(all.take(at + 1).last() == hash);
    lemma_used_grows(plan, all, at, metadata);
    lemma_used_grows(plan, all, at + 1, metadata);
    let after = plan.chosen(all.take(at + 1));
    if after != before {
        assert(after[after.len() - 1] == hash);
        assert(after.contains(hash));
    }
}

/// Metadata fetches and downloads do not compete for slots: taking away the candidates of one
/// class does not change how many of the other are chosen.
pub proof fn classes_do_not_compete(plan: Plan, all: Seq<InfoHash>, metadata: bool)
    ensures
        plan.used(plan.chosen(all), metadata) == plan.used(
            plan.chosen(all.filter(plan.of_class(metadata))),
            metadata,
        ),
        forall|hash: InfoHash|
            plan.fetches_metadata(hash) == metadata ==> plan.chosen(all).contains(hash)
                == #[trigger] plan.chosen(
                all.filter(plan.of_class(metadata)),
            ).contains(hash),
    decreases all.len(),
{
    reveal(Seq::filter);
    let keep = plan.of_class(metadata);
    if all.len() > 0 {
        let rest = all.drop_last();
        let last = all.last();
        classes_do_not_compete(plan, rest, metadata);
        let before = plan.chosen(rest);
        let after = plan.chosen(all);
        let before_kept = plan.chosen(rest.filter(keep));
        let after_kept = plan.chosen(all.filter(keep));
        if after != before {
            assert(after.drop_last() =~= before);
        }
        if keep(last) {
            assert(all.filter(keep).drop_last() =~= rest.filter(keep));
            if after_kept != before_kept {
                assert(after_kept.drop_last() =~= before_kept);
            }
        }
        assert forall|hash: InfoHash| plan.fetches_metadata(hash) == metadata implies after.contains(
            hash,
        ) == #[trigger] after_kept.contains(hash) by {
            lemma_step_membership(before, after, last, hash);
            lemma_step_membership(before_kept, after_kept, last, hash);
            assert(before.contains(hash) == before_kept.contains(hash));
            assert(before.contains(last) == before_kept.contains(last) || !keep(last));
        }
    } else {
        assert(all.filter(keep) =~= all);
    }
}

proof fn lemma_step_membership(
    before: Seq<InfoHash>,
    after: Seq<InfoHash>,
    last: InfoHash,
    hash: InfoHash,
)
    requires
        after == before || after == before.push(last),
    ensures
        after.contains(hash) == (before.contains(hash) || (after != before && hash == last)),
{
    if after != before {
        if before.contains(hash) {
            assert(after[before.index_of(hash)] == hash);
        }
        assert(after[before.len() as int] == last);
        if after.contains(hash) && hash != last {
            let i = after.index_of(hash);
            assert(before[i] == hash);
        }
    }
}

/// The torrents that the registry knows.
pub open spec fn known_to(registry: Map<InfoHash, Torrent>) -> spec_fn(InfoHash) -> bool {
    |hash: InfoHash| registry.dom().contains(hash)
}

/// A queue under new limits and without torrents that the registry does not know.
pub open spec fn pruned(
    queue: crate::queue::QueueView,
    limits: QueueLimits,
    registry: Map<InfoHash, Torrent>,
) -> crate::queue::QueueView {
    crate::queue::QueueView {
        limits,
        order: queue.order.filter(known_to(registry)),
        bypass: queue.bypass.filter(known_to(registry)),
    }
}

proof fn lemma_all_kept(list: Seq<InfoHash>, keep: spec_fn(InfoHash) -> bool)
    requires
        forall|i: int| 0 <= i < list.len() ==> keep(#[trigger] list[i]),
    ensures
        list.filter(keep) == list,
    decreases list.len(),
{
    reveal(Seq::filter);
    if list.len() > 0 {
        assert forall|i: int| 0 <= i < list.len() - 1 implies keep(
            #[trigger] list.drop_last()[i],
        ) by {
            assert(list.drop_last()[i] == list[i]);
        }
        lemma_all_kept(list.drop_last(), keep);
        assert(keep(list[list.len() - 1]));
        assert(list.drop_last().push(list.last()) =~= list);
    }
}

/// Choosing what to download moves nothing in a queue whose torrents are all known.
pub proof fn choosing_moves_nothing(
    queue: crate::queue::QueueView,
    limits: QueueLimits,
    registry: Map<InfoHash, Torrent>,
)
    requires
        forall|i: int| 0 <= i < queue.order.len() ==> registry.dom().contains(
            #[trigger] queue.order[i],
        ),
        forall|i: int| 0 <= i < queue.bypass.len() ==> registry.dom().contains(
            #[trigger] queue.bypass[i],
        ),
    ensures
        pruned(queue, limits, registry).order == queue.order,
        pruned(queue, limits, registry).bypass == queue.bypass,
{
    lemma_all_kept(queue.order, known_to(registry));
    lemma_all_kept(queue.bypass, known_to(registry));
}

fn keep_registered(list: &Vec<InfoHash>, registry: &HashIndex<Torrent>) -> (kept: Vec<InfoHash>)
    requires
        registry.wf(),
    ensures
        kept@ == list@.filter(known_to(registry@)),
{
    let mut kept: Vec<InfoHash> = Vec::new();
    let ghost keep = known_to(registry@);
    let mut i: usize = 0;
    assert(list@.take(0).filter(keep) =~= kept@) by {
        reveal(Seq::filter);
    }
    while i < list.len()
        invariant
            i <= list.len(),
            registry.wf(),
            keep == known_to(registry@),
            kept@ == list@.take(i as int).filter(keep),
        decreases list.len() - i,
    {
        proof {
            reveal(Seq::filter);
            assert(list@.take(i + 1).drop_last() =~= list@.take(i as int));
            assert(list@.take(i + 1).last() == list@[i as int]);
        }
        let hash: InfoHash = list[i];
        if registry.contains(&hash) {
            kept.push(hash);
        }
        i = i + 1;
    }
    assert(list@.take(i as int) =~= list@);
    kept
}

/// Whether a retry is due only later.
pub fn is_backing_off(retry_after: &HashIndex<Tick>, now: Tick, hash: &InfoHash) -> (delayed: bool)
    requires
        retry_after.wf(),
    ensures
        delayed == backing_off(retry_after@, now, *hash),
{
    match retry_after.get(hash) {
        Some(due) => due.nanos > now.nanos,
        None => false,
    }
}

/// The chosen torrents among candidates.
fn choose_downloads(
    list: &Vec<InfoHash>,
    bypass: &Vec<InfoHash>,
    limits: QueueLimits,
    registry: &HashIndex<Torrent>,
    retry_after: &HashIndex<Tick>,
    now: Tick,
    excluded: Option<InfoHash>,
) -> (chosen: Vec<InfoHash>)
    requires
        registry.wf(),
        retry_after.wf(),
    ensures
        chosen@ == (Plan {
            registry: registry@,
            retry_after: retry_after@,
            now,
            limits,
            bypass: bypass@,
            excluded,
        }).chosen(list@),
{
    let ghost plan = Plan {
        registry: registry@,
        retry_after: retry_after@,
        now,
        limits,
        bypass: bypass@,
        excluded,
    };
    let mut chosen: Vec<InfoHash> = Vec::new();
    let mut downloads: usize = 0;
    let mut fetches: usize = 0;
    let mut i: usize = 0;
    while i < list.len()
        invariant
            i <= list.len(),
            registry.wf(),
            retry_after.wf(),
            plan == (Plan {
                registry: registry@,
                retry_after: retry_after@,
                now,
                limits,
                bypass: bypass@,
                excluded,
            }),
            chosen@ == plan.chosen(list@.take(i as int)),
            downloads == plan.used(chosen@, false),
            fetches == plan.used(chosen@, true),
            downloads <= i,
            fetches <= i,
        decreases list.len() - i,
    {
        let downloads_full: bool = limits.max_active_downloads > 0 && downloads
            >= limits.max_active_downloads;
        let fetches_full: bool = limits.max_active_metadata_fetches > 0 && fetches
            >= limits.max_active_metadata_fetches;
        if downloads_full && fetches_full {
            proof {
                lemma_full_plan(plan, list@, i as int);
            }
            return chosen;
        }
        proof {
            assert(list@.take(i + 1).drop_last() =~= list@.take(i as int));
            assert(list@.take(i + 1).last() == list@[i as int]);
        }
        let hash: InfoHash = list[i];
        i = i + 1;
        if excluded == Some(hash) || is_backing_off(retry_after, now, &hash) {
            continue ;
        }
        let torrent: &Torrent = match registry.get(&hash) {
            Some(torrent) => torrent,
            None => {
                continue ;
            },
        };
        let started: bool = matches!(
            torrent.state,
            TorrentState::Downloading | TorrentState::DownloadingMetadata
        );
        let waiting: bool = matches!(torrent.state, TorrentState::Queued);
        let may_start: bool = limits.auto_start || started || contains_hash(bypass, &hash);
        let full: bool = if torrent.needs_metadata {
            fetches_full
        } else {
            downloads_full
        };
        if may_start && (started || waiting) && !full && !contains_hash(&chosen, &hash) {
            let ghost before = chosen@;
            if torrent.needs_metadata {
                fetches = fetches + 1;
            } else {
                downloads = downloads + 1;
            }
            chosen.push(hash);
            assert(chosen@.drop_last() =~= before);
        }
    }
    assert(list@.take(i as int) =~= list@);
    chosen
}

fn joined(front: &Vec<InfoHash>, back: &Vec<InfoHash>) -> (list: Vec<InfoHash>)
    ensures
        list@ == candidates(front@, back@),
{
    let mut list: Vec<InfoHash> = Vec::new();
    let mut i: usize = 0;
    while i < front.len()
        invariant
            i <= front.len(),
            list@ == front@.take(i as int),
        decreases front.len() - i,
    {
        list.push(front[i]);
        i = i + 1;
        assert(list@ =~= front@.take(i as int));
    }
    i = 0;
    while i < back.len()
        invariant
            i <= back.len(),
            list@ == front@ + back@.take(i as int),
        decreases back.len() - i,
    {
        list.push(back[i]);
        i = i + 1;
        assert(list@ =~= front@ + back@.take(i as int));
    }
    assert(list@ =~= candidates(front@, back@));
    list
}

/// The torrents that should be downloading, but for one, after the queue was brought up to date
/// with the limits and the registry.
pub fn desired_download_hashes_excluding(
    queue: &mut QueueState,
    limits: QueueLimits,
    registry: &HashIndex<Torrent>,
    retry_after: &HashIndex<Tick>,
    now: Tick,
    excluded: Option<InfoHash>,
) -> (desired: Vec<InfoHash>)
    requires
        old(queue)@.wf(),
        registry.wf(),
        retry_after.wf(),
    ensures
        final(queue)@.wf(),
        final(queue)@ == pruned(old(queue)@, limits, registry@),
        desired@ == (Plan {
            registry: registry@,
            retry_after: retry_after@,
            now,
            limits,
            bypass: final(queue)@.bypass,
            excluded,
        }).chosen(candidates(final(queue)@.bypass, final(queue)@.order)),
{
    proof {
        crate::queue::lemma_filter(queue.order@, known_to(registry@));
        crate::queue::lemma_filter(queue.bypass@, known_to(registry@));
    }
    queue.limits = limits;
    let order: Vec<InfoHash> = keep_registered(&queue.order, registry);
    let bypass: Vec<InfoHash> = keep_registered(&queue.bypass, registry);
    queue.order = order;
    queue.bypass = bypass;
    let list: Vec<InfoHash> = joined(&queue.bypass, &queue.order);
    choose_downloads(&list, &queue.bypass, limits, registry, retry_after, now, excluded)
}

impl crate::fleet::FleetView {
    /// How many torrents of a class would download if there were no limits on how many.
    pub open spec fn requested(self, limits: QueueLimits, now: Tick, metadata: bool) -> nat {
        let plan = (Plan {
            registry: self.registry,
            retry_after: self.retry_after,
            now,
            limits,
            bypass: self.queue.bypass,
            excluded: None,
        }).unlimited();
        plan.used(plan.chosen(candidates(self.queue.bypass, self.queue.order)), metadata)
    }
}

/// How many downloads and how many metadata fetches would run if there were no limits on how
/// many.
pub fn count_requested(
    queue: &QueueState,
    limits: QueueLimits,
    registry: &HashIndex<Torrent>,
    retry_after: &HashIndex<Tick>,
    now: Tick,
) -> (counts: (usize, usize))
    requires
        registry.wf(),
        retry_after.wf(),
    ensures
        ({
            let plan = (Plan {
                registry: registry@,
                retry_after: retry_after@,
                now,
                limits,
                bypass: queue@.bypass,
                excluded: None,
            }).unlimited();
            let chosen = plan.chosen(candidates(queue@.bypass, queue@.order));
            counts == (plan.used(chosen, false) as usize, plan.used(chosen, true) as usize)
                && plan.used(chosen, false) + plan.used(chosen, true) <= usize::MAX
        }),
{
    let open: QueueLimits = QueueLimits {
        max_active_downloads: 0,
        max_active_metadata_fetches: 0,
        max_active_seeds: limits.max_active_seeds,
        auto_start: limits.auto_start,
    };
    let ghost plan = (Plan {
        registry: registry@,
        retry_after: retry_after@,
        now,
        limits,
        bypass: queue@.bypass,
        excluded: None,
    }).unlimited();
    let list: Vec<InfoHash> = joined(&queue.bypass, &queue.order);
    let chosen: Vec<InfoHash> = choose_downloads(
        &list,
        &queue.bypass,
        open,
        registry,
        retry_after,
        now,
        None,
    );
    proof {
        choice_respects_limits(plan, list@);
    }
    let mut downloads: usize = 0;
    let mut fetches: usize = 0;
    let mut i: usize = 0;
    while i < chosen.len()
        invariant
            i <= chosen@.len(),
            registry.wf(),
            plan.registry == registry@,
            forall|hash: InfoHash| #[trigger] chosen@.contains(hash) ==> plan.eligible(hash),
            downloads + fetches == i,
            downloads == plan.used(chosen@.take(i as int), false),
            fetches == plan.used(chosen@.take(i as int), true),
        decreases chosen@.len() - i,
    {
        proof {
            assert(chosen@.take(i + 1).drop_last() =~= chosen@.take(i as int));
            assert(chosen@.contains(chosen@[i as int]));
        }
        let fetch: bool = match registry.get(&chosen[i]) {
            Some(torrent) => torrent.needs_metadata,
            None => false,
        };
        if fetch {
            fetches = fetches + 1;
        } else {
            downloads = downloads + 1;
        }
        i = i + 1;
    }
    assert(chosen@.take(i as int) =~= chosen@);
    (downloads, fetches)
}

/// A class that is full once takes no further candidate.
proof fn lemma_full_class(plan: Plan, all: Seq<InfoHash>, from: int, metadata: bool)
    requires
        0 <= from <= all.len(),
        !plan.has_room(plan.chosen(all.take(from)), metadata),
    ensures
        forall|hash: InfoHash|
            plan.fetches_metadata(hash) == metadata ==> #[trigger] plan.chosen(all).contains(hash)
                == plan.chosen(all.take(from)).contains(hash),
    decreases all.len() - from,
{
    if from < all.len() {
        let now = plan.chosen(all.take(from));
        let next = plan.chosen(all.take(from + 1));
        assert(all.take(from + 1).drop_last() =~= all.take(from));
        lemma_used_grows(plan, all.take(from + 1), from, metadata);
        assert(all.take(from + 1).take(from) =~= all.take(from));
        lemma_full_class(plan, all, from + 1, metadata);
        assert forall|hash: InfoHash| plan.fetches_metadata(hash) == metadata implies
            #[trigger] plan.chosen(all).contains(hash) == now.contains(hash) by {
            lemma_step_membership(now, next, all[from], hash);
        }
    } else {
        assert(all.take(from) =~= all);
    }
}

/// An eligible candidate that gets no slot found its class full of earlier candidates.
proof fn lemma_passed_over(plan: Plan, all: Seq<InfoHash>, at: int, hash: InfoHash)
    requires
        0 <= at < all.len(),
        plan.eligible(all[at]),
        !plan.chosen(all).contains(all[at]),
        plan.chosen(all).contains(hash),
        plan.fetches_metadata(hash) == plan.fetches_metadata(all[at]),
    ensures
        all.take(at).contains(hash),
{
    let metadata = plan.fetches_metadata(all[at]);
    let before = plan.chosen(all.take(at));
    let after = plan.chosen(all.take(at + 1));
    assert(all.take(at + 1).drop_last() =~= all.take(at));
    lemma_used_grows(plan, all, at, metadata);
    lemma_used_grows(plan, all, at + 1, metadata);
    if after != before {
        assert(after[after.len() - 1] == all[at]);
        assert(after.contains(all[at]));
    }
    assert(!before.contains(all[at]));
    lemma_full_class(plan, all, at, metadata);
    assert(before.contains(hash));
    choice_respects_limits(plan, all.take(at));
}

/// What is chosen among the first candidates is chosen first.
proof fn lemma_chosen_prefix(plan: Plan, all: Seq<InfoHash>, from: int)
    requires
        0 <= from <= all.len(),
    ensures
        plan.chosen(all.take(from)).len() <= plan.chosen(all).len(),
        plan.chosen(all).take(plan.chosen(all.take(from)).len() as int) == plan.chosen(
            all.take(from),
        ),
    decreases all.len() - from,
{
    if from < all.len() {
        let now = plan.chosen(all.take(from));
        let next = plan.chosen(all.take(from + 1));
        let whole = plan.chosen(all);
        assert(all.take(from + 1).drop_last() =~= all.take(from));
        lemma_chosen_prefix(plan, all, from + 1);
        assert(next.take(now.len() as int) =~= now);
        assert(whole.take(now.len() as int) =~= whole.take(next.len() as int).take(
            now.len() as int,
        ));
    } else {
        assert(all.take(from) =~= all);
        assert(plan.chosen(all).take(plan.chosen(all).len() as int) =~= plan.chosen(all));
    }
}

/// The members of a class among a list, counted.
proof fn lemma_used_counts(plan: Plan, list: Seq<InfoHash>, metadata: bool)
    ensures
        plan.used(list, metadata) == list.filter(
            |hash: InfoHash| plan.registry[hash].needs_metadata == metadata,
        ).len(),
    decreases list.len(),
{
    reveal(Seq::filter);
    if list.len() > 0 {
        lemma_used_counts(plan, list.drop_last(), metadata);
    }
}

/// Torrents that were told to start go before all others: where one of them waits and gets no
/// slot, every torrent of its class that got one was told to start too.
pub proof fn started_torrents_go_first(
    registry: Map<InfoHash, Torrent>,
    retry_after: Map<InfoHash, Tick>,
    now: Tick,
    limits: QueueLimits,
    bypass: Seq<InfoHash>,
    order: Seq<InfoHash>,
    excluded: Option<InfoHash>,
    chosen: Seq<InfoHash>,
    hash: InfoHash,
    other: InfoHash,
)
    requires
        chosen == (Plan { registry, retry_after, now, limits, bypass, excluded }).chosen(
            candidates(bypass, order),
        ),
        bypass.contains(hash),
        registry.dom().contains(hash),
        registry[hash].state == TorrentState::Queued || registry[hash].state
            == TorrentState::Downloading || registry[hash].state
            == TorrentState::DownloadingMetadata,
        excluded != Some(hash),
        retry_after.dom().contains(hash) ==> retry_after[hash].nanos <= now.nanos,
        !chosen.contains(hash),
        chosen.contains(other),
        registry[other].needs_metadata == registry[hash].needs_metadata,
    ensures
        bypass.contains(other),
{
    let plan = Plan { registry, retry_after, now, limits, bypass, excluded };
    let all = candidates(bypass, order);
    let at = bypass.index_of(hash);
    assert(all[at] == hash);
    lemma_passed_over(plan, all, at, other);
    let i = all.take(at).index_of(other);
    assert(bypass[i] == other);
}

/// Among torrents that were not told to start, and among those that were, an earlier one goes
/// first: where it could start and gets no slot, no later one of its class gets one.
pub proof fn earlier_torrents_go_first(
    registry: Map<InfoHash, Torrent>,
    retry_after: Map<InfoHash, Tick>,
    now: Tick,
    limits: QueueLimits,
    bypass: Seq<InfoHash>,
    order: Seq<InfoHash>,
    excluded: Option<InfoHash>,
    chosen: Seq<InfoHash>,
    first: int,
    later: int,
)
    requires
        chosen == (Plan { registry, retry_after, now, limits, bypass, excluded }).chosen(
            candidates(bypass, order),
        ),
        order.no_duplicates(),
        0 <= first < later < order.len(),
        registry.dom().contains(order[first]),
        registry[order[first]].state == TorrentState::Queued || registry[order[first]].state
            == TorrentState::Downloading || registry[order[first]].state
            == TorrentState::DownloadingMetadata,
        limits.auto_start || bypass.contains(order[first]) || registry[order[first]].state
            != TorrentState::Queued,
        excluded != Some(order[first]),
        retry_after.dom().contains(order[first]) ==> retry_after[order[first]].nanos <= now.nanos,
        !chosen.contains(order[first]),
        registry[order[later]].needs_metadata == registry[order[first]].needs_metadata,
        !bypass.contains(order[later]),
    ensures
        !chosen.contains(order[later]),
{
    let plan = Plan { registry, retry_after, now, limits, bypass, excluded };
    let all = candidates(bypass, order);
    let at = bypass.len() + first;
    assert(all[at] == order[first]);
    if chosen.contains(order[later]) {
        lemma_passed_over(plan, all, at, order[later]);
        let i = all.take(at).index_of(order[later]);
        if i < bypass.len() {
            assert(bypass[i] == order[later]);
        } else {
            assert(order[i - bypass.len()] == order[later]);
        }
    }
}

/// Torrents start in the order in which they wait: those that were told to start first, the others
/// as they stand in the queue.
pub proof fn torrents_start_in_turn(
    registry: Map<InfoHash, Torrent>,
    retry_after: Map<InfoHash, Tick>,
    now: Tick,
    limits: QueueLimits,
    bypass: Seq<InfoHash>,
    order: Seq<InfoHash>,
    excluded: Option<InfoHash>,
    chosen: Seq<InfoHash>,
    first: int,
    later: int,
)
    requires
        chosen == (Plan { registry, retry_after, now, limits, bypass, excluded }).chosen(
            candidates(bypass, order),
        ),
        bypass.no_duplicates(),
        order.no_duplicates(),
        0 <= first < later < chosen.len(),
    ensures
        bypass.contains(chosen[later]) ==> bypass.contains(chosen[first]) && bypass.index_of(
            chosen[first],
        ) < bypass.index_of(chosen[later]),
        !bypass.contains(chosen[first]) ==> order.contains(chosen[first]) && order.contains(
            chosen[later],
        ) && order.index_of(chosen[first]) < order.index_of(chosen[later]),
{
    let plan = Plan { registry, retry_after, now, limits, bypass, excluded };
    let all = candidates(bypass, order);
    choice_respects_limits(plan, all);
    let a = chosen[first];
    let b = chosen[later];
    assert(chosen.contains(a) && chosen.contains(b));
    assert(a != b);
    let place = if bypass.contains(b) {
        bypass.index_of(b)
    } else {
        assert(order.contains(b)) by {
            let i = all.index_of(b);
            if i < bypass.len() {
                assert(bypass[i] == b);
            } else {
                assert(order[i - bypass.len()] == b);
            }
        }
        bypass.len() + order.index_of(b)
    };
    assert(all[place] == b);
    let upto = all.take(place + 1);
    let early = plan.chosen(upto);
    lemma_chosen_prefix(plan, all, place + 1);
    assert(early.contains(b)) by {
        if !early.contains(b) {
            assert(upto.drop_last() =~= all.take(place));
            let before = plan.chosen(all.take(place));
            lemma_step_membership(before, early, b, b);
            assert(!plan.has_room(before, plan.fetches_metadata(b)));
            lemma_full_class(plan, all, place, plan.fetches_metadata(b));
        }
    }
    let at = early.index_of(b);
    assert(chosen.take(early.len() as int)[at] == b);
    assert(chosen[at] == b);
    assert(at == later);
    assert(early[first] == chosen.take(early.len() as int)[first]);
    assert(early.contains(a));
    choice_respects_limits(plan, upto);
    let i = upto.index_of(a);
    assert(all[i] == a);
    assert(i < place);
    if i < bypass.len() {
        assert(bypass[i] == a);
    } else {
        assert(order[i - bypass.len()] == a);
    }
}

/// A slot goes only to a torrent that waits or downloads already, that is listed and not left out,
/// whose retry is due, and that was told to start, works already, or may start by itself. No class
/// gets more slots than its limit, and a torrent that could start and gets none finds the slots of
/// its class all taken.
pub proof fn slots_are_given_out_in_full(
    registry: Map<InfoHash, Torrent>,
    retry_after: Map<InfoHash, Tick>,
    now: Tick,
    limits: QueueLimits,
    bypass: Seq<InfoHash>,
    order: Seq<InfoHash>,
    excluded: Option<InfoHash>,
    chosen: Seq<InfoHash>,
    hash: InfoHash,
)
    requires
        chosen == (Plan { registry, retry_after, now, limits, bypass, excluded }).chosen(
            candidates(bypass, order),
        ),
    ensures
        chosen.no_duplicates(),
        ({
            let state = registry[hash].state;
            let may_start = {
                &&& registry.dom().contains(hash)
                &&& bypass.contains(hash) || order.contains(hash)
                &&& excluded != Some(hash)
                &&& retry_after.dom().contains(hash) ==> retry_after[hash].nanos <= now.nanos
                &&& state == TorrentState::Downloading || state
                    == TorrentState::DownloadingMetadata || (state == TorrentState::Queued && (
                limits.auto_start || bypass.contains(hash)))
            };
            let fetches = chosen.filter(|other: InfoHash| registry[other].needs_metadata == true);
            let downloads = chosen.filter(
                |other: InfoHash| registry[other].needs_metadata == false,
            );
            &&& chosen.contains(hash) ==> may_start
            &&& limits.max_active_downloads > 0 ==> downloads.len() <= limits.max_active_downloads
            &&& limits.max_active_metadata_fetches > 0 ==> fetches.len()
                <= limits.max_active_metadata_fetches
            &&& may_start && !chosen.contains(hash) ==> if registry[hash].needs_metadata {
                fetches.len() == limits.max_active_metadata_fetches
                    && limits.max_active_metadata_fetches > 0
            } else {
                downloads.len() == limits.max_active_downloads && limits.max_active_downloads > 0
            }
        }),
{
    let plan = Plan { registry, retry_after, now, limits, bypass, excluded };
    let all = candidates(bypass, order);
    choice_respects_limits(plan, all);
    lemma_used_counts(plan, chosen, true);
    lemma_used_counts(plan, chosen, false);
    assert(plan.limit(true) > 0 ==> plan.used(chosen, true) <= plan.limit(true));
    assert(plan.limit(false) > 0 ==> plan.used(chosen, false) <= plan.limit(false));
    if bypass.contains(hash) {
        assert(all[bypass.index_of(hash)] == hash);
    }
    if order.contains(hash) {
        assert(all[bypass.len() + order.index_of(hash)] == hash);
    }
    if all.contains(hash) {
        let i = all.index_of(hash);
        if i < bypass.len() {
            assert(bypass[i] == hash);
        } else {
            assert(order[i - bypass.len()] == hash);
        }
    }
    if plan.eligible(hash) && all.contains(hash) && !chosen.contains(hash) {
        choice_leaves_no_slot_unused(plan, all, hash);
    }
}

/// Bringing a queue up to date drops exactly the torrents that are not known, and moves none of
/// the others.
pub proof fn only_unknown_torrents_leave_the_queue(
    queue: crate::queue::QueueView,
    limits: QueueLimits,
    registry: Map<InfoHash, Torrent>,
    hash: InfoHash,
)
    requires
        queue.wf(),
    ensures
        ({
            let after = pruned(queue, limits, registry);
            &&& after.limits == limits
            &&& after.order.contains(hash) == (queue.order.contains(hash)
                && registry.dom().contains(hash))
            &&& after.bypass.contains(hash) == (queue.bypass.contains(hash)
                && registry.dom().contains(hash))
            &&& forall|i: int, j: int|
                #![trigger after.order[i], after.order[j]]
                0 <= i < j < after.order.len() ==> queue.order.index_of(after.order[i])
                    < queue.order.index_of(after.order[j])
            &&& forall|i: int, j: int|
                #![trigger after.bypass[i], after.bypass[j]]
                0 <= i < j < after.bypass.len() ==> queue.bypass.index_of(after.bypass[i])
                    < queue.bypass.index_of(after.bypass[j])
        }),
{
    lemma_kept_in_order(queue.order, known_to(registry));
    lemma_kept_in_order(queue.bypass, known_to(registry));
    crate::queue::lemma_filter(queue.order, known_to(registry));
    crate::queue::lemma_filter(queue.bypass, known_to(registry));
}

/// What is kept of a list stays in its order.
pub proof fn lemma_kept_in_order(list: Seq<InfoHash>, keep: spec_fn(InfoHash) -> bool)
    requires
        list.no_duplicates(),
    ensures
        forall|i: int, j: int|
            #![trigger list.filter(keep)[i], list.filter(keep)[j]]
            0 <= i < j < list.filter(keep).len() ==> list.index_of(list.filter(keep)[i])
                < list.index_of(list.filter(keep)[j]),
    decreases list.len(),
{
    reveal(Seq::filter);
    if list.len() > 0 {
        let rest = list.drop_last();
        let last = list.last();
        lemma_kept_in_order(rest, keep);
        crate::queue::lemma_filter(rest, keep);
        let kept = list.filter(keep);
        assert forall|i: int, j: int|
            #![trigger kept[i], kept[j]]
            0 <= i < j < kept.len() implies list.index_of(kept[i]) < list.index_of(kept[j]) by {
            let before = rest.filter(keep);
            assert(kept[i] == before[i]);
            assert(before.contains(before[i]));
            let a = rest.index_of(before[i]);
            assert(list[a] == kept[i]);
            assert(list.index_of(kept[i]) == a);
            if j < before.len() {
                assert(before.contains(before[j]));
                let b = rest.index_of(before[j]);
                assert(list[b] == kept[j]);
                assert(list.index_of(kept[j]) == b);
            } else {
                assert(list[list.len() - 1] == kept[j]);
                assert(list.index_of(kept[j]) == list.len() - 1);
            }
        }
    }
}

/// Who may hold a slot: a known torrent that is not left out, whose retry is not still to come, and
/// which downloads already, or waits and either starts by itself or was told to start.
pub proof fn waiting_and_running_torrents_may_start(plan: Plan, hash: InfoHash)
    ensures
        ({
            let state = plan.registry[hash].state;
            let runs = state == TorrentState::Downloading || state
                == TorrentState::DownloadingMetadata;
            let waits = state == TorrentState::Queued && (plan.limits.auto_start
                || plan.bypass.contains(hash));
            let held = plan.retry_after.dom().contains(hash) && plan.now.nanos
                < plan.retry_after[hash].nanos;
            plan.eligible(hash) == (plan.registry.dom().contains(hash) && plan.excluded != Some(
                hash,
            ) && !held && (runs || waits))
        }),
{
}

/// Without limits every torrent that may start is asked for, once, and counts for what it fetches.
pub proof fn requests_count_all_who_may_start(
    fleet: crate::fleet::FleetView,
    limits: QueueLimits,
    now: Tick,
    hash: InfoHash,
)
    requires
        fleet.registry.dom().contains(hash),
        fleet.queue.order.contains(hash) || fleet.queue.bypass.contains(hash),
        fleet.registry[hash].state == TorrentState::Downloading || fleet.registry[hash].state
            == TorrentState::DownloadingMetadata || (fleet.registry[hash].state
            == TorrentState::Queued && (limits.auto_start || fleet.queue.bypass.contains(hash))),
        fleet.retry_after.dom().contains(hash) ==> fleet.retry_after[hash].nanos <= now.nanos,
    ensures
        fleet.requested(limits, now, fleet.registry[hash].needs_metadata) > 0,
{
    let plan = (Plan {
        registry: fleet.registry,
        retry_after: fleet.retry_after,
        now,
        limits,
        bypass: fleet.queue.bypass,
        excluded: None,
    }).unlimited();
    let all = candidates(fleet.queue.bypass, fleet.queue.order);
    let chosen = plan.chosen(all);
    if fleet.queue.bypass.contains(hash) {
        assert(all[fleet.queue.bypass.index_of(hash)] == hash);
    } else {
        assert(all[fleet.queue.bypass.len() + fleet.queue.order.index_of(hash)] == hash);
    }
    assert(all.contains(hash));
    lemma_all_taken(plan, all, hash);
    lemma_used_some(plan, chosen, hash);
}

proof fn lemma_all_taken(plan: Plan, all: Seq<InfoHash>, hash: InfoHash)
    requires
        plan.limits.max_active_downloads == 0,
        plan.limits.max_active_metadata_fetches == 0,
        plan.eligible(hash),
        all.contains(hash),
    ensures
        plan.chosen(all).contains(hash),
    decreases all.len(),
{
    let rest = all.drop_last();
    let before = plan.chosen(rest);
    if all.last() == hash {
        if !before.contains(hash) {
            assert(plan.chosen(all) == before.push(hash));
            assert(before.push(hash)[before.len() as int] == hash);
        }
    } else {
        let k = all.index_of(hash);
        assert(rest[k] == hash);
        lemma_all_taken(plan, rest, hash);
        if plan.chosen(all) != before {
            assert(plan.chosen(all)[before.index_of(hash)] == hash);
        }
    }
}

proof fn lemma_used_some(plan: Plan, chosen: Seq<InfoHash>, hash: InfoHash)
    requires
        chosen.contains(hash),
    ensures
        plan.used(chosen, plan.registry[hash].needs_metadata) > 0,
    decreases chosen.len(),
{
    if chosen.last() != hash {
        let rest = chosen.drop_last();
        assert(rest[chosen.index_of(hash)] == hash);
        lemma_used_some(plan, rest, hash);
    }
}

} // verus!
