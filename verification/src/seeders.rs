//! Choosing which finished torrents upload, and keeping what is shown of them true.
use crate::containment::decided;
use crate::effects::Effect;
use crate::fleet::{Fleet, FleetView, SeederTask};
use crate::hash::InfoHash;
use crate::index::HashIndex;
use crate::queue::contains_hash;
use crate::seeding::{automatic_seeding_status, SeedDecision};
use crate::torrent::{SeedingStatus, Torrent, TorrentState};
use vstd::prelude::*;

verus! {

/// Where a torrent stands, with uploading too.
#[derive(Clone, Copy, PartialEq, Eq, Structural, Debug)]
pub struct Standing {
    pub state: TorrentState,
    pub seeding_status: SeedingStatus,
}

/// What a reconciliation of uploads did and wants done.
#[derive(Debug)]
pub struct SeederPlan {
    /// Uploads that were ended.
    pub stopped: Vec<InfoHash>,
    /// Torrents that may upload, in the order in which they were chosen.
    pub allowed: Vec<InfoHash>,
    /// Of these, those that do not upload yet.
    pub start: Vec<InfoHash>,
}

/// The torrent has all its pieces and is shown as finished or uploading.
pub open spec fn can_upload(torrent: Torrent) -> bool {
    torrent.progress.complete() && (torrent.state == TorrentState::Completed || torrent.state
        == TorrentState::Seeding)
}

impl FleetView {
    /// The upload status that a torrent should have, where it can upload at all.
    pub open spec fn upload_verdict(
        self,
        hash: InfoHash,
        decisions: Map<InfoHash, SeedDecision>,
    ) -> Option<SeedingStatus> {
        if self.registry.dom().contains(hash) && can_upload(self.registry[hash]) {
            Some(
                crate::seeding::decided_status(crate::containment::decision_of(decisions, hash)),
            )
        } else {
            None
        }
    }
}

/// The torrents that may upload among the first entries: those whose targets are not reached, up
/// to the limit; zero is no limit.
pub open spec fn allowed_among(
    entries: Seq<(InfoHash, Torrent)>,
    decisions: Map<InfoHash, SeedDecision>,
    limit: usize,
    count: nat,
) -> Seq<InfoHash>
    decreases count,
{
    if count == 0 {
        Seq::<InfoHash>::empty()
    } else {
        let before = allowed_among(entries, decisions, limit, (count - 1) as nat);
        let hash = entries[count - 1].0;
        if can_upload(entries[count - 1].1) && crate::containment::decision_of(decisions, hash)
            == SeedDecision::Continue && (limit == 0 || before.len() < limit) {
            before.push(hash)
        } else {
            before
        }
    }
}

/// What was chosen can upload, is chosen once, and is not more than the limit.
pub proof fn allowed_uploads_respect_the_limit(
    entries: Seq<(InfoHash, Torrent)>,
    decisions: Map<InfoHash, SeedDecision>,
    limit: usize,
    count: nat,
)
    requires
        crate::index::keys_increase(entries),
        count <= entries.len(),
    ensures
        limit > 0 ==> allowed_among(entries, decisions, limit, count).len() <= limit,
        allowed_among(entries, decisions, limit, count).no_duplicates(),
        forall|hash: InfoHash| #[trigger]
            allowed_among(entries, decisions, limit, count).contains(hash)
                ==> crate::reconcile::seen_before(entries, count as int, hash)
                && crate::index::entry_map(entries).dom().contains(hash) && can_upload(
                crate::index::entry_map(entries)[hash],
            ) && crate::containment::decision_of(decisions, hash) == SeedDecision::Continue,
    decreases count,
{
    if count > 0 {
        let before = allowed_among(entries, decisions, limit, (count - 1) as nat);
        let after = allowed_among(entries, decisions, limit, count);
        let last = entries[count - 1].0;
        allowed_uploads_respect_the_limit(entries, decisions, limit, (count - 1) as nat);
        crate::reconcile::lemma_seen_step(entries, count - 1);
        crate::index::lemma_entry(entries, count - 1);
        if after != before {
            assert(!before.contains(last));
            crate::reconcile::lemma_pushed(before, last);
        }
    }
}

/// A torrent after uploads were reconciled.
pub open spec fn upload_settled(
    torrent: Torrent,
    stopped: bool,
    live: bool,
    verdict: Option<SeedingStatus>,
) -> Torrent {
    let ended = if stopped {
        upload_ended(torrent, verdict)
    } else {
        torrent
    };
    if live {
        Torrent {
            state: TorrentState::Seeding,
            seeding_status: SeedingStatus::Active,
            ..ended
        }
    } else if verdict.is_some() {
        Torrent { state: TorrentState::Completed, seeding_status: verdict->0, ..ended }
    } else if ended.state != TorrentState::NetworkBlocked && ended.state != TorrentState::Paused
        && !ended.progress.complete() {
        Torrent { seeding_status: SeedingStatus::NotEligible, ..ended }
    } else if ended.state == TorrentState::Seeding || ended.seeding_status
        == SeedingStatus::Active {
        Torrent {
            state: TorrentState::Completed,
            seeding_status: SeedingStatus::Queued,
            ..ended
        }
    } else {
        ended
    }
}

/// A torrent whose upload was ended because it may not upload.
pub open spec fn upload_ended(torrent: Torrent, verdict: Option<SeedingStatus>) -> Torrent {
    let ended = crate::fleet::after_seeding(torrent);
    if ended.state != TorrentState::NetworkBlocked && ended.state != TorrentState::Paused {
        Torrent {
            state: TorrentState::Completed,
            seeding_status: verdict.unwrap_or(SeedingStatus::NotEligible),
            ..ended
        }
    } else {
        ended
    }
}

impl FleetView {
    /// After some uploads were ended, one after the other.
    pub open spec fn uploads_ended(
        self,
        hashes: Seq<InfoHash>,
        verdicts: spec_fn(InfoHash) -> Option<SeedingStatus>,
    ) -> FleetView
        decreases hashes.len(),
    {
        if hashes.len() == 0 {
            self
        } else {
            let before = self.uploads_ended(hashes.drop_last(), verdicts);
            let hash = hashes.last();
            FleetView {
                registry: crate::fleet::rewritten(
                    before.registry,
                    hash,
                    upload_ended(before.registry[hash], verdicts(hash)),
                ),
                ..before.seeder_stopped(hash)
            }
        }
    }

    /// What ending some uploads asks for.
    pub open spec fn uploads_end_effects(
        self,
        hashes: Seq<InfoHash>,
        verdicts: spec_fn(InfoHash) -> Option<SeedingStatus>,
    ) -> Seq<Effect>
        decreases hashes.len(),
    {
        if hashes.len() == 0 {
            Seq::<Effect>::empty()
        } else {
            self.uploads_end_effects(hashes.drop_last(), verdicts) + self.uploads_ended(
                hashes.drop_last(),
                verdicts,
            ).seeder_stop_effects(hashes.last(), false)
        }
    }

    /// The verdicts on all torrents.
    pub open spec fn verdicts(
        self,
        decisions: Map<InfoHash, SeedDecision>,
    ) -> spec_fn(InfoHash) -> Option<SeedingStatus> {
        |hash: InfoHash| self.upload_verdict(hash, decisions)
    }
}

proof fn lemma_uploads_ended(
    fleet: FleetView,
    hashes: Seq<InfoHash>,
    verdicts: spec_fn(InfoHash) -> Option<SeedingStatus>,
)
    requires
        hashes.no_duplicates(),
    ensures
        fleet.uploads_ended(hashes, verdicts).queue == fleet.queue,
        fleet.uploads_ended(hashes, verdicts).engines == fleet.engines,
        fleet.uploads_ended(hashes, verdicts).retry_after == fleet.retry_after,
        fleet.uploads_ended(hashes, verdicts).rate_samples == fleet.rate_samples,
        fleet.uploads_ended(hashes, verdicts).registry.dom() == fleet.registry.dom(),
        forall|hash: InfoHash| #[trigger]
            fleet.uploads_ended(hashes, verdicts).seeders.dom().contains(hash) == (
            fleet.seeders.dom().contains(hash) && !hashes.contains(hash)),
        forall|hash: InfoHash|
            fleet.registry.dom().contains(hash) ==> #[trigger] fleet.uploads_ended(
                hashes,
                verdicts,
            ).registry[hash] == if hashes.contains(hash) {
                upload_ended(fleet.registry[hash], verdicts(hash))
            } else {
                fleet.registry[hash]
            },
    decreases hashes.len(),
{
    let after = fleet.uploads_ended(hashes, verdicts);
    if hashes.len() > 0 {
        let rest = hashes.drop_last();
        let last = hashes.last();
        let before = fleet.uploads_ended(rest, verdicts);
        lemma_uploads_ended(fleet, rest, verdicts);
        assert(hashes.take(rest.len() as int) =~= rest);
        assert(hashes.take(rest.len() as int + 1) =~= hashes);
        assert forall|hash: InfoHash| #[trigger] hashes.contains(hash) == (rest.contains(hash)
            || hash == last) by {
            crate::reconcile::lemma_take_contains(hashes, rest.len() as int, hash);
        }
        assert(!rest.contains(last)) by {
            if rest.contains(last) {
                let i = rest.index_of(last);
                assert(hashes[i] == hashes[hashes.len() - 1]);
            }
        }
        assert(after.registry.dom() =~= fleet.registry.dom());
        assert forall|hash: InfoHash| fleet.registry.dom().contains(hash) implies
            #[trigger] after.registry[hash] == if hashes.contains(hash) {
            upload_ended(fleet.registry[hash], verdicts(hash))
        } else {
            fleet.registry[hash]
        } by {
            assert(before.registry[hash] == if rest.contains(hash) {
                upload_ended(fleet.registry[hash], verdicts(hash))
            } else {
                fleet.registry[hash]
            });
        }
    }
}

impl FleetView {
    /// After uploads were reconciled.
    pub open spec fn uploads_settled(
        self,
        stopped: Seq<InfoHash>,
        decisions: Map<InfoHash, SeedDecision>,
    ) -> FleetView {
        let ended = self.uploads_ended(stopped, self.verdicts(decisions));
        FleetView {
            registry: Map::new(
                |hash: InfoHash| self.registry.dom().contains(hash),
                |hash: InfoHash|
                    upload_settled(
                        self.registry[hash],
                        stopped.contains(hash),
                        ended.seeders.dom().contains(hash),
                        self.upload_verdict(hash, decisions),
                    ),
            ),
            ..ended
        }
    }
}

/// The torrents that do not upload.
pub open spec fn not_uploading(seeders: Map<InfoHash, SeederTask>) -> spec_fn(InfoHash) -> bool {
    |hash: InfoHash| !seeders.dom().contains(hash)
}

impl Fleet {
    /// The torrents that may upload.
    pub fn eligible_seeder_hashes(
        &self,
        limit: usize,
        decisions: &HashIndex<SeedDecision>,
    ) -> (allowed: Vec<InfoHash>)
        requires
            self.wf(),
            decisions.wf(),
        ensures
            allowed@ == allowed_among(
                self.registry.seq(),
                decisions@,
                limit,
                self.registry.seq().len(),
            ),
    {
        let mut allowed: Vec<InfoHash> = Vec::new();
        let mut i: usize = 0;
        while i < self.registry.len()
            invariant
                i <= self.registry.seq().len(),
                self.wf(),
                decisions.wf(),
                allowed@ == allowed_among(self.registry.seq(), decisions@, limit, i as nat),
            decreases self.registry.seq().len() - i,
        {
            let hash: InfoHash = self.registry.key_at(i);
            let torrent: &Torrent = self.registry.value_at(i);
            let finished: bool = matches!(
                torrent.state,
                TorrentState::Completed | TorrentState::Seeding
            );
            if finished && torrent.progress.is_complete() && matches!(
                decided(decisions, &hash),
                SeedDecision::Continue
            ) && (limit == 0 || allowed.len() < limit) {
                allowed.push(hash);
            }
            i = i + 1;
        }
        allowed
    }

    fn surplus_uploads(&self, allowed: &Vec<InfoHash>) -> (surplus: Vec<InfoHash>)
        requires
            self.wf(),
        ensures
            surplus@.no_duplicates(),
            forall|hash: InfoHash| #[trigger]
                surplus@.contains(hash) == (self@.seeders.dom().contains(hash)
                    && !allowed@.contains(hash)),
    {
        let mut surplus: Vec<InfoHash> = Vec::new();
        let mut i: usize = 0;
        while i < self.seeders.len()
            invariant
                i <= self.seeders.seq().len(),
                self.wf(),
                surplus@.no_duplicates(),
                forall|hash: InfoHash| #[trigger]
                    surplus@.contains(hash) == (crate::reconcile::seen_before(
                        self.seeders.seq(),
                        i as int,
                        hash,
                    ) && !allowed@.contains(hash)),
            decreases self.seeders.seq().len() - i,
        {
            let hash: InfoHash = self.seeders.key_at(i);
            proof {
                crate::reconcile::lemma_seen_step(self.seeders.seq(), i as int);
            }
            if !contains_hash(allowed, &hash) {
                proof {
                    crate::reconcile::lemma_pushed(surplus@, hash);
                }
                surplus.push(hash);
            }
            i = i + 1;
        }
        proof {
            crate::reconcile::lemma_seen_all(self.seeders.seq());
        }
        surplus
    }

    /// The upload statuses that torrents should have, for those that can upload.
    fn upload_verdicts(&self, decisions: &HashIndex<SeedDecision>) -> (verdicts: HashIndex<
        SeedingStatus,
    >)
        requires
            self.wf(),
            decisions.wf(),
        ensures
            verdicts.wf(),
            forall|hash: InfoHash| #[trigger]
                crate::progress::lookup(verdicts@, hash) == self@.upload_verdict(hash, decisions@),
    {
        let mut verdicts: HashIndex<SeedingStatus> = HashIndex::new();
        let ghost entries = self.registry.seq();
        let mut i: usize = 0;
        while i < self.registry.len()
            invariant
                i <= entries.len(),
                entries == self.registry.seq(),
                self.wf(),
                decisions.wf(),
                verdicts.wf(),
                forall|hash: InfoHash| #[trigger]
                    crate::progress::lookup(verdicts@, hash) == if crate::reconcile::seen_before(
                        entries,
                        i as int,
                        hash,
                    ) {
                        self@.upload_verdict(hash, decisions@)
                    } else {
                        None
                    },
            decreases entries.len() - i,
        {
            let hash: InfoHash = self.registry.key_at(i);
            let torrent: &Torrent = self.registry.value_at(i);
            let ghost before = verdicts@;
            proof {
                crate::reconcile::lemma_seen_step(entries, i as int);
            }
            let finished: bool = matches!(
                torrent.state,
                TorrentState::Completed | TorrentState::Seeding
            );
            if finished && torrent.progress.is_complete() {
                verdicts.insert(hash, automatic_seeding_status(decided(decisions, &hash)));
            }
            proof {
                assert forall|other: InfoHash| #[trigger]
                    crate::progress::lookup(verdicts@, other)
                        == if crate::reconcile::seen_before(entries, i + 1, other) {
                        self@.upload_verdict(other, decisions@)
                    } else {
                        None
                    } by {
                    assert(crate::progress::lookup(before, other)
                        == if crate::reconcile::seen_before(entries, i as int, other) {
                        self@.upload_verdict(other, decisions@)
                    } else {
                        None
                    });
                }
            }
            i = i + 1;
        }
        proof {
            crate::reconcile::lemma_seen_all(entries);
        }
        verdicts
    }

    fn end_uploads(
        &mut self,
        hashes: &Vec<InfoHash>,
        verdicts: &HashIndex<SeedingStatus>,
        Ghost(rule): Ghost<spec_fn(InfoHash) -> Option<SeedingStatus>>,
        effects: &mut Vec<Effect>,
    )
        requires
            old(self).wf(),
            verdicts.wf(),
            forall|hash: InfoHash| #[trigger]
                crate::progress::lookup(verdicts@, hash) == rule(hash),
        ensures
            final(self).wf(),
            final(self)@ == old(self)@.uploads_ended(hashes@, rule),
            final(effects)@ == old(effects)@ + old(self)@.uploads_end_effects(hashes@, rule),
    {
        let ghost before = self@;
        let ghost asked = effects@;
        let mut i: usize = 0;
        assert(effects@ =~= asked + before.uploads_end_effects(hashes@.take(0), rule));
        while i < hashes.len()
            invariant
                i <= hashes@.len(),
                self.wf(),
                verdicts.wf(),
                forall|hash: InfoHash| #[trigger]
                    crate::progress::lookup(verdicts@, hash) == rule(hash),
                self@ == before.uploads_ended(hashes@.take(i as int), rule),
                effects@ == asked + before.uploads_end_effects(hashes@.take(i as int), rule),
            decreases hashes@.len() - i,
        {
            let hash: InfoHash = hashes[i];
            assert(hashes@.take(i + 1).drop_last() =~= hashes@.take(i as int));
            let ghost middle = self@;
            self.stop_seeder(&hash, false, effects);
            if let Some(position) = self.registry.find(&hash) {
                let status: SeedingStatus = match verdicts.get(&hash) {
                    Some(status) => *status,
                    None => SeedingStatus::NotEligible,
                };
                assert(crate::progress::lookup(verdicts@, hash) == rule(hash));
                let torrent: &mut Torrent = self.registry.value_at_mut(position);
                if torrent.state != TorrentState::NetworkBlocked && torrent.state
                    != TorrentState::Paused {
                    torrent.state = TorrentState::Completed;
                    torrent.seeding_status = status;
                }
            }
            proof {
                let target = before.uploads_ended(hashes@.take(i + 1), rule);
                assert(self@.registry =~= target.registry);
                assert(effects@ =~= asked + before.uploads_end_effects(hashes@.take(i + 1), rule));
            }
            i = i + 1;
        }
        assert(hashes@.take(i as int) =~= hashes@);
    }
}

impl Fleet {
    fn settle_uploads(
        &mut self,
        verdicts: &HashIndex<SeedingStatus>,
        Ghost(found): Ghost<FleetView>,
        Ghost(stopped): Ghost<Seq<InfoHash>>,
        Ghost(decisions): Ghost<Map<InfoHash, SeedDecision>>,
    )
        requires
            old(self).wf(),
            verdicts.wf(),
            stopped.no_duplicates(),
            forall|hash: InfoHash| #[trigger]
                crate::progress::lookup(verdicts@, hash) == found.upload_verdict(hash, decisions),
            old(self)@ == found.uploads_ended(stopped, found.verdicts(decisions)),
        ensures
            final(self).wf(),
            final(self)@ == found.uploads_settled(stopped, decisions),
    {
        let ghost ended = self@;
        let ghost entries = self.registry.seq();
        let ghost settled = |hash: InfoHash, torrent: Torrent|
            upload_settled(
                found.registry[hash],
                stopped.contains(hash),
                ended.seeders.dom().contains(hash),
                found.upload_verdict(hash, decisions),
            );
        proof {
            lemma_uploads_ended(found, stopped, found.verdicts(decisions));
        }
        let mut i: usize = 0;
        while i < self.registry.len()
            invariant
                i <= entries.len(),
                self.wf(),
                verdicts.wf(),
                forall|hash: InfoHash| #[trigger]
                    crate::progress::lookup(verdicts@, hash) == found.upload_verdict(
                        hash,
                        decisions,
                    ),
                crate::index::keys_increase(entries),
                ended.registry == crate::index::entry_map(entries),
                ended.registry.dom() == found.registry.dom(),
                forall|hash: InfoHash|
                    found.registry.dom().contains(hash) ==> #[trigger] ended.registry[hash]
                        == if stopped.contains(hash) {
                        upload_ended(
                            found.registry[hash],
                            found.upload_verdict(hash, decisions),
                        )
                    } else {
                        found.registry[hash]
                    },
                settled == |hash: InfoHash, torrent: Torrent|
                    upload_settled(
                        found.registry[hash],
                        stopped.contains(hash),
                        ended.seeders.dom().contains(hash),
                        found.upload_verdict(hash, decisions),
                    ),
                self@ == (FleetView { registry: self@.registry, ..ended }),
                self.registry.seq().len() == entries.len(),
                forall|k: int|
                    0 <= k < entries.len() ==> #[trigger] self.registry.seq()[k] == (
                        entries[k].0,
                        if k < i {
                            settled(entries[k].0, entries[k].1)
                        } else {
                            entries[k].1
                        },
                    ),
            decreases entries.len() - i,
        {
            let hash: InfoHash = self.registry.key_at(i);
            let live: bool = self.seeders.contains(&hash);
            let verdict: Option<SeedingStatus> = match verdicts.get(&hash) {
                Some(status) => Some(*status),
                None => None,
            };
            proof {
                crate::index::lemma_entry(entries, i as int);
                assert(self.registry.seq()[i as int] == (entries[i as int].0, entries[i as int].1));
                assert(crate::progress::lookup(verdicts@, hash) == verdict);
            }
            let torrent: &mut Torrent = self.registry.value_at_mut(i);
            if live {
                torrent.state = TorrentState::Seeding;
                torrent.seeding_status = SeedingStatus::Active;
            } else if let Some(status) = verdict {
                torrent.state = TorrentState::Completed;
                torrent.seeding_status = status;
            } else if torrent.state != TorrentState::NetworkBlocked && torrent.state
                != TorrentState::Paused && !torrent.progress.is_complete() {
                torrent.seeding_status = SeedingStatus::NotEligible;
            } else if torrent.state == TorrentState::Seeding || torrent.seeding_status
                == SeedingStatus::Active {
                torrent.state = TorrentState::Completed;
                torrent.seeding_status = SeedingStatus::Queued;
            }
            i = i + 1;
        }
        proof {
            crate::index::lemma_rewritten(entries, self.registry.seq(), settled);
            assert(self@.registry =~= found.uploads_settled(stopped, decisions).registry);
        }
    }

    fn idle_among(&self, allowed: &Vec<InfoHash>) -> (start: Vec<InfoHash>)
        requires
            self.wf(),
        ensures
            start@ == allowed@.filter(not_uploading(self@.seeders)),
    {
        let mut start: Vec<InfoHash> = Vec::new();
        let ghost keep = not_uploading(self@.seeders);
        let mut i: usize = 0;
        assert(allowed@.take(0).filter(keep) =~= start@) by {
            reveal(Seq::filter);
        }
        while i < allowed.len()
            invariant
                i <= allowed@.len(),
                self.wf(),
                keep == not_uploading(self@.seeders),
                start@ == allowed@.take(i as int).filter(keep),
            decreases allowed@.len() - i,
        {
            proof {
                reveal(Seq::filter);
                assert(allowed@.take(i + 1).drop_last() =~= allowed@.take(i as int));
                assert(allowed@.take(i + 1).last() == allowed@[i as int]);
            }
            let hash: InfoHash = allowed[i];
            if !self.seeders.contains(&hash) {
                start.push(hash);
            }
            i = i + 1;
        }
        assert(allowed@.take(i as int) =~= allowed@);
        start
    }

    /// Ends the uploads of torrents that may not upload, brings what is shown of every torrent in
    /// line, and returns which torrents should start to upload.
    pub fn reconcile_seeders(
        &mut self,
        limit: usize,
        decisions: &HashIndex<SeedDecision>,
        effects: &mut Vec<Effect>,
    ) -> (plan: SeederPlan)
        requires
            old(self).wf(),
            decisions.wf(),
        ensures
            final(self).wf(),
            plan.allowed@ == allowed_among(
                old(self).registry.seq(),
                decisions@,
                limit,
                old(self).registry.seq().len(),
            ),
            plan.stopped@.no_duplicates(),
            forall|hash: InfoHash| #[trigger]
                plan.stopped@.contains(hash) == (old(self)@.seeders.dom().contains(hash)
                    && !plan.allowed@.contains(hash)),
            final(self)@ == old(self)@.uploads_settled(plan.stopped@, decisions@),
            plan.start@ == plan.allowed@.filter(not_uploading(final(self)@.seeders)),
            final(effects)@ == old(effects)@ + old(self)@.uploads_end_effects(
                plan.stopped@,
                old(self)@.verdicts(decisions@),
            ),
            forall|hash: InfoHash| #[trigger]
                final(self)@.seeders.dom().contains(hash) ==> plan.allowed@.contains(hash),
    {
        let ghost found = self@;
        let allowed: Vec<InfoHash> = self.eligible_seeder_hashes(limit, decisions);
        let verdicts: HashIndex<SeedingStatus> = self.upload_verdicts(decisions);
        let stopped: Vec<InfoHash> = self.surplus_uploads(&allowed);
        self.end_uploads(&stopped, &verdicts, Ghost(found.verdicts(decisions@)), effects);
        self.settle_uploads(&verdicts, Ghost(found), Ghost(stopped@), Ghost(decisions@));
        let start: Vec<InfoHash> = self.idle_among(&allowed);
        proof {
            lemma_uploads_ended(found, stopped@, found.verdicts(decisions@));
        }
        SeederPlan { stopped, allowed, start }
    }
}

/// After uploads were reconciled, a torrent is shown as uploading exactly when it uploads.
pub proof fn uploads_are_shown_truthfully(
    fleet: FleetView,
    stopped: Seq<InfoHash>,
    decisions: Map<InfoHash, SeedDecision>,
    hash: InfoHash,
)
    requires
        stopped.no_duplicates(),
        fleet.registry.dom().contains(hash),
    ensures
        ({
            let after = fleet.uploads_settled(stopped, decisions);
            &&& (after.registry[hash].seeding_status == SeedingStatus::Active)
                == after.seeders.dom().contains(hash)
            &&& after.seeders.dom().contains(hash) ==> after.registry[hash].state
                == TorrentState::Seeding
        }),
{
}

/// A torrent whose targets are reached does not upload after uploads were reconciled, and is
/// shown as stopped for that reason.
pub proof fn reached_targets_stop_uploads(
    fleet: FleetView,
    allowed: Seq<InfoHash>,
    stopped: Seq<InfoHash>,
    decisions: Map<InfoHash, SeedDecision>,
    hash: InfoHash,
)
    requires
        stopped.no_duplicates(),
        forall|other: InfoHash| #[trigger]
            stopped.contains(other) == (fleet.seeders.dom().contains(other) && !allowed.contains(
                other,
            )),
        !allowed.contains(hash),
        fleet.registry.dom().contains(hash),
        can_upload(fleet.registry[hash]),
    ensures
        !fleet.uploads_settled(stopped, decisions).seeders.dom().contains(hash),
        fleet.uploads_settled(stopped, decisions).registry[hash].state == TorrentState::Completed,
        fleet.uploads_settled(stopped, decisions).registry[hash].seeding_status
            == crate::seeding::decided_status(crate::containment::decision_of(decisions, hash)),
{
    lemma_uploads_ended(fleet, stopped, fleet.verdicts(decisions));
    assert(stopped.contains(hash) == fleet.seeders.dom().contains(hash));
}

/// A torrent that was stopped by hand stays stopped, whatever its targets are: it is not chosen to
/// upload, and it is left as it is.
pub proof fn manual_stops_hold(
    fleet: FleetView,
    entries: Seq<(InfoHash, Torrent)>,
    stopped: Seq<InfoHash>,
    decisions: Map<InfoHash, SeedDecision>,
    limit: usize,
    hash: InfoHash,
)
    requires
        crate::index::keys_increase(entries),
        fleet.registry == crate::index::entry_map(entries),
        stopped.no_duplicates(),
        !stopped.contains(hash),
        !fleet.seeders.dom().contains(hash),
        fleet.registry.dom().contains(hash),
        fleet.registry[hash].state == TorrentState::Paused,
        fleet.registry[hash].seeding_status == SeedingStatus::StoppedManual,
    ensures
        !allowed_among(entries, decisions, limit, entries.len()).contains(hash),
        fleet.uploads_settled(stopped, decisions).registry[hash] == fleet.registry[hash],
{
    allowed_uploads_respect_the_limit(entries, decisions, limit, entries.len());
    lemma_uploads_ended(fleet, stopped, fleet.verdicts(decisions));
}

proof fn lemma_allowed_grows(
    entries: Seq<(InfoHash, Torrent)>,
    decisions: Map<InfoHash, SeedDecision>,
    limit: usize,
    fewer: nat,
    count: nat,
)
    requires
        crate::index::keys_increase(entries),
        fewer <= count <= entries.len(),
    ensures
        allowed_among(entries, decisions, limit, fewer).len() <= allowed_among(
            entries,
            decisions,
            limit,
            count,
        ).len(),
        forall|hash: InfoHash| #[trigger]
            allowed_among(entries, decisions, limit, fewer).contains(hash) ==> allowed_among(
                entries,
                decisions,
                limit,
                count,
            ).contains(hash),
        forall|i: int|
            0 <= i < fewer && !allowed_among(entries, decisions, limit, fewer).contains(
                (#[trigger] entries[i]).0,
            ) ==> !allowed_among(entries, decisions, limit, count).contains(entries[i].0),
    decreases count - fewer,
{
    if fewer < count {
        let some = allowed_among(entries, decisions, limit, fewer);
        let more = allowed_among(entries, decisions, limit, fewer + 1);
        lemma_allowed_grows(entries, decisions, limit, fewer + 1, count);
        let next = entries[fewer as int].0;
        if more != some {
            assert(more == some.push(next));
            assert forall|hash: InfoHash| #[trigger] some.contains(hash) implies more.contains(
                hash,
            ) by {
                assert(more[some.index_of(hash)] == hash);
            }
            assert forall|i: int|
                0 <= i < fewer && !some.contains((#[trigger] entries[i]).0) implies !more.contains(
                entries[i].0,
            ) by {
                assert(entries[i].0 != next) by {
                    assert(entries[i].0.rank() < entries[fewer as int].0.rank());
                }
                if more.contains(entries[i].0) {
                    let k = more.index_of(entries[i].0);
                    assert(k < some.len());
                    assert(some[k] == entries[i].0);
                }
            }
        }
    }
}

/// Upload slots go to the torrents that have all their pieces, are shown as completed or uploading
/// and have not reached a target, the first of them first. A torrent of this kind goes without a
/// slot only where there is a limit and all slots are taken, and no later torrent has one then. No
/// other torrent gets one.
pub proof fn upload_slots_are_given_out_in_order(
    entries: Seq<(InfoHash, Torrent)>,
    decisions: Map<InfoHash, SeedDecision>,
    limit: usize,
    i: int,
)
    requires
        crate::index::keys_increase(entries),
        0 <= i < entries.len(),
    ensures
        ({
            let allowed = allowed_among(entries, decisions, limit, entries.len());
            let hash = entries[i].0;
            let torrent = entries[i].1;
            let have = torrent.progress.have@;
            let seeds = have.len() > 0 && (forall|piece: int|
                0 <= piece < have.len() ==> #[trigger] have[piece]) && (torrent.state
                == TorrentState::Completed || torrent.state == TorrentState::Seeding)
                && !(decisions.dom().contains(hash) && decisions[hash] != SeedDecision::Continue);
            &&& allowed.contains(hash) ==> seeds
            &&& limit > 0 ==> allowed.len() <= limit
            &&& seeds && limit == 0 ==> allowed.contains(hash)
            &&& seeds && !allowed.contains(hash) ==> allowed.len() == limit
            &&& seeds && !allowed.contains(hash) ==> forall|j: int|
                i < j < entries.len() ==> !allowed.contains((#[trigger] entries[j]).0)
        }),
{
    let all = allowed_among(entries, decisions, limit, entries.len());
    let hash = entries[i].0;
    let before = allowed_among(entries, decisions, limit, i as nat);
    let with = allowed_among(entries, decisions, limit, (i + 1) as nat);
    allowed_uploads_respect_the_limit(entries, decisions, limit, entries.len());
    allowed_uploads_respect_the_limit(entries, decisions, limit, i as nat);
    crate::index::lemma_entry(entries, i);
    lemma_allowed_grows(entries, decisions, limit, (i + 1) as nat, entries.len());
    let open = can_upload(entries[i].1) && crate::containment::decision_of(decisions, hash)
        == SeedDecision::Continue;
    assert(with == if open && (limit == 0 || before.len() < limit) {
        before.push(hash)
    } else {
        before
    });
    if open && (limit == 0 || before.len() < limit) {
        assert(with[before.len() as int] == hash);
        assert(with.contains(hash));
    }
    if !all.contains(hash) && limit > 0 && before.len() >= limit {
        lemma_allowed_grows(entries, decisions, limit, i as nat, entries.len());
        assert forall|j: int| i < j < entries.len() implies !all.contains(
            (#[trigger] entries[j]).0,
        ) by {
            let upto = allowed_among(entries, decisions, limit, j as nat);
            lemma_allowed_grows(entries, decisions, limit, i as nat, j as nat);
            allowed_uploads_respect_the_limit(entries, decisions, limit, j as nat);
            assert(!upto.contains(entries[j].0)) by {
                if upto.contains(entries[j].0) {
                    let k = choose|k: int|
                        0 <= k < j && (#[trigger] entries[k]).0 == entries[j].0;
                    assert(crate::reconcile::seen_before(entries, j as int, entries[j].0));
                    assert(entries[k].0.rank() < entries[j].0.rank());
                }
            }
            assert(allowed_among(entries, decisions, limit, (j + 1) as nat) == upto);
            lemma_allowed_grows(entries, decisions, limit, (j + 1) as nat, entries.len());
        }
    }
}

/// After uploads were reconciled, an upload lives exactly where one lived and the torrent may
/// upload. A torrent that uploads is shown so. One that does not, though all its pieces are there
/// and it was completed or uploading, is shown as completed, and as waiting or stopped by the
/// target that it reached. Nothing else of a torrent changes.
pub proof fn uploads_follow_the_choice(
    fleet: FleetView,
    allowed: Seq<InfoHash>,
    stopped: Seq<InfoHash>,
    decisions: Map<InfoHash, SeedDecision>,
    hash: InfoHash,
)
    requires
        stopped.no_duplicates(),
        forall|other: InfoHash| #[trigger]
            stopped.contains(other) == (fleet.seeders.dom().contains(other) && !allowed.contains(
                other,
            )),
        fleet.registry.dom().contains(hash),
    ensures
        ({
            let after = fleet.uploads_settled(stopped, decisions);
            let was = fleet.registry[hash];
            let torrent = after.registry[hash];
            let uploads = after.seeders.dom().contains(hash);
            let have = was.progress.have@;
            let whole = have.len() > 0 && forall|piece: int|
                0 <= piece < have.len() ==> #[trigger] have[piece];
            let finished = was.state == TorrentState::Completed || was.state
                == TorrentState::Seeding;
            let reached = if decisions.dom().contains(hash) {
                decisions[hash]
            } else {
                SeedDecision::Continue
            };
            &&& uploads == (fleet.seeders.dom().contains(hash) && allowed.contains(hash))
            &&& uploads ==> torrent.state == TorrentState::Seeding && torrent.seeding_status
                == SeedingStatus::Active
            &&& !uploads && whole && finished ==> torrent.state == TorrentState::Completed
                && torrent.seeding_status == match reached {
                SeedDecision::Continue => SeedingStatus::Queued,
                SeedDecision::StopOnRatio => SeedingStatus::StoppedRatio,
                SeedDecision::StopOnIdle => SeedingStatus::StoppedIdle,
            }
            &&& !whole && !uploads && !finished && !fleet.seeders.dom().contains(hash)
                ==> torrent.state == was.state || was.seeding_status == SeedingStatus::Active
            &&& !whole && !uploads && was.state != TorrentState::NetworkBlocked && was.state
                != TorrentState::Paused ==> torrent.seeding_status == SeedingStatus::NotEligible
            &&& whole && !finished && !uploads && !fleet.seeders.dom().contains(hash)
                && was.seeding_status != SeedingStatus::Active ==> torrent == was
            &&& whole && !finished && !uploads && !fleet.seeders.dom().contains(hash)
                && was.seeding_status == SeedingStatus::Active ==> torrent.state
                == TorrentState::Completed && torrent.seeding_status == SeedingStatus::Queued
            &&& !finished && !uploads && fleet.seeders.dom().contains(hash) && was.state
                != TorrentState::NetworkBlocked && was.state != TorrentState::Paused
                ==> torrent.state == TorrentState::Completed && torrent.seeding_status
                == SeedingStatus::NotEligible
            &&& !uploads && (was.state == TorrentState::NetworkBlocked || was.state
                == TorrentState::Paused) && was.seeding_status != SeedingStatus::Active ==> torrent
                == was
            &&& !uploads && (was.state == TorrentState::NetworkBlocked || was.state
                == TorrentState::Paused) && was.seeding_status == SeedingStatus::Active
                ==> torrent.state == TorrentState::Completed && torrent.seeding_status
                == SeedingStatus::Queued
            &&& torrent == (Torrent {
                state: torrent.state,
                seeding_status: torrent.seeding_status,
                ..was
            })
            &&& after.registry.dom() == fleet.registry.dom()
            &&& after.queue == fleet.queue
            &&& after.engines == fleet.engines
            &&& after.retry_after == fleet.retry_after
            &&& after.rate_samples == fleet.rate_samples
        }),
{
    lemma_uploads_ended(fleet, stopped, fleet.verdicts(decisions));
    let after = fleet.uploads_settled(stopped, decisions);
    assert(after.registry.dom() =~= fleet.registry.dom());
    assert(stopped.contains(hash) == (fleet.seeders.dom().contains(hash) && !allowed.contains(
        hash,
    )));
    match crate::containment::decision_of(decisions, hash) {
        SeedDecision::Continue => {},
        SeedDecision::StopOnRatio => {},
        SeedDecision::StopOnIdle => {},
    }
}

/// An upload is to start exactly for the torrents that may upload and do not yet.
pub proof fn missing_uploads_are_started(
    allowed: Seq<InfoHash>,
    seeders: Map<InfoHash, SeederTask>,
    hash: InfoHash,
)
    requires
        allowed.no_duplicates(),
    ensures
        allowed.filter(not_uploading(seeders)).contains(hash) == (allowed.contains(hash)
            && !seeders.dom().contains(hash)),
        allowed.filter(not_uploading(seeders)).no_duplicates(),
{
    crate::queue::lemma_filter(allowed, not_uploading(seeders));
}

/// Every upload that was ended is told to end, without force.
pub proof fn ended_uploads_are_told(
    fleet: FleetView,
    hashes: Seq<InfoHash>,
    verdicts: spec_fn(InfoHash) -> Option<SeedingStatus>,
    i: int,
)
    requires
        hashes.no_duplicates(),
        0 <= i < hashes.len(),
        fleet.seeders.dom().contains(hashes[i]),
    ensures
        fleet.uploads_end_effects(hashes, verdicts).contains(
            Effect::StopSeeder { hash: hashes[i], force: false },
        ),
    decreases hashes.len(),
{
    let rest = hashes.drop_last();
    let before = fleet.uploads_end_effects(rest, verdicts);
    let all = fleet.uploads_end_effects(hashes, verdicts);
    let wanted = Effect::StopSeeder { hash: hashes[i], force: false };
    lemma_uploads_ended(fleet, rest, verdicts);
    if i < rest.len() {
        assert(rest[i] == hashes[i]);
        ended_uploads_are_told(fleet, rest, verdicts, i);
        assert(all[before.index_of(wanted)] == wanted);
    } else {
        assert(!rest.contains(hashes[i])) by {
            if rest.contains(hashes[i]) {
                assert(hashes[rest.index_of(hashes[i])] == hashes[i]);
            }
        }
        assert(all[before.len() as int] == wanted);
    }
}

} // verus!
