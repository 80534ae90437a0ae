//! Losing and regaining the contained network path.
use crate::clock::Tick;
use crate::effects::{Effect, Event, TorrentEventKind};
use crate::fleet::{EngineTask, Fleet, FleetView, SeederTask};
use crate::gate::ContainmentGate;
use crate::hash::InfoHash;
use crate::index::HashIndex;
use crate::network::{NetworkContainmentStatus, NetworkHealth};
use crate::progress::{EngineReport, TorrentSignals};
use crate::seeding::SeedDecision;
use crate::torrent::{ContainmentRecoveryIntent, Notice, SeedingStatus, Torrent, TorrentState};
use vstd::prelude::*;

verus! {

/// Work that was live when the path was lost.
#[derive(Clone, Copy, PartialEq, Eq, Structural, Debug)]
pub struct LiveWork {
    pub intent: ContainmentRecoveryIntent,
    pub seeding_status: SeedingStatus,
}

/// What the upload targets say of a torrent; where nothing was decided, uploading goes on.
pub open spec fn decision_of(
    decisions: Map<InfoHash, SeedDecision>,
    hash: InfoHash,
) -> SeedDecision {
    if decisions.dom().contains(hash) {
        decisions[hash]
    } else {
        SeedDecision::Continue
    }
}

/// What the upload targets say of a torrent; where nothing was decided, uploading goes on.
pub fn decided(decisions: &HashIndex<SeedDecision>, hash: &InfoHash) -> (decision: SeedDecision)
    requires
        decisions.wf(),
    ensures
        decision == decision_of(decisions@, *hash),
{
    match decisions.get(hash) {
        Some(decision) => *decision,
        None => SeedDecision::Continue,
    }
}

impl FleetView {
    /// The torrent was doing nothing when the path was lost, whatever tasks it still had: it
    /// waits, is paused, is blocked already, or is finished and does not upload.
    pub open spec fn at_rest(self, hash: InfoHash) -> bool {
        match self.registry[hash].state {
            TorrentState::Queued | TorrentState::Paused | TorrentState::NetworkBlocked => true,
            TorrentState::Completed => !self.seeders.dom().contains(hash),
            _ => false,
        }
    }

    /// What a torrent was doing when the path was lost: what is already noted, else nothing for
    /// a torrent at rest, else what its running engine does, else uploading where it was
    /// registered for that and its targets do not stop it.
    pub open spec fn live_intent(
        self,
        hash: InfoHash,
        decisions: Map<InfoHash, SeedDecision>,
    ) -> Option<ContainmentRecoveryIntent> {
        let torrent = self.registry[hash];
        if !self.registry.dom().contains(hash) {
            None
        } else if torrent.containment_recovery_intent.is_some() {
            torrent.containment_recovery_intent
        } else if self.at_rest(hash) {
            None
        } else if self.engines.dom().contains(hash) && !self.engines[hash].finished {
            if torrent.needs_metadata || torrent.state == TorrentState::DownloadingMetadata {
                Some(ContainmentRecoveryIntent::DownloadingMetadata)
            } else {
                Some(ContainmentRecoveryIntent::Downloading)
            }
        } else if self.seeders.dom().contains(hash) && (torrent.state == TorrentState::Completed
            || torrent.state == TorrentState::Seeding) && decision_of(decisions, hash)
            == SeedDecision::Continue {
            Some(ContainmentRecoveryIntent::Seeding)
        } else {
            None
        }
    }

    /// After every engine task was cut.
    pub open spec fn without_engines(self) -> FleetView {
        FleetView { engines: Map::<InfoHash, EngineTask>::empty(), ..self }
    }

    /// After the path was lost: what was live is noted and blocked, no task is left.
    pub open spec fn cut_off(
        self,
        found: FleetView,
        decisions: Map<InfoHash, SeedDecision>,
        detail: String,
    ) -> FleetView {
        FleetView {
            registry: Map::new(
                |hash: InfoHash| self.registry.dom().contains(hash),
                |hash: InfoHash|
                    cut_torrent(
                        self.registry[hash],
                        found.live_intent(hash, decisions),
                        found.registry[hash].seeding_status,
                        detail,
                    ),
            ),
            retry_after: Map::<InfoHash, Tick>::empty(),
            seeders: Map::<InfoHash, SeederTask>::empty(),
            listener_running: false,
            ..self
        }
    }
}

/// A torrent after the path was lost. One that is shown as active though nothing worked for it is
/// blocked too, but nothing is noted for it.
pub open spec fn cut_torrent(
    torrent: Torrent,
    intent: Option<ContainmentRecoveryIntent>,
    status: SeedingStatus,
    detail: String,
) -> Torrent {
    if intent.is_some() {
        Torrent {
            containment_recovery_intent: intent,
            state: TorrentState::NetworkBlocked,
            seeding_status: if intent == Some(ContainmentRecoveryIntent::Seeding) {
                status
            } else {
                torrent.seeding_status
            },
            error: Some(Notice::Text(detail)),
            ..torrent
        }
    } else if torrent.containment_recovery_intent.is_none() && torrent.state.active() {
        Torrent {
            state: TorrentState::NetworkBlocked,
            error: Some(Notice::Text(detail)),
            ..torrent
        }
    } else {
        torrent
    }
}

/// The torrent is blocked when the path is lost.
pub open spec fn is_cut(torrent: Torrent, intent: Option<ContainmentRecoveryIntent>) -> bool {
    intent.is_some() || (torrent.containment_recovery_intent.is_none() && torrent.state.active())
}

/// What a lost path did to a list of torrents, as observers are told.
pub open spec fn blocked_events(changed: Seq<InfoHash>) -> Seq<Effect> {
    changed.map_values(
        |hash: InfoHash|
            crate::effects::torrent_effect(
                TorrentEventKind::Changed,
                hash,
                TorrentState::NetworkBlocked,
            ),
    )
}

/// Ending every engine task.
pub open spec fn engine_cut_effects(engines: Seq<(InfoHash, EngineTask)>) -> Seq<Effect> {
    engines.map_values(
        |entry: (InfoHash, EngineTask)| Effect::StopEngine { hash: entry.0, force: true },
    )
}

/// Ending all uploading.
pub open spec fn seeder_cut_effects(seeders: Seq<(InfoHash, SeederTask)>) -> Seq<Effect> {
    seeders.map_values(
        |entry: (InfoHash, SeederTask)| Effect::StopSeeder { hash: entry.0, force: true },
    )
}

impl Fleet {
    /// What every torrent is doing, for those that do something.
    pub fn live_containment_recovery_intents(&self, decisions: &HashIndex<SeedDecision>) -> (live:
        HashIndex<LiveWork>)
        requires
            self.wf(),
            decisions.wf(),
        ensures
            live.wf(),
            forall|hash: InfoHash| #[trigger]
                live@.dom().contains(hash) == self@.live_intent(hash, decisions@).is_some(),
            forall|hash: InfoHash|
                live@.dom().contains(hash) ==> #[trigger] live@[hash] == (LiveWork {
                    intent: self@.live_intent(hash, decisions@)->0,
                    seeding_status: self@.registry[hash].seeding_status,
                }),
    {
        let mut live: HashIndex<LiveWork> = HashIndex::new();
        let ghost entries = self.registry.seq();
        let mut i: usize = 0;
        while i < self.registry.len()
            invariant
                i <= entries.len(),
                entries == self.registry.seq(),
                self.wf(),
                decisions.wf(),
                live.wf(),
                forall|hash: InfoHash| #[trigger]
                    live@.dom().contains(hash) == (self@.live_intent(hash, decisions@).is_some()
                        && crate::reconcile::seen_before(entries, i as int, hash)),
                forall|hash: InfoHash|
                    live@.dom().contains(hash) ==> #[trigger] live@[hash] == (LiveWork {
                        intent: self@.live_intent(hash, decisions@)->0,
                        seeding_status: self@.registry[hash].seeding_status,
                    }),
            decreases entries.len() - i,
        {
            let hash: InfoHash = self.registry.key_at(i);
            let torrent: &Torrent = self.registry.value_at(i);
            proof {
                crate::reconcile::lemma_seen_step(entries, i as int);
            }
            let running: bool = match self.engines.get(&hash) {
                Some(task) => !task.finished,
                None => false,
            };
            let uploads: bool = self.seeders.contains(&hash);
            let at_rest: bool = match torrent.state {
                TorrentState::Queued | TorrentState::Paused | TorrentState::NetworkBlocked => true,
                TorrentState::Completed => !uploads,
                _ => false,
            };
            let intent: Option<ContainmentRecoveryIntent> = if torrent.containment_recovery_intent.is_some() {
                torrent.containment_recovery_intent
            } else if at_rest {
                None
            } else if running {
                if torrent.needs_metadata || torrent.state == TorrentState::DownloadingMetadata {
                    Some(ContainmentRecoveryIntent::DownloadingMetadata)
                } else {
                    Some(ContainmentRecoveryIntent::Downloading)
                }
            } else if uploads && matches!(
                torrent.state,
                TorrentState::Completed | TorrentState::Seeding
            ) && matches!(decided(decisions, &hash), SeedDecision::Continue) {
                Some(ContainmentRecoveryIntent::Seeding)
            } else {
                None
            };
            if let Some(intent) = intent {
                live.insert(hash, LiveWork { intent, seeding_status: torrent.seeding_status });
            }
            i = i + 1;
        }
        proof {
            crate::reconcile::lemma_seen_all(entries);
        }
        live
    }

    /// Blocks what was live and what is shown as active, and returns which torrents changed.
    fn block_torrents(&mut self, live: &HashIndex<LiveWork>, detail: &String) -> (changed: Vec<
        InfoHash,
    >)
        requires
            old(self).wf(),
            live.wf(),
        ensures
            final(self).wf(),
            final(self)@ == (FleetView { registry: final(self)@.registry, ..old(self)@ }),
            final(self)@.registry.dom() == old(self)@.registry.dom(),
            forall|hash: InfoHash|
                old(self)@.registry.dom().contains(hash) ==> #[trigger] final(self)@.registry[hash]
                    == cut_torrent(
                    old(self)@.registry[hash],
                    intent_of(live@, hash),
                    live@[hash].seeding_status,
                    *detail,
                ),
            changed@.no_duplicates(),
            forall|hash: InfoHash| #[trigger]
                changed@.contains(hash) == (old(self)@.registry.dom().contains(hash) && is_cut(
                    old(self)@.registry[hash],
                    intent_of(live@, hash),
                )),
    {
        let ghost before = self@;
        let ghost entries = self.registry.seq();
        let mut changed: Vec<InfoHash> = Vec::new();
        let mut i: usize = 0;
        while i < self.registry.len()
            invariant
                i <= entries.len(),
                self.wf(),
                live.wf(),
                crate::index::keys_increase(entries),
                before.registry == crate::index::entry_map(entries),
                self@ == (FleetView { registry: self@.registry, ..before }),
                self.registry.seq().len() == entries.len(),
                forall|k: int|
                    0 <= k < entries.len() ==> #[trigger] self.registry.seq()[k] == (
                        entries[k].0,
                        if k < i {
                            cut_torrent(
                                entries[k].1,
                                intent_of(live@, entries[k].0),
                                live@[entries[k].0].seeding_status,
                                *detail,
                            )
                        } else {
                            entries[k].1
                        },
                    ),
                changed@.no_duplicates(),
                forall|hash: InfoHash| #[trigger]
                    changed@.contains(hash) == (crate::reconcile::seen_before(
                        entries,
                        i as int,
                        hash,
                    ) && is_cut(before.registry[hash], intent_of(live@, hash))),
            decreases entries.len() - i,
        {
            let hash: InfoHash = self.registry.key_at(i);
            let work: Option<LiveWork> = match live.get(&hash) {
                Some(work) => Some(*work),
                None => None,
            };
            proof {
                crate::reconcile::lemma_seen_step(entries, i as int);
                crate::index::lemma_entry(entries, i as int);
                assert(self.registry.seq()[i as int] == (entries[i as int].0, entries[i as int].1));
            }
            let torrent: &mut Torrent = self.registry.value_at_mut(i);
            let mut cut: bool = true;
            match work {
                Some(work) => {
                    torrent.containment_recovery_intent = Some(work.intent);
                    torrent.state = TorrentState::NetworkBlocked;
                    if matches!(work.intent, ContainmentRecoveryIntent::Seeding) {
                        torrent.seeding_status = work.seeding_status;
                    }
                    torrent.error = Some(Notice::Text(detail.clone()));
                },
                None => {
                    if torrent.containment_recovery_intent.is_none() && torrent.state.is_active() {
                        torrent.state = TorrentState::NetworkBlocked;
                        torrent.error = Some(Notice::Text(detail.clone()));
                    } else {
                        cut = false;
                    }
                },
            }
            if cut {
                let ghost listed = changed@;
                changed.push(hash);
                proof {
                    crate::reconcile::lemma_pushed(listed, hash);
                }
            }
            i = i + 1;
        }
        proof {
            crate::reconcile::lemma_seen_all(entries);
            crate::index::lemma_rewritten(
                entries,
                self.registry.seq(),
                |hash: InfoHash, torrent: Torrent|
                    cut_torrent(
                        torrent,
                        intent_of(live@, hash),
                        live@[hash].seeding_status,
                        *detail,
                    ),
            );
        }
        changed
    }
}

/// What is noted of live work.
pub open spec fn intent_of(
    live: Map<InfoHash, LiveWork>,
    hash: InfoHash,
) -> Option<ContainmentRecoveryIntent> {
    if live.dom().contains(hash) {
        Some(live[hash].intent)
    } else {
        None
    }
}

/// What losing the path led to.
#[derive(Debug)]
pub struct Blocked {
    /// Torrents that were blocked.
    pub changed: Vec<InfoHash>,
    /// The signals of the torrents that reported for the last time.
    pub signals: Vec<TorrentSignals>,
}

/// What losing the path asks for. The containment gate closes before anything is ended, and the state is
/// written out before observers are told.
pub open spec fn loss_effects(
    status: NetworkContainmentStatus,
    detail: String,
    listener_running: bool,
    engines: Seq<(InfoHash, EngineTask)>,
    seeders: Seq<(InfoHash, SeederTask)>,
    last_reports: Seq<Effect>,
    any_report: bool,
    changed: Seq<InfoHash>,
) -> Seq<Effect> {
    seq![Effect::CloseGate { status, detail }, Effect::StopDht] + (if listener_running {
        seq![Effect::StopListener { force: true }]
    } else {
        Seq::<Effect>::empty()
    }) + engine_cut_effects(engines) + seeder_cut_effects(seeders) + last_reports + (
    if any_report {
        seq![crate::effects::stats_effect()]
    } else {
        Seq::<Effect>::empty()
    }) + seq![Effect::Persist] + blocked_events(changed) + seq![
        Effect::Publish(Event::NetworkStatusChanged { status, traffic_allowed: false, detail }),
        crate::effects::stats_effect(),
    ]
}

fn push_engine_cuts(engines: &HashIndex<EngineTask>, effects: &mut Vec<Effect>)
    requires
        engines.wf(),
    ensures
        final(effects)@ == old(effects)@ + engine_cut_effects(engines.seq()),
{
    let ghost asked = effects@;
    let mut i: usize = 0;
    while i < engines.len()
        invariant
            i <= engines.seq().len(),
            engines.wf(),
            effects@ == asked + engine_cut_effects(engines.seq().take(i as int)),
        decreases engines.seq().len() - i,
    {
        effects.push(Effect::StopEngine { hash: engines.key_at(i), force: true });
        i = i + 1;
        assert(effects@ =~= asked + engine_cut_effects(engines.seq().take(i as int)));
    }
    assert(engines.seq().take(i as int) =~= engines.seq());
}

fn push_seeder_cuts(seeders: &HashIndex<SeederTask>, effects: &mut Vec<Effect>)
    requires
        seeders.wf(),
    ensures
        final(effects)@ == old(effects)@ + seeder_cut_effects(seeders.seq()),
{
    let ghost asked = effects@;
    let mut i: usize = 0;
    while i < seeders.len()
        invariant
            i <= seeders.seq().len(),
            seeders.wf(),
            effects@ == asked + seeder_cut_effects(seeders.seq().take(i as int)),
        decreases seeders.seq().len() - i,
    {
        effects.push(Effect::StopSeeder { hash: seeders.key_at(i), force: true });
        i = i + 1;
        assert(effects@ =~= asked + seeder_cut_effects(seeders.seq().take(i as int)));
    }
    assert(seeders.seq().take(i as int) =~= seeders.seq());
}

fn push_blocked_events(changed: &Vec<InfoHash>, effects: &mut Vec<Effect>)
    ensures
        final(effects)@ == old(effects)@ + blocked_events(changed@),
{
    let ghost asked = effects@;
    let mut i: usize = 0;
    while i < changed.len()
        invariant
            i <= changed@.len(),
            effects@ == asked + blocked_events(changed@.take(i as int)),
        decreases changed@.len() - i,
    {
        effects.push(
            Effect::Publish(
                Event::Torrent {
                    kind: TorrentEventKind::Changed,
                    hash: changed[i],
                    state: TorrentState::NetworkBlocked,
                },
            ),
        );
        i = i + 1;
        assert(effects@ =~= asked + blocked_events(changed@.take(i as int)));
    }
    assert(changed@.take(i as int) =~= changed@);
}

/// Last reports leave the notes of a torrent as they are.
proof fn lemma_progress_keeps_notes(
    before: FleetView,
    after: FleetView,
    reports: Seq<EngineReport>,
    now: Tick,
)
    requires
        crate::progress::progress_made(before, after, reports, now),
    ensures
        forall|hash: InfoHash|
            before.registry.dom().contains(hash) ==> (
            #[trigger] after.registry[hash]).containment_recovery_intent
                == before.registry[hash].containment_recovery_intent,
{
    assert forall|hash: InfoHash| before.registry.dom().contains(hash) implies (
    #[trigger] after.registry[hash]).containment_recovery_intent
        == before.registry[hash].containment_recovery_intent by {
        if crate::progress::reported(reports, hash) {
            let i = choose|i: int| 0 <= i < reports.len() && (#[trigger] reports[i]).hash == hash;
            assert(before.took_over(after, reports[i], now));
        } else {
            assert(crate::progress::lookup(after.registry, hash) == crate::progress::lookup(
                before.registry,
                hash,
            ));
        }
    }
}

impl Fleet {
    /// The path was lost: the containment gate closes, every task ends, what was live is noted and blocked.
    #[verifier::rlimit(60)]
    pub fn transition_data_plane_to_blocked(
        &mut self,
        gate: &mut ContainmentGate,
        health: &mut NetworkHealth,
        status: NetworkContainmentStatus,
        detail: &String,
        reports: Vec<EngineReport>,
        decisions: &HashIndex<SeedDecision>,
        global_download_limit: u64,
        now: Tick,
        effects: &mut Vec<Effect>,
    ) -> (done: Blocked)
        requires
            old(self).wf(),
            decisions.wf(),
            crate::progress::one_report_each(reports@),
        ensures
            final(self).wf(),
            final(gate)@ == crate::gate::blocked_gate(old(gate)@, status, detail@),
            *final(health) == (NetworkHealth {
                status,
                detail: *detail,
                traffic_allowed: false,
                ..*old(health)
            }),
            done.changed@.no_duplicates(),
            exists|last: FleetView|
                {
                    &&& #[trigger] crate::progress::progress_made(
                        old(self)@.without_engines(),
                        last,
                        reports@,
                        now,
                    )
                    &&& final(self)@ == last.cut_off(old(self)@, decisions@, *detail)
                    &&& forall|hash: InfoHash| #[trigger]
                        done.changed@.contains(hash) == (last.registry.dom().contains(hash)
                            && is_cut(
                            last.registry[hash],
                            old(self)@.live_intent(hash, decisions@),
                        ))
                    &&& crate::progress::signals_recorded(
                        old(self)@.without_engines(),
                        last,
                        reports@,
                        done.signals@,
                        global_download_limit,
                        *old(health),
                        now,
                        reports@.len(),
                    )
                    &&& final(effects)@ == old(effects)@ + loss_effects(
                        status,
                        *detail,
                        old(self)@.listener_running,
                        old(self).engines.seq(),
                        old(self).seeders.seq(),
                        crate::progress::all_report_events(
                            old(self)@.registry,
                            last.registry,
                            reports@,
                            reports@.len(),
                        ),
                        reports@.len() > 0,
                        done.changed@,
                    )
                },
    {
        let ghost found = self@;
        let ghost asked = effects@;
        let ghost listener = self.listener_running;
        let ghost engine_entries = self.engines.seq();
        let ghost seeder_entries = self.seeders.seq();
        gate.block(status, detail.as_str());
        effects.push(Effect::CloseGate { status, detail: detail.clone() });
        let live: HashIndex<LiveWork> = self.live_containment_recovery_intents(decisions);
        effects.push(Effect::StopDht);
        if self.listener_running {
            effects.push(Effect::StopListener { force: true });
        }
        push_engine_cuts(&self.engines, effects);
        push_seeder_cuts(&self.seeders, effects);
        self.engines.clear();
        let ghost torn = self@;
        let ghost stopped = effects@;
        let signals: Vec<TorrentSignals> = self.reconcile_engine_progress(
            reports,
            false,
            global_download_limit,
            health,
            now,
            effects,
        );
        let ghost last = self@;
        let changed: Vec<InfoHash> = self.block_torrents(&live, detail);
        self.seeders.clear();
        self.listener_running = false;
        self.retry_after.clear();
        health.status = status;
        health.detail = detail.clone();
        health.traffic_allowed = false;
        effects.push(Effect::Persist);
        push_blocked_events(&changed, effects);
        effects.push(
            Effect::Publish(
                Event::NetworkStatusChanged {
                    status,
                    traffic_allowed: false,
                    detail: detail.clone(),
                },
            ),
        );
        effects.push(Effect::Publish(Event::StatsUpdated));
        proof {
            assert(torn == found.without_engines());
            assert forall|hash: InfoHash| #[trigger] intent_of(live@, hash) == found.live_intent(
                hash,
                decisions@,
            ) by {
                assert(live@.dom().contains(hash) == found.live_intent(
                    hash,
                    decisions@,
                ).is_some());
                if live@.dom().contains(hash) {
                    assert(live@[hash] == (LiveWork {
                        intent: found.live_intent(hash, decisions@)->0,
                        seeding_status: found.registry[hash].seeding_status,
                    }));
                }
            }
            assert(self@.registry =~= last.cut_off(found, decisions@, *detail).registry) by {
                assert forall|hash: InfoHash| last.registry.dom().contains(hash) implies
                    #[trigger] self@.registry[hash] == last.cut_off(
                    found,
                    decisions@,
                    *detail,
                ).registry[hash] by {
                    assert(intent_of(live@, hash) == found.live_intent(hash, decisions@));
                    if live@.dom().contains(hash) {
                        assert(live@[hash].seeding_status == found.registry[hash].seeding_status);
                    }
                }
            }
            assert(self@ == last.cut_off(found, decisions@, *detail));
            assert forall|hash: InfoHash| #[trigger] changed@.contains(hash) == (
            last.registry.dom().contains(hash) && is_cut(
                last.registry[hash],
                found.live_intent(hash, decisions@),
            )) by {
                assert(intent_of(live@, hash) == found.live_intent(hash, decisions@));
            }
            let reported = crate::progress::all_report_events(
                found.registry,
                last.registry,
                reports@,
                reports@.len(),
            );
            assert(effects@ =~= asked + loss_effects(
                status,
                *detail,
                listener,
                engine_entries,
                seeder_entries,
                reported,
                reports@.len() > 0,
                changed@,
            ));
        }
        Blocked { changed, signals }
    }
}

/// What is noted when the path is lost is what was live then, no more and no less.
pub proof fn loss_notes_exactly_live_work(
    found: FleetView,
    last: FleetView,
    reports: Seq<EngineReport>,
    decisions: Map<InfoHash, SeedDecision>,
    detail: String,
    now: Tick,
    hash: InfoHash,
)
    requires
        crate::progress::progress_made(found.without_engines(), last, reports, now),
        found.registry.dom().contains(hash),
    ensures
        last.cut_off(found, decisions, detail).registry.dom().contains(hash),
        last.cut_off(found, decisions, detail).registry[hash].containment_recovery_intent
            == found.live_intent(hash, decisions),
        found.live_intent(hash, decisions).is_some() ==> last.cut_off(
            found,
            decisions,
            detail,
        ).registry[hash].state == TorrentState::NetworkBlocked,
        !last.cut_off(found, decisions, detail).registry[hash].state.active(),
{
    lemma_progress_keeps_notes(found.without_engines(), last, reports, now);
    assert(last.registry[hash].containment_recovery_intent
        == found.registry[hash].containment_recovery_intent);
}

/// A torrent that waits, is paused, is blocked already, or is finished and does not upload gets no
/// note when the path is lost, whatever tasks it still has; one whose targets are reached gets none
/// either unless an engine runs for it.
pub proof fn torrents_at_rest_get_no_note(
    found: FleetView,
    last: FleetView,
    reports: Seq<EngineReport>,
    decisions: Map<InfoHash, SeedDecision>,
    detail: String,
    now: Tick,
    hash: InfoHash,
)
    requires
        crate::progress::progress_made(found.without_engines(), last, reports, now),
        found.registry.dom().contains(hash),
        found.registry[hash].containment_recovery_intent.is_none(),
        found.at_rest(hash) || (!found.engines.dom().contains(hash) && decision_of(decisions, hash)
            != SeedDecision::Continue),
    ensures
        last.cut_off(found, decisions, detail).registry[hash].containment_recovery_intent.is_none(),
{
    loss_notes_exactly_live_work(found, last, reports, decisions, detail, now, hash);
}

/// Once the path is lost nothing works: no task is left, the listener is down, and no torrent is
/// shown as active.
pub proof fn lost_paths_leave_nothing_at_work(
    found: FleetView,
    last: FleetView,
    reports: Seq<EngineReport>,
    decisions: Map<InfoHash, SeedDecision>,
    detail: String,
    now: Tick,
)
    requires
        crate::progress::progress_made(found.without_engines(), last, reports, now),
    ensures
        ({
            let after = last.cut_off(found, decisions, detail);
            &&& after.engines == Map::<InfoHash, EngineTask>::empty()
            &&& after.seeders == Map::<InfoHash, SeederTask>::empty()
            &&& !after.listener_running
            &&& forall|hash: InfoHash| #[trigger]
                after.registry.dom().contains(hash) ==> !after.registry[hash].state.active()
        }),
{
    let after = last.cut_off(found, decisions, detail);
    assert forall|hash: InfoHash| #[trigger] after.registry.dom().contains(hash) implies
        !after.registry[hash].state.active() by {
        assert(found.without_engines().registry.dom().contains(hash));
        loss_notes_exactly_live_work(found, last, reports, decisions, detail, now, hash);
    }
}

/// The containment gate closes before anything else is done about a lost path.
pub proof fn the_containment_gate_closes_first(
    status: NetworkContainmentStatus,
    detail: String,
    listener_running: bool,
    engines: Seq<(InfoHash, EngineTask)>,
    seeders: Seq<(InfoHash, SeederTask)>,
    last_reports: Seq<Effect>,
    any_report: bool,
    changed: Seq<InfoHash>,
)
    ensures
        loss_effects(
            status,
            detail,
            listener_running,
            engines,
            seeders,
            last_reports,
            any_report,
            changed,
        )[0] == (Effect::CloseGate { status, detail }),
{
}

/// What regaining the path leads to.
#[derive(Debug)]
pub struct Recovery {
    /// Torrents whose noted work is taken up again.
    pub changed: Vec<InfoHash>,
    /// Of these, those that download.
    pub downloads: Vec<InfoHash>,
    /// Of these, those that upload.
    pub seeders: Vec<InfoHash>,
}

/// A torrent after the path was regained: what was noted is taken up, and only that.
pub open spec fn regained(torrent: Torrent) -> Torrent {
    match torrent.containment_recovery_intent {
        None => torrent,
        Some(ContainmentRecoveryIntent::Seeding) => Torrent {
            containment_recovery_intent: None,
            error: None,
            state: TorrentState::Completed,
            seeding_status: SeedingStatus::Queued,
            ..torrent
        },
        Some(_) => Torrent {
            containment_recovery_intent: None,
            error: None,
            state: TorrentState::Queued,
            seeding_status: SeedingStatus::NotEligible,
            ..torrent
        },
    }
}

impl FleetView {
    /// Something is noted for the torrent.
    pub open spec fn noted(self, hash: InfoHash) -> bool {
        self.registry.dom().contains(hash)
            && self.registry[hash].containment_recovery_intent.is_some()
    }

    /// A download is noted for the torrent.
    pub open spec fn noted_download(self, hash: InfoHash) -> bool {
        self.noted(hash) && self.registry[hash].containment_recovery_intent != Some(
            ContainmentRecoveryIntent::Seeding,
        )
    }

    /// Uploading is noted for the torrent.
    pub open spec fn noted_seeding(self, hash: InfoHash) -> bool {
        self.noted(hash) && self.registry[hash].containment_recovery_intent == Some(
            ContainmentRecoveryIntent::Seeding,
        )
    }

    /// After the path was regained. Downloads that are taken up jump the queue.
    pub open spec fn path_regained(self, downloads: Seq<InfoHash>) -> FleetView {
        FleetView {
            registry: Map::new(
                |hash: InfoHash| self.registry.dom().contains(hash),
                |hash: InfoHash| regained(self.registry[hash]),
            ),
            queue: crate::queue::QueueView {
                order: crate::queue::appended_all(self.queue.order, downloads),
                bypass: crate::queue::appended_all(self.queue.bypass, downloads),
                ..self.queue
            },
            ..self
        }
    }
}

/// What starting uploads asks for.
pub open spec fn seeder_start_effects(seeders: Seq<InfoHash>) -> Seq<Effect> {
    seeders.map_values(|hash: InfoHash| Effect::StartSeeder { hash })
}

impl Fleet {
    /// Takes up what was noted for each torrent.
    pub fn take_up_notes(&mut self) -> (taken: Recovery)
        requires
            old(self).wf(),
        ensures
            final(self).wf(),
            final(self)@ == (FleetView { registry: final(self)@.registry, ..old(self)@ }),
            final(self)@.registry == old(self)@.path_regained(
                Seq::<InfoHash>::empty(),
            ).registry,
            taken.changed@.no_duplicates(),
            taken.downloads@.no_duplicates(),
            taken.seeders@.no_duplicates(),
            forall|hash: InfoHash| #[trigger]
                taken.changed@.contains(hash) == old(self)@.noted(hash),
            forall|hash: InfoHash| #[trigger]
                taken.downloads@.contains(hash) == old(self)@.noted_download(hash),
            forall|hash: InfoHash| #[trigger]
                taken.seeders@.contains(hash) == old(self)@.noted_seeding(hash),
    {
        let ghost before = self@;
        let ghost entries = self.registry.seq();
        let mut changed: Vec<InfoHash> = Vec::new();
        let mut downloads: Vec<InfoHash> = Vec::new();
        let mut seeders: Vec<InfoHash> = Vec::new();
        let mut i: usize = 0;
        while i < self.registry.len()
            invariant
                i <= entries.len(),
                self.wf(),
                crate::index::keys_increase(entries),
                before.registry == crate::index::entry_map(entries),
                self@ == (FleetView { registry: self@.registry, ..before }),
                self.registry.seq().len() == entries.len(),
                forall|k: int|
                    0 <= k < entries.len() ==> #[trigger] self.registry.seq()[k] == (
                        entries[k].0,
                        if k < i {
                            regained(entries[k].1)
                        } else {
                            entries[k].1
                        },
                    ),
                changed@.no_duplicates(),
                downloads@.no_duplicates(),
                seeders@.no_duplicates(),
                forall|hash: InfoHash| #[trigger]
                    changed@.contains(hash) == (crate::reconcile::seen_before(
                        entries,
                        i as int,
                        hash,
                    ) && before.noted(hash)),
                forall|hash: InfoHash| #[trigger]
                    downloads@.contains(hash) == (crate::reconcile::seen_before(
                        entries,
                        i as int,
                        hash,
                    ) && before.noted_download(hash)),
                forall|hash: InfoHash| #[trigger]
                    seeders@.contains(hash) == (crate::reconcile::seen_before(
                        entries,
                        i as int,
                        hash,
                    ) && before.noted_seeding(hash)),
            decreases entries.len() - i,
        {
            let hash: InfoHash = self.registry.key_at(i);
            proof {
                crate::reconcile::lemma_seen_step(entries, i as int);
                crate::index::lemma_entry(entries, i as int);
                assert(self.registry.seq()[i as int] == (entries[i as int].0, entries[i as int].1));
            }
            let torrent: &mut Torrent = self.registry.value_at_mut(i);
            if let Some(intent) = torrent.containment_recovery_intent {
                torrent.containment_recovery_intent = None;
                torrent.error = None;
                if matches!(intent, ContainmentRecoveryIntent::Seeding) {
                    torrent.seeding_status = SeedingStatus::Queued;
                    torrent.state = TorrentState::Completed;
                    proof {
                        crate::reconcile::lemma_pushed(seeders@, hash);
                    }
                    seeders.push(hash);
                } else {
                    torrent.seeding_status = SeedingStatus::NotEligible;
                    torrent.state = TorrentState::Queued;
                    proof {
                        crate::reconcile::lemma_pushed(downloads@, hash);
                    }
                    downloads.push(hash);
                }
                proof {
                    crate::reconcile::lemma_pushed(changed@, hash);
                }
                changed.push(hash);
            }
            i = i + 1;
        }
        proof {
            crate::reconcile::lemma_seen_all(entries);
            crate::index::lemma_rewritten(
                entries,
                self.registry.seq(),
                |hash: InfoHash, torrent: Torrent| regained(torrent),
            );
            assert(self@.registry =~= before.path_regained(Seq::<InfoHash>::empty()).registry);
        }
        Recovery { changed, downloads, seeders }
    }

    fn queue_ahead(&mut self, hashes: &Vec<InfoHash>)
        requires
            old(self).wf(),
        ensures
            final(self).wf(),
            final(self)@ == (FleetView {
                queue: crate::queue::QueueView {
                    order: crate::queue::appended_all(old(self)@.queue.order, hashes@),
                    bypass: crate::queue::appended_all(old(self)@.queue.bypass, hashes@),
                    ..old(self)@.queue
                },
                ..old(self)@
            }),
    {
        let ghost before = self@;
        let mut i: usize = 0;
        while i < hashes.len()
            invariant
                i <= hashes@.len(),
                self.wf(),
                self@ == (FleetView {
                    queue: crate::queue::QueueView {
                        order: crate::queue::appended_all(
                            before.queue.order,
                            hashes@.take(i as int),
                        ),
                        bypass: crate::queue::appended_all(
                            before.queue.bypass,
                            hashes@.take(i as int),
                        ),
                        ..before.queue
                    },
                    ..before
                }),
            decreases hashes@.len() - i,
        {
            assert(hashes@.take(i + 1).drop_last() =~= hashes@.take(i as int));
            self.queue.add(hashes[i]);
            self.queue.start_now(&hashes[i]);
            i = i + 1;
        }
        assert(hashes@.take(i as int) =~= hashes@);
    }

    /// The path was regained: the containment gate opens, and what was noted is taken up again. Nothing else
    /// starts.
    pub fn recover_containment_work(
        &mut self,
        gate: &mut ContainmentGate,
        health: &mut NetworkHealth,
        next: &NetworkHealth,
        effects: &mut Vec<Effect>,
    ) -> (taken: Recovery)
        requires
            old(self).wf(),
        ensures
            final(self).wf(),
            final(gate)@ == crate::gate::allowed_gate(old(gate)@),
            *final(health) == *next,
            taken.changed@.no_duplicates(),
            taken.downloads@.no_duplicates(),
            taken.seeders@.no_duplicates(),
            forall|hash: InfoHash| #[trigger]
                taken.changed@.contains(hash) == old(self)@.noted(hash),
            forall|hash: InfoHash| #[trigger]
                taken.downloads@.contains(hash) == old(self)@.noted_download(hash),
            forall|hash: InfoHash| #[trigger]
                taken.seeders@.contains(hash) == old(self)@.noted_seeding(hash),
            final(self)@ == old(self)@.path_regained(taken.downloads@),
            final(effects)@ == old(effects)@ + seq![Effect::OpenGate, Effect::Persist]
                + crate::reconcile::start_effects(taken.downloads@) + seeder_start_effects(
                taken.seeders@,
            ),
    {
        let ghost asked = effects@;
        *health = next.clone();
        gate.allow();
        effects.push(Effect::OpenGate);
        let taken: Recovery = self.take_up_notes();
        effects.push(Effect::Persist);
        self.queue_ahead(&taken.downloads);
        let ghost opened = effects@;
        let mut i: usize = 0;
        while i < taken.downloads.len()
            invariant
                i <= taken.downloads@.len(),
                effects@ == opened + crate::reconcile::start_effects(
                    taken.downloads@.take(i as int),
                ),
            decreases taken.downloads@.len() - i,
        {
            effects.push(Effect::StartEngine { hash: taken.downloads[i] });
            i = i + 1;
            assert(effects@ =~= opened + crate::reconcile::start_effects(
                taken.downloads@.take(i as int),
            ));
        }
        assert(taken.downloads@.take(i as int) =~= taken.downloads@);
        let ghost started = effects@;
        i = 0;
        while i < taken.seeders.len()
            invariant
                i <= taken.seeders@.len(),
                effects@ == started + seeder_start_effects(taken.seeders@.take(i as int)),
            decreases taken.seeders@.len() - i,
        {
            effects.push(Effect::StartSeeder { hash: taken.seeders[i] });
            i = i + 1;
            assert(effects@ =~= started + seeder_start_effects(taken.seeders@.take(i as int)));
        }
        assert(taken.seeders@.take(i as int) =~= taken.seeders@);
        assert(effects@ =~= asked + seq![Effect::OpenGate, Effect::Persist]
            + crate::reconcile::start_effects(taken.downloads@) + seeder_start_effects(
            taken.seeders@,
        ));
        taken
    }

    /// Tells observers where the torrents stand whose work was taken up again.
    pub fn tell_recovered(
        &self,
        changed: &Vec<InfoHash>,
        health: &NetworkHealth,
        effects: &mut Vec<Effect>,
    )
        requires
            self.wf(),
        ensures
            final(effects)@ == old(effects)@ + self@.standing_events(changed@) + seq![
                Effect::Publish(
                    Event::NetworkStatusChanged {
                        status: health.status,
                        traffic_allowed: true,
                        detail: health.detail,
                    },
                ),
                crate::effects::stats_effect(),
            ],
    {
        let ghost asked = effects@;
        let mut i: usize = 0;
        assert(effects@ =~= asked + self@.standing_events(changed@.take(0)));
        while i < changed.len()
            invariant
                i <= changed@.len(),
                self.wf(),
                effects@ == asked + self@.standing_events(changed@.take(i as int)),
            decreases changed@.len() - i,
        {
            let hash: InfoHash = changed[i];
            assert(changed@.take(i + 1).drop_last() =~= changed@.take(i as int));
            if let Some(torrent) = self.registry.get(&hash) {
                effects.push(
                    Effect::Publish(
                        Event::Torrent {
                            kind: TorrentEventKind::Changed,
                            hash,
                            state: torrent.state,
                        },
                    ),
                );
            }
            assert(effects@ =~= asked + self@.standing_events(changed@.take(i + 1)));
            i = i + 1;
        }
        assert(changed@.take(i as int) =~= changed@);
        let ghost told = effects@;
        effects.push(
            Effect::Publish(
                Event::NetworkStatusChanged {
                    status: health.status,
                    traffic_allowed: true,
                    detail: health.detail.clone(),
                },
            ),
        );
        effects.push(Effect::Publish(Event::StatsUpdated));
        assert(effects@ =~= told + seq![
            Effect::Publish(
                Event::NetworkStatusChanged {
                    status: health.status,
                    traffic_allowed: true,
                    detail: health.detail,
                },
            ),
            crate::effects::stats_effect(),
        ]);
        assert(effects@ =~= asked + self@.standing_events(changed@) + seq![
            Effect::Publish(
                Event::NetworkStatusChanged {
                    status: health.status,
                    traffic_allowed: true,
                    detail: health.detail,
                },
            ),
            crate::effects::stats_effect(),
        ]);
    }
}

impl FleetView {
    /// Where known torrents stand, as observers are told.
    pub open spec fn standing_events(self, hashes: Seq<InfoHash>) -> Seq<Effect>
        decreases hashes.len(),
    {
        if hashes.len() == 0 {
            Seq::<Effect>::empty()
        } else {
            let before = self.standing_events(hashes.drop_last());
            let hash = hashes.last();
            if self.registry.dom().contains(hash) {
                before.push(
                    crate::effects::torrent_effect(
                        TorrentEventKind::Changed,
                        hash,
                        self.registry[hash].state,
                    ),
                )
            } else {
                before
            }
        }
    }
}

/// A torrent for which nothing is noted is left as it is when the path is regained.
pub proof fn regaining_starts_nothing_else(
    fleet: FleetView,
    downloads: Seq<InfoHash>,
    hash: InfoHash,
)
    requires
        fleet.registry.dom().contains(hash),
        !fleet.noted(hash),
    ensures
        fleet.path_regained(downloads).registry[hash] == fleet.registry[hash],
{
}

/// Notes are used up when the path is regained.
pub proof fn regaining_uses_up_notes(fleet: FleetView, downloads: Seq<InfoHash>, hash: InfoHash)
    ensures
        !fleet.path_regained(downloads).noted(hash),
{
}

/// Losing the path and regaining it takes up exactly the work that was live when it was lost.
pub proof fn recovery_takes_up_live_work(
    found: FleetView,
    last: FleetView,
    reports: Seq<EngineReport>,
    decisions: Map<InfoHash, SeedDecision>,
    detail: String,
    now: Tick,
    hash: InfoHash,
)
    requires
        crate::progress::progress_made(found.without_engines(), last, reports, now),
    ensures
        last.cut_off(found, decisions, detail).noted(hash) == found.live_intent(
            hash,
            decisions,
        ).is_some(),
        last.cut_off(found, decisions, detail).noted_seeding(hash) == (found.live_intent(
            hash,
            decisions,
        ) == Some(ContainmentRecoveryIntent::Seeding)),
{
    if found.registry.dom().contains(hash) {
        loss_notes_exactly_live_work(found, last, reports, decisions, detail, now, hash);
    }
}

/// Work that was noted when the path was lost is taken up when it is back. A noted download or
/// metadata fetch waits at the head of the queue, with no error, and gets a slot as soon as one of
/// its class is free, unless a retry is due only later; a noted upload is a completed torrent whose
/// uploading may go on; any other torrent is left alone. Of the torrent itself nothing else changes.
pub proof fn noted_work_goes_on(
    fleet: FleetView,
    downloads: Seq<InfoHash>,
    now: Tick,
    limits: crate::config::QueueLimits,
    hash: InfoHash,
)
    requires
        fleet.queue.wf(),
        fleet.registry.dom().contains(hash),
        forall|other: InfoHash| #[trigger]
            downloads.contains(other) == fleet.noted_download(other),
    ensures
        ({
            let after = fleet.path_regained(downloads);
            let was = fleet.registry[hash];
            let torrent = after.registry[hash];
            let note = was.containment_recovery_intent;
            let download = note == Some(ContainmentRecoveryIntent::Downloading) || note == Some(
                ContainmentRecoveryIntent::DownloadingMetadata,
            );
            let upload = note == Some(ContainmentRecoveryIntent::Seeding);
            &&& after.registry.dom() == fleet.registry.dom()
            &&& torrent == (Torrent {
                state: torrent.state,
                seeding_status: torrent.seeding_status,
                error: torrent.error,
                containment_recovery_intent: None,
                ..was
            })
            &&& download ==> {
                &&& torrent.state == TorrentState::Queued
                &&& torrent.seeding_status == SeedingStatus::NotEligible
                &&& torrent.error.is_none()
                &&& after.queue.order.contains(hash)
                &&& after.queue.bypass.contains(hash)
                &&& !(fleet.retry_after.dom().contains(hash) && fleet.retry_after[hash].nanos
                    > now.nanos) ==> (crate::scheduler::Plan {
                    registry: after.registry,
                    retry_after: after.retry_after,
                    now,
                    limits,
                    bypass: after.queue.bypass,
                    excluded: None,
                }).eligible(hash)
            }
            &&& upload ==> {
                &&& torrent.state == TorrentState::Completed
                &&& torrent.seeding_status == SeedingStatus::Queued
                &&& torrent.error.is_none()
                &&& torrent.progress.complete() ==> crate::seeders::can_upload(torrent)
            }
            &&& note.is_none() ==> torrent == was
            &&& !download ==> after.queue.bypass.contains(hash) == fleet.queue.bypass.contains(hash)
            &&& !download ==> after.queue.order.contains(hash) == fleet.queue.order.contains(hash)
            &&& after.queue.order.take(fleet.queue.order.len() as int) == fleet.queue.order
            &&& after.queue.bypass.take(fleet.queue.bypass.len() as int) == fleet.queue.bypass
            &&& after.engines == fleet.engines
            &&& after.seeders == fleet.seeders
            &&& after.retry_after == fleet.retry_after
        }),
{
    let after = fleet.path_regained(downloads);
    crate::queue::lemma_all_appended(fleet.queue.order, downloads);
    crate::queue::lemma_all_appended(fleet.queue.bypass, downloads);
    assert(downloads.contains(hash) == fleet.noted_download(hash));
    assert(after.registry.dom() =~= fleet.registry.dom());
}

/// What regaining the path asks for starts an engine for every noted download and for nothing else,
/// and an upload for every noted upload and for nothing else.
pub proof fn noted_work_is_started(
    fleet: FleetView,
    downloads: Seq<InfoHash>,
    seeders: Seq<InfoHash>,
    hash: InfoHash,
)
    requires
        forall|other: InfoHash| #[trigger]
            downloads.contains(other) == fleet.noted_download(other),
        forall|other: InfoHash| #[trigger]
            seeders.contains(other) == fleet.noted_seeding(other),
    ensures
        ({
            let asked = crate::reconcile::start_effects(downloads) + seeder_start_effects(seeders);
            let note = fleet.registry[hash].containment_recovery_intent;
            let known = fleet.registry.dom().contains(hash);
            &&& asked.contains(Effect::StartEngine { hash }) == (known && (note == Some(
                ContainmentRecoveryIntent::Downloading,
            ) || note == Some(ContainmentRecoveryIntent::DownloadingMetadata)))
            &&& asked.contains(Effect::StartSeeder { hash }) == (known && note == Some(
                ContainmentRecoveryIntent::Seeding,
            ))
        }),
{
    let engines = crate::reconcile::start_effects(downloads);
    let uploads = seeder_start_effects(seeders);
    let asked = engines + uploads;
    let engine = Effect::StartEngine { hash };
    let upload = Effect::StartSeeder { hash };
    let note = fleet.registry[hash].containment_recovery_intent;
    assert(note.is_some() ==> note == Some(ContainmentRecoveryIntent::Downloading) || note == Some(
        ContainmentRecoveryIntent::DownloadingMetadata,
    ) || note == Some(ContainmentRecoveryIntent::Seeding)) by {
        match note {
            Some(ContainmentRecoveryIntent::Downloading) => {},
            Some(ContainmentRecoveryIntent::DownloadingMetadata) => {},
            Some(ContainmentRecoveryIntent::Seeding) => {},
            None => {},
        }
    }
    assert(downloads.contains(hash) == fleet.noted_download(hash));
    assert(seeders.contains(hash) == fleet.noted_seeding(hash));
    if downloads.contains(hash) {
        assert(asked[downloads.index_of(hash)] == engine);
    }
    if seeders.contains(hash) {
        assert(asked[engines.len() + seeders.index_of(hash)] == upload);
    }
    if asked.contains(engine) {
        let k = asked.index_of(engine);
        if k < engines.len() {
            assert(engines[k] == engine);
            assert(downloads[k] == hash);
        } else {
            assert(uploads[k - engines.len()] == engine);
        }
    }
    if asked.contains(upload) {
        let k = asked.index_of(upload);
        if k < engines.len() {
            assert(engines[k] == upload);
        } else {
            assert(uploads[k - engines.len()] == upload);
            assert(seeders[k - engines.len()] == hash);
        }
    }
}

/// What happens to a torrent when the path is lost. One for which an engine ran while it downloaded
/// or fetched metadata, or which uploaded and had not reached its targets, is blocked, says why, and
/// is noted for what it did; one that waits or is paused is left as it was last reported.
pub proof fn live_work_is_cut_and_noted(
    found: FleetView,
    last: FleetView,
    reports: Seq<EngineReport>,
    decisions: Map<InfoHash, SeedDecision>,
    detail: String,
    now: Tick,
    hash: InfoHash,
)
    requires
        crate::progress::progress_made(found.without_engines(), last, reports, now),
        found.registry.dom().contains(hash),
        found.registry[hash].containment_recovery_intent.is_none(),
    ensures
        ({
            let was = found.registry[hash];
            let after = last.cut_off(found, decisions, detail);
            let torrent = after.registry[hash];
            let runs = found.engines.dom().contains(hash) && !found.engines[hash].finished;
            let uploads = found.seeders.dom().contains(hash) && (decisions.dom().contains(hash)
                ==> decisions[hash] == SeedDecision::Continue);
            &&& runs && was.state == TorrentState::DownloadingMetadata ==> {
                &&& torrent.state == TorrentState::NetworkBlocked
                &&& torrent.error == Some(Notice::Text(detail))
                &&& torrent.containment_recovery_intent == Some(
                    ContainmentRecoveryIntent::DownloadingMetadata,
                )
            }
            &&& runs && was.state == TorrentState::Downloading ==> {
                &&& torrent.state == TorrentState::NetworkBlocked
                &&& torrent.error == Some(Notice::Text(detail))
                &&& torrent.containment_recovery_intent == Some(
                    if was.needs_metadata {
                        ContainmentRecoveryIntent::DownloadingMetadata
                    } else {
                        ContainmentRecoveryIntent::Downloading
                    },
                )
            }
            &&& !runs && uploads && (was.state == TorrentState::Seeding || was.state
                == TorrentState::Completed) ==> {
                &&& torrent.state == TorrentState::NetworkBlocked
                &&& torrent.error == Some(Notice::Text(detail))
                &&& torrent.containment_recovery_intent == Some(ContainmentRecoveryIntent::Seeding)
                &&& torrent.seeding_status == was.seeding_status
            }
            &&& was.state == TorrentState::Paused ==> torrent == last.registry[hash]
            &&& was.state == TorrentState::Paused ==> torrent.state == TorrentState::Paused
            &&& was.state == TorrentState::Queued || was.state == TorrentState::Paused
                || was.state == TorrentState::NetworkBlocked ==> torrent.containment_recovery_intent
                .is_none()
            &&& after.queue == found.queue
            &&& after.engines.dom() == Set::<InfoHash>::empty()
            &&& after.seeders.dom() == Set::<InfoHash>::empty()
            &&& after.retry_after.dom() == Set::<InfoHash>::empty()
            &&& !after.listener_running
        }),
{
    loss_notes_exactly_live_work(found, last, reports, decisions, detail, now, hash);
    let torn = found.without_engines();
    if exists|i: int| 0 <= i < reports.len() && (#[trigger] reports[i]).hash == hash {
        let i = choose|i: int| 0 <= i < reports.len() && (#[trigger] reports[i]).hash == hash;
        assert(torn.took_over(last, reports[i], now));
    } else {
        crate::progress::reports_touch_only_their_torrents(torn, last, reports, now, hash);
    }
    let after = last.cut_off(found, decisions, detail);
    assert(after.engines.dom() =~= Set::<InfoHash>::empty());
    assert(after.seeders.dom() =~= Set::<InfoHash>::empty());
    assert(after.retry_after.dom() =~= Set::<InfoHash>::empty());
}

/// A download that ran when the path was lost is the first to get a slot when the path is back, and
/// an upload that ran may upload again; a paused torrent is still paused.
pub proof fn losing_and_regaining_brings_work_back(
    found: FleetView,
    last: FleetView,
    reports: Seq<EngineReport>,
    decisions: Map<InfoHash, SeedDecision>,
    detail: String,
    now: Tick,
    downloads: Seq<InfoHash>,
    limits: crate::config::QueueLimits,
    later: Tick,
    hash: InfoHash,
)
    requires
        found.queue.wf(),
        crate::progress::progress_made(found.without_engines(), last, reports, now),
        found.registry.dom().contains(hash),
        found.registry[hash].containment_recovery_intent.is_none(),
        forall|other: InfoHash| #[trigger]
            downloads.contains(other) == last.cut_off(found, decisions, detail).noted_download(
                other,
            ),
    ensures
        ({
            let was = found.registry[hash];
            let after = last.cut_off(found, decisions, detail).path_regained(downloads);
            let torrent = after.registry[hash];
            let runs = found.engines.dom().contains(hash) && !found.engines[hash].finished;
            let uploads = found.seeders.dom().contains(hash) && (decisions.dom().contains(hash)
                ==> decisions[hash] == SeedDecision::Continue);
            &&& runs && (was.state == TorrentState::Downloading || was.state
                == TorrentState::DownloadingMetadata) ==> {
                &&& torrent.state == TorrentState::Queued
                &&& torrent.error.is_none()
                &&& (crate::scheduler::Plan {
                    registry: after.registry,
                    retry_after: after.retry_after,
                    now: later,
                    limits,
                    bypass: after.queue.bypass,
                    excluded: None,
                }).eligible(hash)
            }
            &&& !runs && uploads && (was.state == TorrentState::Seeding || was.state
                == TorrentState::Completed) ==> {
                &&& torrent.state == TorrentState::Completed
                &&& torrent.seeding_status == SeedingStatus::Queued
                &&& torrent.error.is_none()
            }
            &&& was.state == TorrentState::Paused ==> torrent.state == TorrentState::Paused
            &&& torrent.containment_recovery_intent.is_none()
        }),
{
    live_work_is_cut_and_noted(found, last, reports, decisions, detail, now, hash);
    let cut = last.cut_off(found, decisions, detail);
    assert(!cut.retry_after.dom().contains(hash));
    noted_work_goes_on(cut, downloads, later, limits, hash);
}

/// When the path is lost every task is told to end by force, the listener and the distributed hash
/// table too, and observers are told of every torrent that was blocked and of the network.
pub proof fn lost_paths_end_every_task(
    status: NetworkContainmentStatus,
    detail: String,
    listener_running: bool,
    engines: Seq<(InfoHash, EngineTask)>,
    seeders: Seq<(InfoHash, SeederTask)>,
    last_reports: Seq<Effect>,
    any_report: bool,
    changed: Seq<InfoHash>,
    i: int,
)
    ensures
        ({
            let told = loss_effects(
                status,
                detail,
                listener_running,
                engines,
                seeders,
                last_reports,
                any_report,
                changed,
            );
            &&& told.contains(Effect::StopDht)
            &&& listener_running ==> told.contains(Effect::StopListener { force: true })
            &&& 0 <= i < engines.len() ==> told.contains(
                Effect::StopEngine { hash: engines[i].0, force: true },
            )
            &&& 0 <= i < seeders.len() ==> told.contains(
                Effect::StopSeeder { hash: seeders[i].0, force: true },
            )
            &&& told.contains(Effect::Persist)
            &&& 0 <= i < changed.len() ==> told.contains(
                Effect::Publish(
                    Event::Torrent {
                        kind: TorrentEventKind::Changed,
                        hash: changed[i],
                        state: TorrentState::NetworkBlocked,
                    },
                ),
            )
            &&& told[told.len() - 2] == Effect::Publish(
                Event::NetworkStatusChanged { status, traffic_allowed: false, detail },
            )
        }),
{
    let told = loss_effects(
        status,
        detail,
        listener_running,
        engines,
        seeders,
        last_reports,
        any_report,
        changed,
    );
    let skip: int = if listener_running {
        3
    } else {
        2
    };
    let extra: int = if any_report {
        1
    } else {
        0
    };
    assert(told[1] == Effect::StopDht);
    if listener_running {
        assert(told[2] == Effect::StopListener { force: true });
    }
    if 0 <= i < engines.len() {
        assert(told[skip + i] == Effect::StopEngine { hash: engines[i].0, force: true });
    }
    if 0 <= i < seeders.len() {
        assert(told[skip + engines.len() + i] == Effect::StopSeeder {
            hash: seeders[i].0,
            force: true,
        });
    }
    let stored = skip + engines.len() + seeders.len() + last_reports.len() + extra;
    assert(told[stored] == Effect::Persist);
    if 0 <= i < changed.len() {
        assert(told[stored + 1 + i] == Effect::Publish(
            Event::Torrent {
                kind: TorrentEventKind::Changed,
                hash: changed[i],
                state: TorrentState::NetworkBlocked,
            },
        ));
    }
}

/// No torrent is shown at work after the path was lost, whatever was noted of it; and one that was
/// not at work and had no note is left as it was last reported.
pub proof fn nothing_is_shown_at_work_without_a_path(
    torrent: Torrent,
    intent: Option<ContainmentRecoveryIntent>,
    status: SeedingStatus,
    detail: String,
)
    requires
        torrent.containment_recovery_intent.is_some() ==> intent.is_some(),
    ensures
        ({
            let after = cut_torrent(torrent, intent, status, detail);
            let worked = torrent.state == TorrentState::Downloading || torrent.state
                == TorrentState::DownloadingMetadata || torrent.state == TorrentState::Seeding;
            &&& intent.is_some() || worked ==> after.state == TorrentState::NetworkBlocked
                && after.error == Some(Notice::Text(detail))
            &&& intent.is_none() && !worked ==> after == torrent
            &&& intent.is_some() ==> after.containment_recovery_intent == intent
            &&& intent.is_none() ==> after.containment_recovery_intent.is_none()
            &&& after == (Torrent {
                containment_recovery_intent: after.containment_recovery_intent,
                state: after.state,
                seeding_status: after.seeding_status,
                error: after.error,
                ..torrent
            })
            &&& is_cut(torrent, intent) == (intent.is_some() || worked)
        }),
{
}

/// Each listed torrent that is known is told with its state, in the order of the list.
pub proof fn recovered_torrents_are_told(fleet: FleetView, hashes: Seq<InfoHash>, i: int)
    requires
        0 <= i < hashes.len(),
        fleet.registry.dom().contains(hashes[i]),
    ensures
        fleet.standing_events(hashes).contains(
            Effect::Publish(
                Event::Torrent {
                    kind: TorrentEventKind::Changed,
                    hash: hashes[i],
                    state: fleet.registry[hashes[i]].state,
                },
            ),
        ),
        fleet.standing_events(hashes).len() <= hashes.len(),
    decreases hashes.len(),
{
    let rest = hashes.drop_last();
    let before = fleet.standing_events(rest);
    let all = fleet.standing_events(hashes);
    let wanted = Effect::Publish(
        Event::Torrent {
            kind: TorrentEventKind::Changed,
            hash: hashes[i],
            state: fleet.registry[hashes[i]].state,
        },
    );
    lemma_told_at_most_once(fleet, hashes);
    if i < rest.len() {
        assert(rest[i] == hashes[i]);
        recovered_torrents_are_told(fleet, rest, i);
        assert(all[before.index_of(wanted)] == wanted);
    } else {
        assert(all[all.len() - 1] == wanted);
    }
}

proof fn lemma_told_at_most_once(fleet: FleetView, hashes: Seq<InfoHash>)
    ensures
        fleet.standing_events(hashes).len() <= hashes.len(),
    decreases hashes.len(),
{
    if hashes.len() > 0 {
        lemma_told_at_most_once(fleet, hashes.drop_last());
    }
}

/// What is noted of live work: nothing of a torrent that is not known, that rests, or that neither
/// an engine nor an upload works on; and nothing of an upload that is in error or whose targets are
/// reached. An earlier note stands.
pub proof fn only_live_work_is_noted(
    fleet: FleetView,
    decisions: Map<InfoHash, SeedDecision>,
    hash: InfoHash,
)
    ensures
        ({
            let intent = fleet.live_intent(hash, decisions);
            let torrent = fleet.registry[hash];
            let known = fleet.registry.dom().contains(hash);
            let runs = fleet.engines.dom().contains(hash) && !fleet.engines[hash].finished;
            let uploads = fleet.seeders.dom().contains(hash);
            let fresh = torrent.containment_recovery_intent.is_none();
            &&& !known ==> intent.is_none()
            &&& known && !fresh ==> intent == torrent.containment_recovery_intent
            &&& known && fresh && !runs && !uploads ==> intent.is_none()
            &&& known && fresh && (torrent.state == TorrentState::Queued || torrent.state
                == TorrentState::Paused || torrent.state == TorrentState::NetworkBlocked)
                ==> intent.is_none()
            &&& known && fresh && !runs && torrent.state != TorrentState::Completed && torrent.state
                != TorrentState::Seeding ==> intent.is_none()
            &&& known && fresh && !runs && decisions.dom().contains(hash) && decisions[hash]
                != SeedDecision::Continue ==> intent.is_none()
            &&& intent == Some(ContainmentRecoveryIntent::Seeding) && fresh ==> !runs && uploads
            &&& fresh && runs && intent.is_some() ==> (intent == Some(
                ContainmentRecoveryIntent::DownloadingMetadata,
            )) == (torrent.needs_metadata || torrent.state == TorrentState::DownloadingMetadata)
        }),
{
}

} // verus!
