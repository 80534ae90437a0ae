//! Starting single uploads, the shared listener, and telling what changed.
use crate::config::{resolve_download_dir_from_config, resolve_incomplete_dir_from_config, Config};
use crate::effects::{Effect, Event, TorrentEventKind};
use crate::error::CoreError;
use crate::fleet::{Fleet, FleetView, SeederTask};
use crate::hash::InfoHash;
use crate::index::HashIndex;
use crate::seeders::Standing;
use crate::seeding::{automatic_seeding_status, SeedDecision};
use crate::text::owned;
use crate::torrent::{Notice, SeedingStatus, Torrent, TorrentState};
use vstd::prelude::*;

verus! {

/// How the shared listener came up.
#[derive(Clone, Copy, PartialEq, Eq, Structural, Debug)]
pub enum ListenerBind {
    Bound,
    Failed,
    TimedOut,
}

/// What a listener that did not come up is refused with.
pub fn listener_outcome(bind: ListenerBind) -> (outcome: Result<(), CoreError>)
    ensures
        outcome.is_ok() == (bind == ListenerBind::Bound),
        outcome matches Err(error) ==> error@ == (crate::error::ErrorView {
            kind: crate::error::ErrorKind::NetworkBlocked,
            message: if bind == ListenerBind::Failed {
                "shared inbound peer listener failed to bind"@
            } else {
                "shared inbound peer listener bind timed out"@
            },
        }),
{
    match bind {
        ListenerBind::Bound => Ok(()),
        ListenerBind::Failed => Err(
            CoreError::NetworkBlocked(owned("shared inbound peer listener failed to bind")),
        ),
        ListenerBind::TimedOut => Err(
            CoreError::NetworkBlocked(owned("shared inbound peer listener bind timed out")),
        ),
    }
}

/// What an attempt to start an upload comes to.
#[derive(Clone, Copy, PartialEq, Eq, Structural, Debug)]
pub enum SeederStep {
    /// The torrent uploads already.
    Live,
    /// The torrent was registered; the listener is to be brought up.
    Registered,
}

/// A torrent that is shown as uploading.
pub open spec fn shown_uploading(torrent: Torrent) -> Torrent {
    Torrent { state: TorrentState::Seeding, seeding_status: SeedingStatus::Active, ..torrent }
}

/// A torrent whose upload has to wait because the listener is not there.
pub open spec fn upload_waits(torrent: Torrent, rendered: String) -> Torrent {
    Torrent {
        state: TorrentState::Completed,
        seeding_status: SeedingStatus::Queued,
        error: Some(Notice::Text(rendered)),
        ..torrent
    }
}

/// A torrent after the listener failed while it uploaded.
pub open spec fn listener_lost(torrent: Torrent, rendered: String) -> Torrent {
    if torrent.progress.complete() && torrent.state != TorrentState::Paused && torrent.state
        != TorrentState::NetworkBlocked {
        upload_waits(torrent, rendered)
    } else {
        torrent
    }
}

impl FleetView {
    /// After the uploads of some torrents were dropped because the listener failed.
    pub open spec fn listener_failed(self, hashes: Seq<InfoHash>, rendered: String) -> FleetView {
        FleetView {
            registry: Map::new(
                |hash: InfoHash| self.registry.dom().contains(hash),
                |hash: InfoHash|
                    if hashes.contains(hash) {
                        listener_lost(self.registry[hash], rendered)
                    } else {
                        self.registry[hash]
                    },
            ),
            seeders: crate::fleet::table_without(self.seeders, hashes),
            listener_running: false,
            ..self
        }
    }

    /// What dropping uploads asks for: each one is ended once.
    pub open spec fn drop_effects(self, hashes: Seq<InfoHash>) -> Seq<Effect>
        decreases hashes.len(),
    {
        if hashes.len() == 0 {
            Seq::<Effect>::empty()
        } else {
            let before = self.drop_effects(hashes.drop_last());
            if self.seeders.dom().contains(hashes.last()) && !hashes.drop_last().contains(
                hashes.last(),
            ) {
                before.push(Effect::StopSeeder { hash: hashes.last(), force: true })
            } else {
                before
            }
        }
    }
}

impl FleetView {
    /// After the first step of starting an upload: one that runs is shown again, any other is
    /// registered.
    pub open spec fn upload_begun(self, hash: InfoHash) -> FleetView {
        if self.seeders.dom().contains(hash) {
            FleetView {
                registry: crate::fleet::rewritten(
                    self.registry,
                    hash,
                    shown_uploading(self.registry[hash]),
                ),
                ..self
            }
        } else {
            FleetView {
                seeders: self.seeders.insert(hash, SeederTask { announcing: false }),
                ..self
            }
        }
    }

    /// After an upload that was registered was given up because the listener did not come up.
    pub open spec fn upload_refused(self, hash: InfoHash) -> FleetView {
        FleetView { seeders: self.seeders.remove(hash), listener_running: false, ..self }
    }

    /// With an upload that runs.
    pub open spec fn upload_started(self, hash: InfoHash, announcing: bool) -> FleetView {
        FleetView {
            registry: crate::fleet::rewritten(
                self.registry,
                hash,
                Torrent { error: None, ..shown_uploading(self.registry[hash]) },
            ),
            seeders: self.seeders.insert(hash, SeederTask { announcing }),
            listener_running: true,
            ..self
        }
    }
}

impl Fleet {
    /// Drops the uploads of some torrents because the listener failed.
    pub fn deactivate_seeders_after_listener_failure(
        &mut self,
        hashes: &Vec<InfoHash>,
        rendered: &String,
        effects: &mut Vec<Effect>,
    )
        requires
            old(self).wf(),
        ensures
            final(self).wf(),
            final(self)@ == old(self)@.listener_failed(hashes@, *rendered),
            final(effects)@ == old(effects)@ + old(self)@.drop_effects(hashes@),
    {
        let ghost before = self@;
        let ghost asked = effects@;
        self.listener_running = false;
        let mut i: usize = 0;
        assert(effects@ =~= asked + before.drop_effects(hashes@.take(0)));
        assert(self@.seeders =~= crate::fleet::table_without(before.seeders, hashes@.take(0)));
        while i < hashes.len()
            invariant
                i <= hashes@.len(),
                self.wf(),
                self@ == (FleetView {
                    registry: self@.registry,
                    seeders: crate::fleet::table_without(before.seeders, hashes@.take(i as int)),
                    listener_running: false,
                    ..before
                }),
                self@.registry.dom() == before.registry.dom(),
                forall|hash: InfoHash|
                    before.registry.dom().contains(hash) ==> #[trigger] self@.registry[hash]
                        == if hashes@.take(i as int).contains(hash) {
                        listener_lost(before.registry[hash], *rendered)
                    } else {
                        before.registry[hash]
                    },
                effects@ == asked + before.drop_effects(hashes@.take(i as int)),
            decreases hashes@.len() - i,
        {
            let hash: InfoHash = hashes[i];
            proof {
                assert(hashes@.take(i + 1).drop_last() =~= hashes@.take(i as int));
                assert forall|other: InfoHash| #[trigger]
                    hashes@.take(i + 1).contains(other) == (hashes@.take(i as int).contains(other)
                        || other == hash) by {
                    crate::reconcile::lemma_take_contains(hashes@, i as int, other);
                }
            }
            let live: bool = self.seeders.contains(&hash);
            let _ = self.seeders.remove(&hash);
            if live {
                effects.push(Effect::StopSeeder { hash, force: true });
            }
            if let Some(position) = self.registry.find(&hash) {
                let torrent: &mut Torrent = self.registry.value_at_mut(position);
                if torrent.progress.is_complete() && torrent.state != TorrentState::Paused
                    && torrent.state != TorrentState::NetworkBlocked {
                    torrent.state = TorrentState::Completed;
                    torrent.seeding_status = SeedingStatus::Queued;
                    torrent.error = Some(Notice::Text(rendered.clone()));
                }
            }
            proof {
                assert(effects@ =~= asked + before.drop_effects(hashes@.take(i + 1)));
                assert(self@.seeders =~= crate::fleet::table_without(
                    before.seeders,
                    hashes@.take(i + 1),
                ));
                assert(self@.registry.dom() =~= before.registry.dom());
            }
            i = i + 1;
        }
        assert(hashes@.take(i as int) =~= hashes@);
        assert(self@.registry =~= before.listener_failed(hashes@, *rendered).registry);
    }

    /// The first step of starting an upload.
    pub fn begin_seeder(&mut self, hash: InfoHash) -> (step: SeederStep)
        requires
            old(self).wf(),
        ensures
            final(self).wf(),
            (step == SeederStep::Live) == old(self)@.seeders.dom().contains(hash),
            final(self)@ == old(self)@.upload_begun(hash),
    {
        if self.seeders.contains(&hash) {
            if let Some(position) = self.registry.find(&hash) {
                let torrent: &mut Torrent = self.registry.value_at_mut(position);
                torrent.state = TorrentState::Seeding;
                torrent.seeding_status = SeedingStatus::Active;
            }
            return SeederStep::Live;
        }
        self.seeders.insert(hash, SeederTask { announcing: false });
        SeederStep::Registered
    }

    /// The listener did not come up for an upload that was registered.
    pub fn refuse_seeder(&mut self, hash: InfoHash)
        requires
            old(self).wf(),
        ensures
            final(self).wf(),
            final(self)@ == old(self)@.upload_refused(hash),
    {
        let _ = self.seeders.remove(&hash);
        self.listener_running = false;
    }

    /// A chosen torrent could not start to upload.
    pub fn postpone_seeder(&mut self, hash: InfoHash, rendered: &String)
        requires
            old(self).wf(),
        ensures
            final(self).wf(),
            final(self)@ == (FleetView {
                registry: crate::fleet::rewritten(
                    old(self)@.registry,
                    hash,
                    upload_waits(old(self)@.registry[hash], *rendered),
                ),
                ..old(self)@
            }),
    {
        if let Some(position) = self.registry.find(&hash) {
            let torrent: &mut Torrent = self.registry.value_at_mut(position);
            torrent.state = TorrentState::Completed;
            torrent.seeding_status = SeedingStatus::Queued;
            torrent.error = Some(Notice::Text(rendered.clone()));
        }
    }

    /// An upload that was registered runs.
    pub fn finish_seeder_start(
        &mut self,
        hash: InfoHash,
        announcing: bool,
        effects: &mut Vec<Effect>,
    )
        requires
            old(self).wf(),
        ensures
            final(self).wf(),
            final(self)@ == old(self)@.upload_started(hash, announcing),
            final(effects)@ == old(effects)@.push(Effect::Persist),
    {
        self.seeders.insert(hash, SeederTask { announcing });
        self.listener_running = true;
        if let Some(position) = self.registry.find(&hash) {
            let torrent: &mut Torrent = self.registry.value_at_mut(position);
            torrent.state = TorrentState::Seeding;
            torrent.seeding_status = SeedingStatus::Active;
            torrent.error = None;
        }
        effects.push(Effect::Persist);
    }
}

/// Where a recovered upload reads its payload from.
#[derive(Debug)]
pub struct RecoveredSeeder {
    pub active_dir: String,
    pub complete_dir: String,
}

impl Fleet {
    /// Prepares a recovered upload, unless its targets were reached in the meantime.
    pub fn prepare_recovered_seeder_start(
        &mut self,
        hash: InfoHash,
        decision: SeedDecision,
        cfg: &Config,
        fallback_dir: &str,
        effects: &mut Vec<Effect>,
    ) -> (prepared: Result<Option<RecoveredSeeder>, CoreError>)
        requires
            old(self).wf(),
        ensures
            final(self).wf(),
            prepared.is_err() == !old(self)@.registry.dom().contains(hash),
            prepared matches Err(error) ==> error@ == crate::error::no_torrent(),
            prepared matches Ok(start) ==> start.is_some() == (decision == SeedDecision::Continue),
            prepared matches Ok(Some(start)) ==> {
                let complete_dir = crate::config::complete_dir_of(
                    crate::config::text_of(old(self)@.registry[hash].download_dir),
                    *cfg,
                    fallback_dir@,
                );
                start.complete_dir@ == complete_dir && start.active_dir@
                    == crate::config::active_dir_of(complete_dir, *cfg)
            },
            prepared matches Ok(None) ==> {
                &&& final(self)@ == (FleetView {
                    registry: old(self)@.registry.insert(
                        hash,
                        Torrent {
                            state: TorrentState::Completed,
                            seeding_status: crate::seeding::decided_status(decision),
                            ..old(self)@.registry[hash]
                        },
                    ),
                    ..old(self)@
                })
                &&& final(effects)@ == old(effects)@.push(Effect::Persist)
            },
            !(prepared matches Ok(None)) ==> final(self)@ == old(self)@ && final(effects)@ == old(
                effects,
            )@,
    {
        let position: usize = match self.registry.find(&hash) {
            Some(position) => position,
            None => {
                return Err(CoreError::unknown_torrent());
            },
        };
        if !matches!(decision, SeedDecision::Continue) {
            let torrent: &mut Torrent = self.registry.value_at_mut(position);
            torrent.state = TorrentState::Completed;
            torrent.seeding_status = automatic_seeding_status(decision);
            effects.push(Effect::Persist);
            return Ok(None);
        }
        let torrent: &Torrent = self.registry.value_at(position);
        let own_dir: Option<&str> = match &torrent.download_dir {
            Some(dir) => Some(dir.as_str()),
            None => None,
        };
        let complete_dir: String = resolve_download_dir_from_config(own_dir, cfg, fallback_dir);
        let active_dir: String = resolve_incomplete_dir_from_config(complete_dir.as_str(), cfg);
        Ok(Some(RecoveredSeeder { active_dir, complete_dir }))
    }

    /// Where every torrent stands.
    pub fn standings(&self) -> (standings: HashIndex<Standing>)
        requires
            self.wf(),
        ensures
            standings.wf(),
            standings@ == self@.standings(),
    {
        let mut standings: HashIndex<Standing> = HashIndex::new();
        let ghost entries = self.registry.seq();
        let mut i: usize = 0;
        while i < self.registry.len()
            invariant
                i <= entries.len(),
                entries == self.registry.seq(),
                self.wf(),
                standings.wf(),
                forall|hash: InfoHash| #[trigger]
                    standings@.dom().contains(hash) == crate::reconcile::seen_before(
                        entries,
                        i as int,
                        hash,
                    ),
                forall|hash: InfoHash|
                    standings@.dom().contains(hash) ==> #[trigger] standings@[hash] == standing_of(
                        self@.registry[hash],
                    ),
            decreases entries.len() - i,
        {
            let hash: InfoHash = self.registry.key_at(i);
            let torrent: &Torrent = self.registry.value_at(i);
            proof {
                crate::reconcile::lemma_seen_step(entries, i as int);
            }
            standings.insert(
                hash,
                Standing { state: torrent.state, seeding_status: torrent.seeding_status },
            );
            i = i + 1;
        }
        proof {
            crate::reconcile::lemma_seen_all(entries);
            assert(standings@ =~= self@.standings());
        }
        standings
    }

    /// Tells observers of the torrents that stand elsewhere than before, once the state was
    /// written out.
    pub fn tell_changed_standings(
        &self,
        before: &HashIndex<Standing>,
        effects: &mut Vec<Effect>,
    ) -> (changed: usize)
        requires
            self.wf(),
            before.wf(),
        ensures
            ({
                let told = moved_events(self.registry.seq(), before@, self.registry.seq().len());
                &&& changed == told.len()
                &&& final(effects)@ == old(effects)@ + seq![Effect::Persist] + told + (
                if told.len() > 0 {
                    seq![crate::effects::stats_effect()]
                } else {
                    Seq::<Effect>::empty()
                })
            }),
    {
        let ghost asked = effects@;
        effects.push(Effect::Persist);
        let mut changed: usize = 0;
        let mut i: usize = 0;
        assert(effects@ =~= asked + seq![Effect::Persist] + moved_events(
            self.registry.seq(),
            before@,
            0,
        ));
        while i < self.registry.len()
            invariant
                i <= self.registry.seq().len(),
                self.wf(),
                before.wf(),
                changed <= i,
                changed == moved_events(self.registry.seq(), before@, i as nat).len(),
                effects@ == asked + seq![Effect::Persist] + moved_events(
                    self.registry.seq(),
                    before@,
                    i as nat,
                ),
            decreases self.registry.seq().len() - i,
        {
            let hash: InfoHash = self.registry.key_at(i);
            let torrent: &Torrent = self.registry.value_at(i);
            let stood: Option<Standing> = match before.get(&hash) {
                Some(standing) => Some(*standing),
                None => None,
            };
            let stands: Standing = Standing {
                state: torrent.state,
                seeding_status: torrent.seeding_status,
            };
            if stood != Some(stands) {
                effects.push(
                    Effect::Publish(
                        Event::Torrent {
                            kind: TorrentEventKind::Changed,
                            hash,
                            state: torrent.state,
                        },
                    ),
                );
                changed = changed + 1;
            }
            i = i + 1;
            assert(effects@ =~= asked + seq![Effect::Persist] + moved_events(
                self.registry.seq(),
                before@,
                i as nat,
            ));
        }
        let ghost told = effects@;
        if changed > 0 {
            effects.push(Effect::Publish(Event::StatsUpdated));
        }
        assert(effects@ =~= told + (if changed > 0 {
            seq![crate::effects::stats_effect()]
        } else {
            Seq::<Effect>::empty()
        }));
        changed
    }
}

/// Where a torrent stands.
pub open spec fn standing_of(torrent: Torrent) -> Standing {
    Standing { state: torrent.state, seeding_status: torrent.seeding_status }
}

impl FleetView {
    /// Where every torrent stands.
    pub open spec fn standings(self) -> Map<InfoHash, Standing> {
        Map::new(
            |hash: InfoHash| self.registry.dom().contains(hash),
            |hash: InfoHash| standing_of(self.registry[hash]),
        )
    }
}

/// What observers are told of the first entries that stand elsewhere than before.
pub open spec fn moved_events(
    entries: Seq<(InfoHash, Torrent)>,
    before: Map<InfoHash, Standing>,
    count: nat,
) -> Seq<Effect>
    decreases count,
{
    if count == 0 {
        Seq::<Effect>::empty()
    } else {
        let told = moved_events(entries, before, (count - 1) as nat);
        let (hash, torrent) = entries[count - 1];
        if crate::progress::lookup(before, hash) == Some(standing_of(torrent)) {
            told
        } else {
            told.push(
                crate::effects::torrent_effect(TorrentEventKind::Changed, hash, torrent.state),
            )
        }
    }
}

/// An upload that started is shown: the torrent uploads without an error, and its registration
/// lives. An upload that lived already is shown too, and is not registered anew. Nothing else of a
/// torrent changes.
pub proof fn started_uploads_are_shown(
    fleet: FleetView,
    hash: InfoHash,
    announcing: bool,
    other: InfoHash,
)
    requires
        fleet.registry.dom().contains(hash),
        other != hash,
    ensures
        ({
            let begun = fleet.upload_begun(hash);
            let started = fleet.upload_started(hash, announcing);
            &&& begun.seeders.dom().contains(hash)
            &&& fleet.seeders.dom().contains(hash) ==> begun.seeders == fleet.seeders
                && begun.registry[hash] == (Torrent {
                state: TorrentState::Seeding,
                seeding_status: SeedingStatus::Active,
                ..fleet.registry[hash]
            })
            &&& !fleet.seeders.dom().contains(hash) ==> begun.registry == fleet.registry
                && !begun.seeders[hash].announcing
            &&& started.registry[hash] == (Torrent {
                error: None,
                state: TorrentState::Seeding,
                seeding_status: SeedingStatus::Active,
                ..fleet.registry[hash]
            })
            &&& started.seeders.dom().contains(hash) && started.seeders[hash].announcing
                == announcing
            &&& started.listener_running
            &&& started.seeders.dom().contains(other) == fleet.seeders.dom().contains(other)
            &&& fleet.registry.dom().contains(other) ==> started.registry[other]
                == fleet.registry[other] && begun.registry[other] == fleet.registry[other]
            &&& started.queue == fleet.queue && started.engines == fleet.engines
        }),
{
}

/// An upload that was refused is not registered.
pub proof fn refused_uploads_are_dropped(fleet: FleetView, hash: InfoHash, other: InfoHash)
    requires
        other != hash,
    ensures
        !fleet.upload_refused(hash).seeders.dom().contains(hash),
        !fleet.upload_refused(hash).listener_running,
        fleet.upload_refused(hash).seeders.dom().contains(other)
            == fleet.seeders.dom().contains(other),
        fleet.upload_refused(hash).registry == fleet.registry,
        fleet.upload_refused(hash).queue == fleet.queue,
        fleet.upload_refused(hash).engines == fleet.engines,
{
}

/// Where the listener did not come up, no listed upload lives. Each listed torrent that has all its
/// pieces, is not paused and is not blocked is completed, waits to upload, and holds the reason; no
/// other torrent changes.
pub proof fn lost_listeners_end_uploads(
    fleet: FleetView,
    hashes: Seq<InfoHash>,
    rendered: String,
    hash: InfoHash,
)
    requires
        fleet.registry.dom().contains(hash),
    ensures
        ({
            let after = fleet.listener_failed(hashes, rendered);
            let was = fleet.registry[hash];
            let have = was.progress.have@;
            let whole = have.len() > 0 && forall|piece: int|
                0 <= piece < have.len() ==> #[trigger] have[piece];
            let waits = hashes.contains(hash) && whole && was.state != TorrentState::Paused
                && was.state != TorrentState::NetworkBlocked;
            &&& after.seeders.dom().contains(hash) == (fleet.seeders.dom().contains(hash)
                && !hashes.contains(hash))
            &&& !after.listener_running
            &&& waits ==> after.registry[hash] == (Torrent {
                state: TorrentState::Completed,
                seeding_status: SeedingStatus::Queued,
                error: Some(Notice::Text(rendered)),
                ..was
            })
            &&& !waits ==> after.registry[hash] == was
            &&& after.queue == fleet.queue && after.engines == fleet.engines
        }),
{
}

/// A torrent whose state or upload status moved is told with its new state, and one that did not
/// move is not.
pub proof fn moves_are_told(
    entries: Seq<(InfoHash, Torrent)>,
    before: Map<InfoHash, Standing>,
    count: nat,
    i: int,
)
    requires
        crate::index::keys_increase(entries),
        0 <= i < count <= entries.len(),
    ensures
        ({
            let hash = entries[i].0;
            let torrent = entries[i].1;
            let moved = !(before.dom().contains(hash) && before[hash].state == torrent.state
                && before[hash].seeding_status == torrent.seeding_status);
            &&& moved ==> moved_events(entries, before, count).contains(
                Effect::Publish(
                    Event::Torrent { kind: TorrentEventKind::Changed, hash, state: torrent.state },
                ),
            )
            &&& !moved ==> forall|state: TorrentState|
                !moved_events(entries, before, count).contains(
                    #[trigger] crate::effects::torrent_effect(
                        TorrentEventKind::Changed,
                        hash,
                        state,
                    ),
                )
        }),
    decreases count,
{
    let hash = entries[i].0;
    let torrent = entries[i].1;
    let told = moved_events(entries, before, (count - 1) as nat);
    let all = moved_events(entries, before, count);
    let last = entries[count - 1];
    let wanted = Effect::Publish(
        Event::Torrent { kind: TorrentEventKind::Changed, hash, state: torrent.state },
    );
    let moved = !(before.dom().contains(hash) && before[hash].state == torrent.state
        && before[hash].seeding_status == torrent.seeding_status);
    if i < count - 1 {
        moves_are_told(entries, before, (count - 1) as nat, i);
        assert(entries[i].0.rank() < entries[count - 1].0.rank());
        if moved {
            assert(all[told.index_of(wanted)] == wanted);
        }
        if !moved {
            assert forall|state: TorrentState|
                !all.contains(
                    #[trigger] crate::effects::torrent_effect(
                        TorrentEventKind::Changed,
                        hash,
                        state,
                    ),
                ) by {
                let one = crate::effects::torrent_effect(TorrentEventKind::Changed, hash, state);
                if all.contains(one) {
                    let k = all.index_of(one);
                    if k < told.len() {
                        assert(told[k] == one);
                        assert(told.contains(one));
                    }
                }
            }
        }
    } else {
        assert(last == entries[i]);
        if moved {
            assert(all.last() == wanted);
            assert(all[all.len() - 1] == wanted);
        } else {
            lemma_untold(entries, before, (count - 1) as nat, i);
        }
    }
}

proof fn lemma_untold(
    entries: Seq<(InfoHash, Torrent)>,
    before: Map<InfoHash, Standing>,
    count: nat,
    i: int,
)
    requires
        crate::index::keys_increase(entries),
        count <= i < entries.len(),
    ensures
        forall|state: TorrentState|
            !moved_events(entries, before, count).contains(
                #[trigger] crate::effects::torrent_effect(
                    TorrentEventKind::Changed,
                    entries[i].0,
                    state,
                ),
            ),
    decreases count,
{
    if count > 0 {
        let told = moved_events(entries, before, (count - 1) as nat);
        let all = moved_events(entries, before, count);
        lemma_untold(entries, before, (count - 1) as nat, i);
        assert(entries[count - 1].0.rank() < entries[i].0.rank());
        assert forall|state: TorrentState|
            !all.contains(
                #[trigger] crate::effects::torrent_effect(
                    TorrentEventKind::Changed,
                    entries[i].0,
                    state,
                ),
            ) by {
            let one = crate::effects::torrent_effect(
                TorrentEventKind::Changed,
                entries[i].0,
                state,
            );
            if all.contains(one) {
                let k = all.index_of(one);
                if k < told.len() {
                    assert(told[k] == one);
                    assert(told.contains(one));
                }
            }
        }
    }
}

/// Every upload of the list that lives is told to end by force, and no other.
pub proof fn dropped_uploads_are_told_to_end(fleet: FleetView, hashes: Seq<InfoHash>, hash: InfoHash)
    ensures
        fleet.drop_effects(hashes).contains(Effect::StopSeeder { hash, force: true }) == (
        hashes.contains(hash) && fleet.seeders.dom().contains(hash)),
    decreases hashes.len(),
{
    let wanted = Effect::StopSeeder { hash, force: true };
    if hashes.len() > 0 {
        let rest = hashes.drop_last();
        let last = hashes.last();
        let before = fleet.drop_effects(rest);
        let all = fleet.drop_effects(hashes);
        dropped_uploads_are_told_to_end(fleet, rest, hash);
        dropped_uploads_are_told_to_end(fleet, rest, last);
        assert(hashes.take(rest.len() as int) =~= rest);
        assert(hashes.take(rest.len() as int + 1) =~= hashes);
        crate::reconcile::lemma_take_contains(hashes, rest.len() as int, hash);
        if all != before {
            assert(all == before.push(Effect::StopSeeder { hash: last, force: true }));
            if before.contains(wanted) {
                assert(all[before.index_of(wanted)] == wanted);
            }
            if hash == last {
                assert(all[before.len() as int] == wanted);
            }
            if all.contains(wanted) && hash != last {
                let k = all.index_of(wanted);
                assert(before[k] == wanted);
            }
        }
    }
}

} // verus!
