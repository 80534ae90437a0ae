//! What users do to single torrents.
use crate::config::{resolve_download_dir_from_config, resolve_incomplete_dir_from_config, Config};
use crate::effects::{Effect, Event, TorrentEventKind};
use crate::error::CoreError;
use crate::fleet::{Fleet, FleetView};
use crate::hash::InfoHash;
use crate::layout::{recompute_file_bytes_completed, torrent_selection_complete};
use crate::restore::PayloadCheck;
use crate::torrent::{Notice, SeedingStatus, Torrent, TorrentState};
use vstd::prelude::*;

verus! {

/// What observers are told once an operation is stored.
#[derive(Clone, Copy, PartialEq, Eq, Structural, Debug)]
pub enum Tell {
    Nothing,
    Stats,
    /// That the torrent moved to a state.
    Moved(TorrentState),
    /// Where the torrent stands then.
    Standing,
}

/// What follows an operation, in this order; storing it comes before observers are told.
#[derive(Clone, Copy, PartialEq, Eq, Structural, Debug)]
pub struct FollowUp {
    pub reconcile_queue: bool,
    pub reconcile_seeders: bool,
    pub tell: Tell,
}

/// A torrent that was paused by hand.
pub open spec fn paused_torrent(torrent: Torrent) -> Torrent {
    Torrent {
        containment_recovery_intent: None,
        state: TorrentState::Paused,
        seeding_status: if torrent.progress.complete() {
            SeedingStatus::StoppedManual
        } else {
            SeedingStatus::NotEligible
        },
        ..torrent
    }
}

/// A torrent that was resumed by hand.
pub open spec fn resumed_torrent(torrent: Torrent) -> Torrent {
    Torrent {
        containment_recovery_intent: None,
        error: None,
        state: if torrent.progress.complete() {
            TorrentState::Completed
        } else {
            TorrentState::Queued
        },
        seeding_status: if torrent.progress.complete() {
            SeedingStatus::Queued
        } else {
            SeedingStatus::NotEligible
        },
        ..torrent
    }
}

impl FleetView {
    /// With a torrent at the front of what starts.
    pub open spec fn queued_ahead(self, hash: InfoHash) -> FleetView {
        FleetView {
            queue: crate::queue::QueueView {
                order: crate::queue::appended(self.queue.order, hash),
                bypass: crate::queue::appended(self.queue.bypass, hash),
                ..self.queue
            },
            ..self
        }
    }

    /// After a known torrent was paused.
    pub open spec fn paused(self, hash: InfoHash) -> FleetView {
        let stopped = self.work_stopped(hash);
        FleetView {
            registry: stopped.registry.insert(hash, paused_torrent(stopped.registry[hash])),
            queue: crate::queue::QueueView {
                bypass: crate::queue::without(stopped.queue.bypass, hash),
                ..stopped.queue
            },
            ..stopped
        }
    }

    /// After a known torrent was resumed.
    pub open spec fn resumed(self, hash: InfoHash) -> FleetView {
        FleetView {
            registry: self.registry.insert(hash, resumed_torrent(self.registry[hash])),
            retry_after: self.retry_after.remove(hash),
            ..self.queued_ahead(hash)
        }
    }

    /// After a known torrent was told to start.
    pub open spec fn started_now(self, hash: InfoHash) -> FleetView {
        FleetView {
            registry: self.registry.insert(
                hash,
                Torrent { containment_recovery_intent: None, ..self.registry[hash] },
            ),
            retry_after: self.retry_after.remove(hash),
            ..self.queued_ahead(hash)
        }
    }

    /// A finished torrent that was stopped by hand.
    pub open spec fn stopped_by_hand(self, hash: InfoHash) -> bool {
        let torrent = self.registry[hash];
        self.registry.dom().contains(hash) && torrent.progress.complete() && (torrent.state
            == TorrentState::Paused || torrent.seeding_status == SeedingStatus::StoppedManual)
    }

    /// After a known torrent was restarted for new settings.
    pub open spec fn restarted(self, hash: InfoHash) -> FleetView {
        let stopped = self.work_stopped(hash);
        FleetView {
            registry: stopped.registry.insert(
                hash,
                Torrent { state: TorrentState::Queued, error: None, ..stopped.registry[hash] },
            ),
            ..stopped.queued_ahead(hash)
        }
    }
}

impl Fleet {
    /// Ends all work on a torrent and leaves it paused.
    pub fn pause(&mut self, hash: InfoHash, effects: &mut Vec<Effect>) -> (outcome: Result<
        FollowUp,
        CoreError,
    >)
        requires
            old(self).wf(),
        ensures
            final(self).wf(),
            outcome.is_ok() == old(self)@.registry.dom().contains(hash),
            final(effects)@ == old(effects)@ + old(self)@.work_stop_effects(hash, false),
            outcome matches Ok(follow) ==> {
                &&& final(self)@ == old(self)@.paused(hash)
                &&& follow == (FollowUp {
                    reconcile_queue: true,
                    reconcile_seeders: false,
                    tell: Tell::Moved(TorrentState::Paused),
                })
            },
            outcome matches Err(error) ==> error@ == crate::error::no_torrent() && final(self)@
                == old(self)@.work_stopped(hash),
    {
        self.stop_work(&hash, false, effects);
        let position: usize = match self.registry.find(&hash) {
            Some(position) => position,
            None => {
                return Err(CoreError::unknown_torrent());
            },
        };
        let torrent: &mut Torrent = self.registry.value_at_mut(position);
        torrent.containment_recovery_intent = None;
        torrent.state = TorrentState::Paused;
        torrent.seeding_status = if torrent.progress.is_complete() {
            SeedingStatus::StoppedManual
        } else {
            SeedingStatus::NotEligible
        };
        self.queue.clear_bypass(&hash);
        Ok(
            FollowUp {
                reconcile_queue: true,
                reconcile_seeders: false,
                tell: Tell::Moved(TorrentState::Paused),
            },
        )
    }

    /// Lets a torrent work again, ahead of the queue.
    pub fn resume(&mut self, hash: InfoHash) -> (outcome: Result<FollowUp, CoreError>)
        requires
            old(self).wf(),
        ensures
            final(self).wf(),
            outcome.is_ok() == old(self)@.registry.dom().contains(hash),
            outcome matches Ok(follow) ==> {
                &&& final(self)@ == old(self)@.resumed(hash)
                &&& follow == (FollowUp {
                    reconcile_queue: true,
                    reconcile_seeders: true,
                    tell: Tell::Standing,
                })
            },
            outcome matches Err(error) ==> {
                &&& error@ == crate::error::no_torrent()
                &&& final(self)@ == (FleetView {
                    retry_after: old(self)@.retry_after.remove(hash),
                    ..old(self)@
                })
            },
    {
        let _ = self.retry_after.remove(&hash);
        let position: usize = match self.registry.find(&hash) {
            Some(position) => position,
            None => {
                return Err(CoreError::unknown_torrent());
            },
        };
        let torrent: &mut Torrent = self.registry.value_at_mut(position);
        torrent.containment_recovery_intent = None;
        if torrent.progress.is_complete() {
            torrent.state = TorrentState::Completed;
            torrent.seeding_status = SeedingStatus::Queued;
        } else {
            torrent.state = TorrentState::Queued;
            torrent.seeding_status = SeedingStatus::NotEligible;
        }
        torrent.error = None;
        self.queue.add(hash);
        self.queue.start_now(&hash);
        Ok(
            FollowUp {
                reconcile_queue: true,
                reconcile_seeders: true,
                tell: Tell::Standing,
            },
        )
    }

    /// Lets a torrent start ahead of the queue; a finished one that was stopped by hand is
    /// resumed.
    pub fn start_now(&mut self, hash: InfoHash) -> (outcome: Result<FollowUp, CoreError>)
        requires
            old(self).wf(),
        ensures
            final(self).wf(),
            outcome.is_ok() == old(self)@.registry.dom().contains(hash),
            outcome matches Ok(follow) ==> {
                &&& old(self)@.stopped_by_hand(hash) ==> final(self)@ == old(self)@.resumed(hash)
                    && follow == (FollowUp {
                    reconcile_queue: true,
                    reconcile_seeders: true,
                    tell: Tell::Standing,
                })
                &&& !old(self)@.stopped_by_hand(hash) ==> final(self)@ == old(self)@.started_now(
                    hash,
                ) && follow == (FollowUp {
                    reconcile_queue: true,
                    reconcile_seeders: false,
                    tell: Tell::Stats,
                })
            },
            outcome matches Err(error) ==> {
                &&& error@ == crate::error::no_torrent()
                &&& final(self)@ == (FleetView {
                    retry_after: old(self)@.retry_after.remove(hash),
                    ..old(self)@
                })
            },
    {
        let stopped_by_hand: bool = match self.registry.get(&hash) {
            Some(torrent) => torrent.progress.is_complete() && (torrent.state
                == TorrentState::Paused || torrent.seeding_status == SeedingStatus::StoppedManual),
            None => false,
        };
        if stopped_by_hand {
            return self.resume(hash);
        }
        let _ = self.retry_after.remove(&hash);
        let position: usize = match self.registry.find(&hash) {
            Some(position) => position,
            None => {
                return Err(CoreError::unknown_torrent());
            },
        };
        let torrent: &mut Torrent = self.registry.value_at_mut(position);
        torrent.containment_recovery_intent = None;
        self.queue.add(hash);
        self.queue.start_now(&hash);
        Ok(
            FollowUp { reconcile_queue: true, reconcile_seeders: false, tell: Tell::Stats },
        )
    }

    /// Ends a torrent's work and queues it again ahead of all others, and returns whether there
    /// is such a torrent.
    pub fn restart_engine_for_settings(
        &mut self,
        hash: InfoHash,
        effects: &mut Vec<Effect>,
    ) -> (known: bool)
        requires
            old(self).wf(),
        ensures
            final(self).wf(),
            known == old(self)@.registry.dom().contains(hash),
            final(self)@ == if known {
                old(self)@.restarted(hash)
            } else {
                old(self)@.work_stopped(hash)
            },
            final(effects)@ == old(effects)@ + old(self)@.work_stop_effects(hash, false),
    {
        self.stop_work(&hash, false, effects);
        let position: usize = match self.registry.find(&hash) {
            Some(position) => position,
            None => {
                return false;
            },
        };
        let torrent: &mut Torrent = self.registry.value_at_mut(position);
        torrent.state = TorrentState::Queued;
        torrent.error = None;
        self.queue.add(hash);
        self.queue.start_now(&hash);
        true
    }
}

impl Fleet {
    /// Asks a torrent's trackers anew: a running engine is told to; without one the torrent is let
    /// to work again, and its engine asks when it starts.
    pub fn reannounce(&mut self, hash: InfoHash) -> (outcome: Result<Option<FollowUp>, CoreError>)
        requires
            old(self).wf(),
        ensures
            final(self).wf(),
            old(self)@.engines.dom().contains(hash) ==> final(self)@ == old(self)@ && outcome
                == Ok::<Option<FollowUp>, CoreError>(None),
            !old(self)@.engines.dom().contains(hash) ==> {
                &&& outcome.is_ok() == old(self)@.registry.dom().contains(hash)
                &&& outcome matches Ok(follow) ==> {
                    &&& final(self)@ == old(self)@.resumed(hash)
                    &&& follow == Some(
                        FollowUp {
                            reconcile_queue: true,
                            reconcile_seeders: true,
                            tell: Tell::Standing,
                        },
                    )
                }
                &&& outcome matches Err(error) ==> {
                    &&& error@ == crate::error::no_torrent()
                    &&& final(self)@ == (FleetView {
                        retry_after: old(self)@.retry_after.remove(hash),
                        ..old(self)@
                    })
                }
            },
    {
        if self.engines.contains(&hash) {
            return Ok(None);
        }
        match self.resume(hash) {
            Ok(follow) => Ok(Some(follow)),
            Err(error) => Err(error),
        }
    }
}

/// A paused torrent does not start until it is resumed.
pub proof fn paused_torrents_do_not_start(fleet: FleetView, hash: InfoHash, now: crate::clock::Tick)
    requires
        fleet.registry.dom().contains(hash),
    ensures
        !fleet.paused(hash).engines.dom().contains(hash),
        !fleet.paused(hash).desired(now).contains(hash),
{
    let after = fleet.paused(hash);
    let plan = crate::scheduler::Plan {
        registry: after.registry,
        retry_after: after.retry_after,
        now,
        limits: after.queue.limits,
        bypass: after.queue.bypass,
        excluded: None,
    };
    crate::scheduler::choice_respects_limits(
        plan,
        crate::scheduler::candidates(after.queue.bypass, after.queue.order),
    );
    assert(!plan.eligible(hash));
}

/// A resumed torrent that is not finished is eligible at once, whatever retry delay it had.
pub proof fn resumed_torrents_are_eligible(fleet: FleetView, hash: InfoHash, now: crate::clock::Tick)
    requires
        fleet.queue.wf(),
        fleet.registry.dom().contains(hash),
        !fleet.registry[hash].progress.complete(),
    ensures
        ({
            let after = fleet.resumed(hash);
            (crate::scheduler::Plan {
                registry: after.registry,
                retry_after: after.retry_after,
                now,
                limits: after.queue.limits,
                bypass: after.queue.bypass,
                excluded: None,
            }).eligible(hash)
        }),
{
    crate::queue::lemma_appended(fleet.queue.bypass, hash);
}

/// A torrent whose payload is being read.
pub open spec fn checking_torrent(torrent: Torrent) -> Torrent {
    Torrent {
        containment_recovery_intent: None,
        state: TorrentState::Checking,
        seeding_status: SeedingStatus::NotEligible,
        ..torrent
    }
}

/// A torrent after its payload was read on request.
pub open spec fn rechecked(before: Torrent, after: Torrent, pieces: Seq<bool>, now: u64) -> bool {
    let have = crate::torrent::PieceProgress::fitted(pieces, before.meta.piece_count as nat);
    let whole = crate::layout::selection_complete(before, pieces);
    &&& after == (Torrent {
        progress: after.progress,
        files: after.files,
        state: if whole {
            TorrentState::Completed
        } else if before.state == TorrentState::Checking {
            TorrentState::Paused
        } else {
            before.state
        },
        seeding_status: if whole {
            crate::fleet::idle_seeding_status(after)
        } else if before.state == TorrentState::Checking {
            SeedingStatus::NotEligible
        } else {
            before.seeding_status
        },
        date_completed: if whole {
            Some(now)
        } else {
            before.date_completed
        },
        ..before
    })
    &&& after.progress.have@ == have
    &&& after.files@.len() == before.files@.len()
    &&& forall|i: int|
        0 <= i < before.files@.len() ==> #[trigger] after.files@[i] == crate::layout::recounted(
            before.files@[i],
            i as nat,
            before.meta,
            have,
        )
}

/// Where a torrent moved when its payload was read, if it did.
pub open spec fn recheck_move(before: Torrent, pieces: Seq<bool>) -> Option<TorrentState> {
    if crate::layout::selection_complete(before, pieces) {
        Some(TorrentState::Completed)
    } else if before.state == TorrentState::Checking {
        Some(TorrentState::Paused)
    } else {
        None
    }
}

/// What observers are told after a torrent's payload was read.
pub open spec fn recheck_events(hash: InfoHash, moved: Option<TorrentState>) -> Seq<Effect> {
    match moved {
        Some(TorrentState::Completed) => seq![
            crate::effects::torrent_effect(
                TorrentEventKind::Changed,
                hash,
                TorrentState::Completed,
            ),
            crate::effects::torrent_effect(
                TorrentEventKind::Completed,
                hash,
                TorrentState::Completed,
            ),
            crate::effects::stats_effect(),
        ],
        Some(state) => seq![
            crate::effects::torrent_effect(TorrentEventKind::Changed, hash, state),
            crate::effects::stats_effect(),
        ],
        None => Seq::<Effect>::empty(),
    }
}

fn apply_recheck(torrent: &mut Torrent, pieces: &Vec<bool>, now: u64) -> (moved: Option<
    TorrentState,
>)
    ensures
        rechecked(*old(torrent), *final(torrent), pieces@, now),
        moved == recheck_move(*old(torrent), pieces@),
{
    let whole: bool = torrent_selection_complete(torrent, pieces);
    torrent.progress.replace_from_bitfield(pieces, torrent.meta.piece_count);
    recompute_file_bytes_completed(&mut torrent.files, &torrent.meta, &torrent.progress);
    if whole {
        torrent.state = TorrentState::Completed;
        torrent.seeding_status = if torrent.progress.is_complete() {
            SeedingStatus::Queued
        } else {
            SeedingStatus::NotEligible
        };
        torrent.date_completed = Some(now);
        Some(TorrentState::Completed)
    } else if torrent.state == TorrentState::Checking {
        torrent.state = TorrentState::Paused;
        torrent.seeding_status = SeedingStatus::NotEligible;
        Some(TorrentState::Paused)
    } else {
        None
    }
}

impl Fleet {
    /// Ends a torrent's work and returns the directory from which its payload is to be read.
    pub fn begin_recheck(
        &mut self,
        hash: InfoHash,
        cfg: &Config,
        fallback_dir: &str,
        effects: &mut Vec<Effect>,
    ) -> (dir: Result<String, CoreError>)
        requires
            old(self).wf(),
        ensures
            final(self).wf(),
            dir.is_ok() == old(self)@.registry.dom().contains(hash),
            dir matches Err(error) ==> error@ == crate::error::no_torrent() && final(self)@ == old(
                self,
            )@ && final(effects)@ == old(effects)@,
            dir matches Ok(dir) ==> {
                let torrent = old(self)@.registry[hash];
                let stopped = old(self)@.work_stopped(hash);
                let complete_dir = crate::config::complete_dir_of(
                    crate::config::text_of(torrent.download_dir),
                    *cfg,
                    fallback_dir@,
                );
                &&& dir@ == if torrent.progress.complete() {
                    complete_dir
                } else {
                    crate::config::active_dir_of(complete_dir, *cfg)
                }
                &&& final(self)@ == (FleetView {
                    registry: stopped.registry.insert(
                        hash,
                        checking_torrent(stopped.registry[hash]),
                    ),
                    ..stopped
                })
                &&& final(effects)@ == old(effects)@ + old(self)@.work_stop_effects(hash, false)
                    + seq![
                    crate::effects::torrent_effect(
                        TorrentEventKind::Changed,
                        hash,
                        TorrentState::Checking,
                    ),
                    crate::effects::stats_effect(),
                ]
            },
    {
        let dir: String = match self.registry.get(&hash) {
            Some(torrent) => payload_dir(torrent, cfg, fallback_dir),
            None => {
                return Err(CoreError::unknown_torrent());
            },
        };
        let ghost found = self@;
        let ghost asked = effects@;
        self.stop_work(&hash, false, effects);
        if let Some(position) = self.registry.find(&hash) {
            let torrent: &mut Torrent = self.registry.value_at_mut(position);
            torrent.containment_recovery_intent = None;
            torrent.state = TorrentState::Checking;
            torrent.seeding_status = SeedingStatus::NotEligible;
        }
        effects.push(
            Effect::Publish(
                Event::Torrent {
                    kind: TorrentEventKind::Changed,
                    hash,
                    state: TorrentState::Checking,
                },
            ),
        );
        effects.push(Effect::Publish(Event::StatsUpdated));
        assert(effects@ =~= asked + found.work_stop_effects(hash, false) + seq![
            crate::effects::torrent_effect(
                TorrentEventKind::Changed,
                hash,
                TorrentState::Checking,
            ),
            crate::effects::stats_effect(),
        ]);
        Ok(dir)
    }

    /// Takes in what reading a torrent's payload on request came to, and returns whether it could
    /// be read.
    pub fn finish_recheck(
        &mut self,
        hash: InfoHash,
        check: PayloadCheck,
        now_seconds: u64,
        effects: &mut Vec<Effect>,
    ) -> (read: bool)
        requires
            old(self).wf(),
        ensures
            final(self).wf(),
            read == (check is Read),
            match check {
                PayloadCheck::Read(pieces) => {
                    let known = old(self)@.registry.dom().contains(hash);
                    &&& final(self)@ == (FleetView {
                        registry: crate::fleet::rewritten(
                            old(self)@.registry,
                            hash,
                            final(self)@.registry[hash],
                        ),
                        ..old(self)@
                    })
                    &&& known ==> rechecked(
                        old(self)@.registry[hash],
                        final(self)@.registry[hash],
                        pieces@,
                        now_seconds,
                    )
                    &&& final(effects)@ == old(effects)@ + recheck_events(
                        hash,
                        if known {
                            recheck_move(old(self)@.registry[hash], pieces@)
                        } else {
                            None
                        },
                    )
                },
                PayloadCheck::Unreadable(rendered) => {
                    &&& final(self)@ == (FleetView {
                        registry: crate::fleet::rewritten(
                            old(self)@.registry,
                            hash,
                            crate::start::storage_failed(old(self)@.registry[hash], rendered),
                        ),
                        ..old(self)@
                    })
                    &&& final(effects)@ == old(effects)@ + seq![
                        crate::effects::torrent_effect(
                            TorrentEventKind::Failed,
                            hash,
                            TorrentState::StorageError,
                        ),
                        crate::effects::stats_effect(),
                        Effect::Persist,
                    ]
                },
            },
    {
        match check {
            PayloadCheck::Read(pieces) => {
                let mut moved: Option<TorrentState> = None;
                if let Some(position) = self.registry.find(&hash) {
                    let torrent: &mut Torrent = self.registry.value_at_mut(position);
                    moved = apply_recheck(torrent, &pieces, now_seconds);
                }
                if let Some(state) = moved {
                    effects.push(
                        Effect::Publish(
                            Event::Torrent { kind: TorrentEventKind::Changed, hash, state },
                        ),
                    );
                    if state == TorrentState::Completed {
                        effects.push(
                            Effect::Publish(
                                Event::Torrent { kind: TorrentEventKind::Completed, hash, state },
                            ),
                        );
                    }
                    effects.push(Effect::Publish(Event::StatsUpdated));
                }
                assert(effects@ =~= old(effects)@ + recheck_events(hash, moved));
                true
            },
            PayloadCheck::Unreadable(rendered) => {
                if let Some(position) = self.registry.find(&hash) {
                    let torrent: &mut Torrent = self.registry.value_at_mut(position);
                    torrent.state = TorrentState::StorageError;
                    torrent.error = Some(Notice::Text(rendered));
                }
                effects.push(
                    Effect::Publish(
                        Event::Torrent {
                            kind: TorrentEventKind::Failed,
                            hash,
                            state: TorrentState::StorageError,
                        },
                    ),
                );
                effects.push(Effect::Publish(Event::StatsUpdated));
                effects.push(Effect::Persist);
                assert(effects@ =~= old(effects)@ + seq![
                    crate::effects::torrent_effect(
                        TorrentEventKind::Failed,
                        hash,
                        TorrentState::StorageError,
                    ),
                    crate::effects::stats_effect(),
                    Effect::Persist,
                ]);
                false
            },
        }
    }
}

/// The directory in which a torrent's payload is: the final one once all of it is there.
pub fn payload_dir(torrent: &Torrent, cfg: &Config, fallback_dir: &str) -> (dir: String)
    ensures
        ({
            let complete_dir = crate::config::complete_dir_of(
                crate::config::text_of(torrent.download_dir),
                *cfg,
                fallback_dir@,
            );
            dir@ == if torrent.progress.complete() {
                complete_dir
            } else {
                crate::config::active_dir_of(complete_dir, *cfg)
            }
        }),
{
    let own_dir: Option<&str> = match &torrent.download_dir {
        Some(dir) => Some(dir.as_str()),
        None => None,
    };
    let complete_dir: String = resolve_download_dir_from_config(own_dir, cfg, fallback_dir);
    if torrent.progress.is_complete() {
        complete_dir
    } else {
        resolve_incomplete_dir_from_config(complete_dir.as_str(), cfg)
    }
}

/// Pausing leaves a torrent paused, stopped by hand where all its pieces are there, with no task,
/// no retry and no place ahead of the queue. It keeps its place in the order, nothing else of it
/// changes, and no other torrent does.
pub proof fn pausing_ends_all_work(fleet: FleetView, hash: InfoHash, other: InfoHash)
    requires
        fleet.queue.wf(),
        fleet.registry.dom().contains(hash),
        fleet.registry.dom().contains(other),
        other != hash,
    ensures
        ({
            let after = fleet.paused(hash);
            let was = fleet.registry[hash];
            let have = was.progress.have@;
            let whole = have.len() > 0 && forall|piece: int|
                0 <= piece < have.len() ==> #[trigger] have[piece];
            &&& after.registry[hash] == (Torrent {
                containment_recovery_intent: None,
                state: TorrentState::Paused,
                seeding_status: if whole {
                    SeedingStatus::StoppedManual
                } else {
                    SeedingStatus::NotEligible
                },
                ..was
            })
            &&& after.registry[other] == fleet.registry[other]
            &&& after.registry.dom() == fleet.registry.dom()
            &&& !after.engines.dom().contains(hash) && !after.seeders.dom().contains(hash)
            &&& !after.retry_after.dom().contains(hash) && !after.rate_samples.dom().contains(hash)
            &&& after.engines.dom().contains(other) == fleet.engines.dom().contains(other)
            &&& after.seeders.dom().contains(other) == fleet.seeders.dom().contains(other)
            &&& after.queue.order == fleet.queue.order
            &&& !after.queue.bypass.contains(hash)
            &&& after.queue.bypass.contains(other) == fleet.queue.bypass.contains(other)
        }),
{
    crate::queue::lemma_filter(fleet.queue.bypass, crate::queue::other_than(hash));
    assert(fleet.paused(hash).registry.dom() =~= fleet.registry.dom());
}

/// Resuming lets a torrent work again: it is completed and waits to upload where all its pieces
/// are there, and waits to download otherwise. Its error, its retry and what was noted of it are
/// gone, it jumps the queue, and no torrent that was listed moves.
pub proof fn resuming_lets_work_again(fleet: FleetView, hash: InfoHash, other: InfoHash)
    requires
        fleet.queue.wf(),
        fleet.registry.dom().contains(hash),
        other != hash,
    ensures
        ({
            let after = fleet.resumed(hash);
            let was = fleet.registry[hash];
            let have = was.progress.have@;
            let whole = have.len() > 0 && forall|piece: int|
                0 <= piece < have.len() ==> #[trigger] have[piece];
            &&& after.registry[hash] == (Torrent {
                containment_recovery_intent: None,
                error: None,
                state: if whole {
                    TorrentState::Completed
                } else {
                    TorrentState::Queued
                },
                seeding_status: if whole {
                    SeedingStatus::Queued
                } else {
                    SeedingStatus::NotEligible
                },
                ..was
            })
            &&& fleet.registry.dom().contains(other) ==> after.registry[other]
                == fleet.registry[other]
            &&& !after.retry_after.dom().contains(hash)
            &&& after.retry_after.dom().contains(other) == fleet.retry_after.dom().contains(other)
            &&& after.queue.order.contains(hash) && after.queue.bypass.contains(hash)
            &&& fleet.queue.order.is_prefix_of(after.queue.order)
            &&& fleet.queue.bypass.is_prefix_of(after.queue.bypass)
            &&& after.queue.order.contains(other) == fleet.queue.order.contains(other)
            &&& after.queue.bypass.contains(other) == fleet.queue.bypass.contains(other)
            &&& after.engines == fleet.engines && after.seeders == fleet.seeders
        }),
{
    crate::queue::lemma_appended(fleet.queue.order, hash);
    crate::queue::lemma_appended(fleet.queue.bypass, hash);
}

/// Pausing and then resuming a torrent leaves it waiting for what it lacks, listed where it was,
/// ahead of the queue, with no task and no error.
pub proof fn pausing_and_resuming(fleet: FleetView, hash: InfoHash)
    requires
        fleet.queue.wf(),
        fleet.registry.dom().contains(hash),
        fleet.queue.order.contains(hash),
    ensures
        ({
            let after = fleet.paused(hash).resumed(hash);
            let have = fleet.registry[hash].progress.have@;
            let whole = have.len() > 0 && forall|piece: int|
                0 <= piece < have.len() ==> #[trigger] have[piece];
            &&& after.registry[hash].state == if whole {
                TorrentState::Completed
            } else {
                TorrentState::Queued
            }
            &&& after.registry[hash].seeding_status == if whole {
                SeedingStatus::Queued
            } else {
                SeedingStatus::NotEligible
            }
            &&& after.registry[hash].error.is_none()
            &&& after.registry[hash].progress == fleet.registry[hash].progress
            &&& after.queue.order == fleet.queue.order
            &&& after.queue.bypass.last() == hash
            &&& !after.engines.dom().contains(hash) && !after.seeders.dom().contains(hash)
        }),
{
    crate::queue::lemma_filter(fleet.queue.bypass, crate::queue::other_than(hash));
}

/// Starting a torrent at once leaves it as it is but for what was noted of it: it jumps the queue,
/// without waiting for a retry. Only a finished torrent that was stopped by hand is let to upload
/// again.
pub proof fn starting_at_once_jumps_the_queue(fleet: FleetView, hash: InfoHash)
    requires
        fleet.queue.wf(),
        fleet.registry.dom().contains(hash),
    ensures
        ({
            let after = fleet.started_now(hash);
            &&& after.registry[hash] == (Torrent {
                containment_recovery_intent: None,
                ..fleet.registry[hash]
            })
            &&& after.queue.bypass.contains(hash) && after.queue.order.contains(hash)
            &&& fleet.queue.order.is_prefix_of(after.queue.order)
            &&& fleet.queue.bypass.is_prefix_of(after.queue.bypass)
            &&& !after.retry_after.dom().contains(hash)
            &&& after.engines == fleet.engines && after.seeders == fleet.seeders
            &&& forall|other: InfoHash|
                other != hash && fleet.registry.dom().contains(other)
                    ==> #[trigger] after.registry[other] == fleet.registry[other]
        }),
        ({
            let torrent = fleet.registry[hash];
            let have = torrent.progress.have@;
            let whole = have.len() > 0 && forall|piece: int|
                0 <= piece < have.len() ==> #[trigger] have[piece];
            fleet.stopped_by_hand(hash) == (whole && (torrent.state == TorrentState::Paused
                || torrent.seeding_status == SeedingStatus::StoppedManual))
        }),
{
    crate::queue::lemma_appended(fleet.queue.order, hash);
    crate::queue::lemma_appended(fleet.queue.bypass, hash);
}

/// A torrent that is started over for new settings has no task, waits without an error, and jumps
/// the queue; what it has and where it is listed stay.
pub proof fn restarts_begin_anew(fleet: FleetView, hash: InfoHash, other: InfoHash)
    requires
        fleet.queue.wf(),
        fleet.registry.dom().contains(hash),
        fleet.registry.dom().contains(other),
        other != hash,
    ensures
        ({
            let after = fleet.restarted(hash);
            let was = fleet.registry[hash];
            let torrent = after.registry[hash];
            &&& torrent.state == TorrentState::Queued && torrent.error.is_none()
            &&& torrent.seeding_status != SeedingStatus::Active || was.state
                != TorrentState::Seeding
            &&& torrent == (Torrent {
                state: torrent.state,
                error: torrent.error,
                seeding_status: torrent.seeding_status,
                ..was
            })
            &&& was.state != TorrentState::Seeding ==> torrent.seeding_status == was.seeding_status
            &&& after.registry[other] == fleet.registry[other]
            &&& !after.engines.dom().contains(hash) && !after.seeders.dom().contains(hash)
                && !after.retry_after.dom().contains(hash)
            &&& after.engines.dom().contains(other) == fleet.engines.dom().contains(other)
            &&& after.queue.bypass.contains(hash) && after.queue.order.contains(hash)
            &&& fleet.queue.order.is_prefix_of(after.queue.order)
        }),
{
    crate::queue::lemma_appended(fleet.queue.order, hash);
    crate::queue::lemma_appended(fleet.queue.bypass, hash);
}

/// Reading a payload on request settles what is there, piece by piece. A torrent whose wanted
/// files are all there is completed from then on; one that is not rests paused after the reading,
/// and is left where it was if something else came in between. It is told where it went.
pub proof fn readings_settle_torrents(before: Torrent, after: Torrent, pieces: Seq<bool>, now: u64)
    requires
        rechecked(before, after, pieces, now),
    ensures
        ({
            let whole = crate::layout::selection_complete(before, pieces);
            let have = after.progress.have@;
            &&& have.len() == before.meta.piece_count
            &&& forall|piece: int|
                0 <= piece < have.len() ==> #[trigger] have[piece] == (piece < pieces.len()
                    && pieces[piece])
            &&& whole ==> after.state == TorrentState::Completed && after.date_completed == Some(
                now,
            )
            &&& whole && have.len() > 0 && (forall|piece: int|
                0 <= piece < have.len() ==> #[trigger] have[piece]) ==> after.seeding_status
                == SeedingStatus::Queued
            &&& whole && !(have.len() > 0 && (forall|piece: int|
                0 <= piece < have.len() ==> #[trigger] have[piece])) ==> after.seeding_status
                == SeedingStatus::NotEligible
            &&& !whole && before.state == TorrentState::Checking ==> after.state
                == TorrentState::Paused && after.seeding_status == SeedingStatus::NotEligible
            &&& !whole && before.state != TorrentState::Checking ==> after.state == before.state
                && after.seeding_status == before.seeding_status
            &&& !whole ==> after.date_completed == before.date_completed
            &&& recheck_move(before, pieces).is_some() == (whole || before.state
                == TorrentState::Checking)
            &&& recheck_move(before, pieces) matches Some(state) ==> state == after.state
            &&& after.wanted == before.wanted && after.priorities == before.priorities
            &&& after.meta == before.meta && after.error == before.error
        }),
{
}

/// While its payload is read a torrent does not download, upload or wait for either.
pub proof fn readings_stop_work(fleet: FleetView, hash: InfoHash)
    requires
        fleet.registry.dom().contains(hash),
    ensures
        ({
            let stopped = fleet.work_stopped(hash);
            let torrent = checking_torrent(stopped.registry[hash]);
            &&& torrent == (Torrent {
                containment_recovery_intent: None,
                state: TorrentState::Checking,
                seeding_status: SeedingStatus::NotEligible,
                ..fleet.registry[hash]
            })
            &&& !stopped.engines.dom().contains(hash) && !stopped.seeders.dom().contains(hash)
                && !stopped.retry_after.dom().contains(hash)
            &&& stopped.queue == fleet.queue
        }),
{
}

/// The end of a reading is told once with the state that it led to, and once more where the
/// torrent was found complete.
pub proof fn readings_are_told(hash: InfoHash, moved: Option<TorrentState>)
    ensures
        moved.is_none() ==> recheck_events(hash, moved).len() == 0,
        moved matches Some(state) ==> recheck_events(hash, moved)[0] == Effect::Publish(
            Event::Torrent { kind: TorrentEventKind::Changed, hash, state },
        ),
        moved matches Some(state) ==> recheck_events(hash, moved).last() == Effect::Publish(
            Event::StatsUpdated,
        ),
        moved matches Some(state) ==> recheck_events(hash, moved).len() == if state
            == TorrentState::Completed {
            3nat
        } else {
            2nat
        },
        moved == Some(TorrentState::Completed) ==> recheck_events(hash, moved)[1]
            == Effect::Publish(
            Event::Torrent {
                kind: TorrentEventKind::Completed,
                hash,
                state: TorrentState::Completed,
            },
        ),
{
}

} // verus!
