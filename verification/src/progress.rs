//! Taking over what running engines report.
use crate::clock::Tick;
use crate::effects::{Effect, Event, TorrentEventKind};
use crate::engine::{update_payload, EngineState};
use crate::fleet::{Fleet, FleetView, RateSample};
use crate::hash::InfoHash;
use crate::health::{build_health_input, HealthInput};
use crate::network::NetworkHealth;
use crate::rates::smooth_rate;
use crate::scheduler::is_backing_off;
use crate::torrent::{SeedingStatus, Torrent, TorrentMeta, TorrentState};
use vstd::prelude::*;

verus! {

/// Bytes per second since the last sample, as double precision gives them.
#[derive(Clone, Copy, PartialEq, Eq, Structural, Debug)]
pub struct FreshRates {
    pub down: u64,
    pub up: u64,
}

/// What an engine reports, with the rates since the last sample.
#[derive(Debug)]
pub struct EngineReport {
    pub hash: InfoHash,
    pub state: EngineState,
    pub fresh: FreshRates,
}

/// What tasks there are for a torrent.
#[derive(Clone, Copy, PartialEq, Eq, Structural, Debug)]
pub struct Liveness {
    pub running: bool,
    pub suppressed: bool,
    pub seeding: bool,
}

/// Samples that lie closer together than this many nanoseconds are not compared.
pub const SAMPLE_INTERVAL_NANOS: u64 = 250_000_000;

/// The larger of two rates.
pub open spec fn larger(a: u64, b: u64) -> u64 {
    if a >= b {
        a
    } else {
        b
    }
}

/// What was not there before and is there now.
pub open spec fn gained(now: u64, before: u64) -> bool {
    now > before
}

/// The sample that a report gives rise to; none where the last one is too young.
pub open spec fn next_sample(
    previous: Option<RateSample>,
    torrent: Torrent,
    report: EngineState,
    fresh: FreshRates,
    now: Tick,
) -> Option<RateSample> {
    match previous {
        None => Some(
            RateSample {
                downloaded: report.downloaded,
                uploaded: report.uploaded,
                rate_down: torrent.rate_down,
                rate_up: torrent.rate_up,
                last_download_at: None,
                last_upload_at: None,
                no_download_since: Some(now),
                at: now,
                peak_rate_down: 0,
                peak_rate_up: 0,
            },
        ),
        Some(previous) => if now.since(previous.at) < SAMPLE_INTERVAL_NANOS {
            None
        } else {
            let downloaded = gained(report.downloaded, previous.downloaded);
            let uploaded = gained(report.uploaded, previous.uploaded);
            let last_download_at = if downloaded {
                Some(now)
            } else {
                previous.last_download_at
            };
            let last_upload_at = if uploaded {
                Some(now)
            } else {
                previous.last_upload_at
            };
            let rate_down = crate::rates::smoothed(
                previous.rate_down,
                fresh.down,
                last_download_at,
                now,
            );
            let rate_up = crate::rates::smoothed(previous.rate_up, fresh.up, last_upload_at, now);
            Some(
                RateSample {
                    downloaded: report.downloaded,
                    uploaded: report.uploaded,
                    rate_down,
                    rate_up,
                    last_download_at,
                    last_upload_at,
                    no_download_since: if downloaded {
                        None
                    } else {
                        Some(previous.no_download_since.unwrap_or(previous.at))
                    },
                    at: now,
                    peak_rate_down: larger(
                        previous.peak_rate_down,
                        larger(rate_down, fresh.down),
                    ),
                    peak_rate_up: larger(previous.peak_rate_up, larger(rate_up, fresh.up)),
                },
            )
        },
    }
}

/// The highest download rate that the torrent's health is judged by.
pub open spec fn known_peak(previous: Option<RateSample>, next: Option<RateSample>) -> u64 {
    match (previous, next) {
        (Some(_), Some(next)) => next.peak_rate_down,
        (Some(previous), None) => previous.peak_rate_down,
        _ => 0,
    }
}

/// Where a torrent stands after a report, and with uploading.
pub open spec fn standing(
    state: TorrentState,
    status: SeedingStatus,
    finished: bool,
    complete: bool,
    needs_metadata: bool,
    live: Liveness,
) -> (TorrentState, SeedingStatus) {
    if state.in_error() || state == TorrentState::Paused {
        (state, status)
    } else if finished {
        if !complete {
            (TorrentState::Completed, SeedingStatus::NotEligible)
        } else if live.seeding {
            (TorrentState::Seeding, SeedingStatus::Active)
        } else {
            (TorrentState::Completed, SeedingStatus::Queued)
        }
    } else if live.running && !live.suppressed {
        let moved = if needs_metadata {
            TorrentState::DownloadingMetadata
        } else if state == TorrentState::Queued || state == TorrentState::DownloadingMetadata {
            TorrentState::Downloading
        } else {
            state
        };
        (moved, SeedingStatus::NotEligible)
    } else {
        (state, status)
    }
}

/// The torrent took over what its engine reported.
pub open spec fn progress_recorded(
    before: Torrent,
    after: Torrent,
    report: EngineState,
    fresh: FreshRates,
    previous: Option<RateSample>,
    live: Liveness,
    now: Tick,
) -> bool {
    let status = crate::engine::status_with_metadata(
        before.seeding_status,
        report.resolved_meta,
        report.pieces_have@,
    );
    let sample = next_sample(previous, before, report, fresh, now);
    let standing = standing(
        before.state,
        status,
        report.finished,
        after.progress.complete(),
        after.needs_metadata,
        live,
    );
    &&& crate::engine::payload_updated(
        before,
        Torrent {
            rate_down: before.rate_down,
            rate_up: before.rate_up,
            downloaded: before.downloaded,
            uploaded: before.uploaded,
            active_peer_workers: before.active_peer_workers,
            known_peers: before.known_peers,
            state: before.state,
            seeding_status: status,
            ..after
        },
        report.resolved_meta,
        report.pieces_have@,
        report.piece_count,
    )
    &&& after.rate_down == match sample {
        Some(sample) => sample.rate_down,
        None => before.rate_down,
    }
    &&& after.rate_up == match sample {
        Some(sample) => sample.rate_up,
        None => before.rate_up,
    }
    &&& after.downloaded == report.downloaded
    &&& after.uploaded == report.uploaded
    &&& after.active_peer_workers == report.active_peers
    &&& after.known_peers == report.known_peers
    &&& after.state == standing.0
    &&& after.seeding_status == standing.1
}

fn larger_of(a: u64, b: u64) -> (rate: u64)
    ensures
        rate == larger(a, b),
{
    if a >= b {
        a
    } else {
        b
    }
}

fn sample_rates(
    previous: Option<RateSample>,
    torrent: &Torrent,
    report: &EngineState,
    fresh: FreshRates,
    now: Tick,
) -> (sample: Option<RateSample>)
    ensures
        sample == next_sample(previous, *torrent, *report, fresh, now),
{
    let previous: RateSample = match previous {
        Some(previous) => previous,
        None => {
            return Some(
                RateSample {
                    downloaded: report.downloaded,
                    uploaded: report.uploaded,
                    rate_down: torrent.rate_down,
                    rate_up: torrent.rate_up,
                    last_download_at: None,
                    last_upload_at: None,
                    no_download_since: Some(now),
                    at: now,
                    peak_rate_down: 0,
                    peak_rate_up: 0,
                },
            );
        },
    };
    if now.saturating_since(&previous.at) < SAMPLE_INTERVAL_NANOS {
        return None;
    }
    let downloaded: bool = report.downloaded > previous.downloaded;
    let uploaded: bool = report.uploaded > previous.uploaded;
    let last_download_at: Option<Tick> = if downloaded {
        Some(now)
    } else {
        previous.last_download_at
    };
    let last_upload_at: Option<Tick> = if uploaded {
        Some(now)
    } else {
        previous.last_upload_at
    };
    let idle_since: Tick = match previous.no_download_since {
        Some(since) => since,
        None => previous.at,
    };
    let rate_down: u64 = smooth_rate(previous.rate_down, fresh.down, last_download_at, now);
    let rate_up: u64 = smooth_rate(previous.rate_up, fresh.up, last_upload_at, now);
    Some(
        RateSample {
            downloaded: report.downloaded,
            uploaded: report.uploaded,
            rate_down,
            rate_up,
            last_download_at,
            last_upload_at,
            no_download_since: if downloaded {
                None
            } else {
                Some(idle_since)
            },
            at: now,
            peak_rate_down: larger_of(
                previous.peak_rate_down,
                larger_of(rate_down, fresh.down),
            ),
            peak_rate_up: larger_of(previous.peak_rate_up, larger_of(rate_up, fresh.up)),
        },
    )
}

fn settle(torrent: &mut Torrent, finished: bool, live: Liveness)
    ensures
        *final(torrent) == (Torrent {
            state: standing(
                old(torrent).state,
                old(torrent).seeding_status,
                finished,
                old(torrent).progress.complete(),
                old(torrent).needs_metadata,
                live,
            ).0,
            seeding_status: standing(
                old(torrent).state,
                old(torrent).seeding_status,
                finished,
                old(torrent).progress.complete(),
                old(torrent).needs_metadata,
                live,
            ).1,
            ..*old(torrent)
        }),
{
    if torrent.state.is_error() || torrent.state == TorrentState::Paused {
        return ;
    }
    if finished {
        if !torrent.progress.is_complete() {
            torrent.state = TorrentState::Completed;
            torrent.seeding_status = SeedingStatus::NotEligible;
        } else if live.seeding {
            torrent.state = TorrentState::Seeding;
            torrent.seeding_status = SeedingStatus::Active;
        } else {
            torrent.state = TorrentState::Completed;
            torrent.seeding_status = SeedingStatus::Queued;
        }
    } else if live.running && !live.suppressed {
        torrent.seeding_status = SeedingStatus::NotEligible;
        if torrent.needs_metadata {
            torrent.state = TorrentState::DownloadingMetadata;
        } else if torrent.state == TorrentState::Queued || torrent.state
            == TorrentState::DownloadingMetadata {
            torrent.state = TorrentState::Downloading;
        }
    }
}

/// Takes over what a torrent's engine reported, and returns the sample that it gives rise to.
pub fn record_progress(
    torrent: &mut Torrent,
    report: &EngineState,
    resolved: Option<TorrentMeta>,
    fresh: FreshRates,
    previous: Option<RateSample>,
    live: Liveness,
    now: Tick,
) -> (sample: Option<RateSample>)
    ensures
        progress_recorded(
            *old(torrent),
            *final(torrent),
            EngineState { resolved_meta: resolved, ..*report },
            fresh,
            previous,
            live,
            now,
        ),
        sample == next_sample(previous, *old(torrent), *report, fresh, now),
{
    let sample: Option<RateSample> = sample_rates(previous, torrent, report, fresh, now);
    update_payload(torrent, resolved, &report.pieces_have, report.piece_count);
    if let Some(sample) = sample {
        torrent.rate_down = sample.rate_down;
        torrent.rate_up = sample.rate_up;
    }
    torrent.downloaded = report.downloaded;
    torrent.uploaded = report.uploaded;
    torrent.active_peer_workers = report.active_peers;
    torrent.known_peers = report.known_peers;
    settle(torrent, report.finished, live);
    sample
}

/// The value that a table holds for a torrent.
pub open spec fn lookup<V>(table: Map<InfoHash, V>, hash: InfoHash) -> Option<V> {
    if table.dom().contains(hash) {
        Some(table[hash])
    } else {
        None
    }
}

/// Some report is about the torrent.
pub open spec fn reported(reports: Seq<EngineReport>, hash: InfoHash) -> bool {
    exists|i: int| 0 <= i < reports.len() && (#[trigger] reports[i]).hash == hash
}

/// No two reports are about the same torrent.
pub open spec fn one_report_each(reports: Seq<EngineReport>) -> bool {
    forall|i: int, j: int|
        0 <= i < j < reports.len() ==> (#[trigger] reports[i]).hash != (#[trigger] reports[j]).hash
}

impl FleetView {
    /// What tasks there are for a torrent.
    pub open spec fn liveness(self, hash: InfoHash, now: Tick) -> Liveness {
        Liveness {
            running: self.engines.dom().contains(hash),
            suppressed: crate::scheduler::backing_off(self.retry_after, now, hash),
            seeding: self.seeders.dom().contains(hash),
        }
    }

    /// A report has been taken over by its torrent and its sample.
    pub open spec fn took_over(self, after: FleetView, report: EngineReport, now: Tick) -> bool {
        let hash = report.hash;
        let previous = lookup(self.rate_samples, hash);
        self.registry.dom().contains(hash) ==> {
            &&& progress_recorded(
                self.registry[hash],
                after.registry[hash],
                report.state,
                report.fresh,
                previous,
                self.liveness(hash, now),
                now,
            )
            &&& lookup(after.rate_samples, hash) == match next_sample(
                previous,
                self.registry[hash],
                report.state,
                report.fresh,
                now,
            ) {
                Some(sample) => Some(sample),
                None => previous,
            }
        }
    }

    /// Nothing has been taken over for a torrent.
    pub open spec fn untouched(self, after: FleetView, hash: InfoHash) -> bool {
        lookup(after.registry, hash) == lookup(self.registry, hash) && lookup(
            after.rate_samples,
            hash,
        ) == lookup(self.rate_samples, hash)
    }
}

/// What observers are told of a torrent that took over a report.
pub open spec fn report_events(hash: InfoHash, before: Torrent, after: Torrent) -> Seq<Effect> {
    let metadata = if before.needs_metadata && !after.needs_metadata {
        seq![Effect::Publish(Event::MetadataReceived { hash })]
    } else {
        Seq::<Effect>::empty()
    };
    let changed = if after.state == before.state {
        Seq::<Effect>::empty()
    } else if after.state == TorrentState::Completed {
        seq![
            crate::effects::torrent_effect(TorrentEventKind::Changed, hash, after.state),
            crate::effects::torrent_effect(TorrentEventKind::Completed, hash, after.state),
        ]
    } else {
        seq![crate::effects::torrent_effect(TorrentEventKind::Changed, hash, after.state)]
    };
    metadata + changed
}

/// What observers are told of the torrents of the first reports.
pub open spec fn all_report_events(
    before: Map<InfoHash, Torrent>,
    after: Map<InfoHash, Torrent>,
    reports: Seq<EngineReport>,
    count: nat,
) -> Seq<Effect>
    decreases count,
{
    if count == 0 {
        Seq::<Effect>::empty()
    } else {
        let hash = reports[count - 1].hash;
        all_report_events(before, after, reports, (count - 1) as nat) + if before.dom().contains(
            hash,
        ) {
            report_events(hash, before[hash], after[hash])
        } else {
            Seq::<Effect>::empty()
        }
    }
}

proof fn lemma_events_depend_on_reported(
    before: Map<InfoHash, Torrent>,
    a: Map<InfoHash, Torrent>,
    b: Map<InfoHash, Torrent>,
    reports: Seq<EngineReport>,
    count: nat,
)
    requires
        count <= reports.len(),
        forall|i: int|
            0 <= i < count && before.dom().contains((#[trigger] reports[i]).hash)
                ==> a[reports[i].hash] == b[reports[i].hash],
    ensures
        all_report_events(before, a, reports, count) == all_report_events(
            before,
            b,
            reports,
            count,
        ),
    decreases count,
{
    if count > 0 {
        lemma_events_depend_on_reported(before, a, b, reports, (count - 1) as nat);
        assert(before.dom().contains(reports[count - 1].hash) ==> a[reports[count - 1].hash]
            == b[reports[count - 1].hash]);
    }
}

fn push_report_events(
    hash: InfoHash,
    metadata_received: bool,
    before: TorrentState,
    after: TorrentState,
    effects: &mut Vec<Effect>,
)
    ensures
        forall|old_torrent: Torrent, new_torrent: Torrent|
            #![trigger report_events(hash, old_torrent, new_torrent)]
            old_torrent.state == before && new_torrent.state == after && metadata_received == (
            old_torrent.needs_metadata && !new_torrent.needs_metadata) ==> final(effects)@ == old(
                effects,
            )@ + report_events(hash, old_torrent, new_torrent),
{
    let ghost asked = effects@;
    if metadata_received {
        effects.push(Effect::Publish(Event::MetadataReceived { hash }));
    }
    if after != before {
        effects.push(
            Effect::Publish(Event::Torrent { kind: TorrentEventKind::Changed, hash, state: after }),
        );
        if after == TorrentState::Completed {
            effects.push(
                Effect::Publish(
                    Event::Torrent { kind: TorrentEventKind::Completed, hash, state: after },
                ),
            );
        }
    }
    assert forall|old_torrent: Torrent, new_torrent: Torrent|
        #![trigger report_events(hash, old_torrent, new_torrent)]
        old_torrent.state == before && new_torrent.state == after && metadata_received == (
        old_torrent.needs_metadata && !new_torrent.needs_metadata) implies effects@ == asked
        + report_events(hash, old_torrent, new_torrent) by {
        assert(effects@ =~= asked + report_events(hash, old_torrent, new_torrent));
    }
}

/// The signals of a torrent's health, for the torrent they are about.
#[derive(Debug)]
pub struct TorrentSignals {
    pub hash: InfoHash,
    pub input: HealthInput,
}

impl Fleet {
    /// Takes over one report.
    fn take_report(
        &mut self,
        hash: InfoHash,
        state: &EngineState,
        resolved: Option<TorrentMeta>,
        fresh: FreshRates,
        now: Tick,
        global_download_limit: u64,
        network: &NetworkHealth,
        effects: &mut Vec<Effect>,
    ) -> (input: Option<HealthInput>)
        requires
            old(self).wf(),
        ensures
            final(self).wf(),
            final(self)@ == (FleetView {
                registry: final(self)@.registry,
                rate_samples: final(self)@.rate_samples,
                ..old(self)@
            }),
            final(self)@.registry.dom() == old(self)@.registry.dom(),
            forall|other: InfoHash|
                #![trigger lookup(final(self)@.registry, other)]
                #![trigger lookup(final(self)@.rate_samples, other)]
                other != hash ==> old(self)@.untouched(final(self)@, other),
            old(self)@.took_over(
                final(self)@,
                EngineReport {
                    hash,
                    state: EngineState { resolved_meta: resolved, ..*state },
                    fresh,
                },
                now,
            ),
            !old(self)@.registry.dom().contains(hash) ==> old(self)@.untouched(final(self)@, hash),
            final(effects)@ == old(effects)@ + if old(self)@.registry.dom().contains(hash) {
                report_events(hash, old(self)@.registry[hash], final(self)@.registry[hash])
            } else {
                Seq::<Effect>::empty()
            },
            input.is_some() == old(self)@.registry.dom().contains(hash),
            input matches Some(input) ==> crate::health::signals_match(
                input,
                final(self)@.registry[hash],
                *state,
                known_peak(
                    lookup(old(self)@.rate_samples, hash),
                    next_sample(
                        lookup(old(self)@.rate_samples, hash),
                        old(self)@.registry[hash],
                        *state,
                        fresh,
                        now,
                    ),
                ),
                global_download_limit,
                *network,
                now,
            ),
    {
        let position: usize = match self.registry.find(&hash) {
            Some(position) => position,
            None => {
                assert(effects@ =~= old(effects)@ + Seq::<Effect>::empty());
                return None;
            },
        };
        let previous: Option<RateSample> = match self.rate_samples.get(&hash) {
            Some(sample) => Some(*sample),
            None => None,
        };
        let live: Liveness = Liveness {
            running: self.engines.contains(&hash),
            suppressed: is_backing_off(&self.retry_after, now, &hash),
            seeding: self.seeders.contains(&hash),
        };
        let torrent: &mut Torrent = self.registry.value_at_mut(position);
        let before: TorrentState = torrent.state;
        let needed_metadata: bool = torrent.needs_metadata;
        let sample: Option<RateSample> = record_progress(
            torrent,
            state,
            resolved,
            fresh,
            previous,
            live,
            now,
        );
        let peak: u64 = match (previous, sample) {
            (Some(_), Some(sample)) => sample.peak_rate_down,
            (Some(previous), None) => previous.peak_rate_down,
            _ => 0,
        };
        let input: HealthInput = build_health_input(
            torrent,
            state,
            peak,
            global_download_limit,
            network,
            now,
        );
        let after: TorrentState = torrent.state;
        let received: bool = needed_metadata && !torrent.needs_metadata;
        push_report_events(hash, received, before, after, effects);
        if let Some(sample) = sample {
            self.rate_samples.insert(hash, sample);
        }
        assert(self@.registry.dom() =~= old(self)@.registry.dom());
        Some(input)
    }
}

/// Every report was taken over, and nothing else changed.
pub open spec fn progress_made(
    before: FleetView,
    after: FleetView,
    reports: Seq<EngineReport>,
    now: Tick,
) -> bool {
    &&& after == (FleetView {
        registry: after.registry,
        rate_samples: after.rate_samples,
        ..before
    })
    &&& after.registry.dom() == before.registry.dom()
    &&& forall|i: int|
        0 <= i < reports.len() ==> before.took_over(after, #[trigger] reports[i], now)
    &&& forall|hash: InfoHash|
        #![trigger lookup(after.registry, hash)]
        #![trigger lookup(after.rate_samples, hash)]
        !reported(reports, hash) || !before.registry.dom().contains(hash) ==> before.untouched(
            after,
            hash,
        )
}

/// The signals of every known torrent that reported, in the order of the reports.
pub open spec fn signals_recorded(
    before: FleetView,
    after: FleetView,
    reports: Seq<EngineReport>,
    signals: Seq<TorrentSignals>,
    global_download_limit: u64,
    network: NetworkHealth,
    now: Tick,
    count: nat,
) -> bool
    decreases count,
{
    if count == 0 {
        signals.len() == 0
    } else {
        let report = reports[count - 1];
        let hash = report.hash;
        let previous = lookup(before.rate_samples, hash);
        if before.registry.dom().contains(hash) {
            &&& signals.len() > 0
            &&& signals.last().hash == hash
            &&& crate::health::signals_match(
                signals.last().input,
                after.registry[hash],
                report.state,
                known_peak(
                    previous,
                    next_sample(
                        previous,
                        before.registry[hash],
                        report.state,
                        report.fresh,
                        now,
                    ),
                ),
                global_download_limit,
                network,
                now,
            )
            &&& signals_recorded(
                before,
                after,
                reports,
                signals.drop_last(),
                global_download_limit,
                network,
                now,
                (count - 1) as nat,
            )
        } else {
            signals_recorded(
                before,
                after,
                reports,
                signals,
                global_download_limit,
                network,
                now,
                (count - 1) as nat,
            )
        }
    }
}

proof fn lemma_signals_depend_on_reported(
    before: FleetView,
    a: FleetView,
    b: FleetView,
    reports: Seq<EngineReport>,
    signals: Seq<TorrentSignals>,
    global_download_limit: u64,
    network: NetworkHealth,
    now: Tick,
    count: nat,
)
    requires
        count <= reports.len(),
        forall|i: int|
            0 <= i < count && before.registry.dom().contains((#[trigger] reports[i]).hash)
                ==> a.registry[reports[i].hash] == b.registry[reports[i].hash],
        signals_recorded(
            before,
            a,
            reports,
            signals,
            global_download_limit,
            network,
            now,
            count,
        ),
    ensures
        signals_recorded(
            before,
            b,
            reports,
            signals,
            global_download_limit,
            network,
            now,
            count,
        ),
    decreases count,
{
    if count > 0 {
        let hash = reports[count - 1].hash;
        if before.registry.dom().contains(hash) {
            lemma_signals_depend_on_reported(
                before,
                a,
                b,
                reports,
                signals.drop_last(),
                global_download_limit,
                network,
                now,
                (count - 1) as nat,
            );
        } else {
            lemma_signals_depend_on_reported(
                before,
                a,
                b,
                reports,
                signals,
                global_download_limit,
                network,
                now,
                (count - 1) as nat,
            );
        }
    }
}

impl Fleet {
    /// Takes over what all engines reported: progress, rates, states, and the signals of every
    /// torrent's health. With `settle` set, finished torrents are then swept, uploads reconciled,
    /// and the state written out.
    #[verifier::rlimit(60)]
    pub fn reconcile_engine_progress(
        &mut self,
        reports: Vec<EngineReport>,
        settle: bool,
        global_download_limit: u64,
        network: &NetworkHealth,
        now: Tick,
        effects: &mut Vec<Effect>,
    ) -> (signals: Vec<TorrentSignals>)
        requires
            old(self).wf(),
            one_report_each(reports@),
        ensures
            final(self).wf(),
            progress_made(old(self)@, final(self)@, reports@, now),
            signals_recorded(
                old(self)@,
                final(self)@,
                reports@,
                signals@,
                global_download_limit,
                *network,
                now,
                reports@.len(),
            ),
            final(effects)@ == old(effects)@ + all_report_events(
                old(self)@.registry,
                final(self)@.registry,
                reports@,
                reports@.len(),
            ) + (if reports@.len() > 0 {
                seq![crate::effects::stats_effect()]
            } else {
                Seq::<Effect>::empty()
            }) + (if settle {
                seq![Effect::SweepCompleted, Effect::ReconcileSeeders]
            } else {
                Seq::<Effect>::empty()
            }) + (if settle && reports@.len() > 0 {
                seq![Effect::Persist]
            } else {
                Seq::<Effect>::empty()
            }),
    {
        let ghost given = reports@;
        let ghost before = self@;
        let ghost asked = effects@;
        let mut reports: Vec<EngineReport> = reports;
        let mut signals: Vec<TorrentSignals> = Vec::new();
        let mut i: usize = 0;
        assert(effects@ =~= asked + all_report_events(before.registry, self@.registry, given, 0));
        while i < reports.len()
            invariant
                i <= reports@.len(),
                reports@.len() == given.len(),
                forall|k: int| i <= k < given.len() ==> #[trigger] reports@[k] == given[k],
                one_report_each(given),
                self.wf(),
                self@ == (FleetView {
                    registry: self@.registry,
                    rate_samples: self@.rate_samples,
                    ..before
                }),
                self@.registry.dom() == before.registry.dom(),
                forall|k: int|
                    0 <= k < i ==> before.took_over(self@, #[trigger] given[k], now),
                forall|hash: InfoHash|
                    #![trigger lookup(self@.registry, hash)]
                    #![trigger lookup(self@.rate_samples, hash)]
                    !reported(given.take(i as int), hash) || !before.registry.dom().contains(hash)
                        ==> before.untouched(self@, hash),
                signals_recorded(
                    before,
                    self@,
                    given,
                    signals@,
                    global_download_limit,
                    *network,
                    now,
                    i as nat,
                ),
                effects@ == asked + all_report_events(
                    before.registry,
                    self@.registry,
                    given,
                    i as nat,
                ),
            decreases reports@.len() - i,
        {
            let ghost middle = self@;
            let ghost told = effects@;
            let ghost listed = signals@;
            let ghost report = given[i as int];
            assert(reports@[i as int] == report);
            let hash: InfoHash = reports[i].hash;
            let fresh: FreshRates = reports[i].fresh;
            let current: &mut EngineReport = &mut reports[i];
            let resolved: Option<TorrentMeta> = current.state.resolved_meta.take();
            proof {
                assert(!reported(given.take(i as int), hash)) by {
                    if reported(given.take(i as int), hash) {
                        let k = choose|k: int|
                            0 <= k < given.take(i as int).len() && (#[trigger] given.take(
                                i as int,
                            )[k]).hash == hash;
                        assert(given[k].hash != given[i as int].hash);
                    }
                }
                assert(lookup(middle.registry, hash) == lookup(before.registry, hash));
                assert(lookup(middle.rate_samples, hash) == lookup(before.rate_samples, hash));
            }
            let input: Option<HealthInput> = self.take_report(
                hash,
                &reports[i].state,
                resolved,
                fresh,
                now,
                global_download_limit,
                network,
                effects,
            );
            proof {
                let restored = EngineReport {
                    hash,
                    state: EngineState { resolved_meta: resolved, ..reports@[i as int].state },
                    fresh,
                };
                assert(restored == report);
                assert forall|k: int| 0 <= k < i + 1 implies before.took_over(
                    self@,
                    #[trigger] given[k],
                    now,
                ) by {
                    if k < i {
                        assert(given[k].hash != given[i as int].hash);
                        assert(before.took_over(middle, given[k], now));
                        assert(lookup(self@.registry, given[k].hash) == lookup(
                            middle.registry,
                            given[k].hash,
                        ));
                        assert(lookup(self@.rate_samples, given[k].hash) == lookup(
                            middle.rate_samples,
                            given[k].hash,
                        ));
                    }
                }
                assert forall|other: InfoHash|
                    #![trigger lookup(self@.registry, other)]
                    #![trigger lookup(self@.rate_samples, other)]
                    !reported(given.take(i + 1), other) || !before.registry.dom().contains(
                        other,
                    ) implies before.untouched(self@, other) by {
                    if reported(given.take(i as int), other) {
                        let k = choose|k: int|
                            0 <= k < given.take(i as int).len() && (#[trigger] given.take(
                                i as int,
                            )[k]).hash == other;
                        assert(given.take(i + 1)[k].hash == other);
                    }
                    assert(given.take(i + 1)[i as int].hash == hash);
                    assert(lookup(middle.registry, other) == lookup(before.registry, other));
                    assert(lookup(middle.rate_samples, other) == lookup(
                        before.rate_samples,
                        other,
                    ));
                }
                assert forall|k: int|
                    0 <= k < i && before.registry.dom().contains(
                        (#[trigger] given[k]).hash,
                    ) implies middle.registry[given[k].hash] == self@.registry[given[k].hash] by {
                    assert(given[k].hash != given[i as int].hash);
                    assert(lookup(self@.registry, given[k].hash) == lookup(
                        middle.registry,
                        given[k].hash,
                    ));
                }
                lemma_events_depend_on_reported(
                    before.registry,
                    middle.registry,
                    self@.registry,
                    given,
                    i as nat,
                );
                assert(effects@ =~= asked + all_report_events(
                    before.registry,
                    self@.registry,
                    given,
                    (i + 1) as nat,
                ));
                lemma_signals_depend_on_reported(
                    before,
                    middle,
                    self@,
                    given,
                    listed,
                    global_download_limit,
                    *network,
                    now,
                    i as nat,
                );
            }
            if let Some(input) = input {
                signals.push(TorrentSignals { hash, input });
                assert(signals@.drop_last() =~= listed);
            }
            i = i + 1;
        }
        assert(given.take(i as int) =~= given);
        let ghost told = effects@;
        if reports.len() > 0 {
            effects.push(Effect::Publish(Event::StatsUpdated));
        }
        if settle {
            effects.push(Effect::SweepCompleted);
            effects.push(Effect::ReconcileSeeders);
            if reports.len() > 0 {
                effects.push(Effect::Persist);
            }
        }
        assert(effects@ =~= told + (if given.len() > 0 {
            seq![crate::effects::stats_effect()]
        } else {
            Seq::<Effect>::empty()
        }) + (if settle {
            seq![Effect::SweepCompleted, Effect::ReconcileSeeders]
        } else {
            Seq::<Effect>::empty()
        }) + (if settle && given.len() > 0 {
            seq![Effect::Persist]
        } else {
            Seq::<Effect>::empty()
        }));
        signals
    }
}

/// What became of a torrent whose engine reported.
proof fn lemma_taken_over(
    before: FleetView,
    after: FleetView,
    reports: Seq<EngineReport>,
    now: Tick,
    i: int,
)
    requires
        progress_made(before, after, reports, now),
        0 <= i < reports.len(),
        before.registry.dom().contains(reports[i].hash),
    ensures
        progress_recorded(
            before.registry[reports[i].hash],
            after.registry[reports[i].hash],
            reports[i].state,
            reports[i].fresh,
            lookup(before.rate_samples, reports[i].hash),
            before.liveness(reports[i].hash, now),
            now,
        ),
{
    assert(before.took_over(after, reports[i], now));
}

/// A torrent whose engine reports that it is finished is finished: it is shown as uploading where
/// all its pieces are there and an upload lives, as completed otherwise, and it wants no download
/// slot any more. A torrent that was paused, or is held up by an error, stays where it is.
pub proof fn finished_downloads_are_over(
    before: FleetView,
    after: FleetView,
    reports: Seq<EngineReport>,
    now: Tick,
    i: int,
)
    requires
        progress_made(before, after, reports, now),
        0 <= i < reports.len(),
        before.registry.dom().contains(reports[i].hash),
        reports[i].state.finished,
    ensures
        ({
            let hash = reports[i].hash;
            let was = before.registry[hash].state;
            let torrent = after.registry[hash];
            let held = was == TorrentState::Paused || was == TorrentState::Error || was
                == TorrentState::NetworkBlocked || was == TorrentState::StorageError || was
                == TorrentState::TrackerError;
            let have = torrent.progress.have@;
            let whole = have.len() > 0 && forall|piece: int|
                0 <= piece < have.len() ==> #[trigger] have[piece];
            &&& held ==> torrent.state == was
            &&& !held ==> {
                &&& torrent.state == TorrentState::Completed || torrent.state
                    == TorrentState::Seeding
                &&& (torrent.state == TorrentState::Seeding) == (whole
                    && before.seeders.dom().contains(hash))
                &&& torrent.seeding_status == if torrent.state == TorrentState::Seeding {
                    SeedingStatus::Active
                } else if whole {
                    SeedingStatus::Queued
                } else {
                    SeedingStatus::NotEligible
                }
            }
            &&& forall|plan: crate::scheduler::Plan, all: Seq<InfoHash>|
                !held && plan.registry == after.registry ==> !(#[trigger] plan.chosen(
                    all,
                )).contains(hash)
        }),
{
    lemma_taken_over(before, after, reports, now, i);
    let hash = reports[i].hash;
    let torrent = after.registry[hash];
    assert forall|plan: crate::scheduler::Plan, all: Seq<InfoHash>|
        (torrent.state == TorrentState::Completed || torrent.state == TorrentState::Seeding)
            && plan.registry == after.registry implies !(#[trigger] plan.chosen(all)).contains(
        hash,
    ) by {
        crate::scheduler::choice_respects_limits(plan, all);
        assert(!plan.eligible(hash));
    }
}

/// A torrent whose engine runs and is not finished is shown as working: as fetching metadata while
/// that is missing, as downloading once it waited or fetched metadata before. Without an engine, or
/// while a retry is due later, a report moves no torrent that is not finished; and no report ever
/// moves one that was paused or is held up by an error.
pub proof fn running_downloads_are_shown(
    before: FleetView,
    after: FleetView,
    reports: Seq<EngineReport>,
    now: Tick,
    i: int,
)
    requires
        progress_made(before, after, reports, now),
        0 <= i < reports.len(),
        before.registry.dom().contains(reports[i].hash),
        !reports[i].state.finished,
    ensures
        ({
            let hash = reports[i].hash;
            let was = before.registry[hash].state;
            let torrent = after.registry[hash];
            let held = was == TorrentState::Paused || was == TorrentState::Error || was
                == TorrentState::NetworkBlocked || was == TorrentState::StorageError || was
                == TorrentState::TrackerError;
            let delayed = before.retry_after.dom().contains(hash)
                && before.retry_after[hash].nanos > now.nanos;
            let works = before.engines.dom().contains(hash) && !delayed && !held;
            &&& !works ==> torrent.state == was
            &&& works ==> torrent.seeding_status == SeedingStatus::NotEligible
            &&& works && torrent.needs_metadata ==> torrent.state
                == TorrentState::DownloadingMetadata
            &&& works && !torrent.needs_metadata ==> torrent.state == if was
                == TorrentState::Queued || was == TorrentState::DownloadingMetadata {
                TorrentState::Downloading
            } else {
                was
            }
        }),
{
    lemma_taken_over(before, after, reports, now, i);
}

/// After a report the torrent shows the engine's counters and exactly the pieces that the engine
/// has; metadata that came in is taken over once and for all, and what the user set for the
/// torrent is kept.
pub proof fn reports_are_taken_over(
    before: FleetView,
    after: FleetView,
    reports: Seq<EngineReport>,
    now: Tick,
    i: int,
)
    requires
        progress_made(before, after, reports, now),
        0 <= i < reports.len(),
        before.registry.dom().contains(reports[i].hash),
    ensures
        ({
            let report = reports[i].state;
            let was = before.registry[reports[i].hash];
            let torrent = after.registry[reports[i].hash];
            let have = torrent.progress.have@;
            &&& torrent.downloaded == report.downloaded
            &&& torrent.uploaded == report.uploaded
            &&& torrent.active_peer_workers == report.active_peers
            &&& torrent.known_peers == report.known_peers
            &&& have.len() == report.piece_count
            &&& forall|piece: int|
                0 <= piece < have.len() ==> #[trigger] have[piece] == (piece
                    < report.pieces_have@.len() && report.pieces_have@[piece])
            &&& report.resolved_meta matches Some(meta) ==> torrent.meta == meta
                && !torrent.needs_metadata && torrent.magnet_info_hash.is_none()
            &&& report.resolved_meta.is_none() ==> torrent.meta == was.meta
                && torrent.needs_metadata == was.needs_metadata && torrent.magnet_info_hash
                == was.magnet_info_hash && torrent.priorities == was.priorities && torrent.wanted
                == was.wanted
            &&& torrent.seeding == was.seeding
            &&& torrent.error == was.error
            &&& torrent.containment_recovery_intent == was.containment_recovery_intent
            &&& torrent.download_dir == was.download_dir
            &&& torrent.labels == was.labels
            &&& torrent.download_limit == was.download_limit
            &&& torrent.upload_limit == was.upload_limit
            &&& torrent.date_added == was.date_added
            &&& torrent.date_completed == was.date_completed
            &&& torrent.autopilot_mode_override == was.autopilot_mode_override
        }),
{
    lemma_taken_over(before, after, reports, now, i);
}

/// A torrent that no report is about stays as it is, and so do the queue and all tasks.
pub proof fn reports_touch_only_their_torrents(
    before: FleetView,
    after: FleetView,
    reports: Seq<EngineReport>,
    now: Tick,
    hash: InfoHash,
)
    requires
        progress_made(before, after, reports, now),
        forall|i: int| 0 <= i < reports.len() ==> (#[trigger] reports[i]).hash != hash,
    ensures
        after.registry.dom() == before.registry.dom(),
        before.registry.dom().contains(hash) ==> after.registry[hash] == before.registry[hash],
        after.queue == before.queue,
        after.engines == before.engines,
        after.seeders == before.seeders,
        after.retry_after == before.retry_after,
        after.listener_running == before.listener_running,
{
    assert(!reported(reports, hash));
    assert(lookup(after.registry, hash) == lookup(before.registry, hash));
}

/// That a torrent changed, as observers hear it.
proof fn lemma_event_told(
    before: Map<InfoHash, Torrent>,
    after: Map<InfoHash, Torrent>,
    reports: Seq<EngineReport>,
    count: nat,
    kind: TorrentEventKind,
    hash: InfoHash,
    state: TorrentState,
)
    requires
        count <= reports.len(),
        kind == TorrentEventKind::Changed || kind == TorrentEventKind::Completed,
    ensures
        all_report_events(before, after, reports, count).contains(
            Effect::Publish(Event::Torrent { kind, hash, state }),
        ) == (before.dom().contains(hash) && (exists|i: int|
            0 <= i < count && (#[trigger] reports[i]).hash == hash) && before[hash].state
            != after[hash].state && after[hash].state == state && (kind
            == TorrentEventKind::Completed ==> state == TorrentState::Completed)),
    decreases count,
{
    let told = Effect::Publish(Event::Torrent { kind, hash, state });
    let all = all_report_events(before, after, reports, count);
    if count == 0 {
        assert(all.len() == 0);
    } else {
        let rest = (count - 1) as nat;
        let report = reports[count - 1];
        let early = all_report_events(before, after, reports, rest);
        lemma_event_told(before, after, reports, rest, kind, hash, state);
        let own = if before.dom().contains(report.hash) {
            report_events(report.hash, before[report.hash], after[report.hash])
        } else {
            Seq::<Effect>::empty()
        };
        assert(all == early + own);
        assert(all.contains(told) == (early.contains(told) || own.contains(told))) by {
            if early.contains(told) {
                assert(all[early.index_of(told)] == told);
            }
            if own.contains(told) {
                assert(all[early.len() + own.index_of(told)] == told);
            }
            if all.contains(told) {
                let k = all.index_of(told);
                if k < early.len() {
                    assert(early[k] == told);
                } else {
                    assert(own[k - early.len()] == told);
                }
            }
        }
        if before.dom().contains(report.hash) {
            let was = before[report.hash];
            let torrent = after[report.hash];
            let first: int = if was.needs_metadata && !torrent.needs_metadata { 1 } else { 0 };
            if torrent.state != was.state {
                assert(own[first] == crate::effects::torrent_effect(
                    TorrentEventKind::Changed,
                    report.hash,
                    torrent.state,
                ));
                if torrent.state == TorrentState::Completed {
                    assert(own[first + 1] == crate::effects::torrent_effect(
                        TorrentEventKind::Completed,
                        report.hash,
                        torrent.state,
                    ));
                }
            }
        }
        let some_now = exists|i: int| 0 <= i < count && (#[trigger] reports[i]).hash == hash;
        let some_early = exists|i: int| 0 <= i < rest && (#[trigger] reports[i]).hash == hash;
        assert(some_now == (some_early || report.hash == hash)) by {
            if report.hash == hash {
                assert(reports[count - 1].hash == hash);
            }
        }
    }
}

/// Observers hear that a torrent changed exactly when a report moved it to another state, with
/// that state; and that it is completed exactly when a report moved it there.
pub proof fn observers_hear_of_every_move(
    before: FleetView,
    after: FleetView,
    reports: Seq<EngineReport>,
    hash: InfoHash,
    state: TorrentState,
)
    ensures
        ({
            let told = all_report_events(
                before.registry,
                after.registry,
                reports,
                reports.len(),
            );
            let moved = before.registry.dom().contains(hash) && (exists|i: int|
                0 <= i < reports.len() && (#[trigger] reports[i]).hash == hash)
                && before.registry[hash].state != after.registry[hash].state;
            &&& told.contains(
                Effect::Publish(
                    Event::Torrent { kind: TorrentEventKind::Changed, hash, state },
                ),
            ) == (moved && after.registry[hash].state == state)
            &&& told.contains(
                Effect::Publish(
                    Event::Torrent { kind: TorrentEventKind::Completed, hash, state },
                ),
            ) == (moved && after.registry[hash].state == state && state
                == TorrentState::Completed)
        }),
{
    lemma_event_told(
        before.registry,
        after.registry,
        reports,
        reports.len(),
        TorrentEventKind::Changed,
        hash,
        state,
    );
    lemma_event_told(
        before.registry,
        after.registry,
        reports,
        reports.len(),
        TorrentEventKind::Completed,
        hash,
        state,
    );
}

/// Samples too close together are not compared; else the new one holds the counters and the time
/// of the report, its peaks never fall below earlier ones or below the rates it shows, and it says
/// when data last came in or went out, and since when none came in.
pub proof fn samples_remember_what_moved(
    previous: RateSample,
    torrent: Torrent,
    report: EngineState,
    fresh: FreshRates,
    now: Tick,
)
    ensures
        match next_sample(Some(previous), torrent, report, fresh, now) {
            None => now.nanos < previous.at.nanos + 250_000_000,
            Some(sample) => {
                &&& now.nanos >= previous.at.nanos + 250_000_000
                &&& sample.at == now
                &&& sample.downloaded == report.downloaded
                &&& sample.uploaded == report.uploaded
                &&& sample.peak_rate_down >= previous.peak_rate_down
                &&& sample.peak_rate_down >= sample.rate_down
                &&& sample.peak_rate_down >= fresh.down
                &&& sample.peak_rate_up >= previous.peak_rate_up
                &&& sample.peak_rate_up >= sample.rate_up
                &&& sample.peak_rate_up >= fresh.up
                &&& sample.peak_rate_down == previous.peak_rate_down || sample.peak_rate_down
                    == sample.rate_down || sample.peak_rate_down == fresh.down
                &&& sample.peak_rate_up == previous.peak_rate_up || sample.peak_rate_up
                    == sample.rate_up || sample.peak_rate_up == fresh.up
                &&& fresh.down > 0 && previous.rate_down == 0 ==> sample.rate_down == fresh.down
                &&& fresh.up > 0 && previous.rate_up == 0 ==> sample.rate_up == fresh.up
                &&& if report.downloaded > previous.downloaded {
                    sample.last_download_at == Some(now) && sample.no_download_since.is_none()
                } else {
                    sample.last_download_at == previous.last_download_at
                        && sample.no_download_since == Some(
                        previous.no_download_since.unwrap_or(previous.at),
                    )
                }
                &&& sample.last_upload_at == if report.uploaded > previous.uploaded {
                    Some(now)
                } else {
                    previous.last_upload_at
                }
            },
        },
{
}

/// The first sample of a torrent holds the counters as they are and starts the count of idle time.
pub proof fn first_samples_start_counting(
    torrent: Torrent,
    report: EngineState,
    fresh: FreshRates,
    now: Tick,
)
    ensures
        next_sample(None, torrent, report, fresh, now) matches Some(sample) && {
            &&& sample.at == now
            &&& sample.downloaded == report.downloaded
            &&& sample.uploaded == report.uploaded
            &&& sample.no_download_since == Some(now)
            &&& sample.last_download_at.is_none()
            &&& sample.last_upload_at.is_none()
            &&& sample.rate_down == torrent.rate_down
            &&& sample.rate_up == torrent.rate_up
            &&& sample.peak_rate_down == 0
            &&& sample.peak_rate_up == 0
        },
{
}

/// The peak that is known of a torrent is that of the newer measurement, else of the older one, and
/// none before there were two.
pub proof fn peaks_are_the_newest(previous: RateSample, next: RateSample)
    ensures
        known_peak(Some(previous), Some(next)) == next.peak_rate_down,
        known_peak(Some(previous), None) == previous.peak_rate_down,
        known_peak(None, Some(next)) == 0,
{
}

/// Each report of a known torrent leaves one set of signals, in the order of the reports.
pub proof fn every_report_leaves_signals(
    before: FleetView,
    after: FleetView,
    reports: Seq<EngineReport>,
    signals: Seq<TorrentSignals>,
    global_download_limit: u64,
    network: NetworkHealth,
    now: Tick,
    count: nat,
)
    requires
        signals_recorded(
            before,
            after,
            reports,
            signals,
            global_download_limit,
            network,
            now,
            count,
        ),
        count <= reports.len(),
        forall|i: int|
            0 <= i < count ==> before.registry.dom().contains((#[trigger] reports[i]).hash),
    ensures
        signals.len() == count,
        forall|i: int| 0 <= i < count ==> (#[trigger] signals[i]).hash == reports[i].hash,
    decreases count,
{
    if count > 0 {
        assert(before.registry.dom().contains(reports[count - 1].hash));
        let fewer = (count - 1) as nat;
        every_report_leaves_signals(
            before,
            after,
            reports,
            signals.drop_last(),
            global_download_limit,
            network,
            now,
            fewer,
        );
        assert forall|i: int| 0 <= i < count implies (#[trigger] signals[i]).hash
            == reports[i].hash by {
            if i < count - 1 {
                assert(signals.drop_last()[i] == signals[i]);
            }
        }
    }
}

/// The rates that a torrent shows after a report are those of its newest measurement. A report that
/// comes within a quarter of a second of the last measurement changes neither the rates nor the
/// measurement; the first one leaves the rates as they are.
pub proof fn shown_rates_are_the_measured_ones(
    before: FleetView,
    after: FleetView,
    reports: Seq<EngineReport>,
    now: Tick,
    i: int,
)
    requires
        progress_made(before, after, reports, now),
        0 <= i < reports.len(),
        before.registry.dom().contains(reports[i].hash),
    ensures
        ({
            let hash = reports[i].hash;
            let was = before.registry[hash];
            let torrent = after.registry[hash];
            let measured = before.rate_samples.dom().contains(hash);
            let soon = measured && now.nanos < before.rate_samples[hash].at.nanos + 250_000_000;
            &&& after.rate_samples.dom().contains(hash)
            &&& !measured || soon ==> torrent.rate_down == was.rate_down && torrent.rate_up
                == was.rate_up
            &&& soon ==> after.rate_samples[hash] == before.rate_samples[hash]
            &&& !soon ==> after.rate_samples[hash].at == now && torrent.rate_down
                == after.rate_samples[hash].rate_down && torrent.rate_up
                == after.rate_samples[hash].rate_up
        }),
{
    lemma_taken_over(before, after, reports, now, i);
}

} // verus!
