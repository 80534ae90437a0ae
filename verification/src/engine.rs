//! What an engine task reports, and what becomes of its torrent.
use crate::clock::Tick;
use crate::effects::{Effect, Event, TorrentEventKind};
use crate::error::{is_retryable_magnet_metadata_discovery_error, CoreError};
use crate::fleet::{Fleet, FleetView};
use crate::hash::InfoHash;
use crate::layout::recompute_file_bytes_completed;
use crate::text::join_with_slash;
use crate::torrent::{
    ContainmentRecoveryIntent, FilePriority, MetaFile, Notice, SeedingStatus, Torrent, TorrentFile,
    TorrentMeta, TorrentState,
};
use vstd::prelude::*;

verus! {

/// What is known of a peer.
#[derive(Debug)]
pub struct EnginePeerHealth {
    pub pieces: Vec<bool>,
    pub has_missing_pieces: bool,
    pub unchoked: bool,
    pub blocked: bool,
    pub last_valid_block: Option<Tick>,
    pub useful_recently: bool,
    pub discovered_from_pex: bool,
    pub last_seen: Option<Tick>,
}

/// How an engine uses its peers.
#[derive(Debug)]
pub struct PeerSchedulerState {
    pub discovered_peers: usize,
    pub eligible_peers: usize,
    pub filtered_peers: usize,
    pub failed_peers: usize,
    pub backed_off_peers: usize,
    pub peer_worker_limit: usize,
    pub parallel_candidates: usize,
    pub parallel_workers_started: usize,
    pub serial_peer_active: bool,
    pub last_reason: Option<String>,
}

/// The use of peers by an engine that has met none.
pub open spec fn idle_scheduler() -> PeerSchedulerState {
    PeerSchedulerState {
        discovered_peers: 0,
        eligible_peers: 0,
        filtered_peers: 0,
        failed_peers: 0,
        backed_off_peers: 0,
        peer_worker_limit: 0,
        parallel_candidates: 0,
        parallel_workers_started: 0,
        serial_peer_active: false,
        last_reason: None,
    }
}

impl Default for PeerSchedulerState {
    fn default() -> (state: PeerSchedulerState)
        ensures
            state == idle_scheduler(),
    {
        PeerSchedulerState {
            discovered_peers: 0,
            eligible_peers: 0,
            filtered_peers: 0,
            failed_peers: 0,
            backed_off_peers: 0,
            peer_worker_limit: 0,
            parallel_candidates: 0,
            parallel_workers_started: 0,
            serial_peer_active: false,
            last_reason: None,
        }
    }
}

impl PeerSchedulerState {
    /// The same state once more.
    pub fn copied(&self) -> (state: PeerSchedulerState)
        ensures
            state == *self,
    {
        PeerSchedulerState {
            discovered_peers: self.discovered_peers,
            eligible_peers: self.eligible_peers,
            filtered_peers: self.filtered_peers,
            failed_peers: self.failed_peers,
            backed_off_peers: self.backed_off_peers,
            peer_worker_limit: self.peer_worker_limit,
            parallel_candidates: self.parallel_candidates,
            parallel_workers_started: self.parallel_workers_started,
            serial_peer_active: self.serial_peer_active,
            last_reason: match &self.last_reason {
                Some(reason) => Some(reason.clone()),
                None => None,
            },
        }
    }
}

/// What an engine task last reported.
#[derive(Debug)]
pub struct EngineState {
    pub piece_count: usize,
    pub total_length: u64,
    pub downloaded: u64,
    pub uploaded: u64,
    pub pieces_have: Vec<bool>,
    pub finished: bool,
    pub stopped_by_command: bool,
    pub resolved_meta: Option<TorrentMeta>,
    pub active_peers: usize,
    pub known_peers: usize,
    pub peer_health: Vec<EnginePeerHealth>,
    pub peer_scheduler: PeerSchedulerState,
    pub tracker_ok: bool,
    pub tracker_message: Option<String>,
    pub last_announce: Option<u64>,
    pub tracker_last_ok: Option<Tick>,
    pub tracker_failures_recent: u32,
    pub dht_discovery_ok: bool,
    pub dht_last_seen: Option<Tick>,
    pub pex_discovery_ok: bool,
    pub pex_last_seen: Option<Tick>,
    pub webseed_last_seen: Option<Tick>,
    pub block_last_seen: Option<Tick>,
    pub last_valid_block: Option<Tick>,
    pub peer_disconnects_recent: u32,
    pub hash_failures: u32,
    pub timeout_failures: u32,
}

/// A peer of which nothing is known.
pub open spec fn unknown_peer(peer: EnginePeerHealth) -> bool {
    &&& peer == (EnginePeerHealth {
        pieces: peer.pieces,
        has_missing_pieces: false,
        unchoked: false,
        blocked: false,
        last_valid_block: None,
        useful_recently: false,
        discovered_from_pex: false,
        last_seen: None,
    })
    &&& peer.pieces@.len() == 0
}

impl Default for EnginePeerHealth {
    fn default() -> (peer: EnginePeerHealth)
        ensures
            unknown_peer(peer),
    {
        EnginePeerHealth {
            pieces: Vec::new(),
            has_missing_pieces: false,
            unchoked: false,
            blocked: false,
            last_valid_block: None,
            useful_recently: false,
            discovered_from_pex: false,
            last_seen: None,
        }
    }
}

/// A report of a task that has done nothing.
pub open spec fn idle_report(state: EngineState) -> bool {
    &&& state == (EngineState {
        piece_count: 0,
        total_length: 0,
        downloaded: 0,
        uploaded: 0,
        pieces_have: state.pieces_have,
        finished: false,
        stopped_by_command: false,
        resolved_meta: None,
        active_peers: 0,
        known_peers: 0,
        peer_health: state.peer_health,
        peer_scheduler: idle_scheduler(),
        tracker_ok: false,
        tracker_message: None,
        last_announce: None,
        tracker_last_ok: None,
        tracker_failures_recent: 0,
        dht_discovery_ok: false,
        dht_last_seen: None,
        pex_discovery_ok: false,
        pex_last_seen: None,
        webseed_last_seen: None,
        block_last_seen: None,
        last_valid_block: None,
        peer_disconnects_recent: 0,
        hash_failures: 0,
        timeout_failures: 0,
    })
    &&& state.pieces_have@.len() == 0
    &&& state.peer_health@.len() == 0
}

impl Default for EngineState {
    fn default() -> (state: EngineState)
        ensures
            idle_report(state),
    {
        EngineState {
            piece_count: 0,
            total_length: 0,
            downloaded: 0,
            uploaded: 0,
            pieces_have: Vec::new(),
            finished: false,
            stopped_by_command: false,
            resolved_meta: None,
            active_peers: 0,
            known_peers: 0,
            peer_health: Vec::new(),
            peer_scheduler: PeerSchedulerState::default(),
            tracker_ok: false,
            tracker_message: None,
            last_announce: None,
            tracker_last_ok: None,
            tracker_failures_recent: 0,
            dht_discovery_ok: false,
            dht_last_seen: None,
            pex_discovery_ok: false,
            pex_last_seen: None,
            webseed_last_seen: None,
            block_last_seen: None,
            last_valid_block: None,
            peer_disconnects_recent: 0,
            hash_failures: 0,
            timeout_failures: 0,
        }
    }
}

/// The seconds before a torrent that found no peers, or ended early, is tried again.
pub const RETRY_DELAY_SECONDS: u64 = 60;

/// A file as it is kept once its metadata is known.
pub open spec fn fresh_file(
    file: TorrentFile,
    index: int,
    meta: TorrentMeta,
    have: Seq<bool>,
) -> bool {
    &&& file.index == index
    &&& file.path@ == crate::text::slash_joined(meta.files@[index].path@)
    &&& file.length == meta.files@[index].length
    &&& file.bytes_completed == crate::layout::file_bytes_there(
        meta,
        have,
        index as nat,
        have.len(),
    ) as u64
    &&& file.priority == FilePriority::Normal
    &&& file.wanted
}

/// The torrent's files have to be built from the metadata.
pub open spec fn needs_files(torrent: Torrent, resolved: TorrentMeta) -> bool {
    torrent.needs_metadata || torrent.meta.files@.len() != resolved.files@.len()
}

/// The torrent took over its real metadata and the pieces that are there.
pub open spec fn metadata_applied(
    before: Torrent,
    after: Torrent,
    resolved: TorrentMeta,
    pieces: Seq<bool>,
) -> bool {
    let have = crate::torrent::PieceProgress::fitted(pieces, resolved.piece_count as nat);
    &&& after == (Torrent {
        meta: resolved,
        needs_metadata: false,
        magnet_info_hash: None,
        progress: after.progress,
        files: after.files,
        priorities: after.priorities,
        wanted: after.wanted,
        seeding_status: if after.progress.complete() {
            before.seeding_status
        } else {
            SeedingStatus::NotEligible
        },
        ..before
    })
    &&& after.progress.have@ == have
    &&& needs_files(before, resolved) ==> {
        &&& after.files@.len() == resolved.files@.len()
        &&& forall|i: int|
            0 <= i < resolved.files@.len() ==> fresh_file(#[trigger] after.files@[i], i, resolved, have)
        &&& after.priorities@ == Seq::new(resolved.files@.len(), |i: int| FilePriority::Normal)
        &&& after.wanted@ == Seq::new(resolved.files@.len(), |i: int| true)
    }
    &&& !needs_files(before, resolved) ==> {
        &&& after.files@.len() == before.files@.len()
        &&& forall|i: int|
            0 <= i < before.files@.len() ==> #[trigger] after.files@[i]
                == crate::layout::recounted(before.files@[i], i as nat, resolved, have)
        &&& after.priorities == before.priorities
        &&& after.wanted == before.wanted
    }
}

fn build_files(files: &Vec<MetaFile>) -> (built: Vec<TorrentFile>)
    ensures
        built@.len() == files@.len(),
        forall|i: int|
            0 <= i < files@.len() ==> {
                &&& (#[trigger] built@[i]).index == i
                &&& built@[i].path@ == crate::text::slash_joined(files@[i].path@)
                &&& built@[i].length == files@[i].length
                &&& built@[i].priority == FilePriority::Normal
                &&& built@[i].wanted
            },
{
    let mut built: Vec<TorrentFile> = Vec::new();
    let mut i: usize = 0;
    while i < files.len()
        invariant
            i <= files.len(),
            built@.len() == i,
            forall|k: int|
                0 <= k < i ==> {
                    &&& (#[trigger] built@[k]).index == k
                    &&& built@[k].path@ == crate::text::slash_joined(files@[k].path@)
                    &&& built@[k].length == files@[k].length
                    &&& built@[k].priority == FilePriority::Normal
                    &&& built@[k].wanted
                },
        decreases files.len() - i,
    {
        built.push(
            TorrentFile {
                index: i,
                path: join_with_slash(&files[i].path),
                length: files[i].length,
                bytes_completed: 0,
                priority: FilePriority::Normal,
                wanted: true,
            },
        );
        i = i + 1;
    }
    built
}

fn normal_priorities(count: usize) -> (priorities: Vec<FilePriority>)
    ensures
        priorities@ == Seq::new(count as nat, |i: int| FilePriority::Normal),
{
    let mut priorities: Vec<FilePriority> = Vec::new();
    let mut i: usize = 0;
    while i < count
        invariant
            i <= count,
            priorities@ == Seq::new(i as nat, |i: int| FilePriority::Normal),
        decreases count - i,
    {
        priorities.push(FilePriority::Normal);
        i = i + 1;
        assert(priorities@ =~= Seq::new(i as nat, |i: int| FilePriority::Normal));
    }
    priorities
}

fn all_wanted(count: usize) -> (wanted: Vec<bool>)
    ensures
        wanted@ == Seq::new(count as nat, |i: int| true),
{
    let mut wanted: Vec<bool> = Vec::new();
    let mut i: usize = 0;
    while i < count
        invariant
            i <= count,
            wanted@ == Seq::new(i as nat, |i: int| true),
        decreases count - i,
    {
        wanted.push(true);
        i = i + 1;
        assert(wanted@ =~= Seq::new(i as nat, |i: int| true));
    }
    wanted
}

/// Takes over real metadata and the pieces that are there.
pub fn apply_resolved_metadata(torrent: &mut Torrent, resolved: TorrentMeta, pieces_have: &Vec<bool>)
    ensures
        metadata_applied(*old(torrent), *final(torrent), resolved, pieces_have@),
{
    let initialize: bool = torrent.needs_metadata || torrent.meta.files.len() != resolved.files.len();
    torrent.meta = resolved;
    torrent.needs_metadata = false;
    torrent.magnet_info_hash = None;
    torrent.progress.replace_from_bitfield(pieces_have, torrent.meta.piece_count);
    if initialize {
        let count: usize = torrent.meta.files.len();
        torrent.files = build_files(&torrent.meta.files);
        torrent.priorities = normal_priorities(count);
        torrent.wanted = all_wanted(count);
    }
    recompute_file_bytes_completed(&mut torrent.files, &torrent.meta, &torrent.progress);
    if !torrent.progress.is_complete() {
        torrent.seeding_status = SeedingStatus::NotEligible;
    }
}

/// A later instant; the clock does not run past its range.
pub open spec fn tick_after(now: Tick, seconds: u64) -> Tick {
    let nanos = now.nanos + seconds * crate::clock::NANOS_PER_SECOND;
    Tick {
        nanos: if nanos <= u64::MAX {
            nanos as u64
        } else {
            u64::MAX
        },
    }
}

/// A later instant; the clock does not run past its range.
pub fn later_tick(now: Tick, seconds: u64) -> (due: Tick)
    ensures
        due == tick_after(now, seconds),
{
    assert(seconds * crate::clock::NANOS_PER_SECOND <= u64::MAX * 1_000_000_000)
        by (nonlinear_arith)
        requires
            seconds <= u64::MAX,
            crate::clock::NANOS_PER_SECOND == 1_000_000_000,
    ;
    let nanos: u128 = now.nanos as u128 + seconds as u128 * crate::clock::NANOS_PER_SECOND as u128;
    if nanos <= u64::MAX as u128 {
        Tick { nanos: nanos as u64 }
    } else {
        Tick { nanos: u64::MAX }
    }
}

impl FleetView {
    /// The torrent is known and waits for a slot or holds one.
    pub open spec fn may_retry(self, hash: InfoHash) -> bool {
        self.registry.dom().contains(hash) && crate::scheduler::wants_slot(
            self.registry[hash].state,
        )
    }

    /// After a torrent was put behind all others, to be tried again later.
    pub open spec fn delayed(self, hash: InfoHash, notice: Notice, due: Tick) -> FleetView {
        FleetView {
            registry: self.registry.insert(
                hash,
                Torrent {
                    state: TorrentState::Queued,
                    error: Some(notice),
                    ..self.registry[hash]
                },
            ),
            queue: crate::queue::QueueView {
                order: crate::queue::sunk(crate::queue::appended(self.queue.order, hash), hash),
                bypass: crate::queue::without(self.queue.bypass, hash),
                ..self.queue
            },
            retry_after: self.retry_after.insert(hash, due),
            ..self
        }
    }
}

/// What an engine error makes of its torrent.
pub open spec fn failed_state(error: crate::error::ErrorView) -> TorrentState {
    match error.kind {
        crate::error::ErrorKind::NetworkBlocked => TorrentState::NetworkBlocked,
        crate::error::ErrorKind::Storage => TorrentState::StorageError,
        _ => TorrentState::Error,
    }
}

/// What is to be done again once the network is back.
pub open spec fn download_intent(needs_metadata: bool) -> ContainmentRecoveryIntent {
    if needs_metadata {
        ContainmentRecoveryIntent::DownloadingMetadata
    } else {
        ContainmentRecoveryIntent::Downloading
    }
}

impl Fleet {
    /// Puts a torrent that waits or downloads behind all others, to be tried again later.
    pub fn queue_torrent_for_retry(
        &mut self,
        hash: InfoHash,
        notice: Notice,
        now: Tick,
        delay_seconds: u64,
    ) -> (queued: bool)
        requires
            old(self).wf(),
        ensures
            final(self).wf(),
            queued == old(self)@.may_retry(hash),
            final(self)@ == if queued {
                old(self)@.delayed(hash, notice, tick_after(now, delay_seconds))
            } else {
                old(self)@
            },
    {
        let position: usize = match self.registry.find(&hash) {
            Some(position) => position,
            None => {
                return false;
            },
        };
        let state: TorrentState = self.registry.value_at(position).state;
        if !matches!(
            state,
            TorrentState::Downloading | TorrentState::DownloadingMetadata | TorrentState::Queued
        ) {
            return false;
        }
        let torrent: &mut Torrent = self.registry.value_at_mut(position);
        torrent.state = TorrentState::Queued;
        torrent.error = Some(notice);
        self.queue.add(hash);
        self.queue.clear_bypass(&hash);
        self.queue.move_to_bottom(&hash);
        self.retry_after.insert(hash, later_tick(now, delay_seconds));
        true
    }

    /// Takes in the error that ended an engine task, and returns whether the torrent is tried
    /// again because no peer was found.
    pub fn handle_engine_task_error(
        &mut self,
        hash: InfoHash,
        needs_metadata: bool,
        error: &CoreError,
        rendered: &String,
        now: Tick,
        effects: &mut Vec<Effect>,
    ) -> (retry: bool)
        requires
            old(self).wf(),
        ensures
            final(self).wf(),
            retry == (needs_metadata && crate::error::retryable_discovery(error@)),
            retry ==> final(self)@ == if old(self)@.may_retry(hash) {
                old(self)@.delayed(
                    hash,
                    Notice::MetadataNoPeers,
                    tick_after(now, RETRY_DELAY_SECONDS),
                )
            } else {
                old(self)@
            },
            retry ==> final(effects)@ == old(effects)@.push(Effect::ReconcileQueue { delay: 0 }),
            !retry ==> final(self)@ == (FleetView {
                registry: crate::fleet::rewritten(
                    old(self)@.registry,
                    hash,
                    Torrent {
                        state: failed_state(error@),
                        error: Some(Notice::Text(*rendered)),
                        ..old(self)@.registry[hash]
                    },
                ),
                ..old(self)@
            }),
            !retry ==> final(effects)@ == old(effects)@ + if old(self)@.registry.dom().contains(
                hash,
            ) {
                seq![
                    crate::effects::torrent_effect(
                        TorrentEventKind::Failed,
                        hash,
                        failed_state(error@),
                    ),
                    crate::effects::stats_effect(),
                ]
            } else {
                Seq::<Effect>::empty()
            },
    {
        if needs_metadata && is_retryable_magnet_metadata_discovery_error(error) {
            let _ = self.queue_torrent_for_retry(
                hash,
                Notice::MetadataNoPeers,
                now,
                RETRY_DELAY_SECONDS,
            );
            effects.push(Effect::ReconcileQueue { delay: 0 });
            return true;
        }
        let state: TorrentState = match error {
            CoreError::NetworkBlocked(_) => TorrentState::NetworkBlocked,
            CoreError::Storage(_) => TorrentState::StorageError,
            _ => TorrentState::Error,
        };
        if let Some(position) = self.registry.find(&hash) {
            let torrent: &mut Torrent = self.registry.value_at_mut(position);
            torrent.state = state;
            torrent.error = Some(Notice::Text(rendered.clone()));
            effects.push(
                Effect::Publish(Event::Torrent { kind: TorrentEventKind::Failed, hash, state }),
            );
            effects.push(Effect::Publish(Event::StatsUpdated));
        }
        assert(!(needs_metadata && crate::error::retryable_discovery(error@)) ==> effects@
            =~= old(effects)@ + if old(self)@.registry.dom().contains(hash) {
            seq![
                crate::effects::torrent_effect(TorrentEventKind::Failed, hash, state),
                crate::effects::stats_effect(),
            ]
        } else {
            Seq::<Effect>::empty()
        });
        false
    }

    /// Keeps what a download was doing when the closing gate cancelled its task.
    pub fn record_engine_containment_cancellation(&mut self, hash: InfoHash, needs_metadata: bool)
        requires
            old(self).wf(),
        ensures
            final(self).wf(),
            final(self)@ == if old(self)@.may_retry(hash) {
                FleetView {
                    registry: old(self)@.registry.insert(
                        hash,
                        Torrent {
                            containment_recovery_intent: Some(download_intent(needs_metadata)),
                            ..old(self)@.registry[hash]
                        },
                    ),
                    ..old(self)@
                }
            } else {
                old(self)@
            },
    {
        if let Some(position) = self.registry.find(&hash) {
            let state: TorrentState = self.registry.value_at(position).state;
            if matches!(
                state,
                TorrentState::Downloading | TorrentState::DownloadingMetadata | TorrentState::Queued
            ) {
                let torrent: &mut Torrent = self.registry.value_at_mut(position);
                torrent.containment_recovery_intent = Some(
                    if needs_metadata {
                        ContainmentRecoveryIntent::DownloadingMetadata
                    } else {
                        ContainmentRecoveryIntent::Downloading
                    },
                );
            }
        }
    }
}

/// Where a torrent stands after its engine task ended without an error.
pub open spec fn result_state(before: TorrentState, finished: bool) -> TorrentState {
    if finished {
        TorrentState::Completed
    } else if before == TorrentState::DownloadingMetadata {
        TorrentState::Downloading
    } else {
        before
    }
}

/// There are pieces, and all of them are there.
pub open spec fn all_there(have: Seq<bool>) -> bool {
    have.len() > 0 && forall|piece: int| 0 <= piece < have.len() ==> #[trigger] have[piece]
}

/// The upload status after metadata came in: a torrent that is not complete cannot upload.
pub open spec fn status_with_metadata(
    before: SeedingStatus,
    resolved: Option<TorrentMeta>,
    pieces: Seq<bool>,
) -> SeedingStatus {
    match resolved {
        Some(resolved) => if all_there(
            crate::torrent::PieceProgress::fitted(pieces, resolved.piece_count as nat),
        ) {
            before
        } else {
            SeedingStatus::NotEligible
        },
        None => before,
    }
}

/// The torrent took over metadata, where some came in, and the pieces that are there.
pub open spec fn payload_updated(
    before: Torrent,
    after: Torrent,
    resolved: Option<TorrentMeta>,
    pieces: Seq<bool>,
    piece_count: usize,
) -> bool {
    let have = crate::torrent::PieceProgress::fitted(pieces, piece_count as nat);
    let fresh = resolved matches Some(meta) && needs_files(before, meta);
    &&& after == (Torrent {
        meta: match resolved {
            Some(meta) => meta,
            None => before.meta,
        },
        needs_metadata: before.needs_metadata && resolved.is_none(),
        magnet_info_hash: if resolved.is_some() {
            None
        } else {
            before.magnet_info_hash
        },
        progress: after.progress,
        files: after.files,
        priorities: after.priorities,
        wanted: after.wanted,
        seeding_status: status_with_metadata(before.seeding_status, resolved, pieces),
        ..before
    })
    &&& after.progress.have@ == have
    &&& fresh ==> {
        &&& after.files@.len() == after.meta.files@.len()
        &&& forall|i: int|
            0 <= i < after.files@.len() ==> fresh_file(
                #[trigger] after.files@[i],
                i,
                after.meta,
                have,
            )
        &&& after.priorities@ == Seq::new(after.meta.files@.len(), |i: int| FilePriority::Normal)
        &&& after.wanted@ == Seq::new(after.meta.files@.len(), |i: int| true)
    }
    &&& !fresh ==> {
        &&& after.files@.len() == before.files@.len()
        &&& forall|i: int|
            0 <= i < before.files@.len() ==> #[trigger] after.files@[i]
                == crate::layout::recounted(before.files@[i], i as nat, after.meta, have)
        &&& after.priorities == before.priorities
        &&& after.wanted == before.wanted
    }
}

/// Takes over metadata, where some came in, and the pieces that are there.
pub fn update_payload(
    torrent: &mut Torrent,
    resolved: Option<TorrentMeta>,
    pieces_have: &Vec<bool>,
    piece_count: usize,
)
    ensures
        payload_updated(*old(torrent), *final(torrent), resolved, pieces_have@, piece_count),
{
    if let Some(resolved) = resolved {
        apply_resolved_metadata(torrent, resolved, pieces_have);
    }
    torrent.progress.replace_from_bitfield(pieces_have, piece_count);
    recompute_file_bytes_completed(&mut torrent.files, &torrent.meta, &torrent.progress);
}

/// The torrent took over what its engine task reported at its end.
pub open spec fn result_recorded(
    before: Torrent,
    after: Torrent,
    result: EngineState,
    now: u64,
) -> bool {
    &&& payload_updated(
        before,
        Torrent {
            downloaded: before.downloaded,
            uploaded: before.uploaded,
            state: before.state,
            seeding_status: status_with_metadata(
                before.seeding_status,
                result.resolved_meta,
                result.pieces_have@,
            ),
            date_completed: before.date_completed,
            ..after
        },
        result.resolved_meta,
        result.pieces_have@,
        result.piece_count,
    )
    &&& after.downloaded == result.downloaded
    &&& after.uploaded == result.uploaded
    &&& after.state == result_state(before.state, result.finished)
    &&& after.seeding_status == if result.finished {
        crate::fleet::idle_seeding_status(after)
    } else {
        status_with_metadata(before.seeding_status, result.resolved_meta, result.pieces_have@)
    }
    &&& after.date_completed == if result.finished {
        Some(now)
    } else {
        before.date_completed
    }
}

/// Takes over what an engine task reported at its end.
pub fn record_result(torrent: &mut Torrent, result: EngineState, now: u64)
    ensures
        result_recorded(*old(torrent), *final(torrent), result, now),
{
    let EngineState {
        resolved_meta,
        pieces_have,
        piece_count,
        downloaded,
        uploaded,
        finished,
        ..
    } = result;
    update_payload(torrent, resolved_meta, &pieces_have, piece_count);
    torrent.downloaded = downloaded;
    torrent.uploaded = uploaded;
    if finished {
        torrent.state = TorrentState::Completed;
        torrent.seeding_status = if torrent.progress.is_complete() {
            SeedingStatus::Queued
        } else {
            SeedingStatus::NotEligible
        };
        torrent.date_completed = Some(now);
    } else if torrent.state == TorrentState::DownloadingMetadata {
        torrent.state = TorrentState::Downloading;
    }
}

/// What observers are told when an engine task ended without an error.
pub open spec fn result_events(
    hash: InfoHash,
    metadata_received: bool,
    before: Option<TorrentState>,
    finished: bool,
) -> Seq<Effect> {
    let metadata = if metadata_received {
        seq![Effect::Publish(Event::MetadataReceived { hash })]
    } else {
        Seq::<Effect>::empty()
    };
    let changed = match before {
        Some(before) => {
            let after = result_state(before, finished);
            let change = crate::effects::torrent_effect(TorrentEventKind::Changed, hash, after);
            if after == before {
                Seq::<Effect>::empty()
            } else if after == TorrentState::Completed {
                seq![
                    change,
                    crate::effects::torrent_effect(TorrentEventKind::Completed, hash, after),
                ]
            } else {
                seq![change]
            }
        },
        None => Seq::<Effect>::empty(),
    };
    metadata + changed + seq![crate::effects::stats_effect()]
}

impl FleetView {
    /// After a torrent took over what its engine task reported, given what became of the rest of
    /// the torrent.
    pub open spec fn recorded(self, hash: InfoHash, outcome: Torrent, finished: bool) -> FleetView {
        FleetView {
            registry: crate::fleet::rewritten(
                self.registry,
                hash,
                Torrent {
                    state: result_state(self.registry[hash].state, finished),
                    error: self.registry[hash].error,
                    ..outcome
                },
            ),
            ..self
        }
    }
}

/// An engine task ended without an error: what it brought is recorded, and the task is out. A
/// finished torrent is to be removed where that is wanted; an unfinished one that nobody stopped
/// waits for another try.
pub open spec fn engine_finished(
    found: FleetView,
    fleet: FleetView,
    hash: InfoHash,
    result: EngineState,
    remove_completed: bool,
    now_seconds: u64,
    now: Tick,
    asked: Seq<Effect>,
    told: Seq<Effect>,
) -> bool {
    let known = found.registry.dom().contains(hash);
    let recorded = found.recorded(hash, fleet.registry[hash], result.finished);
    let again = !result.finished && !result.stopped_by_command && recorded.may_retry(hash);
    &&& known ==> result_recorded(
        found.registry[hash],
        recorded.registry[hash],
        result,
        now_seconds,
    )
    &&& fleet == (FleetView {
        engines: found.engines.remove(hash),
        ..if again {
            recorded.delayed(
                hash,
                Notice::EngineIncomplete,
                tick_after(now, RETRY_DELAY_SECONDS),
            )
        } else {
            recorded
        }
    })
    &&& told == asked + result_events(
        hash,
        known && found.registry[hash].needs_metadata && result.resolved_meta.is_some(),
        if known {
            Some(found.registry[hash].state)
        } else {
            None
        },
        result.finished,
    ) + (if result.finished && remove_completed {
        seq![Effect::RemoveCompleted { hash }]
    } else if again {
        seq![
            Effect::ReconcileQueue { delay: 0 },
            Effect::ReconcileQueue { delay: RETRY_DELAY_SECONDS },
        ]
    } else {
        Seq::<Effect>::empty()
    }) + seq![Effect::ReconcileSeeders, Effect::ReconcileQueue { delay: 0 }]
}

impl FleetView {
    /// After an engine task ended with an error.
    pub open spec fn engine_failed(
        self,
        hash: InfoHash,
        needs_metadata: bool,
        error: crate::error::ErrorView,
        rendered: String,
        now: Tick,
    ) -> FleetView {
        let after = if needs_metadata && crate::error::retryable_discovery(error) {
            if self.may_retry(hash) {
                self.delayed(
                    hash,
                    Notice::MetadataNoPeers,
                    tick_after(now, RETRY_DELAY_SECONDS),
                )
            } else {
                self
            }
        } else {
            FleetView {
                registry: crate::fleet::rewritten(
                    self.registry,
                    hash,
                    Torrent {
                        state: failed_state(error),
                        error: Some(Notice::Text(rendered)),
                        ..self.registry[hash]
                    },
                ),
                ..self
            }
        };
        FleetView { engines: self.engines.remove(hash), ..after }
    }

    /// What the error of an engine task asks for.
    pub open spec fn engine_failure_effects(
        self,
        hash: InfoHash,
        needs_metadata: bool,
        error: crate::error::ErrorView,
    ) -> Seq<Effect> {
        (if needs_metadata && crate::error::retryable_discovery(error) {
            seq![
                Effect::ReconcileQueue { delay: 0 },
                Effect::ReconcileQueue { delay: RETRY_DELAY_SECONDS },
            ]
        } else if self.registry.dom().contains(hash) {
            seq![
                crate::effects::torrent_effect(
                    TorrentEventKind::Failed,
                    hash,
                    failed_state(error),
                ),
                crate::effects::stats_effect(),
            ]
        } else {
            Seq::<Effect>::empty()
        }) + seq![Effect::ReconcileSeeders, Effect::ReconcileQueue { delay: 0 }]
    }

    /// After the closing containment gate cancelled an engine task.
    pub open spec fn engine_cancelled(self, hash: InfoHash, needs_metadata: bool) -> FleetView {
        FleetView {
            registry: if self.may_retry(hash) {
                self.registry.insert(
                    hash,
                    Torrent {
                        containment_recovery_intent: Some(download_intent(needs_metadata)),
                        ..self.registry[hash]
                    },
                )
            } else {
                self.registry
            },
            engines: self.engines.remove(hash),
            ..self
        }
    }
}

impl Fleet {
    fn record_engine_result(
        &mut self,
        hash: InfoHash,
        result: EngineState,
        now_seconds: u64,
        effects: &mut Vec<Effect>,
    )
        requires
            old(self).wf(),
        ensures
            final(self).wf(),
            final(self)@ == (FleetView {
                registry: crate::fleet::rewritten(
                    old(self)@.registry,
                    hash,
                    final(self)@.registry[hash],
                ),
                ..old(self)@
            }),
            old(self)@.registry.dom().contains(hash) ==> result_recorded(
                old(self)@.registry[hash],
                final(self)@.registry[hash],
                result,
                now_seconds,
            ),
            final(effects)@ == old(effects)@ + result_events(
                hash,
                old(self)@.registry.dom().contains(hash) && old(
                    self,
                )@.registry[hash].needs_metadata && result.resolved_meta.is_some(),
                if old(self)@.registry.dom().contains(hash) {
                    Some(old(self)@.registry[hash].state)
                } else {
                    None
                },
                result.finished,
            ),
    {
        let ghost finished = result.finished;
        let resolved: bool = result.resolved_meta.is_some();
        let ghost found = self@;
        if let Some(position) = self.registry.find(&hash) {
            let torrent: &mut Torrent = self.registry.value_at_mut(position);
            let before: TorrentState = torrent.state;
            let metadata_received: bool = torrent.needs_metadata && resolved;
            record_result(torrent, result, now_seconds);
            let after: TorrentState = torrent.state;
            if metadata_received {
                effects.push(Effect::Publish(Event::MetadataReceived { hash }));
            }
            if after != before {
                effects.push(
                    Effect::Publish(
                        Event::Torrent { kind: TorrentEventKind::Changed, hash, state: after },
                    ),
                );
                if after == TorrentState::Completed {
                    effects.push(
                        Effect::Publish(
                            Event::Torrent {
                                kind: TorrentEventKind::Completed,
                                hash,
                                state: after,
                            },
                        ),
                    );
                }
            }
        }
        effects.push(Effect::Publish(Event::StatsUpdated));
        assert(effects@ =~= old(effects)@ + result_events(
            hash,
            found.registry.dom().contains(hash) && found.registry[hash].needs_metadata && resolved,
            if found.registry.dom().contains(hash) {
                Some(found.registry[hash].state)
            } else {
                None
            },
            finished,
        ));
    }

    /// Takes in the report of an engine task that ended without an error. A finished torrent is
    /// removed at once where that is wanted; an unfinished one that nobody stopped is tried again
    /// later.
    pub fn finish_engine(
        &mut self,
        hash: InfoHash,
        result: EngineState,
        remove_completed: bool,
        now_seconds: u64,
        now: Tick,
        effects: &mut Vec<Effect>,
    )
        requires
            old(self).wf(),
        ensures
            final(self).wf(),
            engine_finished(
                old(self)@,
                final(self)@,
                hash,
                result,
                remove_completed,
                now_seconds,
                now,
                old(effects)@,
                final(effects)@,
            ),
    {
        let finished: bool = result.finished;
        let stopped: bool = result.stopped_by_command;
        let ghost found = self@;
        self.record_engine_result(hash, result, now_seconds, effects);
        let ghost told = effects@;
        let ghost recorded = self@;
        let mut again: bool = false;
        if finished && remove_completed {
            effects.push(Effect::RemoveCompleted { hash });
        } else if !finished && !stopped {
            again = self.queue_torrent_for_retry(
                hash,
                Notice::EngineIncomplete,
                now,
                RETRY_DELAY_SECONDS,
            );
            if again {
                effects.push(Effect::ReconcileQueue { delay: 0 });
                effects.push(Effect::ReconcileQueue { delay: RETRY_DELAY_SECONDS });
            }
        }
        let _ = self.engines.remove(&hash);
        effects.push(Effect::ReconcileSeeders);
        effects.push(Effect::ReconcileQueue { delay: 0 });
        proof {
            assert(effects@ =~= told + (if finished && remove_completed {
                seq![Effect::RemoveCompleted { hash }]
            } else if again {
                seq![
                    Effect::ReconcileQueue { delay: 0 },
                    Effect::ReconcileQueue { delay: RETRY_DELAY_SECONDS },
                ]
            } else {
                Seq::<Effect>::empty()
            }) + seq![Effect::ReconcileSeeders, Effect::ReconcileQueue { delay: 0 }]);
            assert(recorded.registry =~= found.recorded(
                hash,
                self@.registry[hash],
                finished,
            ).registry);
        }
    }
}

impl Fleet {
    /// Takes in the error that ended an engine task, and takes the task out.
    pub fn fail_engine(
        &mut self,
        hash: InfoHash,
        needs_metadata: bool,
        error: &CoreError,
        rendered: &String,
        now: Tick,
        effects: &mut Vec<Effect>,
    )
        requires
            old(self).wf(),
        ensures
            final(self).wf(),
            final(self)@ == old(self)@.engine_failed(
                hash,
                needs_metadata,
                error@,
                *rendered,
                now,
            ),
            final(effects)@ == old(effects)@ + old(self)@.engine_failure_effects(
                hash,
                needs_metadata,
                error@,
            ),
    {
        let retry: bool = self.handle_engine_task_error(
            hash,
            needs_metadata,
            error,
            rendered,
            now,
            effects,
        );
        if retry {
            effects.push(Effect::ReconcileQueue { delay: RETRY_DELAY_SECONDS });
        }
        let _ = self.engines.remove(&hash);
        effects.push(Effect::ReconcileSeeders);
        effects.push(Effect::ReconcileQueue { delay: 0 });
        let ghost known = old(self)@.registry.dom().contains(hash);
        assert(effects@ =~= old(effects)@ + (if retry {
            seq![
                Effect::ReconcileQueue { delay: 0 },
                Effect::ReconcileQueue { delay: RETRY_DELAY_SECONDS },
            ]
        } else if known {
            seq![
                crate::effects::torrent_effect(
                    TorrentEventKind::Failed,
                    hash,
                    failed_state(error@),
                ),
                crate::effects::stats_effect(),
            ]
        } else {
            Seq::<Effect>::empty()
        }) + seq![Effect::ReconcileSeeders, Effect::ReconcileQueue { delay: 0 }]);
    }

    /// Takes out an engine task that the closing gate cancelled, and keeps what it was doing.
    pub fn cancel_engine(&mut self, hash: InfoHash, needs_metadata: bool)
        requires
            old(self).wf(),
        ensures
            final(self).wf(),
            final(self)@ == old(self)@.engine_cancelled(hash, needs_metadata),
    {
        self.record_engine_containment_cancellation(hash, needs_metadata);
        let _ = self.engines.remove(&hash);
    }
}

/// A torrent that waits for a retry does not start before the retry is due.
pub proof fn delayed_torrents_do_not_start(
    fleet: FleetView,
    hash: InfoHash,
    notice: Notice,
    due: Tick,
    now: Tick,
)
    requires
        fleet.may_retry(hash),
        now.nanos < due.nanos,
    ensures
        !fleet.delayed(hash, notice, due).desired(now).contains(hash),
{
    let after = fleet.delayed(hash, notice, due);
    let plan = crate::scheduler::Plan {
        registry: after.registry,
        retry_after: after.retry_after,
        now,
        limits: after.queue.limits,
        bypass: after.queue.bypass,
        excluded: None,
    };
    crate::scheduler::choice_respects_limits(
        plan,
        crate::scheduler::candidates(after.queue.bypass, after.queue.order),
    );
    assert(!plan.eligible(hash));
}

/// A torrent that waits for a retry stands behind all others and does not jump the queue.
pub proof fn delayed_torrents_stand_last(
    fleet: FleetView,
    hash: InfoHash,
    notice: Notice,
    due: Tick,
)
    requires
        fleet.queue.wf(),
    ensures
        fleet.delayed(hash, notice, due).queue.order.last() == hash,
        !fleet.delayed(hash, notice, due).queue.bypass.contains(hash),
        fleet.delayed(hash, notice, due).queue.wf(),
{
    crate::queue::lemma_appended(fleet.queue.order, hash);
    crate::queue::lemma_sunk(crate::queue::appended(fleet.queue.order, hash), hash);
    crate::queue::lemma_filter(fleet.queue.bypass, crate::queue::other_than(hash));
}

/// A torrent whose engine finished is completed at that time, and waits to upload where all its
/// pieces are there. The pieces are those that the engine reported, it waits for no retry of its
/// own, and its place in the queue does not change.
pub proof fn finished_engines_complete_torrents(
    found: FleetView,
    fleet: FleetView,
    hash: InfoHash,
    result: EngineState,
    remove_completed: bool,
    now_seconds: u64,
    now: Tick,
    asked: Seq<Effect>,
    told: Seq<Effect>,
)
    requires
        engine_finished(
            found,
            fleet,
            hash,
            result,
            remove_completed,
            now_seconds,
            now,
            asked,
            told,
        ),
        found.registry.dom().contains(hash),
        result.finished,
    ensures
        ({
            let torrent = fleet.registry[hash];
            let have = torrent.progress.have@;
            let whole = have.len() > 0 && forall|piece: int|
                0 <= piece < have.len() ==> #[trigger] have[piece];
            &&& torrent.state == TorrentState::Completed
            &&& torrent.date_completed == Some(now_seconds)
            &&& torrent.seeding_status == if whole {
                SeedingStatus::Queued
            } else {
                SeedingStatus::NotEligible
            }
            &&& have.len() == result.piece_count
            &&& forall|piece: int|
                0 <= piece < have.len() ==> #[trigger] have[piece] == (piece
                    < result.pieces_have@.len() && result.pieces_have@[piece])
            &&& torrent.downloaded == result.downloaded && torrent.uploaded == result.uploaded
            &&& torrent.error == found.registry[hash].error
            &&& !fleet.engines.dom().contains(hash)
            &&& fleet.queue == found.queue
            &&& fleet.retry_after == found.retry_after
            &&& fleet.seeders == found.seeders
            &&& remove_completed ==> told.contains(Effect::RemoveCompleted { hash })
            &&& told.last() == Effect::ReconcileQueue { delay: 0 }
            &&& told[told.len() - 2] == Effect::ReconcileSeeders
        }),
{
    if remove_completed {
        assert(told[told.len() - 3] == Effect::RemoveCompleted { hash });
    }
}

/// A torrent whose engine ended unfinished by itself tries again after a minute, where it still
/// wants to download: it waits with a notice, behind all others, and does not jump the queue. The
/// pieces that the engine reported are kept.
pub proof fn unfinished_engines_try_again(
    found: FleetView,
    fleet: FleetView,
    hash: InfoHash,
    result: EngineState,
    remove_completed: bool,
    now_seconds: u64,
    now: Tick,
    asked: Seq<Effect>,
    told: Seq<Effect>,
)
    requires
        engine_finished(
            found,
            fleet,
            hash,
            result,
            remove_completed,
            now_seconds,
            now,
            asked,
            told,
        ),
        found.queue.wf(),
        found.registry.dom().contains(hash),
        !result.finished,
    ensures
        ({
            let was = found.registry[hash];
            let torrent = fleet.registry[hash];
            let have = torrent.progress.have@;
            let wants = was.state == TorrentState::Queued || was.state == TorrentState::Downloading
                || was.state == TorrentState::DownloadingMetadata;
            let again = wants && !result.stopped_by_command;
            &&& again ==> {
                &&& torrent.state == TorrentState::Queued
                &&& torrent.error == Some(Notice::EngineIncomplete)
                &&& fleet.queue.order.last() == hash
                &&& !fleet.queue.bypass.contains(hash)
                &&& fleet.retry_after.dom().contains(hash)
                &&& now.nanos + 60_000_000_000 <= u64::MAX ==> fleet.retry_after[hash].nanos
                    == now.nanos + 60_000_000_000
                &&& told.contains(Effect::ReconcileQueue { delay: 60 })
            }
            &&& !again ==> {
                &&& torrent.state == if was.state == TorrentState::DownloadingMetadata {
                    TorrentState::Downloading
                } else {
                    was.state
                }
                &&& torrent.error == was.error
                &&& fleet.queue == found.queue
                &&& fleet.retry_after == found.retry_after
            }
            &&& have.len() == result.piece_count
            &&& forall|piece: int|
                0 <= piece < have.len() ==> #[trigger] have[piece] == (piece
                    < result.pieces_have@.len() && result.pieces_have@[piece])
            &&& torrent.downloaded == result.downloaded && torrent.uploaded == result.uploaded
            &&& torrent.date_completed == was.date_completed
            &&& !fleet.engines.dom().contains(hash)
            &&& !told.subrange(asked.len() as int, told.len() as int).contains(
                Effect::RemoveCompleted { hash },
            )
        }),
{
    assert(60 * 1_000_000_000 == 60_000_000_000int);
    let was = found.registry[hash];
    let recorded = found.recorded(hash, fleet.registry[hash], result.finished);
    let again = !result.stopped_by_command && recorded.may_retry(hash);
    match was.state {
        TorrentState::Queued => {},
        TorrentState::DownloadingMetadata => {},
        _ => {},
    }
    if again {
        delayed_torrents_stand_last(
            recorded,
            hash,
            Notice::EngineIncomplete,
            tick_after(now, RETRY_DELAY_SECONDS),
        );
        assert(told[told.len() - 3] == Effect::ReconcileQueue { delay: 60 });
        crate::queue::lemma_filter(found.queue.bypass, crate::queue::other_than(hash));
    }
}

/// Metadata that came in with an engine's end is taken over: the torrent needs none any more, and
/// what it is called, how long it is and how it is cut into pieces is what was resolved. Every file
/// of a torrent that needed it is wanted.
pub proof fn resolved_metadata_is_taken_over(
    before: Torrent,
    after: Torrent,
    result: EngineState,
    now: u64,
)
    requires
        result_recorded(before, after, result, now),
    ensures
        result.resolved_meta matches Some(meta) ==> after.meta == meta && !after.needs_metadata
            && after.magnet_info_hash.is_none(),
        result.resolved_meta.is_none() ==> after.meta == before.meta && after.needs_metadata
            == before.needs_metadata && after.magnet_info_hash == before.magnet_info_hash,
        result.resolved_meta matches Some(meta) ==> before.needs_metadata ==> after.files@.len()
            == meta.files@.len() && after.wanted@.len() == meta.files@.len()
            && after.priorities@.len() == meta.files@.len() && (forall|i: int|
            0 <= i < meta.files@.len() ==> #[trigger] after.wanted@[i]) && (forall|i: int|
            0 <= i < meta.files@.len() ==> #[trigger] after.priorities@[i]
                == FilePriority::Normal) && (forall|i: int|
            0 <= i < meta.files@.len() ==> (#[trigger] after.files@[i]).length
                == meta.files@[i].length),
        result.resolved_meta.is_none() ==> after.wanted == before.wanted && after.priorities
            == before.priorities && after.files@.len() == before.files@.len(),
        after.labels == before.labels && after.download_dir == before.download_dir
            && after.seeding == before.seeding && after.download_limit == before.download_limit
            && after.upload_limit == before.upload_limit && after.date_added == before.date_added,
{
    if let Some(meta) = result.resolved_meta {
        if before.needs_metadata {
            assert forall|i: int| 0 <= i < meta.files@.len() implies (
            #[trigger] after.files@[i]).length == meta.files@[i].length by {
                assert(fresh_file(after.files@[i], i, after.meta, after.progress.have@));
            }
        }
    }
}

/// A failed engine leaves its torrent where the error puts it: blocked by the network, held by
/// storage, or in error, with the message. Only where metadata discovery found no peer the torrent
/// tries again after a minute, behind all others, if it still wants to download. Either way the
/// task is gone, and no other torrent changes.
pub proof fn failed_engines_hold_their_torrents(
    fleet: FleetView,
    hash: InfoHash,
    needs_metadata: bool,
    error: crate::error::ErrorView,
    rendered: String,
    now: Tick,
    other: InfoHash,
)
    requires
        fleet.queue.wf(),
        fleet.registry.dom().contains(hash),
        fleet.registry.dom().contains(other),
        other != hash,
    ensures
        ({
            let after = fleet.engine_failed(hash, needs_metadata, error, rendered, now);
            let was = fleet.registry[hash];
            let torrent = after.registry[hash];
            let retries = needs_metadata && crate::error::retryable_discovery(error);
            let wants = was.state == TorrentState::Queued || was.state == TorrentState::Downloading
                || was.state == TorrentState::DownloadingMetadata;
            &&& !after.engines.dom().contains(hash)
            &&& after.registry[other] == fleet.registry[other]
            &&& after.engines.dom().contains(other) == fleet.engines.dom().contains(other)
            &&& error.kind != crate::error::ErrorKind::Internal || !needs_metadata ==> !retries
            &&& !retries ==> {
                &&& torrent == (Torrent {
                    state: torrent.state,
                    error: Some(Notice::Text(rendered)),
                    ..was
                })
                &&& error.kind == crate::error::ErrorKind::NetworkBlocked ==> torrent.state
                    == TorrentState::NetworkBlocked
                &&& error.kind == crate::error::ErrorKind::Storage ==> torrent.state
                    == TorrentState::StorageError
                &&& error.kind != crate::error::ErrorKind::NetworkBlocked && error.kind
                    != crate::error::ErrorKind::Storage ==> torrent.state == TorrentState::Error
                &&& after.queue == fleet.queue && after.retry_after == fleet.retry_after
            }
            &&& retries && wants ==> {
                &&& torrent == (Torrent {
                    state: TorrentState::Queued,
                    error: Some(Notice::MetadataNoPeers),
                    ..was
                })
                &&& after.queue.order.last() == hash && !after.queue.bypass.contains(hash)
                &&& after.retry_after.dom().contains(hash)
                &&& now.nanos + 60_000_000_000 <= u64::MAX ==> after.retry_after[hash].nanos
                    == now.nanos + 60_000_000_000
            }
            &&& retries && !wants ==> torrent == was && after.queue == fleet.queue
                && after.retry_after == fleet.retry_after
        }),
{
    assert(60 * 1_000_000_000 == 60_000_000_000int);
    delayed_torrents_stand_last(
        fleet,
        hash,
        Notice::MetadataNoPeers,
        tick_after(now, RETRY_DELAY_SECONDS),
    );
    match error.kind {
        crate::error::ErrorKind::NetworkBlocked => {},
        crate::error::ErrorKind::Storage => {},
        _ => {},
    }
}

/// What a task was doing that the closing containment gate cancelled is noted, where its torrent
/// still wants to download: looking for metadata or downloading. Nothing else of a torrent
/// changes.
pub proof fn cancelled_engines_are_noted(fleet: FleetView, hash: InfoHash, needs_metadata: bool)
    ensures
        ({
            let after = fleet.engine_cancelled(hash, needs_metadata);
            let was = fleet.registry[hash];
            let wants = was.state == TorrentState::Queued || was.state == TorrentState::Downloading
                || was.state == TorrentState::DownloadingMetadata;
            &&& !after.engines.dom().contains(hash)
            &&& after.queue == fleet.queue && after.retry_after == fleet.retry_after
                && after.seeders == fleet.seeders
            &&& fleet.registry.dom().contains(hash) && wants && needs_metadata
                ==> after.registry[hash] == (Torrent {
                containment_recovery_intent: Some(ContainmentRecoveryIntent::DownloadingMetadata),
                ..was
            })
            &&& fleet.registry.dom().contains(hash) && wants && !needs_metadata
                ==> after.registry[hash] == (Torrent {
                containment_recovery_intent: Some(ContainmentRecoveryIntent::Downloading),
                ..was
            })
            &&& !(fleet.registry.dom().contains(hash) && wants) ==> after.registry
                == fleet.registry
        }),
{
}

/// The end of an engine is told: that metadata came in, where it did; every change of state, with
/// the state that it led to; and, on top of that, that the torrent is completed.
pub proof fn engine_ends_are_told(
    hash: InfoHash,
    metadata_received: bool,
    before: TorrentState,
    finished: bool,
)
    ensures
        ({
            let told = result_events(hash, metadata_received, Some(before), finished);
            let completed = finished && before != TorrentState::Completed;
            let moved_on = !finished && before == TorrentState::DownloadingMetadata;
            &&& told.contains(Effect::Publish(Event::MetadataReceived { hash }))
                == metadata_received
            &&& completed ==> told.contains(
                Effect::Publish(
                    Event::Torrent {
                        kind: TorrentEventKind::Changed,
                        hash,
                        state: TorrentState::Completed,
                    },
                ),
            ) && told.contains(
                Effect::Publish(
                    Event::Torrent {
                        kind: TorrentEventKind::Completed,
                        hash,
                        state: TorrentState::Completed,
                    },
                ),
            )
            &&& moved_on ==> told.contains(
                Effect::Publish(
                    Event::Torrent {
                        kind: TorrentEventKind::Changed,
                        hash,
                        state: TorrentState::Downloading,
                    },
                ),
            )
            &&& told.last() == Effect::Publish(Event::StatsUpdated)
            &&& told.len() == (if metadata_received {
                1nat
            } else {
                0nat
            }) + (if completed {
                2nat
            } else if moved_on {
                1nat
            } else {
                0nat
            }) + 1
        }),
{
    let told = result_events(hash, metadata_received, Some(before), finished);
    let skip: int = if metadata_received {
        1
    } else {
        0
    };
    if metadata_received {
        assert(told[0] == Effect::Publish(Event::MetadataReceived { hash }));
    }
    if finished && before != TorrentState::Completed {
        assert(told[skip] == Effect::Publish(
            Event::Torrent {
                kind: TorrentEventKind::Changed,
                hash,
                state: TorrentState::Completed,
            },
        ));
        assert(told[skip + 1] == Effect::Publish(
            Event::Torrent {
                kind: TorrentEventKind::Completed,
                hash,
                state: TorrentState::Completed,
            },
        ));
    }
    if !finished && before == TorrentState::DownloadingMetadata {
        assert(told[skip] == Effect::Publish(
            Event::Torrent {
                kind: TorrentEventKind::Changed,
                hash,
                state: TorrentState::Downloading,
            },
        ));
    }
}

/// A report of an engine that has not begun says nothing: no pieces, no peers, nothing moved, not
/// finished and not stopped.
pub proof fn idle_engines_report_nothing(state: EngineState)
    requires
        idle_report(state),
    ensures
        !state.finished && !state.stopped_by_command && state.resolved_meta.is_none(),
        state.piece_count == 0 && state.total_length == 0 && state.downloaded == 0 && state.uploaded
            == 0 && state.active_peers == 0 && state.known_peers == 0,
        state.pieces_have@.len() == 0 && state.peer_health@.len() == 0,
        !state.tracker_ok && state.tracker_failures_recent == 0 && !state.dht_discovery_ok
            && !state.pex_discovery_ok,
        state.last_valid_block.is_none() && state.block_last_seen.is_none()
            && state.webseed_last_seen.is_none() && state.tracker_last_ok.is_none()
            && state.dht_last_seen.is_none() && state.pex_last_seen.is_none(),
        state.peer_disconnects_recent == 0 && state.hash_failures == 0 && state.timeout_failures
            == 0,
        state.peer_scheduler.peer_worker_limit == 0 && !state.peer_scheduler.serial_peer_active
            && state.peer_scheduler.eligible_peers == 0,
{
}

/// Metadata that came in while an engine runs is taken over with the pieces that are there; a
/// torrent without all its pieces cannot upload.
pub proof fn metadata_is_taken_over(
    before: Torrent,
    after: Torrent,
    resolved: TorrentMeta,
    pieces: Seq<bool>,
)
    requires
        metadata_applied(before, after, resolved, pieces),
    ensures
        after.meta == resolved && !after.needs_metadata && after.magnet_info_hash.is_none(),
        after.progress.have@.len() == resolved.piece_count,
        forall|piece: int|
            0 <= piece < resolved.piece_count ==> #[trigger] after.progress.have@[piece] == (piece
                < pieces.len() && pieces[piece]),
        after.state == before.state && after.error == before.error,
        (exists|piece: int|
            0 <= piece < resolved.piece_count && !(#[trigger] after.progress.have@[piece]))
            ==> after.seeding_status == SeedingStatus::NotEligible,
        before.needs_metadata ==> after.files@.len() == resolved.files@.len()
            && after.wanted@.len() == resolved.files@.len() && (forall|i: int|
            0 <= i < resolved.files@.len() ==> #[trigger] after.wanted@[i]) && (forall|i: int|
            0 <= i < resolved.files@.len() ==> #[trigger] after.priorities@[i]
                == FilePriority::Normal),
        !before.needs_metadata && before.meta.files@.len() == resolved.files@.len()
            ==> after.wanted == before.wanted && after.priorities == before.priorities,
        after.labels == before.labels && after.download_dir == before.download_dir,
{
}

/// The failure of an engine is told with the state that it led to, unless the torrent tries again:
/// then the queue is looked at now and after a minute. Uploads and the queue are looked at either
/// way.
pub proof fn failures_are_told(
    fleet: FleetView,
    hash: InfoHash,
    needs_metadata: bool,
    error: crate::error::ErrorView,
)
    ensures
        ({
            let told = fleet.engine_failure_effects(hash, needs_metadata, error);
            let retries = needs_metadata && crate::error::retryable_discovery(error);
            let state = if error.kind == crate::error::ErrorKind::NetworkBlocked {
                TorrentState::NetworkBlocked
            } else if error.kind == crate::error::ErrorKind::Storage {
                TorrentState::StorageError
            } else {
                TorrentState::Error
            };
            &&& told.last() == Effect::ReconcileQueue { delay: 0 }
            &&& told[told.len() - 2] == Effect::ReconcileSeeders
            &&& retries ==> told.len() == 4 && told[0] == Effect::ReconcileQueue { delay: 0 }
                && told[1] == Effect::ReconcileQueue { delay: 60 }
            &&& !retries && fleet.registry.dom().contains(hash) ==> told.len() == 4 && told[0]
                == Effect::Publish(Event::Torrent { kind: TorrentEventKind::Failed, hash, state })
                && told[1] == Effect::Publish(Event::StatsUpdated)
            &&& !retries && !fleet.registry.dom().contains(hash) ==> told.len() == 2
        }),
{
    match error.kind {
        crate::error::ErrorKind::NetworkBlocked => {},
        crate::error::ErrorKind::Storage => {},
        _ => {},
    }
}

/// A peer of which nothing is known has no piece, is not blocked, is not useful and was not seen.
pub proof fn unknown_peers_count_for_nothing(peer: EnginePeerHealth)
    requires
        unknown_peer(peer),
    ensures
        peer.pieces@.len() == 0,
        !peer.has_missing_pieces && !peer.unchoked && !peer.blocked && !peer.useful_recently
            && !peer.discovered_from_pex,
        peer.last_valid_block.is_none() && peer.last_seen.is_none(),
{
}

/// The files of a torrent whose metadata came in are those of the metadata, in their order, each
/// wanted and filled as far as its pieces are there.
pub proof fn fresh_files_are_those_of_the_metadata(
    file: TorrentFile,
    index: int,
    meta: TorrentMeta,
    have: Seq<bool>,
)
    requires
        fresh_file(file, index, meta, have),
        0 <= index < meta.files@.len(),
    ensures
        file.index == index && file.length == meta.files@[index].length,
        file.path@ == crate::text::slash_joined(meta.files@[index].path@),
        file.wanted && file.priority == FilePriority::Normal,
        file.bytes_completed == crate::layout::file_bytes_there(
            meta,
            have,
            index as nat,
            have.len(),
        ),
{
    crate::layout::lemma_there_bound(meta, have, index as nat, have.len());
}

} // verus!
