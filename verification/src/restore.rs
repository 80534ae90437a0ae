//! Taking up torrents from a stored state.
use crate::error::CoreError;
use crate::hash::InfoHash;
use crate::index::HashIndex;
use crate::layout::recompute_file_bytes_completed;
use crate::seeding::{automatic_seeding_status, is_usable_ratio, SeedDecision};
use crate::text::{join_with_slash, owned};
use crate::torrent::{
    ContainmentRecoveryIntent, FilePriority, MetaFile, SeedingStatus, Torrent, TorrentFile,
    TorrentState,
};
use vstd::prelude::*;

verus! {

/// A torrent as it was stored.
#[derive(Debug)]
pub struct StoredTorrent {
    pub torrent: Torrent,
    /// The number of pieces that the stored progress is about.
    pub progress_total: usize,
    /// Every bit of the stored progress, up to a whole byte.
    pub bits: Vec<bool>,
    /// Why the metadata is not valid, if it is not.
    pub metadata_error: Option<String>,
    /// What the upload targets say of it.
    pub decision: SeedDecision,
}

/// What is wrong with a stored torrent.
#[derive(Clone, Copy, PartialEq, Eq, Structural, Debug)]
pub enum StoredFault {
    Ratio,
    Metadata,
    FileSettings,
    MagnetIdentity,
    PieceProgress,
    FileProgress,
}

/// How many bits the progress of some pieces takes up in whole bytes.
pub open spec fn stored_bits(pieces: nat) -> nat {
    if pieces % 8 == 0 {
        pieces
    } else {
        (pieces + 8 - pieces % 8) as nat
    }
}

/// The stored progress fits the number of pieces.
pub open spec fn progress_consistent(stored: StoredTorrent) -> bool {
    let pieces = stored.torrent.meta.piece_count as nat;
    &&& stored.progress_total == pieces
    &&& stored.bits@.len() == stored_bits(pieces)
    &&& forall|i: int| pieces <= i < stored.bits@.len() ==> !#[trigger] stored.bits@[i]
}

/// No file is said to hold more than its length.
pub open spec fn files_within_length(torrent: Torrent) -> bool {
    forall|i: int|
        0 <= i < torrent.meta.files@.len() ==> (#[trigger] torrent.files@[i]).bytes_completed
            <= torrent.meta.files@[i].length
}

/// The first thing that is wrong with a stored torrent.
pub open spec fn fault_of(stored: StoredTorrent) -> Option<StoredFault> {
    let torrent = stored.torrent;
    let files = torrent.meta.files@.len();
    if torrent.seeding.ratio_limit matches Some(bits) && !crate::seeding::usable_ratio(bits) {
        Some(StoredFault::Ratio)
    } else if stored.metadata_error.is_some() {
        Some(StoredFault::Metadata)
    } else if torrent.files@.len() != files || torrent.priorities@.len() != files
        || torrent.wanted@.len() != files {
        Some(StoredFault::FileSettings)
    } else if torrent.needs_metadata != torrent.magnet_info_hash.is_some() {
        Some(StoredFault::MagnetIdentity)
    } else if !progress_consistent(stored) {
        Some(StoredFault::PieceProgress)
    } else if !files_within_length(torrent) {
        Some(StoredFault::FileProgress)
    } else {
        None
    }
}

/// What a stored torrent is refused with.
pub open spec fn fault_text(stored: StoredTorrent, fault: StoredFault) -> Seq<char> {
    let hex = crate::hash::hex(stored.torrent.hash());
    match fault {
        StoredFault::Ratio => {
            "daemon state for "@ + hex + " has invalid seeding.ratio_limit"@
        },
        StoredFault::Metadata => {
            "invalid metadata for restored torrent "@ + hex + ": "@ + stored.metadata_error->0@
        },
        StoredFault::FileSettings => {
            "daemon state for "@ + hex + " has inconsistent file settings"@
        },
        StoredFault::MagnetIdentity => {
            "daemon state for "@ + hex + " has inconsistent magnet identity"@
        },
        StoredFault::PieceProgress => {
            "daemon state for "@ + hex + " has inconsistent piece progress"@
        },
        StoredFault::FileProgress => {
            "daemon state for "@ + hex + " has file progress beyond file length"@
        },
    }
}

fn has_bit_beyond(bits: &Vec<bool>, from: usize) -> (set: bool)
    ensures
        set == exists|i: int| from <= i < bits@.len() && #[trigger] bits@[i],
{
    let mut i: usize = from;
    while i < bits.len()
        invariant
            from <= i,
            forall|k: int| from <= k < i && k < bits@.len() ==> !#[trigger] bits@[k],
        decreases bits.len() - i,
    {
        if bits[i] {
            return true;
        }
        i = i + 1;
    }
    false
}

fn has_overfull_file(torrent: &Torrent) -> (overfull: bool)
    requires
        torrent.files@.len() == torrent.meta.files@.len(),
    ensures
        overfull == !files_within_length(*torrent),
{
    let mut i: usize = 0;
    while i < torrent.meta.files.len()
        invariant
            i <= torrent.meta.files@.len(),
            torrent.files@.len() == torrent.meta.files@.len(),
            forall|k: int|
                0 <= k < i ==> (#[trigger] torrent.files@[k]).bytes_completed
                    <= torrent.meta.files@[k].length,
        decreases torrent.meta.files@.len() - i,
    {
        if torrent.files[i].bytes_completed > torrent.meta.files[i].length {
            assert(torrent.files@[i as int].bytes_completed > torrent.meta.files@[i as int].length);
            return true;
        }
        i = i + 1;
    }
    false
}

/// The first thing that is wrong with a stored torrent.
pub fn find_fault(stored: &StoredTorrent) -> (fault: Option<StoredFault>)
    ensures
        fault == fault_of(*stored),
{
    let torrent: &Torrent = &stored.torrent;
    if let Some(bits) = torrent.seeding.ratio_limit {
        if !is_usable_ratio(bits) {
            return Some(StoredFault::Ratio);
        }
    }
    if stored.metadata_error.is_some() {
        return Some(StoredFault::Metadata);
    }
    let files: usize = torrent.meta.files.len();
    if torrent.files.len() != files || torrent.priorities.len() != files || torrent.wanted.len()
        != files {
        return Some(StoredFault::FileSettings);
    }
    if torrent.needs_metadata != torrent.magnet_info_hash.is_some() {
        return Some(StoredFault::MagnetIdentity);
    }
    let pieces: usize = torrent.meta.piece_count;
    let bits: u128 = if pieces % 8 == 0 {
        pieces as u128
    } else {
        pieces as u128 + 8 - (pieces % 8) as u128
    };
    let beyond: bool = has_bit_beyond(&stored.bits, pieces);
    if stored.progress_total != pieces || stored.bits.len() as u128 != bits || beyond {
        return Some(StoredFault::PieceProgress);
    }
    if has_overfull_file(torrent) {
        return Some(StoredFault::FileProgress);
    }
    None
}

fn refuse(stored: &StoredTorrent, fault: StoredFault) -> (error: CoreError)
    requires
        fault == StoredFault::Metadata ==> stored.metadata_error.is_some(),
    ensures
        error@ == (crate::error::ErrorView {
            kind: crate::error::ErrorKind::Storage,
            message: fault_text(*stored, fault),
        }),
{
    let hex: String = stored.torrent.info_hash().to_hex();
    let mut text: String = String::new();
    if fault == StoredFault::Metadata {
        text.append("invalid metadata for restored torrent ");
        text.append(hex.as_str());
        text.append(": ");
        if let Some(reason) = &stored.metadata_error {
            text.append(reason.as_str());
        }
    } else {
        text.append("daemon state for ");
        text.append(hex.as_str());
        match fault {
            StoredFault::Ratio => text.append(" has invalid seeding.ratio_limit"),
            StoredFault::FileSettings => text.append(" has inconsistent file settings"),
            StoredFault::MagnetIdentity => text.append(" has inconsistent magnet identity"),
            StoredFault::PieceProgress => text.append(" has inconsistent piece progress"),
            _ => text.append(" has file progress beyond file length"),
        }
    }
    assert(text@ =~= fault_text(*stored, fault));
    CoreError::Storage(text)
}

/// Where a stored torrent stands before its notes are used.
pub open spec fn resting_state(state: TorrentState, traffic_allowed: bool) -> TorrentState {
    if state.downloads() || state == TorrentState::Checking {
        if traffic_allowed {
            TorrentState::Queued
        } else {
            TorrentState::NetworkBlocked
        }
    } else if state == TorrentState::Seeding {
        if traffic_allowed {
            TorrentState::Completed
        } else {
            TorrentState::NetworkBlocked
        }
    } else {
        state
    }
}

/// What is noted of a stored torrent before its notes are used. A check was no network work, so
/// nothing is noted of it.
pub open spec fn resting_intent(
    state: TorrentState,
    intent: Option<ContainmentRecoveryIntent>,
    traffic_allowed: bool,
) -> Option<ContainmentRecoveryIntent> {
    if traffic_allowed {
        intent
    } else {
        match state {
            TorrentState::Downloading => Some(ContainmentRecoveryIntent::Downloading),
            TorrentState::DownloadingMetadata => {
                Some(ContainmentRecoveryIntent::DownloadingMetadata)
            },
            TorrentState::Seeding => Some(ContainmentRecoveryIntent::Seeding),
            _ => intent,
        }
    }
}

/// A stored torrent put to rest, with its notes used where the network permits.
pub open spec fn rested(torrent: Torrent, traffic_allowed: bool) -> Torrent {
    let state = resting_state(torrent.state, traffic_allowed);
    let intent = resting_intent(
        torrent.state,
        torrent.containment_recovery_intent,
        traffic_allowed,
    );
    if traffic_allowed && state == TorrentState::NetworkBlocked && intent.is_some() {
        Torrent {
            state: if intent == Some(ContainmentRecoveryIntent::Seeding) {
                TorrentState::Completed
            } else {
                TorrentState::Queued
            },
            containment_recovery_intent: None,
            error: None,
            ..torrent
        }
    } else {
        Torrent { state, containment_recovery_intent: intent, ..torrent }
    }
}

/// A stored torrent with its upload status set right. A blocked torrent keeps what it was doing;
/// a paused one was stopped by hand; every other finished one is judged by its targets again.
pub open spec fn upload_restored(
    torrent: Torrent,
    stored_state: TorrentState,
    decision: SeedDecision,
) -> Torrent {
    if !torrent.progress.complete() {
        Torrent { seeding_status: SeedingStatus::NotEligible, ..torrent }
    } else if torrent.state == TorrentState::NetworkBlocked {
        Torrent {
            seeding_status: if stored_state == TorrentState::Seeding {
                SeedingStatus::Active
            } else if stored_state == TorrentState::Paused {
                SeedingStatus::StoppedManual
            } else if torrent.seeding_status != SeedingStatus::NotEligible {
                torrent.seeding_status
            } else {
                crate::seeding::decided_status(decision)
            },
            ..torrent
        }
    } else if torrent.state == TorrentState::Paused {
        Torrent { seeding_status: SeedingStatus::StoppedManual, ..torrent }
    } else {
        Torrent {
            state: if torrent.state == TorrentState::Seeding {
                TorrentState::Completed
            } else {
                torrent.state
            },
            seeding_status: crate::seeding::decided_status(decision),
            ..torrent
        }
    }
}

/// Sets the upload status of a stored torrent right.
pub fn recompute_restored_seeding_lifecycle(
    torrent: &mut Torrent,
    persisted_state: TorrentState,
    decision: SeedDecision,
)
    ensures
        *final(torrent) == upload_restored(*old(torrent), persisted_state, decision),
{
    if !torrent.progress.is_complete() {
        torrent.seeding_status = SeedingStatus::NotEligible;
        return ;
    }
    if torrent.state == TorrentState::NetworkBlocked {
        torrent.seeding_status = if persisted_state == TorrentState::Seeding {
            SeedingStatus::Active
        } else if persisted_state == TorrentState::Paused {
            SeedingStatus::StoppedManual
        } else if torrent.seeding_status != SeedingStatus::NotEligible {
            torrent.seeding_status
        } else {
            automatic_seeding_status(decision)
        };
        return ;
    }
    if torrent.state == TorrentState::Paused {
        torrent.seeding_status = SeedingStatus::StoppedManual;
        return ;
    }
    if torrent.state == TorrentState::Seeding {
        torrent.state = TorrentState::Completed;
    }
    torrent.seeding_status = automatic_seeding_status(decision);
}

fn rest(torrent: &mut Torrent, traffic_allowed: bool)
    ensures
        *final(torrent) == rested(*old(torrent), traffic_allowed),
{
    match torrent.state {
        TorrentState::Downloading => {
            if traffic_allowed {
                torrent.state = TorrentState::Queued;
            } else {
                torrent.containment_recovery_intent = Some(ContainmentRecoveryIntent::Downloading);
                torrent.state = TorrentState::NetworkBlocked;
            }
        },
        TorrentState::DownloadingMetadata => {
            if traffic_allowed {
                torrent.state = TorrentState::Queued;
            } else {
                torrent.containment_recovery_intent = Some(
                    ContainmentRecoveryIntent::DownloadingMetadata,
                );
                torrent.state = TorrentState::NetworkBlocked;
            }
        },
        TorrentState::Checking => {
            torrent.state = if traffic_allowed {
                TorrentState::Queued
            } else {
                TorrentState::NetworkBlocked
            };
        },
        TorrentState::Seeding => {
            if traffic_allowed {
                torrent.state = TorrentState::Completed;
            } else {
                torrent.containment_recovery_intent = Some(ContainmentRecoveryIntent::Seeding);
                torrent.state = TorrentState::NetworkBlocked;
            }
        },
        _ => {},
    }
    if traffic_allowed && torrent.state == TorrentState::NetworkBlocked {
        if let Some(intent) = torrent.containment_recovery_intent {
            torrent.containment_recovery_intent = None;
            torrent.error = None;
            torrent.state = match intent {
                ContainmentRecoveryIntent::Seeding => TorrentState::Completed,
                _ => TorrentState::Queued,
            };
        }
    }
}

/// The files of a restored torrent are built from its metadata and its settings.
pub open spec fn files_restored(torrent: Torrent, after: Torrent, have: Seq<bool>) -> bool {
    &&& after.files@.len() == torrent.meta.files@.len()
    &&& forall|i: int|
        0 <= i < after.files@.len() ==> {
            &&& (#[trigger] after.files@[i]).index == i
            &&& after.files@[i].path@ == crate::text::slash_joined(torrent.meta.files@[i].path@)
            &&& after.files@[i].length == torrent.meta.files@[i].length
            &&& after.files@[i].bytes_completed == crate::layout::file_bytes_there(
                torrent.meta,
                have,
                i as nat,
                have.len(),
            ) as u64
            &&& after.files@[i].priority == torrent.priorities@[i]
            &&& after.files@[i].wanted == torrent.wanted@[i]
        }
}

/// The torrent that a sound stored torrent is taken up as.
pub open spec fn torrent_restored(
    stored: StoredTorrent,
    after: Torrent,
    traffic_allowed: bool,
) -> bool {
    let torrent = stored.torrent;
    let have = crate::torrent::PieceProgress::fitted(
        stored.bits@,
        torrent.meta.piece_count as nat,
    );
    let calm = Torrent {
        files: after.files,
        progress: after.progress,
        rate_down: 0,
        rate_up: 0,
        active_peer_workers: 0,
        known_peers: 0,
        ..torrent
    };
    &&& after.progress.have@ == have
    &&& files_restored(torrent, after, have)
    &&& after == upload_restored(rested(calm, traffic_allowed), torrent.state, stored.decision)
}

fn rebuild_files(
    files: &Vec<MetaFile>,
    priorities: &Vec<FilePriority>,
    wanted: &Vec<bool>,
) -> (built: Vec<TorrentFile>)
    requires
        priorities@.len() == files@.len(),
        wanted@.len() == files@.len(),
    ensures
        built@.len() == files@.len(),
        forall|i: int|
            0 <= i < files@.len() ==> {
                &&& (#[trigger] built@[i]).index == i
                &&& built@[i].path@ == crate::text::slash_joined(files@[i].path@)
                &&& built@[i].length == files@[i].length
                &&& built@[i].priority == priorities@[i]
                &&& built@[i].wanted == wanted@[i]
            },
{
    let mut built: Vec<TorrentFile> = Vec::new();
    let mut i: usize = 0;
    while i < files.len()
        invariant
            i <= files.len(),
            priorities@.len() == files@.len(),
            wanted@.len() == files@.len(),
            built@.len() == i,
            forall|k: int|
                0 <= k < i ==> {
                    &&& (#[trigger] built@[k]).index == k
                    &&& built@[k].path@ == crate::text::slash_joined(files@[k].path@)
                    &&& built@[k].length == files@[k].length
                    &&& built@[k].priority == priorities@[k]
                    &&& built@[k].wanted == wanted@[k]
                },
        decreases files.len() - i,
    {
        built.push(
            TorrentFile {
                index: i,
                path: join_with_slash(&files[i].path),
                length: files[i].length,
                bytes_completed: 0,
                priority: priorities[i],
                wanted: wanted[i],
            },
        );
        i = i + 1;
    }
    built
}

/// Takes up a stored torrent, or says what is wrong with it.
pub fn restore_torrent(stored: StoredTorrent, traffic_allowed: bool) -> (restored: Result<
    Torrent,
    CoreError,
>)
    ensures
        restored.is_ok() == fault_of(stored).is_none(),
        restored matches Ok(torrent) ==> torrent_restored(stored, torrent, traffic_allowed),
        restored matches Err(error) ==> error@ == (crate::error::ErrorView {
            kind: crate::error::ErrorKind::Storage,
            message: fault_text(stored, fault_of(stored)->0),
        }),
{
    if let Some(fault) = find_fault(&stored) {
        return Err(refuse(&stored, fault));
    }
    let StoredTorrent { torrent, bits, decision, .. } = stored;
    let mut torrent: Torrent = torrent;
    let persisted_state: TorrentState = torrent.state;
    torrent.progress.replace_from_bitfield(&bits, torrent.meta.piece_count);
    torrent.files = rebuild_files(&torrent.meta.files, &torrent.priorities, &torrent.wanted);
    recompute_file_bytes_completed(&mut torrent.files, &torrent.meta, &torrent.progress);
    torrent.rate_down = 0;
    torrent.rate_up = 0;
    torrent.active_peer_workers = 0;
    torrent.known_peers = 0;
    rest(&mut torrent, traffic_allowed);
    recompute_restored_seeding_lifecycle(&mut torrent, persisted_state, decision);
    Ok(torrent)
}

/// The identity of a stored torrent.
pub open spec fn stored_hash(stored: StoredTorrent) -> InfoHash {
    stored.torrent.hash()
}

/// The first stored torrents are sound, and no two have the same identity.
pub open spec fn sound_upto(stored: Seq<StoredTorrent>, count: int) -> bool {
    &&& forall|i: int| 0 <= i < count ==> fault_of(#[trigger] stored[i]).is_none()
    &&& forall|i: int, j: int|
        0 <= i < j < count ==> stored_hash(#[trigger] stored[i]) != stored_hash(
            #[trigger] stored[j],
        )
}

/// Some earlier stored torrent has the identity.
pub open spec fn stored_before(stored: Seq<StoredTorrent>, count: int, hash: InfoHash) -> bool {
    exists|i: int| 0 <= i < count && stored_hash(#[trigger] stored[i]) == hash
}

/// What a stored state is refused with for the sake of one torrent.
pub open spec fn stored_refusal(stored: Seq<StoredTorrent>, at: int) -> Seq<char> {
    match fault_of(stored[at]) {
        Some(fault) => fault_text(stored[at], fault),
        None => "duplicate torrent "@ + crate::hash::hex(stored_hash(stored[at]))
            + " in daemon state"@,
    }
}

/// Takes up all stored torrents, or none: the first that is not sound, or that was stored twice,
/// has the whole state refused.
pub fn restore_torrents(stored: Vec<StoredTorrent>, traffic_allowed: bool) -> (restored: Result<
    HashIndex<Torrent>,
    CoreError,
>)
    ensures
        restored.is_ok() == sound_upto(stored@, stored@.len() as int),
        restored matches Ok(registry) ==> {
            &&& registry.wf()
            &&& forall|hash: InfoHash| #[trigger]
                registry@.dom().contains(hash) == stored_before(
                    stored@,
                    stored@.len() as int,
                    hash,
                )
            &&& forall|i: int|
                0 <= i < stored@.len() ==> torrent_restored(
                    #[trigger] stored@[i],
                    registry@[stored_hash(stored@[i])],
                    traffic_allowed,
                )
        },
        restored matches Err(error) ==> exists|at: int|
            {
                &&& 0 <= at < stored@.len()
                &&& #[trigger] sound_upto(stored@, at)
                &&& !sound_upto(stored@, at + 1)
                &&& error@ == (crate::error::ErrorView {
                    kind: crate::error::ErrorKind::Storage,
                    message: stored_refusal(stored@, at),
                })
            },
{
    let ghost given = stored@;
    let mut registry: HashIndex<Torrent> = HashIndex::new();
    for item in it: stored
        invariant
            it.seq() == given,
            registry.wf(),
            sound_upto(given, it.index() as int),
            forall|hash: InfoHash| #[trigger]
                registry@.dom().contains(hash) == stored_before(given, it.index() as int, hash),
            forall|i: int|
                0 <= i < it.index() ==> torrent_restored(
                    #[trigger] given[i],
                    registry@[stored_hash(given[i])],
                    traffic_allowed,
                ),
    {
        let ghost at: int = it.index() as int;
        assert(item == given[at]);
        let hash: InfoHash = item.torrent.info_hash();
        let torrent: Torrent = match restore_torrent(item, traffic_allowed) {
            Ok(torrent) => torrent,
            Err(error) => {
                assert(!sound_upto(given, at + 1));
                assert(!sound_upto(given, given.len() as int)) by {
                    assert(fault_of(given[at]).is_some());
                }
                return Err(error);
            },
        };
        if registry.contains(&hash) {
            let mut text: String = owned("duplicate torrent ");
            let hex: String = hash.to_hex();
            text.append(hex.as_str());
            text.append(" in daemon state");
            proof {
                assert(stored_before(given, at, hash));
                let k = choose|k: int| 0 <= k < at && stored_hash(#[trigger] given[k]) == hash;
                assert(stored_hash(given[k]) == stored_hash(given[at]));
                assert(!sound_upto(given, at + 1));
                assert(!sound_upto(given, given.len() as int));
                assert(text@ =~= stored_refusal(given, at));
            }
            return Err(CoreError::Storage(text));
        }
        proof {
            assert(!stored_before(given, at, hash));
            assert forall|other: InfoHash| #[trigger] stored_before(given, at + 1, other) == (
            stored_before(given, at, other) || other == hash) by {
                assert(stored_hash(given[at]) == hash);
            }
            assert forall|i: int| 0 <= i < at implies stored_hash(#[trigger] given[i]) != hash by {
                assert(stored_hash(given[i]) != hash);
            }
        }
        registry.insert(hash, torrent);
    }
    Ok(registry)
}

/// No restored torrent is shown as working, and none that would use the network waits for it to
/// start by itself where the network does not permit that.
pub proof fn restored_torrents_are_at_rest(
    stored: StoredTorrent,
    after: Torrent,
    traffic_allowed: bool,
)
    requires
        torrent_restored(stored, after, traffic_allowed),
    ensures
        !after.state.active(),
        after.state != TorrentState::Checking,
        !traffic_allowed && stored.torrent.state.active() ==> after.state
            == TorrentState::NetworkBlocked && after.containment_recovery_intent.is_some(),
        after.seeding_status == SeedingStatus::Active ==> after.state
            == TorrentState::NetworkBlocked,
{
}

/// A restored torrent keeps everything that was set for it and all that it has got.
pub proof fn restored_torrents_keep_their_settings(
    stored: StoredTorrent,
    after: Torrent,
    traffic_allowed: bool,
)
    requires
        fault_of(stored).is_none(),
        torrent_restored(stored, after, traffic_allowed),
    ensures
        ({
            let before = stored.torrent;
            &&& after.hash() == before.hash()
            &&& after.meta == before.meta
            &&& after.labels == before.labels
            &&& after.priorities == before.priorities
            &&& after.wanted == before.wanted
            &&& after.seeding == before.seeding
            &&& after.download_dir == before.download_dir
            &&& after.download_limit == before.download_limit
            &&& after.upload_limit == before.upload_limit
            &&& after.downloaded == before.downloaded
            &&& after.uploaded == before.uploaded
            &&& after.date_added == before.date_added
            &&& after.date_completed == before.date_completed
            &&& after.autopilot_mode_override == before.autopilot_mode_override
            &&& after.progress.have@ == stored.bits@.take(before.meta.piece_count as int)
            &&& before.state == TorrentState::Paused ==> after.state == TorrentState::Paused
        }),
{
    let pieces = stored.torrent.meta.piece_count as nat;
    assert(stored_bits(pieces) >= pieces);
    assert(after.progress.have@ =~= stored.bits@.take(pieces as int));
}

/// Keeping only what is kept anyway changes nothing.
proof fn lemma_filter_all(list: Seq<InfoHash>, keep: spec_fn(InfoHash) -> bool)
    requires
        forall|i: int| 0 <= i < list.len() ==> keep(#[trigger] list[i]),
    ensures
        list.filter(keep) == list,
    decreases list.len(),
{
    reveal(Seq::filter);
    if list.len() > 0 {
        let rest = list.drop_last();
        assert forall|i: int| 0 <= i < rest.len() implies keep(#[trigger] rest[i]) by {
            assert(rest[i] == list[i]);
        }
        lemma_filter_all(rest, keep);
        assert(keep(list[list.len() - 1]));
        assert(rest.push(list.last()) =~= list);
    }
}

/// Keeping nothing leaves nothing.
proof fn lemma_filter_none(list: Seq<InfoHash>, keep: spec_fn(InfoHash) -> bool)
    requires
        forall|i: int| 0 <= i < list.len() ==> !keep(#[trigger] list[i]),
    ensures
        list.filter(keep) == Seq::<InfoHash>::empty(),
    decreases list.len(),
{
    reveal(Seq::filter);
    if list.len() > 0 {
        let rest = list.drop_last();
        assert forall|i: int| 0 <= i < rest.len() implies !keep(#[trigger] rest[i]) by {
            assert(rest[i] == list[i]);
        }
        lemma_filter_none(rest, keep);
        assert(!keep(list[list.len() - 1]));
    } else {
        assert(list.filter(keep) =~= Seq::<InfoHash>::empty());
    }
}

/// Adding what is there changes nothing.
proof fn lemma_append_present(list: Seq<InfoHash>, hashes: Seq<InfoHash>)
    requires
        forall|i: int| 0 <= i < hashes.len() ==> list.contains(#[trigger] hashes[i]),
    ensures
        crate::queue::appended_all(list, hashes) == list,
    decreases hashes.len(),
{
    if hashes.len() > 0 {
        let rest = hashes.drop_last();
        assert forall|i: int| 0 <= i < rest.len() implies list.contains(#[trigger] rest[i]) by {
            assert(rest[i] == hashes[i]);
        }
        lemma_append_present(list, rest);
        assert(list.contains(hashes[hashes.len() - 1]));
    }
}

/// A queue that was stored with exactly the torrents that are taken up comes back as it was.
pub proof fn restored_queues_keep_their_order(
    queue: crate::queue::QueueView,
    entries: Seq<(InfoHash, Torrent)>,
    limits: crate::config::QueueLimits,
)
    requires
        crate::index::keys_increase(entries),
        forall|hash: InfoHash| #[trigger]
            queue.order.contains(hash) == crate::index::has_key(entries, hash),
    ensures
        queue_restored(queue, entries, limits) == (crate::queue::QueueView { limits, ..queue }),
{
    let known = crate::index::entry_map(entries);
    let unknown = unknown_to(known);
    assert forall|i: int| 0 <= i < queue.order.len() implies !unknown(#[trigger] queue.order[i]) by {
        assert(queue.order.contains(queue.order[i]));
        assert(crate::index::has_key(entries, queue.order[i]));
    }
    lemma_filter_none(queue.order, unknown);
    let stale = Seq::<InfoHash>::empty();
    let keep = crate::queue::none_of(stale);
    lemma_filter_all(queue.order, keep);
    lemma_filter_all(queue.bypass, keep);
    let keys = keys_of(entries);
    assert forall|i: int| 0 <= i < keys.len() implies queue.order.contains(#[trigger] keys[i]) by {
        assert(entries[i].0 == keys[i]);
        assert(crate::index::has_key(entries, keys[i]));
    }
    lemma_append_present(queue.order, keys);
}

/// The keys of a table, in order.
pub open spec fn keys_of<V>(entries: Seq<(InfoHash, V)>) -> Seq<InfoHash> {
    entries.map_values(|entry: (InfoHash, V)| entry.0)
}

/// Torrents of a list that the registry does not know.
pub open spec fn unknown_to(registry: Map<InfoHash, Torrent>) -> spec_fn(InfoHash) -> bool {
    |hash: InfoHash| !registry.dom().contains(hash)
}

/// A stored queue brought in line with the torrents that were taken up.
pub open spec fn queue_restored(
    queue: crate::queue::QueueView,
    entries: Seq<(InfoHash, Torrent)>,
    limits: crate::config::QueueLimits,
) -> crate::queue::QueueView {
    let stale = queue.order.filter(unknown_to(crate::index::entry_map(entries)));
    crate::queue::QueueView {
        limits,
        order: crate::queue::appended_all(
            crate::queue::without_all(queue.order, stale),
            keys_of(entries),
        ),
        bypass: crate::queue::without_all(queue.bypass, stale),
    }
}

/// The keys of a registry, in order.
pub fn registry_keys(registry: &HashIndex<Torrent>) -> (keys: Vec<InfoHash>)
    requires
        registry.wf(),
    ensures
        keys@ == keys_of(registry.seq()),
{
    let mut keys: Vec<InfoHash> = Vec::new();
    let mut i: usize = 0;
    while i < registry.len()
        invariant
            i <= registry.seq().len(),
            registry.wf(),
            keys@ == keys_of(registry.seq().take(i as int)),
        decreases registry.seq().len() - i,
    {
        keys.push(registry.key_at(i));
        i = i + 1;
        assert(keys@ =~= keys_of(registry.seq().take(i as int)));
    }
    assert(registry.seq().take(i as int) =~= registry.seq());
    keys
}

/// Brings a stored queue in line with the torrents that were taken up.
pub fn restore_queue(
    queue: &mut crate::queue::QueueState,
    registry: &HashIndex<Torrent>,
    limits: crate::config::QueueLimits,
)
    requires
        old(queue)@.wf(),
        registry.wf(),
    ensures
        final(queue)@.wf(),
        final(queue)@ == queue_restored(old(queue)@, registry.seq(), limits),
{
    let mut stale: Vec<InfoHash> = Vec::new();
    let ghost keep = unknown_to(registry@);
    let ghost order = queue.order@;
    let mut i: usize = 0;
    assert(order.take(0).filter(keep) =~= stale@) by {
        reveal(Seq::filter);
    }
    while i < queue.order.len()
        invariant
            i <= order.len(),
            order == queue.order@,
            registry.wf(),
            keep == unknown_to(registry@),
            stale@ == order.take(i as int).filter(keep),
        decreases order.len() - i,
    {
        proof {
            reveal(Seq::filter);
            assert(order.take(i + 1).drop_last() =~= order.take(i as int));
            assert(order.take(i + 1).last() == order[i as int]);
        }
        let hash: InfoHash = queue.order[i];
        if !registry.contains(&hash) {
            stale.push(hash);
        }
        i = i + 1;
    }
    assert(order.take(i as int) =~= order);
    queue.remove_many(&stale);
    queue.add_many(&registry_keys(registry));
    queue.limits = limits;
}

/// What reading a finished torrent's payload came to.
#[derive(Debug)]
pub enum PayloadCheck {
    /// The pieces that are there.
    Read(Vec<bool>),
    /// It could not be read.
    Unreadable(String),
}

/// A restored torrent after its payload was read.
pub open spec fn payload_verified(
    before: Torrent,
    after: Torrent,
    pieces: Seq<bool>,
    traffic_allowed: bool,
) -> bool {
    let have = crate::torrent::PieceProgress::fitted(pieces, before.meta.piece_count as nat);
    let whole = crate::layout::selection_complete(before, pieces);
    &&& after == (Torrent {
        progress: after.progress,
        files: after.files,
        state: if whole {
            before.state
        } else if traffic_allowed {
            TorrentState::Queued
        } else {
            TorrentState::NetworkBlocked
        },
        error: if whole {
            before.error
        } else {
            Some(crate::torrent::Notice::PayloadIncomplete)
        },
        seeding_status: if whole {
            SeedingStatus::Queued
        } else {
            SeedingStatus::NotEligible
        },
        ..before
    })
    &&& after.progress.have@ == have
    &&& after.files@.len() == before.files@.len()
    &&& forall|i: int|
        0 <= i < before.files@.len() ==> #[trigger] after.files@[i] == crate::layout::recounted(
            before.files@[i],
            i as nat,
            before.meta,
            have,
        )
}

/// Takes in what reading a restored torrent's payload came to.
pub fn verify_restored_payload(
    torrent: &mut Torrent,
    check: PayloadCheck,
    traffic_allowed: bool,
)
    ensures
        match check {
            PayloadCheck::Read(pieces) => payload_verified(
                *old(torrent),
                *final(torrent),
                pieces@,
                traffic_allowed,
            ),
            PayloadCheck::Unreadable(rendered) => *final(torrent) == crate::start::storage_failed(
                *old(torrent),
                rendered,
            ),
        },
{
    match check {
        PayloadCheck::Read(pieces) => {
            let whole: bool = crate::layout::torrent_selection_complete(torrent, &pieces);
            torrent.progress.replace_from_bitfield(&pieces, torrent.meta.piece_count);
            recompute_file_bytes_completed(&mut torrent.files, &torrent.meta, &torrent.progress);
            if whole {
                torrent.seeding_status = SeedingStatus::Queued;
            } else {
                torrent.state = if traffic_allowed {
                    TorrentState::Queued
                } else {
                    TorrentState::NetworkBlocked
                };
                torrent.error = Some(crate::torrent::Notice::PayloadIncomplete);
                torrent.seeding_status = SeedingStatus::NotEligible;
            }
        },
        PayloadCheck::Unreadable(rendered) => {
            torrent.state = TorrentState::StorageError;
            torrent.error = Some(crate::torrent::Notice::Text(rendered));
        },
    }
}

/// Where the network permits traffic, a restart takes up what was going on: what was downloading,
/// fetching metadata or being checked waits for a slot, what was uploading is completed, and so is
/// what was cut off and noted by a lost path. Nothing else moves; in particular a torrent is paused
/// after a restart exactly when it was paused before, so everything else goes on without the user.
pub proof fn restarts_take_work_up(stored: StoredTorrent, after: Torrent)
    requires
        torrent_restored(stored, after, true),
    ensures
        ({
            let was = stored.torrent.state;
            let note = stored.torrent.containment_recovery_intent;
            &&& was == TorrentState::Downloading || was == TorrentState::DownloadingMetadata || was
                == TorrentState::Checking ==> after.state == TorrentState::Queued
            &&& was == TorrentState::Seeding ==> after.state == TorrentState::Completed
            &&& was == TorrentState::NetworkBlocked ==> after.state == match note {
                Some(ContainmentRecoveryIntent::Downloading) => TorrentState::Queued,
                Some(ContainmentRecoveryIntent::DownloadingMetadata) => TorrentState::Queued,
                Some(ContainmentRecoveryIntent::Seeding) => TorrentState::Completed,
                None => TorrentState::NetworkBlocked,
            }
            &&& was == TorrentState::NetworkBlocked && note.is_some() ==> after.error.is_none()
                && after.containment_recovery_intent.is_none()
            &&& was != TorrentState::NetworkBlocked || note.is_none() ==> after.error
                == stored.torrent.error && after.containment_recovery_intent == note
            &&& was == TorrentState::Queued || was == TorrentState::Paused || was
                == TorrentState::Completed || was == TorrentState::Error || was
                == TorrentState::StorageError || was == TorrentState::TrackerError ==> after.state
                == was
            &&& (after.state == TorrentState::Paused) == (was == TorrentState::Paused)
        }),
{
}

/// Where the network does not permit traffic, a restart holds back what used it and notes what it
/// did; nothing else moves.
pub proof fn restarts_hold_work_back(stored: StoredTorrent, after: Torrent)
    requires
        torrent_restored(stored, after, false),
    ensures
        ({
            let was = stored.torrent.state;
            let note = stored.torrent.containment_recovery_intent;
            let used = was == TorrentState::Downloading || was == TorrentState::DownloadingMetadata
                || was == TorrentState::Seeding;
            &&& used || was == TorrentState::Checking ==> after.state
                == TorrentState::NetworkBlocked
            &&& !used && was != TorrentState::Checking ==> after.state == was
            &&& was == TorrentState::Downloading ==> after.containment_recovery_intent == Some(
                ContainmentRecoveryIntent::Downloading,
            )
            &&& was == TorrentState::DownloadingMetadata ==> after.containment_recovery_intent
                == Some(ContainmentRecoveryIntent::DownloadingMetadata)
            &&& was == TorrentState::Seeding ==> after.containment_recovery_intent == Some(
                ContainmentRecoveryIntent::Seeding,
            )
            &&& !used ==> after.containment_recovery_intent == note
            &&& after.error == stored.torrent.error
        }),
{
}

/// It makes no difference for a torrent that was working whether the network is back before the
/// restart or after it: it ends up in the same place.
pub proof fn late_networks_make_no_difference(
    stored: StoredTorrent,
    blocked: Torrent,
    allowed: Torrent,
)
    requires
        torrent_restored(stored, blocked, false),
        torrent_restored(stored, allowed, true),
        stored.torrent.state == TorrentState::Downloading || stored.torrent.state
            == TorrentState::DownloadingMetadata || stored.torrent.state == TorrentState::Seeding,
    ensures
        crate::containment::regained(blocked).state == allowed.state,
        crate::containment::regained(blocked).state == TorrentState::Queued
            || crate::containment::regained(blocked).state == TorrentState::Completed,
{
}

/// The upload status of a torrent after a restart. Without all its pieces it cannot upload; paused
/// means stopped by hand; a finished one waits to upload unless its targets say that it is done;
/// and one that uploaded when the network was lost is still shown as uploading.
pub proof fn restarts_judge_uploads(stored: StoredTorrent, after: Torrent, traffic_allowed: bool)
    requires
        torrent_restored(stored, after, traffic_allowed),
    ensures
        ({
            let was = stored.torrent;
            let have = after.progress.have@;
            let whole = have.len() > 0 && forall|piece: int|
                0 <= piece < have.len() ==> #[trigger] have[piece];
            let verdict = match stored.decision {
                SeedDecision::Continue => SeedingStatus::Queued,
                SeedDecision::StopOnRatio => SeedingStatus::StoppedRatio,
                SeedDecision::StopOnIdle => SeedingStatus::StoppedIdle,
            };
            &&& have.len() == was.meta.piece_count
            &&& forall|piece: int|
                0 <= piece < have.len() ==> #[trigger] have[piece] == (piece < stored.bits@.len()
                    && stored.bits@[piece])
            &&& !whole ==> after.seeding_status == SeedingStatus::NotEligible
            &&& whole && was.state == TorrentState::Paused ==> after.seeding_status
                == SeedingStatus::StoppedManual
            &&& whole && was.state != TorrentState::Paused && after.state
                != TorrentState::NetworkBlocked ==> after.seeding_status == verdict
            &&& whole && was.state == TorrentState::Seeding && !traffic_allowed
                ==> after.seeding_status == SeedingStatus::Active
            &&& whole && was.state == TorrentState::NetworkBlocked && after.state
                == TorrentState::NetworkBlocked ==> after.seeding_status == if was.seeding_status
                == SeedingStatus::NotEligible {
                verdict
            } else {
                was.seeding_status
            }
            &&& after.rate_down == 0 && after.rate_up == 0 && after.active_peer_workers == 0
                && after.known_peers == 0
        }),
{
}

/// A stored torrent is accepted only where its parts agree: a usable ratio, valid metadata, a
/// setting for each file, an identity of its own exactly while metadata is missing, a bit for each
/// piece and none set beyond them, and no file fuller than it is long.
pub proof fn accepted_torrents_are_consistent(stored: StoredTorrent)
    requires
        fault_of(stored).is_none(),
    ensures
        ({
            let torrent = stored.torrent;
            let files = torrent.meta.files@.len();
            let pieces = torrent.meta.piece_count;
            &&& torrent.files@.len() == files
            &&& torrent.priorities@.len() == files
            &&& torrent.wanted@.len() == files
            &&& torrent.needs_metadata == torrent.magnet_info_hash.is_some()
            &&& stored.metadata_error.is_none()
            &&& stored.progress_total == pieces
            &&& pieces <= stored.bits@.len() < pieces + 8
            &&& stored.bits@.len() % 8 == 0
            &&& forall|i: int| pieces <= i < stored.bits@.len() ==> !#[trigger] stored.bits@[i]
            &&& forall|i: int|
                0 <= i < files ==> (#[trigger] torrent.files@[i]).bytes_completed
                    <= torrent.meta.files@[i].length
            &&& torrent.seeding.ratio_limit matches Some(bits) ==> bits
                == 0x8000_0000_0000_0000u64 || bits < 0x7ff0_0000_0000_0000u64
        }),
{
    if let Some(bits) = stored.torrent.seeding.ratio_limit {
        assert(crate::seeding::usable_ratio(bits));
    }
}

/// After a restart every torrent stands in the queue and nothing else does; what was told to start
/// still is, and those that stood in the queue keep their order, ahead of those that did not.
pub proof fn restored_queues_hold_all_torrents(
    queue: crate::queue::QueueView,
    entries: Seq<(InfoHash, Torrent)>,
    limits: crate::config::QueueLimits,
    hash: InfoHash,
)
    requires
        queue.wf(),
        crate::index::keys_increase(entries),
        forall|other: InfoHash| #[trigger]
            queue.bypass.contains(other) ==> queue.order.contains(other),
    ensures
        ({
            let after = queue_restored(queue, entries, limits);
            let known = crate::index::has_key(entries, hash);
            &&& after.limits == limits
            &&& after.order.contains(hash) == known
            &&& after.bypass.contains(hash) == (known && queue.bypass.contains(hash))
            &&& forall|i: int, j: int|
                #![trigger queue.order[i], queue.order[j]]
                0 <= i < j < queue.order.len() && crate::index::has_key(entries, queue.order[i])
                    && crate::index::has_key(entries, queue.order[j]) ==> after.order.index_of(
                    queue.order[i],
                ) < after.order.index_of(queue.order[j])
            &&& known && !queue.order.contains(hash) ==> forall|i: int|
                0 <= i < queue.order.len() && crate::index::has_key(
                    entries,
                    #[trigger] queue.order[i],
                ) ==> after.order.index_of(queue.order[i]) < after.order.index_of(hash)
        }),
{
    let known = crate::index::entry_map(entries);
    let unknown = unknown_to(known);
    let stale = queue.order.filter(unknown);
    let keep = crate::queue::none_of(stale);
    let kept = queue.order.filter(keep);
    let keys = keys_of(entries);
    let after = queue_restored(queue, entries, limits);
    crate::queue::lemma_filter(queue.order, unknown);
    crate::queue::lemma_filter(queue.order, keep);
    crate::queue::lemma_filter(queue.bypass, keep);
    crate::queue::lemma_all_appended(kept, keys);
    assert forall|other: InfoHash| #[trigger] keys.contains(other) == crate::index::has_key(
        entries,
        other,
    ) by {
        if keys.contains(other) {
            let k = keys.index_of(other);
            assert(entries[k].0 == other);
        }
        if crate::index::has_key(entries, other) {
            let k = choose|k: int| 0 <= k < entries.len() && (#[trigger] entries[k]).0 == other;
            assert(keys[k] == other);
        }
    }
    assert forall|other: InfoHash| #[trigger] known.dom().contains(other)
        == crate::index::has_key(entries, other) by {}
    assert(after.order.contains(hash) == (kept.contains(hash) || keys.contains(hash)));
    assert(kept.contains(hash) == (queue.order.contains(hash) && keep(hash)));
    assert(stale.contains(hash) == (queue.order.contains(hash) && unknown(hash)));
    assert(after.bypass.contains(hash) == (queue.bypass.contains(hash) && keep(hash)));
    assert forall|i: int|
        0 <= i < queue.order.len() && crate::index::has_key(
            entries,
            #[trigger] queue.order[i],
        ) implies kept.contains(queue.order[i]) && after.order.index_of(queue.order[i])
        == kept.index_of(queue.order[i]) by {
        let other = queue.order[i];
        assert(queue.order.contains(other));
        assert(stale.contains(other) == (queue.order.contains(other) && unknown(other)));
        assert(kept.contains(other) == (queue.order.contains(other) && keep(other)));
        let k = kept.index_of(other);
        assert(after.order.take(kept.len() as int)[k] == other);
        assert(after.order[k] == other);
    }
    assert forall|i: int, j: int|
        #![trigger queue.order[i], queue.order[j]]
        0 <= i < j < queue.order.len() && crate::index::has_key(entries, queue.order[i])
            && crate::index::has_key(entries, queue.order[j]) implies after.order.index_of(
        queue.order[i],
    ) < after.order.index_of(queue.order[j]) by {
        let a = kept.index_of(queue.order[i]);
        let b = kept.index_of(queue.order[j]);
        crate::scheduler::lemma_kept_in_order(queue.order, keep);
        assert(queue.order.index_of(queue.order[i]) == i);
        assert(queue.order.index_of(queue.order[j]) == j);
        assert(kept[a] == queue.order[i] && kept[b] == queue.order[j]);
        if b < a {
            assert(queue.order.index_of(kept[b]) < queue.order.index_of(kept[a]));
        }
        assert(a != b) by {
            if a == b {
                assert(queue.order[i] == queue.order[j]);
            }
        }
    }
    if crate::index::has_key(entries, hash) && !queue.order.contains(hash) {
        assert(!kept.contains(hash));
        let at = after.order.index_of(hash);
        assert(at >= kept.len()) by {
            if at < kept.len() {
                assert(after.order.take(kept.len() as int)[at] == hash);
                assert(kept[at] == hash);
            }
        }
    }
}

/// A restored torrent whose payload was read stays where it is while every wanted piece is there,
/// and waits to upload; else it is to be downloaded again, or is blocked, and says so.
pub proof fn read_payloads_are_believed(
    before: Torrent,
    after: Torrent,
    pieces: Seq<bool>,
    traffic_allowed: bool,
)
    requires
        payload_verified(before, after, pieces, traffic_allowed),
    ensures
        ({
            let whole = crate::layout::selection_complete(before, pieces);
            let have = after.progress.have@;
            &&& whole ==> after.state == before.state && after.error == before.error
                && after.seeding_status == SeedingStatus::Queued
            &&& !whole ==> after.error == Some(crate::torrent::Notice::PayloadIncomplete)
                && after.seeding_status == SeedingStatus::NotEligible
            &&& !whole && traffic_allowed ==> after.state == TorrentState::Queued
            &&& !whole && !traffic_allowed ==> after.state == TorrentState::NetworkBlocked
            &&& have.len() == before.meta.piece_count
            &&& forall|piece: int|
                0 <= piece < have.len() ==> #[trigger] have[piece] == (piece < pieces.len()
                    && pieces[piece])
        }),
{
}

/// A stored torrent whose parts agree is accepted: nothing else is held against it.
pub proof fn consistent_torrents_are_accepted(stored: StoredTorrent)
    requires
        ({
            let torrent = stored.torrent;
            let files = torrent.meta.files@.len();
            let pieces = torrent.meta.piece_count;
            &&& torrent.files@.len() == files
            &&& torrent.priorities@.len() == files
            &&& torrent.wanted@.len() == files
            &&& torrent.needs_metadata == torrent.magnet_info_hash.is_some()
            &&& stored.metadata_error.is_none()
            &&& stored.progress_total == pieces
            &&& pieces <= stored.bits@.len() < pieces + 8
            &&& stored.bits@.len() % 8 == 0
            &&& forall|i: int| pieces <= i < stored.bits@.len() ==> !#[trigger] stored.bits@[i]
            &&& forall|i: int|
                0 <= i < files ==> (#[trigger] torrent.files@[i]).bytes_completed
                    <= torrent.meta.files@[i].length
            &&& torrent.seeding.ratio_limit.is_none()
        }),
    ensures
        fault_of(stored).is_none(),
{
}

/// The files of a restored torrent are those of its metadata, in their order, filled as far as their
/// pieces are there, and wanted and ranked as they were.
pub proof fn restored_files_are_those_of_the_metadata(
    stored: StoredTorrent,
    after: Torrent,
    traffic_allowed: bool,
    i: int,
)
    requires
        torrent_restored(stored, after, traffic_allowed),
        0 <= i < stored.torrent.meta.files@.len(),
    ensures
        after.files@.len() == stored.torrent.meta.files@.len(),
        after.files@[i].index == i,
        after.files@[i].length == stored.torrent.meta.files@[i].length,
        after.files@[i].path@ == crate::text::slash_joined(stored.torrent.meta.files@[i].path@),
        after.files@[i].wanted == stored.torrent.wanted@[i],
        after.files@[i].priority == stored.torrent.priorities@[i],
        after.files@[i].bytes_completed <= stored.torrent.meta.files@[i].length,
        after.rate_down == 0 && after.rate_up == 0 && after.active_peer_workers == 0
            && after.known_peers == 0,
{
    assert(after.files@[i].index == i);
    crate::layout::lemma_there_bound(
        stored.torrent.meta,
        after.progress.have@,
        i as nat,
        after.progress.have@.len(),
    );
}

/// A stored state is accepted exactly where no torrent in it is at fault and none occurs twice.
pub proof fn stored_states_are_sound(stored: Seq<StoredTorrent>, i: int, j: int)
    requires
        0 <= i < j < stored.len(),
    ensures
        fault_of(stored[i]).is_some() ==> !sound_upto(stored, stored.len() as int),
        stored[i].torrent.hash() == stored[j].torrent.hash() ==> !sound_upto(
            stored,
            stored.len() as int,
        ),
        (forall|k: int| 0 <= k < stored.len() ==> fault_of(#[trigger] stored[k]).is_none()) && (
        forall|k: int, l: int|
            0 <= k < l < stored.len() ==> (#[trigger] stored[k]).torrent.hash() != (
            #[trigger] stored[l]).torrent.hash()) ==> sound_upto(stored, stored.len() as int),
        stored_before(stored, stored.len() as int, stored[i].torrent.hash()),
{
    assert(stored_hash(stored[i]) == stored[i].torrent.hash());
    assert(stored_hash(stored[j]) == stored[j].torrent.hash());
}

/// A torrent counts as stored only where one of the stored ones has its identity.
pub proof fn only_stored_torrents_count(stored: Seq<StoredTorrent>, count: int, hash: InfoHash)
    requires
        forall|i: int| 0 <= i < count ==> (#[trigger] stored[i]).torrent.hash() != hash,
    ensures
        !stored_before(stored, count, hash),
{
    if stored_before(stored, count, hash) {
        let i = choose|i: int| 0 <= i < count && stored_hash(#[trigger] stored[i]) == hash;
        assert(stored[i].torrent.hash() == hash);
    }
}

} // verus!
