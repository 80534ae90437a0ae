//! Torrents as the daemon keeps them.
use crate::config::AutopilotMode;
use crate::hash::InfoHash;
use vstd::prelude::*;

verus! {

/// Where a torrent stands.
#[derive(Clone, Copy, PartialEq, Eq, Structural, Debug)]
pub enum TorrentState {
    Queued,
    DownloadingMetadata,
    Downloading,
    Checking,
    Paused,
    Completed,
    Seeding,
    Error,
    NetworkBlocked,
    StorageError,
    TrackerError,
}

/// The name of a state.
pub open spec fn state_name(state: TorrentState) -> Seq<char> {
    match state {
        TorrentState::Queued => "queued"@,
        TorrentState::DownloadingMetadata => "downloading_metadata"@,
        TorrentState::Downloading => "downloading"@,
        TorrentState::Checking => "checking"@,
        TorrentState::Paused => "paused"@,
        TorrentState::Completed => "completed"@,
        TorrentState::Seeding => "seeding"@,
        TorrentState::Error => "error"@,
        TorrentState::NetworkBlocked => "network_blocked"@,
        TorrentState::StorageError => "storage_error"@,
        TorrentState::TrackerError => "tracker_error"@,
    }
}

impl TorrentState {
    /// The name of the state.
    pub fn as_str(&self) -> (name: &'static str)
        ensures
            name@ == state_name(*self),
    {
        match self {
            TorrentState::Queued => "queued",
            TorrentState::DownloadingMetadata => "downloading_metadata",
            TorrentState::Downloading => "downloading",
            TorrentState::Checking => "checking",
            TorrentState::Paused => "paused",
            TorrentState::Completed => "completed",
            TorrentState::Seeding => "seeding",
            TorrentState::Error => "error",
            TorrentState::NetworkBlocked => "network_blocked",
            TorrentState::StorageError => "storage_error",
            TorrentState::TrackerError => "tracker_error",
        }
    }

    /// The torrent is held up by something that went wrong.
    pub open spec fn in_error(self) -> bool {
        self == TorrentState::Error || self == TorrentState::NetworkBlocked || self
            == TorrentState::StorageError || self == TorrentState::TrackerError
    }

    /// Whether the torrent is held up by something that went wrong.
    pub fn is_error(&self) -> (held_up: bool)
        ensures
            held_up == self.in_error(),
    {
        matches!(
            self,
            TorrentState::Error
                | TorrentState::NetworkBlocked
                | TorrentState::StorageError
                | TorrentState::TrackerError
        )
    }

    /// The torrent fetches metadata or payload.
    pub open spec fn downloads(self) -> bool {
        self == TorrentState::Downloading || self == TorrentState::DownloadingMetadata
    }

    /// The torrent exchanges data with peers.
    pub open spec fn active(self) -> bool {
        self.downloads() || self == TorrentState::Seeding
    }

    /// Whether the torrent exchanges data with peers.
    pub fn is_active(&self) -> (active: bool)
        ensures
            active == self.active(),
    {
        matches!(
            self,
            TorrentState::Downloading | TorrentState::DownloadingMetadata | TorrentState::Seeding
        )
    }
}

/// Where a finished torrent stands with uploading.
#[derive(Clone, Copy, PartialEq, Eq, Structural, Debug)]
pub enum SeedingStatus {
    NotEligible,
    Queued,
    Active,
    StoppedRatio,
    StoppedIdle,
    StoppedManual,
}

/// What a torrent was doing when containment stopped it.
#[derive(Clone, Copy, PartialEq, Eq, Structural, Debug)]
pub enum ContainmentRecoveryIntent {
    Downloading,
    DownloadingMetadata,
    Seeding,
}

/// How much a file of a torrent is wanted.
#[derive(Clone, Copy, PartialEq, Eq, Structural, Debug)]
pub enum FilePriority {
    Unwanted,
    Low,
    Normal,
    High,
}

/// A file as the metadata describes it.
#[derive(Debug)]
pub struct MetaFile {
    pub path: Vec<String>,
    pub length: u64,
}

/// The metadata of a torrent.
#[derive(Debug)]
pub struct TorrentMeta {
    pub info_hash: InfoHash,
    pub name: String,
    pub piece_length: u64,
    pub piece_count: usize,
    pub total_length: u64,
    pub files: Vec<MetaFile>,
    pub private: bool,
    pub announce: Option<String>,
    pub announce_list: Vec<Vec<String>>,
}

/// A file as the daemon keeps it.
#[derive(Debug)]
pub struct TorrentFile {
    pub index: usize,
    pub path: String,
    pub length: u64,
    pub bytes_completed: u64,
    pub priority: FilePriority,
    pub wanted: bool,
}

/// Which pieces are there and verified.
#[derive(Debug)]
pub struct PieceProgress {
    pub have: Vec<bool>,
}

/// A torrent's own upload targets. A ratio is kept as the bits of a double.
#[derive(Clone, Copy, PartialEq, Eq, Structural, Debug)]
pub struct SeedingPolicy {
    pub ratio_limit: Option<u64>,
    pub idle_limit: Option<u64>,
    pub seed_forever: bool,
}

/// Why a torrent is not where it was meant to be.
#[derive(PartialEq, Eq, Debug)]
pub enum Notice {
    StaleActive,
    StaleEngine,
    MetadataNoPeers,
    EngineIncomplete,
    AutopilotRelease,
    PayloadIncomplete,
    Text(String),
}

impl Clone for Notice {
    fn clone(&self) -> (copy: Notice)
        ensures
            copy == *self,
    {
        match self {
            Notice::StaleActive => Notice::StaleActive,
            Notice::StaleEngine => Notice::StaleEngine,
            Notice::MetadataNoPeers => Notice::MetadataNoPeers,
            Notice::EngineIncomplete => Notice::EngineIncomplete,
            Notice::AutopilotRelease => Notice::AutopilotRelease,
            Notice::PayloadIncomplete => Notice::PayloadIncomplete,
            Notice::Text(text) => Notice::Text(text.clone()),
        }
    }
}

/// The words of a notice.
pub open spec fn notice_text(notice: Notice) -> Seq<char> {
    match notice {
        Notice::StaleActive => {
            "active torrent had no running engine; queued for lifecycle recovery"@
        },
        Notice::StaleEngine => {
            "queued torrent had stale engine bookkeeping; queued for lifecycle recovery"@
        },
        Notice::MetadataNoPeers => "magnet metadata fetch: no peers discovered; will retry"@,
        Notice::EngineIncomplete => "engine stopped before completion; queued for retry"@,
        Notice::AutopilotRelease => "autopilot released active queue slot after no progress"@,
        Notice::PayloadIncomplete => "restored payload failed verification; selected pieces queued for recovery"@,
        Notice::Text(text) => text@,
    }
}

impl Notice {
    /// The words of the notice.
    pub fn text(&self) -> (text: String)
        ensures
            text@ == notice_text(*self),
    {
        match self {
            Notice::StaleActive => crate::text::owned(
                "active torrent had no running engine; queued for lifecycle recovery",
            ),
            Notice::StaleEngine => crate::text::owned(
                "queued torrent had stale engine bookkeeping; queued for lifecycle recovery",
            ),
            Notice::MetadataNoPeers => crate::text::owned(
                "magnet metadata fetch: no peers discovered; will retry",
            ),
            Notice::EngineIncomplete => crate::text::owned(
                "engine stopped before completion; queued for retry",
            ),
            Notice::AutopilotRelease => crate::text::owned(
                "autopilot released active queue slot after no progress",
            ),
            Notice::PayloadIncomplete => crate::text::owned("restored payload failed verification; selected pieces queued for recovery"),
            Notice::Text(text) => text.clone(),
        }
    }
}

/// A torrent in the registry.
#[derive(Debug)]
pub struct Torrent {
    pub meta: TorrentMeta,
    pub files: Vec<TorrentFile>,
    pub priorities: Vec<FilePriority>,
    pub wanted: Vec<bool>,
    pub progress: PieceProgress,
    pub state: TorrentState,
    pub seeding_status: SeedingStatus,
    pub seeding: SeedingPolicy,
    pub error: Option<Notice>,
    pub containment_recovery_intent: Option<ContainmentRecoveryIntent>,
    pub download_dir: Option<String>,
    pub labels: Vec<String>,
    pub download_limit: u64,
    pub upload_limit: u64,
    pub rate_down: u64,
    pub rate_up: u64,
    pub downloaded: u64,
    pub uploaded: u64,
    pub active_peer_workers: usize,
    pub known_peers: usize,
    pub needs_metadata: bool,
    pub magnet_info_hash: Option<InfoHash>,
    pub magnet_name: Option<String>,
    pub magnet_trackers: Vec<String>,
    pub date_added: u64,
    pub date_completed: Option<u64>,
    pub autopilot_mode_override: Option<AutopilotMode>,
}

/// How many of the first pieces are there.
pub open spec fn count_have(have: Seq<bool>, pieces: nat) -> nat
    decreases pieces,
{
    if pieces == 0 {
        0
    } else {
        let last = (pieces - 1) as nat;
        count_have(have, last) + if last < have.len() && have[last as int] {
            1nat
        } else {
            0nat
        }
    }
}

/// How many of the first pieces are there.
pub fn count_pieces(have: &Vec<bool>, pieces: usize) -> (count: usize)
    ensures
        count == count_have(have@, pieces as nat),
        count <= pieces,
{
    let mut count: usize = 0;
    let mut piece: usize = 0;
    while piece < pieces
        invariant
            piece <= pieces,
            count <= piece,
            count == count_have(have@, piece as nat),
        decreases pieces - piece,
    {
        if piece < have.len() && have[piece] {
            count = count + 1;
        }
        piece = piece + 1;
    }
    count
}

impl PieceProgress {
    /// There are pieces, and all of them are there.
    pub open spec fn complete(self) -> bool {
        self.have@.len() > 0 && forall|piece: int|
            0 <= piece < self.have@.len() ==> #[trigger] self.have@[piece]
    }

    /// Whether there are pieces, and all of them are there.
    pub fn is_complete(&self) -> (complete: bool)
        ensures
            complete == self.complete(),
    {
        let mut piece: usize = 0;
        while piece < self.have.len()
            invariant
                piece <= self.have.len(),
                forall|k: int| 0 <= k < piece ==> #[trigger] self.have@[k],
            decreases self.have.len() - piece,
        {
            if !self.have[piece] {
                return false;
            }
            piece = piece + 1;
        }
        self.have.len() > 0
    }

    /// The pieces of a bitfield, cut or filled up with missing pieces to a count.
    pub open spec fn fitted(bits: Seq<bool>, count: nat) -> Seq<bool> {
        Seq::new(count, |piece: int| piece < bits.len() && bits[piece])
    }

    /// Takes over a bitfield for a number of pieces.
    pub fn replace_from_bitfield(&mut self, bits: &Vec<bool>, count: usize)
        ensures
            final(self).have@ == Self::fitted(bits@, count as nat),
    {
        let mut have: Vec<bool> = Vec::new();
        let mut piece: usize = 0;
        while piece < count
            invariant
                piece <= count,
                have@ == Self::fitted(bits@, piece as nat),
            decreases count - piece,
        {
            let there: bool = piece < bits.len() && bits[piece];
            have.push(there);
            assert(have@ =~= Self::fitted(bits@, piece as nat + 1));
            piece = piece + 1;
        }
        self.have = have;
    }
}

/// All pieces are there exactly when their number is the number of pieces, and there are any.
pub proof fn complete_means_every_piece(have: Seq<bool>)
    ensures
        count_have(have, have.len()) <= have.len(),
        (forall|piece: int| 0 <= piece < have.len() ==> #[trigger] have[piece]) == (count_have(
            have,
            have.len(),
        ) == have.len()),
{
    lemma_count_have(have, have.len());
}

proof fn lemma_count_have(have: Seq<bool>, pieces: nat)
    requires
        pieces <= have.len(),
    ensures
        count_have(have, pieces) <= pieces,
        (forall|piece: int| 0 <= piece < pieces ==> #[trigger] have[piece]) == (count_have(
            have,
            pieces,
        ) == pieces),
    decreases pieces,
{
    if pieces > 0 {
        let last = (pieces - 1) as nat;
        lemma_count_have(have, last);
        if count_have(have, pieces) == pieces {
            assert forall|piece: int| 0 <= piece < pieces implies #[trigger] have[piece] by {
                if piece < last {
                }
            }
        } else {
            if have[last as int] {
                let gap = choose|piece: int| 0 <= piece < last && !#[trigger] have[piece];
                assert(!have[gap]);
            }
        }
    }
}

impl Torrent {
    /// The torrent's identity: that of its magnet link while its metadata is missing, else that of
    /// its metadata.
    pub open spec fn hash(self) -> InfoHash {
        self.magnet_info_hash.unwrap_or(self.meta.info_hash)
    }

    /// The torrent's identity.
    pub fn info_hash(&self) -> (hash: InfoHash)
        ensures
            hash == self.hash(),
    {
        match self.magnet_info_hash {
            Some(hash) => hash,
            None => self.meta.info_hash,
        }
    }

    /// How many of the torrent's pieces are there.
    pub fn pieces_have(&self) -> (count: usize)
        ensures
            count == count_have(self.progress.have@, self.progress.have@.len()),
    {
        count_pieces(&self.progress.have, self.progress.have.len())
    }
}

/// A torrent goes by the hash of its magnet link while it has one, and by that of its metadata
/// otherwise.
pub proof fn torrents_go_by_one_hash(torrent: Torrent)
    ensures
        torrent.magnet_info_hash matches Some(own) ==> torrent.hash() == own,
        torrent.magnet_info_hash.is_none() ==> torrent.hash() == torrent.meta.info_hash,
{
}

/// The pieces that are there are counted one by one.
pub proof fn pieces_are_counted(have: Seq<bool>, pieces: nat)
    ensures
        count_have(have, 0) == 0,
        count_have(have, pieces + 1) == count_have(have, pieces) + (if pieces < have.len()
            && have[pieces as int] {
            1nat
        } else {
            0nat
        }),
        count_have(have, pieces) <= pieces,
    decreases pieces,
{
    if pieces > 0 {
        pieces_are_counted(have, (pieces - 1) as nat);
    }
}

/// Which states mean that a torrent downloads, is at work, or is held up by something wrong.
pub proof fn states_mean_what_they_say(state: TorrentState)
    ensures
        state.downloads() == (state == TorrentState::Downloading || state
            == TorrentState::DownloadingMetadata),
        state.active() == (state == TorrentState::Downloading || state
            == TorrentState::DownloadingMetadata || state == TorrentState::Seeding),
        state.in_error() == (state == TorrentState::Error || state == TorrentState::NetworkBlocked
            || state == TorrentState::StorageError || state == TorrentState::TrackerError),
{
}

} // verus!
