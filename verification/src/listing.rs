//! Torrents as they are listed.
use crate::config::AutopilotMode;
use crate::copies::copied_texts;
use crate::fleet::Fleet;
use crate::hash::InfoHash;
use crate::index::HashIndex;
use crate::queue::QueueState;
use crate::stats::bytes_completed;
use crate::torrent::{SeedingPolicy, SeedingStatus, Torrent, TorrentFile, TorrentState};
use vstd::prelude::*;

verus! {

/// The seeding targets in force for a torrent: its own, or those that all torrents share.
#[derive(Clone, Copy, PartialEq, Eq, Structural, Debug)]
pub struct EffectiveLimits {
    /// The bits of a double.
    pub ratio_limit: Option<u64>,
    pub idle_limit: Option<u64>,
}

/// The targets in force for a torrent; none where none are given.
pub open spec fn limits_of(
    limits: Map<InfoHash, EffectiveLimits>,
    hash: InfoHash,
) -> EffectiveLimits {
    if limits.dom().contains(hash) {
        limits[hash]
    } else {
        EffectiveLimits { ratio_limit: None, idle_limit: None }
    }
}

/// A torrent as it is listed.
#[derive(Debug)]
pub struct TorrentSummary {
    pub info_hash: InfoHash,
    pub name: String,
    pub state: TorrentState,
    pub seeding_status: SeedingStatus,
    pub total_length: u64,
    pub bytes_completed: u64,
    pub downloaded: u64,
    pub uploaded: u64,
    pub rate_down: u64,
    pub rate_up: u64,
    pub piece_count: usize,
    pub pieces_have: usize,
    pub active_peer_workers: usize,
    pub known_peers: usize,
    pub seeding: SeedingPolicy,
    pub autopilot_mode_override: Option<AutopilotMode>,
    pub labels: Vec<String>,
    pub error: Option<String>,
    /// The place in the queue, from one.
    pub queue_position: Option<usize>,
    pub effective_ratio_limit: Option<u64>,
    pub effective_idle_limit: Option<u64>,
}

/// What is listed is what is known of the torrent, its place in the queue and the targets in force
/// for it.
pub open spec fn summarizes(
    summary: TorrentSummary,
    torrent: Torrent,
    order: Seq<InfoHash>,
    limits: EffectiveLimits,
) -> bool {
    &&& summary == (TorrentSummary {
        info_hash: torrent.hash(),
        name: torrent.meta.name,
        state: torrent.state,
        seeding_status: torrent.seeding_status,
        total_length: torrent.meta.total_length,
        bytes_completed: crate::stats::bytes_there(
            torrent.meta,
            torrent.progress.have@,
            torrent.progress.have@.len(),
        ) as u64,
        downloaded: torrent.downloaded,
        uploaded: torrent.uploaded,
        rate_down: torrent.rate_down,
        rate_up: torrent.rate_up,
        piece_count: torrent.meta.piece_count,
        pieces_have: summary.pieces_have,
        active_peer_workers: torrent.active_peer_workers,
        known_peers: torrent.known_peers,
        seeding: torrent.seeding,
        autopilot_mode_override: torrent.autopilot_mode_override,
        labels: summary.labels,
        error: summary.error,
        queue_position: match crate::queue::place_of(order, torrent.hash()) {
            Some(at) => Some((at + 1) as usize),
            None => None,
        },
        effective_ratio_limit: limits.ratio_limit,
        effective_idle_limit: limits.idle_limit,
    })
    &&& summary.pieces_have == crate::torrent::count_have(
        torrent.progress.have@,
        torrent.progress.have@.len(),
    )
    &&& summary.labels@ == torrent.labels@
    &&& crate::config::text_of(summary.error) == match torrent.error {
        Some(notice) => Some(crate::torrent::notice_text(notice)),
        None => None,
    }
}

fn to_summary(torrent: &Torrent, queue: &QueueState, limits: EffectiveLimits) -> (summary:
    TorrentSummary)
    requires
        queue@.wf(),
    ensures
        summarizes(summary, *torrent, queue@.order, limits),
{
    let info_hash: InfoHash = torrent.info_hash();
    TorrentSummary {
        info_hash,
        name: torrent.meta.name.clone(),
        state: torrent.state,
        seeding_status: torrent.seeding_status,
        total_length: torrent.meta.total_length,
        bytes_completed: bytes_completed(torrent),
        downloaded: torrent.downloaded,
        uploaded: torrent.uploaded,
        rate_down: torrent.rate_down,
        rate_up: torrent.rate_up,
        piece_count: torrent.meta.piece_count,
        pieces_have: torrent.pieces_have(),
        active_peer_workers: torrent.active_peer_workers,
        known_peers: torrent.known_peers,
        seeding: torrent.seeding,
        autopilot_mode_override: torrent.autopilot_mode_override,
        labels: copied_texts(&torrent.labels),
        error: match &torrent.error {
            Some(notice) => Some(notice.text()),
            None => None,
        },
        queue_position: queue.position(&info_hash),
        effective_ratio_limit: limits.ratio_limit,
        effective_idle_limit: limits.idle_limit,
    }
}

impl Fleet {
    /// All torrents, in the order of their identities.
    pub fn list_torrents(&self, limits: &HashIndex<EffectiveLimits>) -> (summaries: Vec<
        TorrentSummary,
    >)
        requires
            self.wf(),
            limits.wf(),
        ensures
            summaries@.len() == self.registry.seq().len(),
            forall|k: int|
                0 <= k < summaries@.len() ==> summarizes(
                    #[trigger] summaries@[k],
                    self.registry.seq()[k].1,
                    self@.queue.order,
                    limits_of(limits@, self.registry.seq()[k].0),
                ),
    {
        let mut summaries: Vec<TorrentSummary> = Vec::new();
        let mut i: usize = 0;
        while i < self.registry.len()
            invariant
                self.wf(),
                limits.wf(),
                i <= self.registry.seq().len(),
                summaries@.len() == i,
                forall|k: int|
                    0 <= k < i ==> summarizes(
                        #[trigger] summaries@[k],
                        self.registry.seq()[k].1,
                        self@.queue.order,
                        limits_of(limits@, self.registry.seq()[k].0),
                    ),
            decreases self.registry.seq().len() - i,
        {
            let shown: EffectiveLimits = match limits.get(&self.registry.key_at(i)) {
                Some(shown) => *shown,
                None => EffectiveLimits { ratio_limit: None, idle_limit: None },
            };
            summaries.push(to_summary(self.registry.value_at(i), &self.queue, shown));
            i = i + 1;
        }
        summaries
    }

    /// A torrent, if it is known.
    pub fn get_torrent(&self, hash: &InfoHash, limits: EffectiveLimits) -> (summary: Option<
        TorrentSummary,
    >)
        requires
            self.wf(),
        ensures
            summary.is_some() == self@.registry.dom().contains(*hash),
            summary matches Some(summary) ==> summarizes(
                summary,
                self@.registry[*hash],
                self@.queue.order,
                limits,
            ),
    {
        match self.registry.get(hash) {
            Some(torrent) => Some(to_summary(torrent, &self.queue, limits)),
            None => None,
        }
    }

    /// The files of a torrent, if it is known.
    pub fn list_files(&self, hash: &InfoHash) -> (files: Option<Vec<TorrentFile>>)
        requires
            self.wf(),
        ensures
            files.is_some() == self@.registry.dom().contains(*hash),
            files matches Some(files) ==> files@ == self@.registry[*hash].files@,
    {
        match self.registry.get(hash) {
            Some(torrent) => Some(crate::copies::copied_files(&torrent.files)),
            None => None,
        }
    }
}

/// A summary shows the torrent's own: its name, state, amounts, rates and labels, its place in the
/// queue counted from one, and an error exactly where it has one.
pub proof fn summaries_show_the_torrent(
    summary: TorrentSummary,
    torrent: Torrent,
    order: Seq<InfoHash>,
    limits: EffectiveLimits,
)
    requires
        summarizes(summary, torrent, order, limits),
        order.len() < usize::MAX,
    ensures
        summary.state == torrent.state && summary.seeding_status == torrent.seeding_status,
        summary.name == torrent.meta.name && summary.total_length == torrent.meta.total_length,
        summary.downloaded == torrent.downloaded && summary.uploaded == torrent.uploaded,
        summary.rate_down == torrent.rate_down && summary.rate_up == torrent.rate_up,
        summary.piece_count == torrent.meta.piece_count,
        summary.labels@ == torrent.labels@,
        summary.error.is_some() == torrent.error.is_some(),
        summary.pieces_have == crate::torrent::count_have(
            torrent.progress.have@,
            torrent.progress.have@.len(),
        ),
        summary.queue_position.is_some() == order.contains(summary.info_hash),
        summary.queue_position matches Some(position) ==> 1 <= position <= order.len()
            && order[position - 1] == summary.info_hash,
        summary.effective_ratio_limit == limits.ratio_limit && summary.effective_idle_limit
            == limits.idle_limit,
        torrent.magnet_info_hash matches Some(own) ==> summary.info_hash == own,
        torrent.magnet_info_hash.is_none() ==> summary.info_hash == torrent.meta.info_hash,
{
}

/// A torrent is shown under the targets that are given for it, and under none where none are.
pub proof fn given_targets_are_shown(limits: Map<InfoHash, EffectiveLimits>, hash: InfoHash)
    ensures
        limits.dom().contains(hash) ==> limits_of(limits, hash) == limits[hash],
        !limits.dom().contains(hash) ==> limits_of(limits, hash).ratio_limit.is_none() && limits_of(
            limits,
            hash,
        ).idle_limit.is_none(),
{
}

} // verus!
