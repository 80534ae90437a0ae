//! What a transition asks the surrounding program to do.
use crate::hash::InfoHash;
use crate::network::NetworkContainmentStatus;
use crate::torrent::TorrentState;
use vstd::prelude::*;

verus! {

/// What happened to a torrent.
#[derive(Clone, Copy, PartialEq, Eq, Structural, Debug)]
pub enum TorrentEventKind {
    Added,
    Changed,
    Completed,
    Failed,
    RecheckFailed,
}

/// Something that observers are told.
#[derive(PartialEq, Eq, Debug)]
pub enum Event {
    Torrent { kind: TorrentEventKind, hash: InfoHash, state: TorrentState },
    TorrentRemoved { hash: InfoHash, delete_data: bool },
    MetadataReceived { hash: InfoHash },
    NetworkStatusChanged { status: NetworkContainmentStatus, traffic_allowed: bool, detail: String },
    SettingsChanged,
    StatsUpdated,
}

/// The name of an event.
pub open spec fn event_name(event: Event) -> Seq<char> {
    match event {
        Event::Torrent { kind: TorrentEventKind::Added, .. } => "torrent_added"@,
        Event::Torrent { kind: TorrentEventKind::Changed, .. } => "torrent_changed"@,
        Event::Torrent { kind: TorrentEventKind::Completed, .. } => "torrent_completed"@,
        Event::Torrent { kind: TorrentEventKind::Failed, .. } => "torrent_error"@,
        Event::Torrent { kind: TorrentEventKind::RecheckFailed, .. } => "recheck_failed"@,
        Event::TorrentRemoved { .. } => "torrent_removed"@,
        Event::MetadataReceived { .. } => "torrent_metadata_received"@,
        Event::NetworkStatusChanged { .. } => "network_status_changed"@,
        Event::SettingsChanged => "settings_changed"@,
        Event::StatsUpdated => "stats_updated"@,
    }
}

/// The torrent that an event is about.
pub open spec fn event_hash(event: Event) -> Option<InfoHash> {
    match event {
        Event::Torrent { hash, .. } => Some(hash),
        Event::TorrentRemoved { hash, .. } => Some(hash),
        Event::MetadataReceived { hash } => Some(hash),
        _ => None,
    }
}

impl Event {
    /// The name of the event.
    pub fn name(&self) -> (name: &'static str)
        ensures
            name@ == event_name(*self),
    {
        match self {
            Event::Torrent { kind: TorrentEventKind::Added, .. } => "torrent_added",
            Event::Torrent { kind: TorrentEventKind::Changed, .. } => "torrent_changed",
            Event::Torrent { kind: TorrentEventKind::Completed, .. } => "torrent_completed",
            Event::Torrent { kind: TorrentEventKind::Failed, .. } => "torrent_error",
            Event::Torrent { kind: TorrentEventKind::RecheckFailed, .. } => "recheck_failed",
            Event::TorrentRemoved { .. } => "torrent_removed",
            Event::MetadataReceived { .. } => "torrent_metadata_received",
            Event::NetworkStatusChanged { .. } => "network_status_changed",
            Event::SettingsChanged => "settings_changed",
            Event::StatsUpdated => "stats_updated",
        }
    }

    /// The torrent that the event is about.
    pub fn info_hash(&self) -> (hash: Option<InfoHash>)
        ensures
            hash == event_hash(*self),
    {
        match self {
            Event::Torrent { hash, .. } => Some(*hash),
            Event::TorrentRemoved { hash, .. } => Some(*hash),
            Event::MetadataReceived { hash } => Some(*hash),
            _ => None,
        }
    }
}

/// Something that the surrounding program does, in the order in which it is asked to.
#[derive(PartialEq, Eq, Debug)]
pub enum Effect {
    /// Close the containment gate that all torrent traffic passes.
    CloseGate { status: NetworkContainmentStatus, detail: String },
    /// Open the containment gate that all torrent traffic passes.
    OpenGate,
    /// End an engine task; by force, without waiting for it to end by itself.
    StopEngine { hash: InfoHash, force: bool },
    /// End a torrent's uploading and its announcing.
    StopSeeder { hash: InfoHash, force: bool },
    /// End the listener that all uploading torrents share.
    StopListener { force: bool },
    /// Drop the hash-table node.
    StopDht,
    /// Try to start a torrent's engine.
    StartEngine { hash: InfoHash },
    /// Run an engine task that was admitted.
    RunEngine { hash: InfoHash },
    /// Try to start uploading a torrent.
    StartSeeder { hash: InfoHash },
    /// Let the limiter for all torrents together follow its rates.
    LimitRates { download: u64, upload: u64 },
    /// Tell running engines their limit on peer workers.
    LimitPeerWorkers { limit: usize },
    /// Ask for a look at the queue after a delay in seconds; requests that come close together
    /// are served by one look.
    ReconcileQueue { delay: u64 },
    /// Reconcile the queue at once, before anything else is done.
    ReconcileQueueNow,
    /// Decide anew which torrents upload.
    ReconcileSeeders,
    /// Remove finished torrents and keep their data, where that is wanted.
    SweepCompleted,
    /// Remove a finished torrent and keep its data.
    RemoveCompleted { hash: InfoHash },
    /// Write the state out; a failure is logged and nothing else.
    Persist,
    /// Tell observers.
    Publish(Event),
}

/// That a torrent changed, as observers are told.
pub open spec fn torrent_effect(
    kind: TorrentEventKind,
    hash: InfoHash,
    state: TorrentState,
) -> Effect {
    Effect::Publish(Event::Torrent { kind, hash, state })
}

/// That the statistics changed, as observers are told.
pub open spec fn stats_effect() -> Effect {
    Effect::Publish(Event::StatsUpdated)
}

} // verus!
