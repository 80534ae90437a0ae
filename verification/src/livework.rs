//! What works at a moment, so that it can be taken down and set up again.
use crate::error::{CoreError, ErrorKind, ErrorView};
use crate::fleet::{EngineTask, Fleet, FleetView, SeederTask};
use crate::hash::InfoHash;
use crate::network::NetworkHealth;
use crate::queue::contains_hash;
use crate::text::owned;
use crate::torrent::{ContainmentRecoveryIntent, Notice, SeedingStatus, Torrent, TorrentState};
use vstd::prelude::*;
use vstd::string::*;

verus! {

/// Where a torrent stood.
#[derive(Debug)]
pub struct LiveTorrentTaskSnapshot {
    pub hash: InfoHash,
    pub state: TorrentState,
    pub seeding_status: SeedingStatus,
    pub error: Option<Notice>,
    pub containment_recovery_intent: Option<ContainmentRecoveryIntent>,
}

/// What worked: the torrents that downloaded and those that uploaded.
#[derive(Debug)]
pub struct LivePeerWorkSnapshot {
    pub downloads: Vec<LiveTorrentTaskSnapshot>,
    pub seeders: Vec<LiveTorrentTaskSnapshot>,
}

/// Where a torrent stands.
pub open spec fn captured(hash: InfoHash, torrent: Torrent) -> LiveTorrentTaskSnapshot {
    LiveTorrentTaskSnapshot {
        hash,
        state: torrent.state,
        seeding_status: torrent.seeding_status,
        error: torrent.error,
        containment_recovery_intent: torrent.containment_recovery_intent,
    }
}

/// A torrent put back to where it stood.
pub open spec fn relived(torrent: Torrent, prior: LiveTorrentTaskSnapshot) -> Torrent {
    Torrent {
        state: prior.state,
        seeding_status: prior.seeding_status,
        error: prior.error,
        containment_recovery_intent: prior.containment_recovery_intent,
        ..torrent
    }
}

/// The registry with the first torrents put back to where they stood, those that are known.
pub open spec fn all_relived(
    registry: Map<InfoHash, Torrent>,
    priors: Seq<LiveTorrentTaskSnapshot>,
    count: nat,
) -> Map<InfoHash, Torrent>
    decreases count,
{
    if count == 0 {
        registry
    } else {
        let before = all_relived(registry, priors, (count - 1) as nat);
        let prior = priors[count - 1];
        crate::fleet::rewritten(before, prior.hash, relived(before[prior.hash], prior))
    }
}

/// Whether a task that has not ended works on a known torrent.
pub open spec fn runs_for(registry: Map<InfoHash, Torrent>) -> spec_fn(
    (InfoHash, EngineTask),
) -> bool {
    |entry: (InfoHash, EngineTask)| !entry.1.finished && registry.dom().contains(entry.0)
}

/// Whether a known torrent uploads.
pub open spec fn uploads_for(registry: Map<InfoHash, Torrent>) -> spec_fn(
    (InfoHash, SeederTask),
) -> bool {
    |entry: (InfoHash, SeederTask)| registry.dom().contains(entry.0)
}

/// Where each of the torrents stands that downloads.
pub open spec fn running_downloads(
    engines: Seq<(InfoHash, EngineTask)>,
    registry: Map<InfoHash, Torrent>,
) -> Seq<LiveTorrentTaskSnapshot> {
    engines.filter(runs_for(registry)).map_values(
        |entry: (InfoHash, EngineTask)| captured(entry.0, registry[entry.0]),
    )
}

/// Where each of the torrents stands that uploads.
pub open spec fn running_uploads(
    seeders: Seq<(InfoHash, SeederTask)>,
    registry: Map<InfoHash, Torrent>,
) -> Seq<LiveTorrentTaskSnapshot> {
    seeders.filter(uploads_for(registry)).map_values(
        |entry: (InfoHash, SeederTask)| captured(entry.0, registry[entry.0]),
    )
}

/// Where each torrent stands.
pub open spec fn standings_of(registry: Seq<(InfoHash, Torrent)>) -> Seq<LiveTorrentTaskSnapshot> {
    registry.map_values(|entry: (InfoHash, Torrent)| captured(entry.0, entry.1))
}

impl LiveTorrentTaskSnapshot {
    /// Where a torrent stands.
    pub fn from_torrent(hash: InfoHash, torrent: &Torrent) -> (snapshot: LiveTorrentTaskSnapshot)
        ensures
            snapshot == captured(hash, *torrent),
    {
        LiveTorrentTaskSnapshot {
            hash,
            state: torrent.state,
            seeding_status: torrent.seeding_status,
            error: match &torrent.error {
                Some(notice) => Some(notice.clone()),
                None => None,
            },
            containment_recovery_intent: torrent.containment_recovery_intent,
        }
    }
}

impl LivePeerWorkSnapshot {
    /// Whether nothing worked.
    pub fn is_empty(&self) -> (empty: bool)
        ensures
            empty == (self.downloads@.len() == 0 && self.seeders@.len() == 0),
    {
        self.downloads.len() == 0 && self.seeders.len() == 0
    }
}

impl Fleet {
    /// What works now.
    pub fn live_peer_work_snapshot(&self) -> (live: LivePeerWorkSnapshot)
        requires
            self.wf(),
        ensures
            live.downloads@ == running_downloads(self.engines.seq(), self@.registry),
            live.seeders@ == running_uploads(self.seeders.seq(), self@.registry),
    {
        let mut downloads: Vec<LiveTorrentTaskSnapshot> = Vec::new();
        let ghost engines = self.engines.seq();
        let ghost registry = self@.registry;
        let ghost show = |entry: (InfoHash, EngineTask)| captured(entry.0, registry[entry.0]);
        let mut i: usize = 0;
        assert(engines.take(0).filter(runs_for(registry)).map_values(show) =~= downloads@) by {
            reveal(Seq::filter);
        }
        while i < self.engines.len()
            invariant
                self.wf(),
                engines == self.engines.seq(),
                registry == self@.registry,
                i <= engines.len(),
                show == |entry: (InfoHash, EngineTask)| captured(entry.0, registry[entry.0]),
                downloads@ == engines.take(i as int).filter(runs_for(registry)).map_values(show),
            decreases engines.len() - i,
        {
            proof {
                reveal(Seq::filter);
                assert(engines.take(i + 1).drop_last() =~= engines.take(i as int));
            }
            let ghost before = engines.take(i as int).filter(runs_for(registry));
            let hash: InfoHash = self.engines.key_at(i);
            if !self.engines.value_at(i).finished {
                if let Some(torrent) = self.registry.get(&hash) {
                    downloads.push(LiveTorrentTaskSnapshot::from_torrent(hash, torrent));
                    assert(downloads@ =~= before.push(engines[i as int]).map_values(show));
                }
            }
            i = i + 1;
        }
        assert(engines.take(i as int) =~= engines);
        let seeders: Vec<LiveTorrentTaskSnapshot> = self.live_uploads();
        LivePeerWorkSnapshot { downloads, seeders }
    }

    fn live_uploads(&self) -> (live: Vec<LiveTorrentTaskSnapshot>)
        requires
            self.wf(),
        ensures
            live@ == running_uploads(self.seeders.seq(), self@.registry),
    {
        let mut live: Vec<LiveTorrentTaskSnapshot> = Vec::new();
        let ghost seeders = self.seeders.seq();
        let ghost registry = self@.registry;
        let ghost show = |entry: (InfoHash, SeederTask)| captured(entry.0, registry[entry.0]);
        let mut i: usize = 0;
        assert(seeders.take(0).filter(uploads_for(registry)).map_values(show) =~= live@) by {
            reveal(Seq::filter);
        }
        while i < self.seeders.len()
            invariant
                self.wf(),
                seeders == self.seeders.seq(),
                registry == self@.registry,
                i <= seeders.len(),
                show == |entry: (InfoHash, SeederTask)| captured(entry.0, registry[entry.0]),
                live@ == seeders.take(i as int).filter(uploads_for(registry)).map_values(show),
            decreases seeders.len() - i,
        {
            proof {
                reveal(Seq::filter);
                assert(seeders.take(i + 1).drop_last() =~= seeders.take(i as int));
            }
            let ghost before = seeders.take(i as int).filter(uploads_for(registry));
            let hash: InfoHash = self.seeders.key_at(i);
            if let Some(torrent) = self.registry.get(&hash) {
                live.push(LiveTorrentTaskSnapshot::from_torrent(hash, torrent));
                assert(live@ =~= before.push(seeders[i as int]).map_values(show));
            }
            i = i + 1;
        }
        assert(seeders.take(i as int) =~= seeders);
        live
    }

    /// Where each torrent stands now.
    pub fn torrent_lifecycle_snapshot(&self) -> (standings: Vec<LiveTorrentTaskSnapshot>)
        requires
            self.wf(),
        ensures
            standings@ == standings_of(self.registry.seq()),
    {
        let mut standings: Vec<LiveTorrentTaskSnapshot> = Vec::new();
        let mut i: usize = 0;
        while i < self.registry.len()
            invariant
                self.wf(),
                i <= self.registry.seq().len(),
                standings@ == standings_of(self.registry.seq().take(i as int)),
            decreases self.registry.seq().len() - i,
        {
            let hash: InfoHash = self.registry.key_at(i);
            standings.push(LiveTorrentTaskSnapshot::from_torrent(hash, self.registry.value_at(i)));
            i = i + 1;
            assert(standings@ =~= standings_of(self.registry.seq().take(i as int)));
        }
        assert(self.registry.seq().take(i as int) =~= self.registry.seq());
        standings
    }

    /// Puts a torrent back to where it stood, if it is known.
    fn relive(&mut self, prior: &LiveTorrentTaskSnapshot) -> (known: bool)
        requires
            old(self).wf(),
        ensures
            final(self).wf(),
            known == old(self)@.registry.dom().contains(prior.hash),
            final(self)@ == (FleetView {
                registry: crate::fleet::rewritten(
                    old(self)@.registry,
                    prior.hash,
                    relived(old(self)@.registry[prior.hash], *prior),
                ),
                ..old(self)@
            }),
    {
        match self.registry.find(&prior.hash) {
            Some(position) => {
                let torrent: &mut Torrent = self.registry.value_at_mut(position);
                torrent.state = prior.state;
                torrent.seeding_status = prior.seeding_status;
                torrent.error = match &prior.error {
                    Some(notice) => Some(notice.clone()),
                    None => None,
                };
                torrent.containment_recovery_intent = prior.containment_recovery_intent;
                true
            },
            None => false,
        }
    }

    /// Puts torrents back to where they stood, those that are known.
    pub fn restore_torrent_lifecycle_snapshot(&mut self, priors: &Vec<LiveTorrentTaskSnapshot>)
        requires
            old(self).wf(),
        ensures
            final(self).wf(),
            final(self)@ == (FleetView {
                registry: all_relived(old(self)@.registry, priors@, priors@.len()),
                ..old(self)@
            }),
    {
        let mut i: usize = 0;
        while i < priors.len()
            invariant
                i <= priors@.len(),
                self.wf(),
                self@ == (FleetView {
                    registry: all_relived(old(self)@.registry, priors@, i as nat),
                    ..old(self)@
                }),
            decreases priors@.len() - i,
        {
            self.relive(&priors[i]);
            i = i + 1;
        }
    }
}

/// Putting a list of torrents back changes no torrent but those of the list, and forgets none.
pub proof fn reliving_touches_only_the_listed(
    registry: Map<InfoHash, Torrent>,
    priors: Seq<LiveTorrentTaskSnapshot>,
    count: nat,
    hash: InfoHash,
)
    requires
        count <= priors.len(),
    ensures
        all_relived(registry, priors, count).dom() == registry.dom(),
        (forall|k: int| 0 <= k < count ==> (#[trigger] priors[k]).hash != hash) ==> all_relived(
            registry,
            priors,
            count,
        )[hash] == registry[hash],
    decreases count,
{
    if count > 0 {
        reliving_touches_only_the_listed(registry, priors, (count - 1) as nat, hash);
        let before = all_relived(registry, priors, (count - 1) as nat);
        let prior = priors[count - 1];
        assert(all_relived(registry, priors, count).dom() =~= before.dom());
    }
}

/// What is put back from a snapshot of all torrents stands where it stood, whatever happened to it
/// in between.
pub proof fn reliving_restores(
    then: Seq<(InfoHash, Torrent)>,
    now: Map<InfoHash, Torrent>,
    hash: InfoHash,
)
    requires
        crate::index::keys_increase(then),
        crate::index::entry_map(then).dom().contains(hash),
        now.dom().contains(hash),
    ensures
        captured(hash, all_relived(now, standings_of(then), then.len())[hash]) == captured(
            hash,
            crate::index::entry_map(then)[hash],
        ),
{
    let priors = standings_of(then);
    let at = crate::index::position_of(then, hash);
    assert(then[at].0 == hash);
    lemma_relived_at(now, priors, at, then.len());
    reliving_touches_only_the_listed(now, priors, at as nat, hash);
}

proof fn lemma_relived_at(
    now: Map<InfoHash, Torrent>,
    priors: Seq<LiveTorrentTaskSnapshot>,
    at: int,
    count: nat,
)
    requires
        0 <= at < count <= priors.len(),
        now.dom().contains(priors[at].hash),
        forall|k: int| at < k < priors.len() ==> (#[trigger] priors[k]).hash != priors[at].hash,
    ensures
        captured(priors[at].hash, all_relived(now, priors, count)[priors[at].hash]) == priors[at],
    decreases count,
{
    let hash = priors[at].hash;
    reliving_touches_only_the_listed(now, priors, (count - 1) as nat, hash);
    if at < count - 1 {
        lemma_relived_at(now, priors, at, (count - 1) as nat);
        assert(priors[count - 1].hash != hash);
    }
}

/// A torrent that downloaded when the path was lost.
pub open spec fn download_cut(torrent: Torrent, state: TorrentState, detail: String) -> Torrent {
    Torrent {
        containment_recovery_intent: Some(
            crate::engine::download_intent(state == TorrentState::DownloadingMetadata),
        ),
        state: TorrentState::NetworkBlocked,
        error: Some(Notice::Text(detail)),
        ..torrent
    }
}

/// A torrent that uploaded when the path was lost.
pub open spec fn upload_cut(torrent: Torrent, detail: String) -> Torrent {
    Torrent {
        containment_recovery_intent: Some(ContainmentRecoveryIntent::Seeding),
        state: TorrentState::NetworkBlocked,
        error: Some(Notice::Text(detail)),
        ..torrent
    }
}

/// The registry with the first torrents blocked that downloaded.
pub open spec fn downloads_cut(
    registry: Map<InfoHash, Torrent>,
    priors: Seq<LiveTorrentTaskSnapshot>,
    detail: String,
    count: nat,
) -> Map<InfoHash, Torrent>
    decreases count,
{
    if count == 0 {
        registry
    } else {
        let before = downloads_cut(registry, priors, detail, (count - 1) as nat);
        let prior = priors[count - 1];
        crate::fleet::rewritten(
            before,
            prior.hash,
            download_cut(before[prior.hash], prior.state, detail),
        )
    }
}

/// The registry with the first torrents blocked that uploaded.
pub open spec fn uploads_cut(
    registry: Map<InfoHash, Torrent>,
    priors: Seq<LiveTorrentTaskSnapshot>,
    detail: String,
    count: nat,
) -> Map<InfoHash, Torrent>
    decreases count,
{
    if count == 0 {
        registry
    } else {
        let before = uploads_cut(registry, priors, detail, (count - 1) as nat);
        let prior = priors[count - 1];
        crate::fleet::rewritten(before, prior.hash, upload_cut(before[prior.hash], detail))
    }
}

/// The registry with all torrents blocked that worked.
pub open spec fn work_cut(
    registry: Map<InfoHash, Torrent>,
    live: LivePeerWorkSnapshot,
    detail: String,
) -> Map<InfoHash, Torrent> {
    uploads_cut(
        downloads_cut(registry, live.downloads@, detail, live.downloads@.len()),
        live.seeders@,
        detail,
        live.seeders@.len(),
    )
}

/// Work cannot be set up again while the path is lost.
pub open spec fn still_blocked(detail: Seq<char>) -> ErrorView {
    ErrorView {
        kind: ErrorKind::Internal,
        message: "cannot reconstruct peer work while containment is blocked: "@ + detail,
    }
}

/// A torrent that worked is gone.
pub open spec fn torrent_gone(prefix: Seq<char>, hash: InfoHash) -> ErrorView {
    ErrorView { kind: ErrorKind::Internal, message: prefix + crate::hash::hex(hash) }
}

fn gone(prefix: &str, hash: InfoHash) -> (error: CoreError)
    ensures
        error@ == torrent_gone(prefix@, hash),
{
    let mut message: String = owned(prefix);
    message.append(hash.to_hex().as_str());
    CoreError::Internal(message)
}

/// Whether there is work to set up again.
pub fn check_reconstruction(live: &LivePeerWorkSnapshot, health: &NetworkHealth) -> (outcome: Result<
    bool,
    CoreError,
>)
    ensures
        ({
            let nothing = live.downloads@.len() == 0 && live.seeders@.len() == 0;
            &&& nothing ==> outcome == Ok::<bool, CoreError>(false)
            &&& !nothing && health.permits() ==> outcome == Ok::<bool, CoreError>(true)
            &&& !nothing && !health.permits() ==> (outcome matches Err(error) && error@
                == still_blocked(health.detail@))
        }),
{
    if live.is_empty() {
        return Ok(false);
    }
    if !health.permits_traffic() {
        let mut message: String = owned(
            "cannot reconstruct peer work while containment is blocked: ",
        );
        message.append(health.detail.as_str());
        return Err(CoreError::Internal(message));
    }
    Ok(true)
}

/// A torrent that is about to download again.
pub open spec fn download_again(torrent: Torrent, state: TorrentState) -> Torrent {
    Torrent {
        state: if state == TorrentState::DownloadingMetadata {
            TorrentState::DownloadingMetadata
        } else {
            TorrentState::Downloading
        },
        error: None,
        containment_recovery_intent: None,
        ..torrent
    }
}

/// A torrent that is about to upload again.
pub open spec fn upload_again(torrent: Torrent) -> Torrent {
    Torrent {
        state: TorrentState::Completed,
        seeding_status: SeedingStatus::Queued,
        error: None,
        containment_recovery_intent: None,
        ..torrent
    }
}

impl Fleet {
    /// Blocks the torrents that worked, and notes what they did.
    pub fn cut_live_work(&mut self, live: &LivePeerWorkSnapshot, detail: &String)
        requires
            old(self).wf(),
        ensures
            final(self).wf(),
            final(self)@ == (FleetView {
                registry: work_cut(old(self)@.registry, *live, *detail),
                ..old(self)@
            }),
    {
        let mut i: usize = 0;
        while i < live.downloads.len()
            invariant
                i <= live.downloads@.len(),
                self.wf(),
                self@ == (FleetView {
                    registry: downloads_cut(
                        old(self)@.registry,
                        live.downloads@,
                        *detail,
                        i as nat,
                    ),
                    ..old(self)@
                }),
            decreases live.downloads@.len() - i,
        {
            let prior: &LiveTorrentTaskSnapshot = &live.downloads[i];
            match self.registry.find(&prior.hash) {
                Some(position) => {
                    let intent: ContainmentRecoveryIntent = match prior.state {
                        TorrentState::DownloadingMetadata => {
                            ContainmentRecoveryIntent::DownloadingMetadata
                        },
                        _ => ContainmentRecoveryIntent::Downloading,
                    };
                    let torrent: &mut Torrent = self.registry.value_at_mut(position);
                    torrent.containment_recovery_intent = Some(intent);
                    torrent.state = TorrentState::NetworkBlocked;
                    torrent.error = Some(Notice::Text(detail.clone()));
                },
                None => {},
            }
            i = i + 1;
        }
        let ghost cut = self@.registry;
        let mut k: usize = 0;
        while k < live.seeders.len()
            invariant
                k <= live.seeders@.len(),
                self.wf(),
                self@ == (FleetView {
                    registry: uploads_cut(cut, live.seeders@, *detail, k as nat),
                    ..old(self)@
                }),
            decreases live.seeders@.len() - k,
        {
            let prior: &LiveTorrentTaskSnapshot = &live.seeders[k];
            match self.registry.find(&prior.hash) {
                Some(position) => {
                    let torrent: &mut Torrent = self.registry.value_at_mut(position);
                    torrent.containment_recovery_intent = Some(ContainmentRecoveryIntent::Seeding);
                    torrent.state = TorrentState::NetworkBlocked;
                    torrent.error = Some(Notice::Text(detail.clone()));
                },
                None => {},
            }
            k = k + 1;
        }
    }

    /// Makes a torrent ready whose download is set up again. Its place in the queue stays.
    pub fn prepare_download_again(&mut self, prior: &LiveTorrentTaskSnapshot) -> (outcome: Result<
        (),
        CoreError,
    >)
        requires
            old(self).wf(),
        ensures
            final(self).wf(),
            outcome.is_ok() == old(self)@.registry.dom().contains(prior.hash),
            outcome.is_ok() ==> final(self)@ == old(self)@.with(
                prior.hash,
                download_again(old(self)@.registry[prior.hash], prior.state),
            ),
            outcome matches Err(error) ==> final(self)@ == old(self)@ && error@ == torrent_gone(
                "cannot reconstruct missing download torrent "@,
                prior.hash,
            ),
    {
        match self.registry.find(&prior.hash) {
            Some(position) => {
                let torrent: &mut Torrent = self.registry.value_at_mut(position);
                torrent.state = match prior.state {
                    TorrentState::DownloadingMetadata => TorrentState::DownloadingMetadata,
                    _ => TorrentState::Downloading,
                };
                torrent.error = None;
                torrent.containment_recovery_intent = None;
                Ok(())
            },
            None => Err(gone("cannot reconstruct missing download torrent ", prior.hash)),
        }
    }

    /// Makes a torrent ready whose uploading is set up again.
    pub fn prepare_upload_again(&mut self, prior: &LiveTorrentTaskSnapshot) -> (outcome: Result<
        (),
        CoreError,
    >)
        requires
            old(self).wf(),
        ensures
            final(self).wf(),
            outcome.is_ok() == old(self)@.registry.dom().contains(prior.hash),
            outcome.is_ok() ==> final(self)@ == old(self)@.with(
                prior.hash,
                upload_again(old(self)@.registry[prior.hash]),
            ),
            outcome matches Err(error) ==> final(self)@ == old(self)@ && error@ == torrent_gone(
                "cannot reconstruct missing seeding torrent "@,
                prior.hash,
            ),
    {
        match self.registry.find(&prior.hash) {
            Some(position) => {
                let torrent: &mut Torrent = self.registry.value_at_mut(position);
                torrent.state = TorrentState::Completed;
                torrent.seeding_status = SeedingStatus::Queued;
                torrent.error = None;
                torrent.containment_recovery_intent = None;
                Ok(())
            },
            None => Err(gone("cannot reconstruct missing seeding torrent ", prior.hash)),
        }
    }

    fn relive_all(&mut self, priors: &Vec<LiveTorrentTaskSnapshot>) -> (outcome: Result<
        (),
        CoreError,
    >)
        requires
            old(self).wf(),
        ensures
            final(self).wf(),
            outcome.is_ok() == first_gone(old(self)@.registry, priors@).is_none(),
            outcome.is_ok() ==> final(self)@ == (FleetView {
                registry: all_relived(old(self)@.registry, priors@, priors@.len()),
                ..old(self)@
            }),
            outcome matches Err(error) ==> {
                let at = first_gone(old(self)@.registry, priors@)->0;
                &&& error@ == torrent_gone(
                    "cannot restore lifecycle for missing torrent "@,
                    priors@[at as int].hash,
                )
                &&& final(self)@ == (FleetView {
                    registry: all_relived(old(self)@.registry, priors@, at),
                    ..old(self)@
                })
            },
    {
        let mut i: usize = 0;
        while i < priors.len()
            invariant
                i <= priors@.len(),
                self.wf(),
                forall|k: int|
                    0 <= k < i ==> old(self)@.registry.dom().contains((#[trigger] priors@[k]).hash),
                self@ == (FleetView {
                    registry: all_relived(old(self)@.registry, priors@, i as nat),
                    ..old(self)@
                }),
            decreases priors@.len() - i,
        {
            proof {
                reliving_touches_only_the_listed(
                    old(self)@.registry,
                    priors@,
                    i as nat,
                    priors@[i as int].hash,
                );
            }
            let ghost before = self@;
            if !self.relive(&priors[i]) {
                proof {
                    assert(self@.registry =~= before.registry);
                    lemma_first_gone(old(self)@.registry, priors@, i as nat);
                }
                return Err(
                    gone("cannot restore lifecycle for missing torrent ", priors[i].hash),
                );
            }
            i = i + 1;
        }
        proof {
            lemma_none_gone(old(self)@.registry, priors@);
        }
        Ok(())
    }
}

/// Where a list first names a torrent that is not known.
pub open spec fn first_gone(
    registry: Map<InfoHash, Torrent>,
    priors: Seq<LiveTorrentTaskSnapshot>,
) -> Option<nat>
    decreases priors.len(),
{
    if priors.len() == 0 {
        None
    } else if first_gone(registry, priors.drop_last()).is_some() {
        first_gone(registry, priors.drop_last())
    } else if !registry.dom().contains(priors.last().hash) {
        Some((priors.len() - 1) as nat)
    } else {
        None
    }
}

proof fn lemma_none_gone(registry: Map<InfoHash, Torrent>, priors: Seq<LiveTorrentTaskSnapshot>)
    requires
        forall|k: int|
            0 <= k < priors.len() ==> registry.dom().contains((#[trigger] priors[k]).hash),
    ensures
        first_gone(registry, priors).is_none(),
    decreases priors.len(),
{
    if priors.len() > 0 {
        assert forall|k: int| 0 <= k < priors.drop_last().len() implies registry.dom().contains(
            (#[trigger] priors.drop_last()[k]).hash,
        ) by {
            assert(registry.dom().contains(priors[k].hash));
        }
        lemma_none_gone(registry, priors.drop_last());
        assert(priors.last() == priors[priors.len() - 1]);
    }
}

proof fn lemma_first_gone(
    registry: Map<InfoHash, Torrent>,
    priors: Seq<LiveTorrentTaskSnapshot>,
    at: nat,
)
    requires
        at < priors.len(),
        !registry.dom().contains(priors[at as int].hash),
        forall|k: int| 0 <= k < at ==> registry.dom().contains((#[trigger] priors[k]).hash),
    ensures
        first_gone(registry, priors) == Some(at),
    decreases priors.len(),
{
    let front = priors.drop_last();
    if at < front.len() {
        assert forall|k: int| 0 <= k < at implies registry.dom().contains(
            (#[trigger] front[k]).hash,
        ) by {
            assert(registry.dom().contains(priors[k].hash));
        }
        lemma_first_gone(registry, front, at);
    } else {
        assert forall|k: int| 0 <= k < front.len() implies registry.dom().contains(
            (#[trigger] front[k]).hash,
        ) by {
            assert(registry.dom().contains(priors[k].hash));
        }
        lemma_none_gone(registry, front);
    }
}

impl Fleet {
    /// Puts the torrents that worked back to where they stood: those that downloaded, then those
    /// that uploaded. It ends at the first that is gone.
    pub fn restore_live_lifecycle(&mut self, live: &LivePeerWorkSnapshot) -> (outcome: Result<
        (),
        CoreError,
    >)
        requires
            old(self).wf(),
        ensures
            final(self).wf(),
            ({
                let registry = old(self)@.registry;
                let gone = first_gone(registry, live.downloads@);
                let between = all_relived(registry, live.downloads@, live.downloads@.len());
                let later = first_gone(between, live.seeders@);
                if gone.is_some() {
                    &&& outcome matches Err(error)
                    &&& error@ == torrent_gone(
                        "cannot restore lifecycle for missing torrent "@,
                        live.downloads@[gone->0 as int].hash,
                    )
                    &&& final(self)@ == (FleetView {
                        registry: all_relived(registry, live.downloads@, gone->0),
                        ..old(self)@
                    })
                } else if later.is_some() {
                    &&& outcome matches Err(error)
                    &&& error@ == torrent_gone(
                        "cannot restore lifecycle for missing torrent "@,
                        live.seeders@[later->0 as int].hash,
                    )
                    &&& final(self)@ == (FleetView {
                        registry: all_relived(between, live.seeders@, later->0),
                        ..old(self)@
                    })
                } else {
                    &&& outcome.is_ok()
                    &&& final(self)@ == (FleetView {
                        registry: all_relived(between, live.seeders@, live.seeders@.len()),
                        ..old(self)@
                    })
                }
            }),
    {
        match self.relive_all(&live.downloads) {
            Err(error) => {
                return Err(error);
            },
            Ok(_) => {},
        }
        self.relive_all(&live.seeders)
    }
}

/// Identities in brackets.
pub open spec fn hash_list(hashes: Seq<InfoHash>) -> Seq<char> {
    "["@ + hashes_joined(hashes) + "]"@
}

/// Identities with a comma between neighbours.
pub open spec fn hashes_joined(hashes: Seq<InfoHash>) -> Seq<char>
    decreases hashes.len(),
{
    if hashes.len() == 0 {
        Seq::<char>::empty()
    } else if hashes.len() == 1 {
        crate::hash::hex(hashes[0])
    } else {
        hashes_joined(hashes.drop_last()) + ", "@ + crate::hash::hex(hashes.last())
    }
}

fn push_hash_list(text: &mut String, hashes: &Vec<InfoHash>)
    ensures
        final(text)@ == old(text)@ + hash_list(hashes@),
{
    let ghost before = text@;
    text.append("[");
    let mut i: usize = 0;
    assert(before + "["@ + hashes_joined(hashes@.take(0)) =~= text@);
    while i < hashes.len()
        invariant
            i <= hashes@.len(),
            text@ == before + "["@ + hashes_joined(hashes@.take(i as int)),
        decreases hashes@.len() - i,
    {
        let ghost had = text@;
        let ghost head = hashes@.take(i as int);
        proof {
            assert(hashes@.take(i + 1).drop_last() =~= head);
            assert(hashes@.take(i + 1).last() == hashes@[i as int]);
        }
        if i > 0 {
            text.append(", ");
        }
        text.append(hashes[i].to_hex().as_str());
        proof {
            if i == 0 {
                assert(hashes@.take(1)[0] == hashes@[0]);
                assert(hashes_joined(head) =~= Seq::<char>::empty());
            }
            assert(text@ =~= before + "["@ + hashes_joined(hashes@.take(i + 1)));
        }
        i = i + 1;
    }
    assert(hashes@.take(i as int) =~= hashes@);
    text.append("]");
    assert(text@ =~= before + hash_list(hashes@));
}

/// Whether no task that has not ended works on the torrent.
pub open spec fn lacks_engine(engines: Map<InfoHash, EngineTask>) -> spec_fn(InfoHash) -> bool {
    |hash: InfoHash| !(engines.dom().contains(hash) && !engines[hash].finished)
}

/// Whether the torrent does not upload.
pub open spec fn lacks_seeder(seeders: Map<InfoHash, SeederTask>) -> spec_fn(InfoHash) -> bool {
    |hash: InfoHash| !seeders.dom().contains(hash)
}

/// The identities of a list.
pub open spec fn hashes_of(priors: Seq<LiveTorrentTaskSnapshot>) -> Seq<InfoHash> {
    priors.map_values(|prior: LiveTorrentTaskSnapshot| prior.hash)
}

fn list_hashes(priors: &Vec<LiveTorrentTaskSnapshot>) -> (hashes: Vec<InfoHash>)
    ensures
        hashes@ == hashes_of(priors@),
{
    let mut hashes: Vec<InfoHash> = Vec::new();
    let mut i: usize = 0;
    while i < priors.len()
        invariant
            i <= priors@.len(),
            hashes@ == hashes_of(priors@.take(i as int)),
        decreases priors@.len() - i,
    {
        hashes.push(priors[i].hash);
        i = i + 1;
        assert(hashes@ =~= hashes_of(priors@.take(i as int)));
    }
    assert(priors@.take(i as int) =~= priors@);
    hashes
}

/// Some of the work that was set up again is missing.
pub open spec fn incomplete_work(downloads: Seq<InfoHash>, seeders: Seq<InfoHash>) -> ErrorView {
    ErrorView {
        kind: ErrorKind::Internal,
        message: "peer work reconstruction incomplete: missing downloads "@ + hash_list(downloads)
            + ", missing seeders "@ + hash_list(seeders),
    }
}

impl Fleet {
    fn without_engine(&self, hashes: &Vec<InfoHash>) -> (missing: Vec<InfoHash>)
        requires
            self.wf(),
        ensures
            missing@ == hashes@.filter(lacks_engine(self@.engines)),
    {
        let mut missing: Vec<InfoHash> = Vec::new();
        let ghost keep = lacks_engine(self@.engines);
        let mut i: usize = 0;
        assert(hashes@.take(0).filter(keep) =~= missing@) by {
            reveal(Seq::filter);
        }
        while i < hashes.len()
            invariant
                self.wf(),
                i <= hashes@.len(),
                keep == lacks_engine(self@.engines),
                missing@ == hashes@.take(i as int).filter(keep),
            decreases hashes@.len() - i,
        {
            proof {
                reveal(Seq::filter);
                assert(hashes@.take(i + 1).drop_last() =~= hashes@.take(i as int));
            }
            let runs: bool = match self.engines.get(&hashes[i]) {
                Some(task) => !task.finished,
                None => false,
            };
            if !runs {
                missing.push(hashes[i]);
            }
            i = i + 1;
        }
        assert(hashes@.take(i as int) =~= hashes@);
        missing
    }

    fn without_seeder(&self, hashes: &Vec<InfoHash>) -> (missing: Vec<InfoHash>)
        requires
            self.wf(),
        ensures
            missing@ == hashes@.filter(lacks_seeder(self@.seeders)),
    {
        let mut missing: Vec<InfoHash> = Vec::new();
        let ghost keep = lacks_seeder(self@.seeders);
        let mut i: usize = 0;
        assert(hashes@.take(0).filter(keep) =~= missing@) by {
            reveal(Seq::filter);
        }
        while i < hashes.len()
            invariant
                self.wf(),
                i <= hashes@.len(),
                keep == lacks_seeder(self@.seeders),
                missing@ == hashes@.take(i as int).filter(keep),
            decreases hashes@.len() - i,
        {
            proof {
                reveal(Seq::filter);
                assert(hashes@.take(i + 1).drop_last() =~= hashes@.take(i as int));
            }
            if !self.seeders.contains(&hashes[i]) {
                missing.push(hashes[i]);
            }
            i = i + 1;
        }
        assert(hashes@.take(i as int) =~= hashes@);
        missing
    }

    /// What is said where something does not work again that worked.
    pub open spec fn missing_work(&self, live: LivePeerWorkSnapshot) -> Option<ErrorView> {
        let downloads = hashes_of(live.downloads@).filter(lacks_engine(self@.engines));
        let seeders = hashes_of(live.seeders@).filter(lacks_seeder(self@.seeders));
        if downloads.len() == 0 && seeders.len() == 0 {
            None
        } else {
            Some(incomplete_work(downloads, seeders))
        }
    }

    /// Checks that everything works again that worked.
    pub fn verify_live_peer_work(&self, live: &LivePeerWorkSnapshot) -> (outcome: Result<
        (),
        CoreError,
    >)
        requires
            self.wf(),
        ensures
            outcome.is_ok() == self.missing_work(*live).is_none(),
            outcome matches Err(error) ==> self.missing_work(*live) == Some(error@),
    {
        let downloads: Vec<InfoHash> = self.without_engine(&list_hashes(&live.downloads));
        let seeders: Vec<InfoHash> = self.without_seeder(&list_hashes(&live.seeders));
        if downloads.len() == 0 && seeders.len() == 0 {
            return Ok(());
        }
        let mut message: String = owned("peer work reconstruction incomplete: missing downloads ");
        push_hash_list(&mut message, &downloads);
        message.append(", missing seeders ");
        push_hash_list(&mut message, &seeders);
        assert(message@ =~= incomplete_work(downloads@, seeders@).message);
        Err(CoreError::Internal(message))
    }
}

/// Whether a task that has not ended works on a torrent that should not download.
pub open spec fn runs_unasked(desired: Seq<InfoHash>) -> spec_fn((InfoHash, EngineTask)) -> bool {
    |entry: (InfoHash, EngineTask)| !entry.1.finished && !desired.contains(entry.0)
}

/// Whether a torrent uploads that should not.
pub open spec fn uploads_unasked(expected: Seq<InfoHash>) -> spec_fn(
    (InfoHash, SeederTask),
) -> bool {
    |entry: (InfoHash, SeederTask)| !expected.contains(entry.0)
}

/// The torrents that download and should not.
pub open spec fn unasked_downloads(
    engines: Seq<(InfoHash, EngineTask)>,
    desired: Seq<InfoHash>,
) -> Seq<InfoHash> {
    engines.filter(runs_unasked(desired)).map_values(|entry: (InfoHash, EngineTask)| entry.0)
}

/// The torrents that upload and should not.
pub open spec fn unasked_uploads(
    seeders: Seq<(InfoHash, SeederTask)>,
    expected: Seq<InfoHash>,
) -> Seq<InfoHash> {
    seeders.filter(uploads_unasked(expected)).map_values(|entry: (InfoHash, SeederTask)| entry.0)
}

impl FleetView {
    /// A torrent uploads and is not shown so, or is shown so and does not.
    pub open spec fn uploads_shown_wrong(self) -> bool {
        ||| exists|hash: InfoHash| #[trigger]
            self.seeders.dom().contains(hash) && !(self.registry.dom().contains(hash)
                && self.registry[hash].state == TorrentState::Seeding
                && self.registry[hash].seeding_status == SeedingStatus::Active)
        ||| exists|hash: InfoHash| #[trigger]
            self.registry.dom().contains(hash) && (self.registry[hash].state
                == TorrentState::Seeding || self.registry[hash].seeding_status
                == SeedingStatus::Active) && !self.seeders.dom().contains(hash)
    }
}

/// What works is not what should.
pub open spec fn wrong_work(
    missing_downloads: Seq<InfoHash>,
    unexpected_downloads: Seq<InfoHash>,
    missing_seeders: Seq<InfoHash>,
    unexpected_seeders: Seq<InfoHash>,
    mismatch: bool,
) -> ErrorView {
    ErrorView {
        kind: ErrorKind::Internal,
        message: "eligible peer work verification failed: missing downloads "@ + hash_list(
            missing_downloads,
        ) + ", unexpected downloads "@ + hash_list(unexpected_downloads) + ", missing seeders "@
            + hash_list(missing_seeders) + ", unexpected seeders "@ + hash_list(unexpected_seeders)
            + ", seeder mismatch "@ + crate::inspection::truth(mismatch),
    }
}

impl Fleet {
    fn list_unasked_downloads(&self, desired: &Vec<InfoHash>) -> (unasked: Vec<InfoHash>)
        requires
            self.wf(),
        ensures
            unasked@ == unasked_downloads(self.engines.seq(), desired@),
    {
        let mut unasked: Vec<InfoHash> = Vec::new();
        let ghost engines = self.engines.seq();
        let ghost keep = runs_unasked(desired@);
        let ghost key = |entry: (InfoHash, EngineTask)| entry.0;
        let mut i: usize = 0;
        assert(engines.take(0).filter(keep).map_values(key) =~= unasked@) by {
            reveal(Seq::filter);
        }
        while i < self.engines.len()
            invariant
                self.wf(),
                engines == self.engines.seq(),
                i <= engines.len(),
                keep == runs_unasked(desired@),
                key == |entry: (InfoHash, EngineTask)| entry.0,
                unasked@ == engines.take(i as int).filter(keep).map_values(key),
            decreases engines.len() - i,
        {
            proof {
                reveal(Seq::filter);
                assert(engines.take(i + 1).drop_last() =~= engines.take(i as int));
            }
            let ghost before = engines.take(i as int).filter(keep);
            let hash: InfoHash = self.engines.key_at(i);
            if !self.engines.value_at(i).finished && !contains_hash(desired, &hash) {
                unasked.push(hash);
                assert(unasked@ =~= before.push(engines[i as int]).map_values(key));
            }
            i = i + 1;
        }
        assert(engines.take(i as int) =~= engines);
        unasked
    }

    fn list_unasked_uploads(&self, expected: &Vec<InfoHash>) -> (unasked: Vec<InfoHash>)
        requires
            self.wf(),
        ensures
            unasked@ == unasked_uploads(self.seeders.seq(), expected@),
    {
        let mut unasked: Vec<InfoHash> = Vec::new();
        let ghost seeders = self.seeders.seq();
        let ghost keep = uploads_unasked(expected@);
        let ghost key = |entry: (InfoHash, SeederTask)| entry.0;
        let mut i: usize = 0;
        assert(seeders.take(0).filter(keep).map_values(key) =~= unasked@) by {
            reveal(Seq::filter);
        }
        while i < self.seeders.len()
            invariant
                self.wf(),
                seeders == self.seeders.seq(),
                i <= seeders.len(),
                keep == uploads_unasked(expected@),
                key == |entry: (InfoHash, SeederTask)| entry.0,
                unasked@ == seeders.take(i as int).filter(keep).map_values(key),
            decreases seeders.len() - i,
        {
            proof {
                reveal(Seq::filter);
                assert(seeders.take(i + 1).drop_last() =~= seeders.take(i as int));
            }
            let ghost before = seeders.take(i as int).filter(keep);
            let hash: InfoHash = self.seeders.key_at(i);
            if !contains_hash(expected, &hash) {
                unasked.push(hash);
                assert(unasked@ =~= before.push(seeders[i as int]).map_values(key));
            }
            i = i + 1;
        }
        assert(seeders.take(i as int) =~= seeders);
        unasked
    }

    fn has_wrong_uploads(&self) -> (wrong: bool)
        requires
            self.wf(),
        ensures
            wrong == self@.uploads_shown_wrong(),
    {
        let mut i: usize = 0;
        while i < self.seeders.len()
            invariant
                self.wf(),
                i <= self.seeders.seq().len(),
                forall|k: int|
                    0 <= k < i ==> {
                        let hash = (#[trigger] self.seeders.seq()[k]).0;
                        self@.registry.dom().contains(hash) && self@.registry[hash].state
                            == TorrentState::Seeding && self@.registry[hash].seeding_status
                            == SeedingStatus::Active
                    },
            decreases self.seeders.seq().len() - i,
        {
            let hash: InfoHash = self.seeders.key_at(i);
            proof {
                crate::index::lemma_entry(self.seeders.seq(), i as int);
                assert(self@.seeders.dom().contains(hash));
            }
            let right: bool = match self.registry.get(&hash) {
                Some(torrent) => matches!(torrent.state, TorrentState::Seeding) && matches!(
                    torrent.seeding_status,
                    SeedingStatus::Active
                ),
                None => false,
            };
            if !right {
                return true;
            }
            i = i + 1;
        }
        assert forall|hash: InfoHash| #[trigger] self@.seeders.dom().contains(hash) implies
            self@.registry.dom().contains(hash) && self@.registry[hash].state
            == TorrentState::Seeding && self@.registry[hash].seeding_status
            == SeedingStatus::Active by {
            let k = crate::index::position_of(self.seeders.seq(), hash);
            assert(self.seeders.seq()[k].0 == hash);
        }
        let mut k: usize = 0;
        while k < self.registry.len()
            invariant
                self.wf(),
                k <= self.registry.seq().len(),
                forall|hash: InfoHash| #[trigger]
                    self@.seeders.dom().contains(hash) ==> self@.registry.dom().contains(hash)
                        && self@.registry[hash].state == TorrentState::Seeding
                        && self@.registry[hash].seeding_status == SeedingStatus::Active,
                forall|j: int|
                    0 <= j < k ==> {
                        let (hash, torrent) = #[trigger] self.registry.seq()[j];
                        (torrent.state == TorrentState::Seeding || torrent.seeding_status
                            == SeedingStatus::Active) ==> self@.seeders.dom().contains(hash)
                    },
            decreases self.registry.seq().len() - k,
        {
            let hash: InfoHash = self.registry.key_at(k);
            let torrent: &Torrent = self.registry.value_at(k);
            proof {
                crate::index::lemma_entry(self.registry.seq(), k as int);
                assert(self@.registry.dom().contains(hash));
            }
            let shown: bool = matches!(torrent.state, TorrentState::Seeding) || matches!(
                torrent.seeding_status,
                SeedingStatus::Active
            );
            if shown && !self.seeders.contains(&hash) {
                return true;
            }
            k = k + 1;
        }
        assert forall|hash: InfoHash| #[trigger] self@.registry.dom().contains(hash) && (
        self@.registry[hash].state == TorrentState::Seeding || self@.registry[hash].seeding_status
            == SeedingStatus::Active) implies self@.seeders.dom().contains(hash) by {
            let j = crate::index::position_of(self.registry.seq(), hash);
            crate::index::lemma_entry(self.registry.seq(), j);
            assert(self.registry.seq()[j] == (hash, self@.registry[hash]));
        }
        false
    }

    /// What is said where not exactly the torrents download that should and those upload that may.
    pub open spec fn misplaced_work(
        &self,
        desired: Seq<InfoHash>,
        expected: Seq<InfoHash>,
    ) -> Option<ErrorView> {
        let missing_downloads = desired.filter(lacks_engine(self@.engines));
        let unexpected_downloads = unasked_downloads(self.engines.seq(), desired);
        let missing_seeders = expected.filter(lacks_seeder(self@.seeders));
        let unexpected_seeders = unasked_uploads(self.seeders.seq(), expected);
        let mismatch = self@.uploads_shown_wrong();
        if missing_downloads.len() == 0 && unexpected_downloads.len() == 0
            && missing_seeders.len() == 0 && unexpected_seeders.len() == 0 && !mismatch {
            None
        } else {
            Some(
                wrong_work(
                    missing_downloads,
                    unexpected_downloads,
                    missing_seeders,
                    unexpected_seeders,
                    mismatch,
                ),
            )
        }
    }

    /// Checks that what works is what should: the torrents that should download, and those that
    /// may upload.
    pub fn verify_eligible_peer_work(&self, desired: &Vec<InfoHash>, expected: &Vec<InfoHash>) -> (
        outcome: Result<(), CoreError>)
        requires
            self.wf(),
        ensures
            outcome.is_ok() == self.misplaced_work(desired@, expected@).is_none(),
            outcome matches Err(error) ==> self.misplaced_work(desired@, expected@) == Some(error@),
    {
        let missing_downloads: Vec<InfoHash> = self.without_engine(desired);
        let unexpected_downloads: Vec<InfoHash> = self.list_unasked_downloads(desired);
        let missing_seeders: Vec<InfoHash> = self.without_seeder(expected);
        let unexpected_seeders: Vec<InfoHash> = self.list_unasked_uploads(expected);
        let mismatch: bool = self.has_wrong_uploads();
        if missing_downloads.len() == 0 && unexpected_downloads.len() == 0 && missing_seeders.len()
            == 0 && unexpected_seeders.len() == 0 && !mismatch {
            return Ok(());
        }
        let mut message: String = owned("eligible peer work verification failed: missing downloads ");
        push_hash_list(&mut message, &missing_downloads);
        message.append(", unexpected downloads ");
        push_hash_list(&mut message, &unexpected_downloads);
        message.append(", missing seeders ");
        push_hash_list(&mut message, &missing_seeders);
        message.append(", unexpected seeders ");
        push_hash_list(&mut message, &unexpected_seeders);
        message.append(", seeder mismatch ");
        message.append(
            if mismatch {
                "true"
            } else {
                "false"
            },
        );
        Err(CoreError::Internal(message))
    }

    /// Checks that nothing works, as it should while the path is lost.
    pub fn verify_nothing_works(&self, complaint: &str) -> (outcome: Result<(), CoreError>)
        requires
            self.wf(),
        ensures
            outcome.is_ok() == (self.engines.seq().len() == 0 && self.seeders.seq().len() == 0),
            outcome matches Err(error) ==> error@ == (ErrorView {
                kind: ErrorKind::Internal,
                message: complaint@,
            }),
    {
        if self.engines.len() == 0 && self.seeders.len() == 0 {
            Ok(())
        } else {
            Err(CoreError::Internal(owned(complaint)))
        }
    }
}

proof fn lemma_none_kept<T>(list: Seq<T>, keep: spec_fn(T) -> bool)
    ensures
        (list.filter(keep).len() == 0) == (forall|i: int|
            0 <= i < list.len() ==> !keep(#[trigger] list[i])),
    decreases list.len(),
{
    reveal(Seq::filter);
    if list.len() > 0 {
        let rest = list.drop_last();
        lemma_none_kept(rest, keep);
        assert(list.last() == list[list.len() - 1]);
        if forall|i: int| 0 <= i < list.len() ==> !keep(#[trigger] list[i]) {
            assert forall|i: int| 0 <= i < rest.len() implies !keep(#[trigger] rest[i]) by {
                assert(rest[i] == list[i]);
            }
        }
        if list.filter(keep).len() == 0 {
            assert forall|i: int| 0 <= i < list.len() implies !keep(#[trigger] list[i]) by {
                if i < rest.len() {
                    assert(rest[i] == list[i]);
                }
            }
        }
    }
}

/// What worked is set up again exactly where each download that ran has a task that is not
/// finished, and each upload is registered.
pub proof fn all_work_is_back(fleet: Fleet, live: LivePeerWorkSnapshot)
    ensures
        fleet.missing_work(live).is_none() <==> (forall|i: int|
            0 <= i < live.downloads@.len() ==> fleet@.engines.dom().contains(
                (#[trigger] live.downloads@[i]).hash,
            ) && !fleet@.engines[live.downloads@[i].hash].finished) && (forall|i: int|
            0 <= i < live.seeders@.len() ==> fleet@.seeders.dom().contains(
                (#[trigger] live.seeders@[i]).hash,
            )),
{
    let downloads = hashes_of(live.downloads@);
    let seeders = hashes_of(live.seeders@);
    lemma_none_kept(downloads, lacks_engine(fleet@.engines));
    lemma_none_kept(seeders, lacks_seeder(fleet@.seeders));
    assert forall|i: int| 0 <= i < downloads.len() implies #[trigger] downloads[i]
        == live.downloads@[i].hash by {}
    assert forall|i: int| 0 <= i < seeders.len() implies #[trigger] seeders[i]
        == live.seeders@[i].hash by {}
    if fleet.missing_work(live).is_none() {
        assert forall|i: int| 0 <= i < live.downloads@.len() implies fleet@.engines.dom().contains(
            (#[trigger] live.downloads@[i]).hash,
        ) && !fleet@.engines[live.downloads@[i].hash].finished by {
            assert(!lacks_engine(fleet@.engines)(downloads[i]));
        }
        assert forall|i: int| 0 <= i < live.seeders@.len() implies fleet@.seeders.dom().contains(
            (#[trigger] live.seeders@[i]).hash,
        ) by {
            assert(!lacks_seeder(fleet@.seeders)(seeders[i]));
        }
    }
    if (forall|i: int|
        0 <= i < live.downloads@.len() ==> fleet@.engines.dom().contains(
            (#[trigger] live.downloads@[i]).hash,
        ) && !fleet@.engines[live.downloads@[i].hash].finished) && (forall|i: int|
        0 <= i < live.seeders@.len() ==> fleet@.seeders.dom().contains(
            (#[trigger] live.seeders@[i]).hash,
        )) {
        assert forall|i: int| 0 <= i < downloads.len() implies !lacks_engine(fleet@.engines)(
            #[trigger] downloads[i],
        ) by {
            assert(downloads[i] == live.downloads@[i].hash);
        }
        assert forall|i: int| 0 <= i < seeders.len() implies !lacks_seeder(fleet@.seeders)(
            #[trigger] seeders[i],
        ) by {
            assert(seeders[i] == live.seeders@[i].hash);
        }
    }
}

/// The right work runs exactly where each torrent that should download has a task, no other
/// unfinished task runs, each torrent that may upload does, no other does, and torrents are shown
/// as uploading where they upload.
pub proof fn the_right_work_runs(
    fleet: Fleet,
    desired: Seq<InfoHash>,
    expected: Seq<InfoHash>,
)
    ensures
        fleet.misplaced_work(desired, expected).is_none() <==> (forall|i: int|
            0 <= i < desired.len() ==> fleet@.engines.dom().contains(#[trigger] desired[i])
                && !fleet@.engines[desired[i]].finished) && (forall|i: int|
            0 <= i < fleet.engines.seq().len() ==> (#[trigger] fleet.engines.seq()[i]).1.finished
                || desired.contains(fleet.engines.seq()[i].0)) && (forall|i: int|
            0 <= i < expected.len() ==> fleet@.seeders.dom().contains(#[trigger] expected[i]))
            && (forall|i: int|
            0 <= i < fleet.seeders.seq().len() ==> expected.contains(
                (#[trigger] fleet.seeders.seq()[i]).0,
            )) && !fleet@.uploads_shown_wrong(),
{
    lemma_none_kept(desired, lacks_engine(fleet@.engines));
    lemma_none_kept(expected, lacks_seeder(fleet@.seeders));
    lemma_none_kept(fleet.engines.seq(), runs_unasked(desired));
    lemma_none_kept(fleet.seeders.seq(), uploads_unasked(expected));
    let engines = fleet.engines.seq();
    let seeders = fleet.seeders.seq();
    assert(unasked_downloads(engines, desired).len() == engines.filter(
        runs_unasked(desired),
    ).len());
    assert(unasked_uploads(seeders, expected).len() == seeders.filter(
        uploads_unasked(expected),
    ).len());
    assert((forall|i: int| 0 <= i < engines.len() ==> !runs_unasked(desired)(#[trigger] engines[i]))
        == (forall|i: int|
        0 <= i < engines.len() ==> (#[trigger] engines[i]).1.finished || desired.contains(
            engines[i].0,
        )));
    assert((forall|i: int|
        0 <= i < desired.len() ==> !lacks_engine(fleet@.engines)(#[trigger] desired[i])) == (
    forall|i: int|
        0 <= i < desired.len() ==> fleet@.engines.dom().contains(#[trigger] desired[i])
            && !fleet@.engines[desired[i]].finished));
    assert((forall|i: int|
        0 <= i < expected.len() ==> !lacks_seeder(fleet@.seeders)(#[trigger] expected[i])) == (
    forall|i: int|
        0 <= i < expected.len() ==> fleet@.seeders.dom().contains(#[trigger] expected[i])));
    assert((forall|i: int|
        0 <= i < seeders.len() ==> !uploads_unasked(expected)(#[trigger] seeders[i])) == (
    forall|i: int| 0 <= i < seeders.len() ==> expected.contains((#[trigger] seeders[i]).0)));
}

/// Uploads are shown right exactly where a torrent has a registration, is shown as uploading and has
/// the status of it all together or not at all.
pub proof fn uploads_are_shown_right(fleet: FleetView, hash: InfoHash)
    requires
        !fleet.uploads_shown_wrong(),
    ensures
        fleet.seeders.dom().contains(hash) ==> fleet.registry.dom().contains(hash)
            && fleet.registry[hash].state == TorrentState::Seeding
            && fleet.registry[hash].seeding_status == SeedingStatus::Active,
        fleet.registry.dom().contains(hash) && !fleet.seeders.dom().contains(hash)
            ==> fleet.registry[hash].state != TorrentState::Seeding
            && fleet.registry[hash].seeding_status != SeedingStatus::Active,
{
}

/// What a torrent was doing is kept in full, and put back in full onto the torrent as it is now,
/// whose pieces and amounts stay.
pub proof fn standings_are_kept_and_put_back(hash: InfoHash, torrent: Torrent, now: Torrent)
    ensures
        ({
            let kept = captured(hash, torrent);
            let back = relived(now, kept);
            &&& kept.hash == hash
            &&& back.state == torrent.state && back.seeding_status == torrent.seeding_status
                && back.error == torrent.error && back.containment_recovery_intent
                == torrent.containment_recovery_intent
            &&& back.progress == now.progress && back.downloaded == now.downloaded && back.uploaded
                == now.uploaded && back.meta == now.meta && back.files == now.files && back.wanted
                == now.wanted
            &&& now == torrent ==> back == torrent
        }),
{
}

/// Work that is cut is blocked with the reason and noted for what it was; work that is set up again
/// downloads or looks for metadata as it did, or waits to upload, without error or note.
pub proof fn cut_work_is_noted_and_taken_up(torrent: Torrent, state: TorrentState, detail: String)
    ensures
        download_cut(torrent, state, detail) == (Torrent {
            containment_recovery_intent: Some(
                if state == TorrentState::DownloadingMetadata {
                    ContainmentRecoveryIntent::DownloadingMetadata
                } else {
                    ContainmentRecoveryIntent::Downloading
                },
            ),
            state: TorrentState::NetworkBlocked,
            error: Some(Notice::Text(detail)),
            ..torrent
        }),
        upload_cut(torrent, detail) == (Torrent {
            containment_recovery_intent: Some(ContainmentRecoveryIntent::Seeding),
            state: TorrentState::NetworkBlocked,
            error: Some(Notice::Text(detail)),
            ..torrent
        }),
        download_again(torrent, state).containment_recovery_intent.is_none() && download_again(
            torrent,
            state,
        ).error.is_none(),
        state == TorrentState::DownloadingMetadata ==> download_again(torrent, state).state
            == TorrentState::DownloadingMetadata,
        state != TorrentState::DownloadingMetadata ==> download_again(torrent, state).state
            == TorrentState::Downloading,
        upload_again(torrent).state == TorrentState::Completed && upload_again(
            torrent,
        ).seeding_status == SeedingStatus::Queued && upload_again(torrent).error.is_none()
            && upload_again(torrent).containment_recovery_intent.is_none(),
        download_again(torrent, state).progress == torrent.progress && upload_again(torrent).progress
            == torrent.progress,
{
}

/// The first listed torrent that is gone is the one that is found, and none is where all are known.
pub proof fn the_first_missing_torrent_is_found(
    registry: Map<InfoHash, Torrent>,
    priors: Seq<LiveTorrentTaskSnapshot>,
    at: nat,
)
    requires
        at <= priors.len(),
        at < priors.len() ==> !registry.dom().contains(priors[at as int].hash),
        forall|k: int| 0 <= k < at ==> registry.dom().contains((#[trigger] priors[k]).hash),
    ensures
        first_gone(registry, priors) == if at < priors.len() {
            Some(at)
        } else {
            None
        },
{
    if at < priors.len() {
        lemma_first_gone(registry, priors, at);
    } else {
        lemma_none_gone(registry, priors);
    }
}

/// What works is noted: every engine that is not finished and every upload, where the torrent is
/// known, with how the torrent stands.
pub proof fn all_live_work_is_noted(
    engines: Seq<(InfoHash, EngineTask)>,
    seeders: Seq<(InfoHash, SeederTask)>,
    registry: Map<InfoHash, Torrent>,
    i: int,
)
    ensures
        0 <= i < engines.len() && !engines[i].1.finished && registry.dom().contains(engines[i].0)
            ==> running_downloads(engines, registry).contains(
            captured(engines[i].0, registry[engines[i].0]),
        ),
        0 <= i < seeders.len() && registry.dom().contains(seeders[i].0) ==> running_uploads(
            seeders,
            registry,
        ).contains(captured(seeders[i].0, registry[seeders[i].0])),
        running_downloads(engines, registry).len() <= engines.len(),
        running_uploads(seeders, registry).len() <= seeders.len(),
{
    lemma_kept_places(engines, runs_for(registry), i);
    lemma_kept_places(seeders, uploads_for(registry), i);
    if 0 <= i < engines.len() && !engines[i].1.finished && registry.dom().contains(engines[i].0) {
        let kept = engines.filter(runs_for(registry));
        let k = kept.index_of(engines[i]);
        assert(running_downloads(engines, registry)[k] == captured(
            engines[i].0,
            registry[engines[i].0],
        ));
    }
    if 0 <= i < seeders.len() && registry.dom().contains(seeders[i].0) {
        let kept = seeders.filter(uploads_for(registry));
        let k = kept.index_of(seeders[i]);
        assert(running_uploads(seeders, registry)[k] == captured(
            seeders[i].0,
            registry[seeders[i].0],
        ));
    }
}

proof fn lemma_kept_places<T>(list: Seq<T>, keep: spec_fn(T) -> bool, i: int)
    ensures
        list.filter(keep).len() <= list.len(),
        0 <= i < list.len() && keep(list[i]) ==> list.filter(keep).contains(list[i]),
    decreases list.len(),
{
    reveal(Seq::filter);
    if list.len() > 0 {
        let rest = list.drop_last();
        lemma_kept_places(rest, keep, i);
        let before = rest.filter(keep);
        let all = list.filter(keep);
        if 0 <= i < list.len() && keep(list[i]) {
            if i < rest.len() {
                assert(rest[i] == list[i]);
                assert(all[before.index_of(list[i])] == list[i]);
            } else {
                assert(all[before.len() as int] == list[i]);
            }
        }
    }
}

/// Every listed download and upload whose torrent is known is blocked, with the reason; no torrent
/// that is not listed changes.
pub proof fn listed_work_is_cut(
    registry: Map<InfoHash, Torrent>,
    live: LivePeerWorkSnapshot,
    detail: String,
    hash: InfoHash,
)
    requires
        registry.dom().contains(hash),
    ensures
        ({
            let after = work_cut(registry, live, detail);
            let listed = (exists|i: int|
                0 <= i < live.downloads@.len() && (#[trigger] live.downloads@[i]).hash == hash) || (
            exists|i: int|
                0 <= i < live.seeders@.len() && (#[trigger] live.seeders@[i]).hash == hash);
            &&& after.dom() == registry.dom()
            &&& listed ==> after[hash].state == TorrentState::NetworkBlocked && after[hash].error
                == Some(Notice::Text(detail)) && after[hash].containment_recovery_intent.is_some()
            &&& (exists|i: int|
                0 <= i < live.seeders@.len() && (#[trigger] live.seeders@[i]).hash == hash)
                ==> after[hash].containment_recovery_intent == Some(
                ContainmentRecoveryIntent::Seeding,
            )
            &&& !listed ==> after[hash] == registry[hash]
        }),
{
    let halfway = downloads_cut(registry, live.downloads@, detail, live.downloads@.len());
    lemma_downloads_cut(registry, live.downloads@, detail, live.downloads@.len(), hash);
    lemma_uploads_cut(halfway, live.seeders@, detail, live.seeders@.len(), hash);
}

proof fn lemma_downloads_cut(
    registry: Map<InfoHash, Torrent>,
    priors: Seq<LiveTorrentTaskSnapshot>,
    detail: String,
    count: nat,
    hash: InfoHash,
)
    requires
        registry.dom().contains(hash),
        count <= priors.len(),
    ensures
        ({
            let after = downloads_cut(registry, priors, detail, count);
            let listed = exists|i: int|
                0 <= i < count && (#[trigger] priors[i]).hash == hash;
            &&& after.dom() == registry.dom()
            &&& listed ==> after[hash].state == TorrentState::NetworkBlocked && after[hash].error
                == Some(Notice::Text(detail)) && after[hash].containment_recovery_intent.is_some()
            &&& !listed ==> after[hash] == registry[hash]
        }),
    decreases count,
{
    let after = downloads_cut(registry, priors, detail, count);
    if count > 0 {
        lemma_downloads_cut(registry, priors, detail, (count - 1) as nat, hash);
        assert(after.dom() =~= registry.dom());
        if priors[count - 1].hash != hash {
            assert((exists|i: int| 0 <= i < count && (#[trigger] priors[i]).hash == hash) == (
            exists|i: int| 0 <= i < count - 1 && (#[trigger] priors[i]).hash == hash));
        }
    }
}

proof fn lemma_uploads_cut(
    registry: Map<InfoHash, Torrent>,
    priors: Seq<LiveTorrentTaskSnapshot>,
    detail: String,
    count: nat,
    hash: InfoHash,
)
    requires
        registry.dom().contains(hash),
        count <= priors.len(),
    ensures
        ({
            let after = uploads_cut(registry, priors, detail, count);
            let listed = exists|i: int|
                0 <= i < count && (#[trigger] priors[i]).hash == hash;
            &&& after.dom() == registry.dom()
            &&& listed ==> after[hash].state == TorrentState::NetworkBlocked && after[hash].error
                == Some(Notice::Text(detail)) && after[hash].containment_recovery_intent == Some(
                ContainmentRecoveryIntent::Seeding,
            )
            &&& !listed ==> after[hash] == registry[hash]
        }),
    decreases count,
{
    let after = uploads_cut(registry, priors, detail, count);
    if count > 0 {
        lemma_uploads_cut(registry, priors, detail, (count - 1) as nat, hash);
        assert(after.dom() =~= registry.dom());
        if priors[count - 1].hash != hash {
            assert((exists|i: int| 0 <= i < count && (#[trigger] priors[i]).hash == hash) == (
            exists|i: int| 0 <= i < count - 1 && (#[trigger] priors[i]).hash == hash));
        }
    }
}

/// Uploads are not called wrong where every torrent is shown as uploading exactly if it uploads.
pub proof fn right_uploads_are_not_called_wrong(fleet: FleetView)
    requires
        forall|hash: InfoHash| #[trigger]
            fleet.seeders.dom().contains(hash) ==> fleet.registry.dom().contains(hash)
                && fleet.registry[hash].state == TorrentState::Seeding
                && fleet.registry[hash].seeding_status == SeedingStatus::Active,
        forall|hash: InfoHash| #[trigger]
            fleet.registry.dom().contains(hash) ==> fleet.seeders.dom().contains(hash) || (
            fleet.registry[hash].state != TorrentState::Seeding
                && fleet.registry[hash].seeding_status != SeedingStatus::Active),
    ensures
        !fleet.uploads_shown_wrong(),
{
}

} // verus!
