//! Adding torrents.
use crate::config::{resolve_download_dir_from_config, resolve_incomplete_dir_from_config, Config};
use crate::copies::copied_text;
use crate::effects::{Effect, Event, TorrentEventKind};
use crate::error::{CoreError, ErrorKind, ErrorView};
use crate::fleet::{Fleet, FleetView};
use crate::hash::InfoHash;
use crate::network::NetworkHealth;
use crate::paths::unique_pathbufs;
use crate::queue::QueueMembership;
use crate::runtime::DaemonRuntime;
use crate::text::join_with_slash;
use crate::torrent::{
    FilePriority, MetaFile, Notice, PieceProgress, SeedingPolicy, SeedingStatus, Torrent,
    TorrentFile, TorrentMeta, TorrentState,
};
use vstd::prelude::*;

verus! {

/// How a torrent is added.
#[derive(Debug)]
pub struct AddTorrentOptions {
    pub download_dir: Option<String>,
    pub paused: bool,
}

impl AddTorrentOptions {
    /// A torrent as it is added: below its own directory where one was asked for.
    pub fn apply(&self, torrent: Torrent) -> (added: Torrent)
        ensures
            added == (Torrent {
                download_dir: if self.download_dir.is_some() {
                    self.download_dir
                } else {
                    torrent.download_dir
                },
                ..torrent
            }),
    {
        let mut added: Torrent = torrent;
        if self.download_dir.is_some() {
            added.download_dir = copied_text(&self.download_dir);
        }
        added
    }
}

/// A magnet link that was read.
#[derive(Debug)]
pub struct MagnetLink {
    pub info_hash: InfoHash,
    pub display_name: Option<String>,
    pub trackers: Vec<String>,
}

/// What an attempt to add a torrent comes to.
#[derive(Debug)]
pub enum AddStep {
    /// The torrent is known already.
    Duplicate,
    /// The bytes must fit in each of the directories; none are to be checked where no reserve is
    /// configured.
    Check { dirs: Vec<String>, content_bytes: u64 },
}

/// What adding a torrent came to.
#[derive(Clone, Copy, PartialEq, Eq, Structural, Debug)]
pub enum TorrentAddMutationOutcome {
    Inserted { hash: InfoHash, state: TorrentState },
    Duplicate { hash: InfoHash },
}

/// How adding a torrent goes on after the first checks.
#[derive(Clone, Copy, PartialEq, Eq, Structural, Debug)]
pub enum AddEntry {
    /// The torrent is known already.
    Duplicate { hash: InfoHash },
    /// The torrent was entered; the state is to be stored.
    Entered(AddTicket),
}

/// A torrent that was entered and is not stored yet.
#[derive(Clone, Copy, PartialEq, Eq, Structural, Debug)]
pub struct AddTicket {
    pub hash: InfoHash,
    pub state: TorrentState,
    pub membership: QueueMembership,
}

/// A torrent that is new to the daemon.
pub open spec fn is_new_torrent(torrent: Torrent, meta: TorrentMeta, date_added: u64) -> bool {
    let missing = Seq::new(meta.piece_count as nat, |i: int| false);
    &&& torrent.meta == meta
    &&& torrent.progress.have@ == missing
    &&& torrent.files@.len() == meta.files@.len()
    &&& forall|i: int|
        0 <= i < meta.files@.len() ==> {
            &&& (#[trigger] torrent.files@[i]).index == i
            &&& torrent.files@[i].path@ == crate::text::slash_joined(meta.files@[i].path@)
            &&& torrent.files@[i].length == meta.files@[i].length
            &&& torrent.files@[i].bytes_completed == 0
            &&& torrent.files@[i].priority == FilePriority::Normal
            &&& torrent.files@[i].wanted
        }
    &&& torrent.priorities@ == Seq::new(meta.files@.len(), |i: int| FilePriority::Normal)
    &&& torrent.wanted@ == Seq::new(meta.files@.len(), |i: int| true)
    &&& torrent.state == TorrentState::Queued
    &&& torrent.seeding_status == SeedingStatus::NotEligible
    &&& torrent.seeding == (SeedingPolicy {
        ratio_limit: None,
        idle_limit: None,
        seed_forever: false,
    })
    &&& torrent.error.is_none()
    &&& torrent.containment_recovery_intent.is_none()
    &&& torrent.download_dir.is_none()
    &&& torrent.labels@.len() == 0
    &&& torrent.download_limit == 0
    &&& torrent.upload_limit == 0
    &&& torrent.rate_down == 0
    &&& torrent.rate_up == 0
    &&& torrent.downloaded == 0
    &&& torrent.uploaded == 0
    &&& torrent.active_peer_workers == 0
    &&& torrent.known_peers == 0
    &&& !torrent.needs_metadata
    &&& torrent.magnet_info_hash.is_none()
    &&& torrent.magnet_name.is_none()
    &&& torrent.magnet_trackers@.len() == 0
    &&& torrent.date_added == date_added
    &&& torrent.date_completed.is_none()
    &&& torrent.autopilot_mode_override.is_none()
}

impl Torrent {
    /// A torrent that is new to the daemon: nothing of it is there, all of it is wanted, and it
    /// waits in the queue.
    pub fn new(meta: TorrentMeta, date_added: u64) -> (torrent: Torrent)
        ensures
            is_new_torrent(torrent, meta, date_added),
    {
        let mut files: Vec<TorrentFile> = Vec::new();
        let mut priorities: Vec<FilePriority> = Vec::new();
        let mut wanted: Vec<bool> = Vec::new();
        let mut i: usize = 0;
        while i < meta.files.len()
            invariant
                i <= meta.files@.len(),
                files@.len() == i,
                forall|k: int|
                    0 <= k < i ==> {
                        &&& (#[trigger] files@[k]).index == k
                        &&& files@[k].path@ == crate::text::slash_joined(meta.files@[k].path@)
                        &&& files@[k].length == meta.files@[k].length
                        &&& files@[k].bytes_completed == 0
                        &&& files@[k].priority == FilePriority::Normal
                        &&& files@[k].wanted
                    },
                priorities@ == Seq::new(i as nat, |k: int| FilePriority::Normal),
                wanted@ == Seq::new(i as nat, |k: int| true),
            decreases meta.files@.len() - i,
        {
            files.push(
                TorrentFile {
                    index: i,
                    path: join_with_slash(&meta.files[i].path),
                    length: meta.files[i].length,
                    bytes_completed: 0,
                    priority: FilePriority::Normal,
                    wanted: true,
                },
            );
            priorities.push(FilePriority::Normal);
            wanted.push(true);
            i = i + 1;
            assert(priorities@ =~= Seq::new(i as nat, |k: int| FilePriority::Normal));
            assert(wanted@ =~= Seq::new(i as nat, |k: int| true));
        }
        let mut have: Vec<bool> = Vec::new();
        let mut piece: usize = 0;
        while piece < meta.piece_count
            invariant
                piece <= meta.piece_count,
                have@ == Seq::new(piece as nat, |k: int| false),
            decreases meta.piece_count - piece,
        {
            have.push(false);
            piece = piece + 1;
            assert(have@ =~= Seq::new(piece as nat, |k: int| false));
        }
        Torrent {
            meta,
            files,
            priorities,
            wanted,
            progress: PieceProgress { have },
            state: TorrentState::Queued,
            seeding_status: SeedingStatus::NotEligible,
            seeding: SeedingPolicy { ratio_limit: None, idle_limit: None, seed_forever: false },
            error: None,
            containment_recovery_intent: None,
            download_dir: None,
            labels: Vec::new(),
            download_limit: 0,
            upload_limit: 0,
            rate_down: 0,
            rate_up: 0,
            downloaded: 0,
            uploaded: 0,
            active_peer_workers: 0,
            known_peers: 0,
            needs_metadata: false,
            magnet_info_hash: None,
            magnet_name: None,
            magnet_trackers: Vec::new(),
            date_added,
            date_completed: None,
            autopilot_mode_override: None,
        }
    }
}

/// The name of a torrent that a magnet link leads to: the link's own, else its identity.
pub open spec fn magnet_title(link: MagnetLink) -> Seq<char> {
    match link.display_name {
        Some(name) => name@,
        None => crate::hash::hex(link.info_hash),
    }
}

/// A torrent of one file to be made up, which stands in until the real metadata was fetched.
#[derive(Debug)]
pub struct Placeholder {
    pub name: String,
    pub content: Vec<u8>,
    pub piece_length: u64,
    pub announce: Option<String>,
    pub private: bool,
}

/// What stands in for the content of a torrent without metadata.
pub open spec fn placeholder_content() -> Seq<u8> {
    seq![
        109, 97, 103, 110, 101, 116, 32, 112, 108, 97, 99, 101, 104, 111, 108, 100, 101, 114, 32,
        100, 97, 116, 97,
    ]
}

/// The torrent to be made up for a magnet link.
pub fn magnet_placeholder(link: &MagnetLink) -> (placeholder: Placeholder)
    ensures
        placeholder.name@ == magnet_title(*link),
        placeholder.content@ == placeholder_content(),
        placeholder.piece_length == 16,
        crate::config::text_of(placeholder.announce) == if link.trackers@.len() > 0 {
            Some(link.trackers@[0]@)
        } else {
            None
        },
        !placeholder.private,
{
    let name: String = match &link.display_name {
        Some(name) => name.clone(),
        None => link.info_hash.to_hex(),
    };
    let announce: Option<String> = if link.trackers.len() > 0 {
        Some(link.trackers[0].clone())
    } else {
        None
    };
    let content: Vec<u8> = vec![
        109u8, 97, 103, 110, 101, 116, 32, 112, 108, 97, 99, 101, 104, 111, 108, 100, 101, 114, 32,
        100, 97, 116, 97,
    ];
    assert(content@ =~= placeholder_content());
    Placeholder { name, content, piece_length: 16, announce, private: false }
}

/// A torrent for a magnet link, from the metadata that stands in for its own: everything but the
/// real metadata is known. It carries the link's identity, so that two links with the same name
/// are told apart.
pub fn torrent_for_magnet(link: MagnetLink, placeholder: TorrentMeta, date_added: u64) -> (torrent:
    Torrent)
    ensures
        torrent.meta == (TorrentMeta { info_hash: link.info_hash, ..placeholder }),
        torrent.needs_metadata,
        torrent.magnet_info_hash == Some(link.info_hash),
        crate::config::text_of(torrent.magnet_name) == Some(magnet_title(link)),
        torrent.magnet_trackers@ == link.trackers@,
        is_new_torrent(
            Torrent {
                needs_metadata: false,
                magnet_info_hash: None,
                magnet_name: None,
                magnet_trackers: torrent.labels,
                ..torrent
            },
            torrent.meta,
            date_added,
        ),
{
    let MagnetLink { info_hash, display_name, trackers } = link;
    let name: String = match display_name {
        Some(name) => name,
        None => info_hash.to_hex(),
    };
    let mut meta: TorrentMeta = placeholder;
    meta.info_hash = info_hash;
    let mut torrent: Torrent = Torrent::new(meta, date_added);
    torrent.needs_metadata = true;
    torrent.magnet_info_hash = Some(info_hash);
    torrent.magnet_name = Some(name);
    torrent.magnet_trackers = trackers;
    torrent
}

/// Containment applied to a torrent.
pub open spec fn network_applied(torrent: Torrent, health: NetworkHealth) -> Torrent {
    if health.permits() {
        torrent
    } else {
        crate::start::network_blocked(torrent, health.detail)
    }
}

/// Applies containment to a torrent.
pub fn apply_network_state(torrent: &mut Torrent, health: &NetworkHealth)
    ensures
        *final(torrent) == network_applied(*old(torrent), *health),
{
    if !health.permits_traffic() {
        torrent.state = TorrentState::NetworkBlocked;
        torrent.error = Some(Notice::Text(health.detail.clone()));
    }
}

/// A torrent as it is entered: blocked where containment says so, else paused where that was
/// asked for.
pub open spec fn as_entered(torrent: Torrent, paused: bool, health: NetworkHealth) -> Torrent {
    let applied = network_applied(torrent, health);
    if paused && applied.state != TorrentState::NetworkBlocked {
        Torrent { state: TorrentState::Paused, ..applied }
    } else {
        applied
    }
}

impl FleetView {
    /// With one more torrent, at the end of the queue.
    pub open spec fn with_torrent(self, torrent: Torrent) -> FleetView {
        let hash = torrent.hash();
        FleetView {
            registry: self.registry.insert(hash, torrent),
            queue: crate::queue::QueueView {
                order: crate::queue::appended(self.queue.order, hash),
                ..self.queue
            },
            ..self
        }
    }

    /// With a torrent taken out that was entered and could not be stored.
    pub open spec fn rolled_back(self, ticket: AddTicket) -> FleetView {
        FleetView {
            registry: self.registry.remove(ticket.hash),
            queue: crate::queue::QueueView {
                order: crate::queue::put_back(
                    self.queue.order,
                    ticket.hash,
                    ticket.membership.order,
                ),
                bypass: crate::queue::put_back(
                    self.queue.bypass,
                    ticket.hash,
                    ticket.membership.bypass,
                ),
                ..self.queue
            },
            ..self
        }
    }
}

impl Fleet {
    /// The first step of adding a torrent.
    pub fn plan_add(&self, torrent: &Torrent, cfg: &Config, fallback_dir: &str) -> (step: AddStep)
        requires
            self.wf(),
        ensures
            (step is Duplicate) == self@.registry.dom().contains(torrent.hash()),
            step matches AddStep::Check { dirs, content_bytes } ==> {
                let complete_dir = crate::config::complete_dir_of(
                    crate::config::text_of(torrent.download_dir),
                    *cfg,
                    fallback_dir@,
                );
                let active_dir = crate::config::active_dir_of(complete_dir, *cfg);
                &&& content_bytes == crate::start::content_bytes_of(*torrent)
                &&& cfg.storage.minimum_free_space_bytes == 0
                    && cfg.storage.minimum_free_space_percent == 0 ==> dirs@.len() == 0
                &&& cfg.storage.minimum_free_space_bytes > 0
                    || cfg.storage.minimum_free_space_percent > 0 ==> crate::config::texts_of(
                    dirs@,
                ) == if crate::paths::same_path(active_dir, complete_dir) {
                    seq![active_dir]
                } else {
                    seq![active_dir, complete_dir]
                }
            },
    {
        if self.registry.contains(&torrent.info_hash()) {
            return AddStep::Duplicate;
        }
        let content_bytes: u64 = if torrent.needs_metadata {
            0
        } else {
            torrent.meta.total_length
        };
        if cfg.storage.minimum_free_space_bytes == 0 && cfg.storage.minimum_free_space_percent
            == 0 {
            return AddStep::Check { dirs: Vec::new(), content_bytes };
        }
        AddStep::Check { dirs: storage_dirs(torrent, cfg, fallback_dir), content_bytes }
    }

    /// Enters a torrent that is not known yet, before it is stored.
    pub fn enter_torrent(
        &mut self,
        torrent: Torrent,
        requested_paused: bool,
        health: &NetworkHealth,
    ) -> (ticket: AddTicket)
        requires
            old(self).wf(),
            !old(self)@.registry.dom().contains(torrent.hash()),
        ensures
            final(self).wf(),
            ticket == (AddTicket {
                hash: torrent.hash(),
                state: as_entered(torrent, requested_paused, *health).state,
                membership: QueueMembership {
                    order: crate::queue::place_of(
                        old(self)@.queue.order,
                        torrent.hash(),
                    ),
                    bypass: crate::queue::place_of(
                        old(self)@.queue.bypass,
                        torrent.hash(),
                    ),
                },
            }),
            final(self)@ == old(self)@.with_torrent(
                as_entered(torrent, requested_paused, *health),
            ),
    {
        let mut torrent: Torrent = torrent;
        let hash: InfoHash = torrent.info_hash();
        let membership: QueueMembership = self.queue.membership_snapshot(&hash);
        apply_network_state(&mut torrent, health);
        if requested_paused && torrent.state != TorrentState::NetworkBlocked {
            torrent.state = TorrentState::Paused;
        }
        let state: TorrentState = torrent.state;
        self.registry.insert(hash, torrent);
        self.queue.add(hash);
        AddTicket { hash, state, membership }
    }

    /// Takes a torrent out again that was entered and could not be stored.
    pub fn roll_back_add(&mut self, ticket: AddTicket)
        requires
            old(self).wf(),
        ensures
            final(self).wf(),
            final(self)@ == old(self)@.rolled_back(ticket),
    {
        let _ = self.registry.remove(&ticket.hash);
        self.queue.restore_membership(ticket.hash, ticket.membership);
    }
}

impl DaemonRuntime {
    /// Enters a torrent, given what was said of the space for it and of the paths of its files. A
    /// torrent that is known already is left alone, whatever was said.
    pub fn add_torrent_mutation(
        &mut self,
        torrent: Torrent,
        requested_paused: bool,
        space: Result<(), CoreError>,
        available: Result<(), CoreError>,
    ) -> (outcome: Result<AddEntry, CoreError>)
        requires
            old(self).wf(),
        ensures
            final(self).wf(),
            *final(self) == (DaemonRuntime { fleet: final(self).fleet, ..*old(self) }),
            ({
                let hash = torrent.hash();
                let found = old(self).fleet@;
                let entered = as_entered(torrent, requested_paused, old(self).network_health);
                if found.registry.dom().contains(hash) {
                    &&& outcome == Ok::<AddEntry, CoreError>(AddEntry::Duplicate { hash })
                    &&& final(self).fleet@ == found
                } else if space.is_err() {
                    &&& outcome == Err::<AddEntry, CoreError>(space->Err_0)
                    &&& final(self).fleet@ == found
                } else if available.is_err() {
                    &&& outcome == Err::<AddEntry, CoreError>(available->Err_0)
                    &&& final(self).fleet@ == found
                } else {
                    &&& outcome == Ok::<AddEntry, CoreError>(
                        AddEntry::Entered(
                            AddTicket {
                                hash,
                                state: entered.state,
                                membership: QueueMembership {
                                    order: crate::queue::place_of(found.queue.order, hash),
                                    bypass: crate::queue::place_of(found.queue.bypass, hash),
                                },
                            },
                        ),
                    )
                    &&& final(self).fleet@ == found.with_torrent(entered)
                }
            }),
    {
        let hash: InfoHash = torrent.info_hash();
        if self.fleet.registry.contains(&hash) {
            return Ok(AddEntry::Duplicate { hash });
        }
        if let Err(error) = space {
            return Err(error);
        }
        if let Err(error) = available {
            return Err(error);
        }
        let ticket: AddTicket = self.fleet.enter_torrent(
            torrent,
            requested_paused,
            &self.network_health,
        );
        Ok(AddEntry::Entered(ticket))
    }

    /// Ends the adding of a torrent that was entered: it is taken out again where the state was
    /// not stored; else it gets its pool of permits, the queue is looked at where the torrent
    /// waits, and observers are told.
    pub fn finish_add(
        &mut self,
        ticket: AddTicket,
        persisted: Result<(), CoreError>,
        fresh_id: u64,
        effects: &mut Vec<Effect>,
    ) -> (outcome: Result<TorrentAddMutationOutcome, CoreError>)
        requires
            old(self).wf(),
        ensures
            final(self).wf(),
            outcome.is_ok() == persisted.is_ok(),
            outcome matches Err(error) ==> {
                &&& persisted == Err::<(), CoreError>(error)
                &&& *final(self) == (DaemonRuntime { fleet: final(self).fleet, ..*old(self) })
                &&& final(self).fleet@ == old(self).fleet@.rolled_back(ticket)
                &&& final(effects)@ == old(effects)@
            },
            outcome matches Ok(added) ==> {
                &&& added == (TorrentAddMutationOutcome::Inserted {
                    hash: ticket.hash,
                    state: ticket.state,
                })
                &&& *final(self) == (DaemonRuntime { permits: final(self).permits, ..*old(self) })
                &&& final(self).permits@ == crate::permits::with_pool(
                    old(self).permits@,
                    ticket.hash,
                    fresh_id,
                    crate::permits::torrent_limit(
                        old(self).config,
                        old(self).surroundings.built_in_peer_limit,
                    ),
                )
                &&& final(effects)@ == old(effects)@ + (if ticket.state == TorrentState::Queued {
                    seq![Effect::ReconcileQueue { delay: 0 }]
                } else {
                    Seq::<Effect>::empty()
                }) + seq![
                    crate::effects::torrent_effect(
                        TorrentEventKind::Added,
                        ticket.hash,
                        ticket.state,
                    ),
                    crate::effects::stats_effect(),
                ]
            },
    {
        if let Err(error) = persisted {
            self.fleet.roll_back_add(ticket);
            return Err(error);
        }
        let _ = self.permits.ensure_torrent_peer_permit_pool(
            ticket.hash,
            &self.config,
            self.surroundings.built_in_peer_limit,
            fresh_id,
        );
        if ticket.state == TorrentState::Queued {
            effects.push(Effect::ReconcileQueue { delay: 0 });
        }
        effects.push(
            Effect::Publish(
                Event::Torrent {
                    kind: TorrentEventKind::Added,
                    hash: ticket.hash,
                    state: ticket.state,
                },
            ),
        );
        effects.push(Effect::Publish(Event::StatsUpdated));
        assert(effects@ =~= old(effects)@ + (if ticket.state == TorrentState::Queued {
            seq![Effect::ReconcileQueue { delay: 0 }]
        } else {
            Seq::<Effect>::empty()
        }) + seq![
            crate::effects::torrent_effect(TorrentEventKind::Added, ticket.hash, ticket.state),
            crate::effects::stats_effect(),
        ]);
        Ok(TorrentAddMutationOutcome::Inserted { hash: ticket.hash, state: ticket.state })
    }
}

/// What a caller is told of an attempt to add a torrent: a torrent that was known is an error.
pub fn added_hash(outcome: TorrentAddMutationOutcome) -> (hash: Result<InfoHash, CoreError>)
    ensures
        outcome matches TorrentAddMutationOutcome::Inserted { hash: added, .. } ==> hash == Ok::<
            InfoHash,
            CoreError,
        >(added),
        outcome matches TorrentAddMutationOutcome::Duplicate { hash: known } ==> (hash matches Err(
            error,
        ) && error@ == (ErrorView {
            kind: ErrorKind::DuplicateTorrent,
            message: crate::hash::hex(known),
        })),
{
    match outcome {
        TorrentAddMutationOutcome::Inserted { hash, .. } => Ok(hash),
        TorrentAddMutationOutcome::Duplicate { hash } => Err(
            CoreError::DuplicateTorrent(hash.to_hex()),
        ),
    }
}

/// The directories that a torrent is written to: the one while it is unfinished, then the one
/// when it is finished, once where they are the same path.
pub fn storage_dirs(torrent: &Torrent, cfg: &Config, fallback_dir: &str) -> (dirs: Vec<String>)
    ensures
        ({
            let complete_dir = crate::config::complete_dir_of(
                crate::config::text_of(torrent.download_dir),
                *cfg,
                fallback_dir@,
            );
            let active_dir = crate::config::active_dir_of(complete_dir, *cfg);
            crate::config::texts_of(dirs@) == if crate::paths::same_path(
                active_dir,
                complete_dir,
            ) {
                seq![active_dir]
            } else {
                seq![active_dir, complete_dir]
            }
        }),
{
    let own_dir: Option<&str> = match &torrent.download_dir {
        Some(dir) => Some(dir.as_str()),
        None => None,
    };
    let complete_dir: String = resolve_download_dir_from_config(own_dir, cfg, fallback_dir);
    let active_dir: String = resolve_incomplete_dir_from_config(complete_dir.as_str(), cfg);
    let mut both: Vec<String> = Vec::new();
    both.push(active_dir.clone());
    both.push(complete_dir.clone());
    let dirs: Vec<String> = unique_pathbufs(&both);
    proof {
        lemma_firsts_of_two(active_dir, complete_dir);
        assert(both@ =~= seq![active_dir, complete_dir]);
        if crate::paths::same_path(active_dir@, complete_dir@) {
            assert(crate::config::texts_of(dirs@) =~= seq![active_dir@]);
        } else {
            assert(crate::config::texts_of(dirs@) =~= seq![active_dir@, complete_dir@]);
        }
    }
    dirs
}

/// The first of each of two paths.
pub proof fn lemma_firsts_of_two(a: String, b: String)
    ensures
        crate::paths::firsts(seq![a, b]) == if crate::paths::same_path(a@, b@) {
            seq![a]
        } else {
            seq![a, b]
        },
{
    let both = seq![a, b];
    let one = both.drop_last();
    assert(one =~= seq![a]);
    assert(one.drop_last() =~= Seq::<String>::empty());
    assert(crate::paths::firsts(one.drop_last()) =~= Seq::<String>::empty());
    assert(!crate::paths::lists_path(Seq::<String>::empty(), a@));
    assert(crate::paths::firsts(one) =~= seq![a]);
    let first = crate::paths::firsts(one);
    if crate::paths::same_path(a@, b@) {
        assert(crate::paths::same_path(first[0]@, b@));
        assert(crate::paths::lists_path(first, b@));
    } else {
        if crate::paths::lists_path(first, b@) {
            let i = choose|i: int|
                0 <= i < first.len() && crate::paths::same_path((#[trigger] first[i])@, b@);
            assert(first[i] == a);
        }
        assert(first.push(b) =~= seq![a, b]);
    }
}

/// Entering a torrent and taking it out again leaves everything as it was, the queue too.
pub proof fn failed_adds_leave_no_trace(
    fleet: FleetView,
    torrent: Torrent,
    ticket: AddTicket,
)
    requires
        fleet.queue.wf(),
        fleet.queue.order.len() <= usize::MAX,
        fleet.queue.bypass.len() <= usize::MAX,
        !fleet.registry.dom().contains(torrent.hash()),
        ticket.hash == torrent.hash(),
        ticket.membership == (QueueMembership {
            order: crate::queue::place_of(fleet.queue.order, torrent.hash()),
            bypass: crate::queue::place_of(fleet.queue.bypass, torrent.hash()),
        }),
    ensures
        fleet.with_torrent(torrent).rolled_back(ticket) == fleet,
{
    let hash = torrent.hash();
    let entered = fleet.with_torrent(torrent);
    crate::queue::adding_keeps_the_others(fleet.queue.order, hash);
    crate::queue::putting_back_restores(fleet.queue.order, entered.queue.order, hash);
    crate::queue::putting_back_restores(fleet.queue.bypass, entered.queue.bypass, hash);
    assert(entered.rolled_back(ticket).registry =~= fleet.registry);
}

/// A torrent is entered as it is, but for two things: without an open network path it is blocked
/// with the reason, even where it was to be paused; with one it is paused where that was asked for.
pub proof fn torrents_are_entered_as_asked(torrent: Torrent, paused: bool, health: NetworkHealth)
    ensures
        ({
            let entered = as_entered(torrent, paused, health);
            let open = health.traffic_allowed || health.mode
                == crate::network::NetworkContainmentMode::Disabled;
            &&& !open ==> entered == (Torrent {
                state: TorrentState::NetworkBlocked,
                error: Some(Notice::Text(health.detail)),
                ..torrent
            })
            &&& open && paused && torrent.state == TorrentState::Queued ==> entered == (Torrent {
                state: TorrentState::Paused,
                ..torrent
            })
            &&& open && !paused ==> entered == torrent
        }),
{
}

/// A torrent that was entered is known and listed last; no task starts for it, it does not jump
/// the queue, and nothing else changes.
pub proof fn entered_torrents_are_listed_last(fleet: FleetView, torrent: Torrent, other: InfoHash)
    requires
        fleet.queue.wf(),
        !fleet.queue.order.contains(torrent.hash()),
        other != torrent.hash(),
    ensures
        ({
            let hash = torrent.hash();
            let after = fleet.with_torrent(torrent);
            &&& after.registry.dom().contains(hash) && after.registry[hash] == torrent
            &&& after.registry.dom().contains(other) == fleet.registry.dom().contains(other)
            &&& fleet.registry.dom().contains(other) ==> after.registry[other]
                == fleet.registry[other]
            &&& after.queue.order == fleet.queue.order.push(hash)
            &&& after.queue.bypass == fleet.queue.bypass
            &&& after.engines == fleet.engines && after.seeders == fleet.seeders
                && after.retry_after == fleet.retry_after && after.rate_samples
                == fleet.rate_samples
        }),
{
}

/// A new torrent waits, wants every file, and has nothing: no piece, no byte, no error, no limits
/// and no directory of its own. It is complete only once all its pieces came in.
pub proof fn new_torrents_want_everything(torrent: Torrent, meta: TorrentMeta, date_added: u64)
    requires
        is_new_torrent(torrent, meta, date_added),
    ensures
        torrent.state == TorrentState::Queued,
        torrent.seeding_status == SeedingStatus::NotEligible,
        torrent.meta == meta && torrent.date_added == date_added,
        torrent.progress.have@.len() == meta.piece_count,
        forall|piece: int|
            0 <= piece < torrent.progress.have@.len() ==> !(
            #[trigger] torrent.progress.have@[piece]),
        torrent.wanted@.len() == meta.files@.len() && torrent.priorities@.len()
            == meta.files@.len() && torrent.files@.len() == meta.files@.len(),
        forall|i: int| 0 <= i < meta.files@.len() ==> #[trigger] torrent.wanted@[i],
        forall|i: int|
            0 <= i < meta.files@.len() ==> #[trigger] torrent.priorities@[i]
                == FilePriority::Normal,
        forall|i: int|
            0 <= i < meta.files@.len() ==> (#[trigger] torrent.files@[i]).wanted
                && torrent.files@[i].bytes_completed == 0 && torrent.files@[i].index == i
                && torrent.files@[i].length == meta.files@[i].length,
        torrent.error.is_none() && torrent.date_completed.is_none()
            && torrent.download_dir.is_none(),
        torrent.seeding.ratio_limit.is_none() && torrent.seeding.idle_limit.is_none()
            && !torrent.seeding.seed_forever,
        torrent.download_limit == 0 && torrent.upload_limit == 0 && torrent.downloaded == 0
            && torrent.uploaded == 0 && torrent.rate_down == 0 && torrent.rate_up == 0,
        !torrent.needs_metadata && torrent.autopilot_mode_override.is_none(),
        forall|i: int|
            0 <= i < meta.files@.len() ==> (#[trigger] torrent.files@[i]).path@
                == crate::text::slash_joined(meta.files@[i].path@) && torrent.files@[i].priority
                == FilePriority::Normal,
        torrent.magnet_info_hash.is_none() && torrent.magnet_name.is_none()
            && torrent.magnet_trackers@.len() == 0 && torrent.labels@.len() == 0,
        torrent.containment_recovery_intent.is_none() && torrent.active_peer_workers == 0
            && torrent.known_peers == 0,
{
}

/// A magnet link goes by its name, and by its hash where it has none.
pub proof fn links_go_by_their_name(link: MagnetLink)
    ensures
        link.display_name matches Some(name) ==> magnet_title(link) == name@,
        link.display_name.is_none() ==> magnet_title(link) == crate::hash::hex(link.info_hash),
{
}

/// What stands in for the content of a torrent without metadata spells what it is.
pub proof fn placeholders_say_what_they_are()
    ensures
        placeholder_content().len() == "magnet placeholder data"@.len(),
        forall|i: int|
            0 <= i < placeholder_content().len() ==> #[trigger] placeholder_content()[i]
                == "magnet placeholder data"@[i] as int,
{
    reveal_strlit("magnet placeholder data");
    let content = placeholder_content();
    assert forall|i: int| 0 <= i < content.len() implies #[trigger] content[i]
        == "magnet placeholder data"@[i] as int by {
        assert(i == 0 || i == 1 || i == 2 || i == 3 || i == 4 || i == 5 || i == 6 || i == 7 || i
            == 8 || i == 9 || i == 10 || i == 11 || i == 12 || i == 13 || i == 14 || i == 15 || i
            == 16 || i == 17 || i == 18 || i == 19 || i == 20 || i == 21 || i == 22);
    }
}

} // verus!
