//! Moving a torrent's data, renaming one of its files, and taking over found metadata, each with a
//! way back.
use crate::config::{resolve_incomplete_dir_from_config, Config};
use crate::effects::{Effect, Event};
use crate::engine::apply_resolved_metadata;
use crate::error::{CoreError, ErrorKind, ErrorView};
use crate::fleet::{Fleet, FleetView};
use crate::hash::InfoHash;
use crate::ops::payload_dir;
use crate::paths::{all_blank, validated_relative_path};
use crate::text::owned;
use crate::torrent::{Torrent, TorrentMeta, TorrentState};
use vstd::prelude::*;
use vstd::string::*;

verus! {

/// What is to be taken up again when a torrent's data stands still no longer.
#[derive(Clone, Copy, PartialEq, Eq, Structural, Debug)]
pub enum Interrupted {
    /// Downloading, or the search for metadata.
    Download,
    /// A finished torrent, which may have been uploading.
    Finished,
    Nothing,
}

/// What moving a torrent's data interrupts.
pub open spec fn interrupted_work(state: TorrentState) -> Interrupted {
    match state {
        TorrentState::Downloading | TorrentState::DownloadingMetadata => Interrupted::Download,
        TorrentState::Completed | TorrentState::Seeding => Interrupted::Finished,
        _ => Interrupted::Nothing,
    }
}

fn interruption(state: TorrentState) -> (interrupted: Interrupted)
    ensures
        interrupted == interrupted_work(state),
{
    match state {
        TorrentState::Downloading | TorrentState::DownloadingMetadata => Interrupted::Download,
        TorrentState::Completed | TorrentState::Seeding => Interrupted::Finished,
        _ => Interrupted::Nothing,
    }
}

/// A move of a torrent's data that is under way.
#[derive(Debug)]
pub struct MoveTicket {
    pub hash: InfoHash,
    pub interrupted: Interrupted,
    /// The directory that the payload is in.
    pub source: String,
    /// The directory that it goes to.
    pub destination: String,
    /// The torrent's own directory before.
    pub previous_dir: Option<String>,
}

/// How a move ended.
#[derive(Debug)]
pub enum MoveEnd {
    /// The data could not be moved.
    Refused(CoreError),
    /// The data was moved and the state written out.
    Kept,
    /// The state could not be written out, and the data was moved back.
    Undone(CoreError),
    /// The state could not be written out, nor the data moved back; what each said.
    Stuck { refusal: String, again: String },
}

/// The directory in which a torrent's payload is.
pub open spec fn payload_dir_of(torrent: Torrent, cfg: Config, fallback: Seq<char>) -> Seq<char> {
    let complete_dir = crate::config::complete_dir_of(
        crate::config::text_of(torrent.download_dir),
        cfg,
        fallback,
    );
    if torrent.progress.complete() {
        complete_dir
    } else {
        crate::config::active_dir_of(complete_dir, cfg)
    }
}

impl FleetView {
    /// A torrent with a directory of its own, or none, where it is known.
    pub open spec fn kept_in(self, hash: InfoHash, dir: Option<String>) -> FleetView {
        FleetView {
            registry: crate::fleet::rewritten(
                self.registry,
                hash,
                Torrent { download_dir: dir, ..self.registry[hash] },
            ),
            ..self
        }
    }

    /// After interrupted work was taken up again.
    pub open spec fn taken_up(self, hash: InfoHash, interrupted: Interrupted) -> FleetView {
        if interrupted != Interrupted::Download {
            self
        } else if self.registry.dom().contains(hash) {
            self.restarted(hash)
        } else {
            self.work_stopped(hash)
        }
    }

    /// What taking up interrupted work asks for.
    pub open spec fn take_up_effects(self, hash: InfoHash, interrupted: Interrupted) -> Seq<
        Effect,
    > {
        match interrupted {
            Interrupted::Download => self.work_stop_effects(hash, false)
                + if self.registry.dom().contains(hash) {
                seq![Effect::ReconcileQueueNow]
            } else {
                Seq::<Effect>::empty()
            },
            Interrupted::Finished => seq![Effect::ReconcileSeeders],
            Interrupted::Nothing => Seq::<Effect>::empty(),
        }
    }
}

impl Fleet {
    /// Takes up the work that a move or a renaming interrupted.
    fn take_up(&mut self, hash: InfoHash, interrupted: Interrupted, effects: &mut Vec<Effect>)
        requires
            old(self).wf(),
        ensures
            final(self).wf(),
            final(self)@ == old(self)@.taken_up(hash, interrupted),
            final(effects)@ == old(effects)@ + old(self)@.take_up_effects(hash, interrupted),
    {
        match interrupted {
            Interrupted::Download => {
                if self.restart_engine_for_settings(hash, effects) {
                    effects.push(Effect::ReconcileQueueNow);
                }
                assert(effects@ =~= old(effects)@ + old(self)@.take_up_effects(hash, interrupted));
            },
            Interrupted::Finished => {
                effects.push(Effect::ReconcileSeeders);
            },
            Interrupted::Nothing => {
                assert(effects@ =~= old(effects)@ + old(self)@.take_up_effects(hash, interrupted));
            },
        }
    }

    /// Begins to move a torrent's data to a directory: ends the work on it and says what is to be
    /// moved where. `available` says whether its files would keep clear of all others there.
    pub fn move_data(
        &mut self,
        hash: InfoHash,
        path: &str,
        available: Result<(), CoreError>,
        cfg: &Config,
        fallback: &str,
        effects: &mut Vec<Effect>,
    ) -> (outcome: Result<MoveTicket, CoreError>)
        requires
            old(self).wf(),
        ensures
            final(self).wf(),
            outcome.is_ok() == (!crate::paths::is_void(path@) && old(self)@.registry.dom().contains(
                hash,
            ) && available.is_ok()),
            outcome matches Ok(ticket) ==> {
                let torrent = old(self)@.registry[hash];
                &&& ticket.hash == hash
                &&& ticket.interrupted == interrupted_work(torrent.state)
                &&& ticket.source@ == payload_dir_of(torrent, *cfg, fallback@)
                &&& ticket.destination@ == if torrent.progress.complete() {
                    path@
                } else {
                    crate::config::active_dir_of(path@, *cfg)
                }
                &&& ticket.previous_dir == torrent.download_dir
                &&& final(self)@ == old(self)@.work_stopped(hash)
                &&& final(effects)@ == old(effects)@ + old(self)@.work_stop_effects(hash, false)
            },
            outcome matches Err(error) ==> {
                &&& final(self)@ == old(self)@
                &&& final(effects)@ == old(effects)@
                &&& if crate::paths::is_void(path@) {
                    error@ == (ErrorView {
                        kind: ErrorKind::Storage,
                        message: "torrent data destination must not be empty"@,
                    })
                } else if !old(self)@.registry.dom().contains(hash) {
                    error@ == crate::error::no_torrent()
                } else {
                    available == Err::<(), CoreError>(error)
                }
            },
    {
        if all_blank(path) {
            return Err(CoreError::Storage(owned("torrent data destination must not be empty")));
        }
        let torrent: &Torrent = match self.registry.get(&hash) {
            Some(torrent) => torrent,
            None => {
                return Err(CoreError::unknown_torrent());
            },
        };
        if let Err(error) = available {
            return Err(error);
        }
        let destination: String = if torrent.progress.is_complete() {
            owned(path)
        } else {
            resolve_incomplete_dir_from_config(path, cfg)
        };
        let ticket: MoveTicket = MoveTicket {
            hash,
            interrupted: interruption(torrent.state),
            source: payload_dir(torrent, cfg, fallback),
            destination,
            previous_dir: match &torrent.download_dir {
                Some(dir) => Some(dir.clone()),
                None => None,
            },
        };
        self.stop_work(&hash, false, effects);
        Ok(ticket)
    }

    /// Notes where a torrent's data was moved to.
    pub fn enter_move(&mut self, ticket: &MoveTicket, path: String)
        requires
            old(self).wf(),
        ensures
            final(self).wf(),
            final(self)@ == old(self)@.kept_in(ticket.hash, Some(path)),
    {
        self.set_dir(ticket.hash, Some(path));
    }

    fn set_dir(&mut self, hash: InfoHash, dir: Option<String>)
        requires
            old(self).wf(),
        ensures
            final(self).wf(),
            final(self)@ == old(self)@.kept_in(hash, dir),
    {
        match self.registry.find(&hash) {
            Some(position) => {
                let torrent: &mut Torrent = self.registry.value_at_mut(position);
                torrent.download_dir = dir;
            },
            None => {},
        }
    }

    /// Ends a move: after one that was undone the torrent is kept where it was, and the work that
    /// was interrupted is taken up again.
    pub fn finish_move(&mut self, ticket: MoveTicket, end: MoveEnd, effects: &mut Vec<Effect>) -> (
        outcome: Result<(), CoreError>)
        requires
            old(self).wf(),
        ensures
            final(self).wf(),
            ({
                let settled = if end is Undone {
                    old(self)@.kept_in(ticket.hash, ticket.previous_dir)
                } else {
                    old(self)@
                };
                &&& final(self)@ == settled.taken_up(ticket.hash, ticket.interrupted)
                &&& final(effects)@ == old(effects)@ + settled.take_up_effects(
                    ticket.hash,
                    ticket.interrupted,
                )
            }),
            outcome.is_ok() == (end is Kept),
            match end {
                MoveEnd::Refused(error) => outcome == Err::<(), CoreError>(error),
                MoveEnd::Undone(error) => outcome == Err::<(), CoreError>(error),
                MoveEnd::Stuck { refusal, again } => outcome matches Err(error) && error@ == (
                ErrorView {
                    kind: ErrorKind::Storage,
                    message: refusal@ + "; data move rollback also failed: "@ + again@,
                }),
                MoveEnd::Kept => true,
            },
    {
        let outcome: Result<(), CoreError> = match end {
            MoveEnd::Refused(error) => Err(error),
            MoveEnd::Kept => Ok(()),
            MoveEnd::Undone(error) => {
                self.set_dir(ticket.hash, ticket.previous_dir);
                Err(error)
            },
            MoveEnd::Stuck { refusal, again } => {
                let mut message: String = refusal;
                message.append("; data move rollback also failed: ");
                message.append(again.as_str());
                Err(CoreError::Storage(message))
            },
        };
        self.take_up(ticket.hash, ticket.interrupted, effects);
        outcome
    }
}

/// A renaming of a torrent's file that is under way.
#[derive(Debug)]
pub struct RenameTicket {
    pub hash: InfoHash,
    pub interrupted: Interrupted,
    pub file_index: usize,
    /// The parts of the new path.
    pub components: Vec<String>,
    /// The directory that the payload is in.
    pub dir: String,
    /// The torrent before.
    pub before: Torrent,
}

/// How a renaming ended.
#[derive(Debug)]
pub enum RenameEnd {
    /// The file has that name already.
    Same,
    /// The file could not be renamed.
    Refused(CoreError),
    /// The file was renamed and the state written out.
    Kept,
    /// The state could not be written out, and the file was renamed back.
    Undone(CoreError),
    /// The state could not be written out, nor the file renamed back; what each said.
    Stuck { refusal: String, again: String },
}

/// The torrent with one of its files renamed.
pub open spec fn file_renamed(
    before: Torrent,
    after: Torrent,
    file_index: int,
    components: Seq<String>,
    path: Seq<char>,
) -> bool {
    &&& after == (Torrent { meta: after.meta, files: after.files, ..before })
    &&& after.meta == (TorrentMeta { files: after.meta.files, ..before.meta })
    &&& after.meta.files@.len() == before.meta.files@.len()
    &&& after.meta.files@[file_index].path@ == components
    &&& after.meta.files@[file_index].length == before.meta.files@[file_index].length
    &&& forall|k: int|
        0 <= k < before.meta.files@.len() && k != file_index ==> #[trigger] after.meta.files@[k]
            == before.meta.files@[k]
    &&& after.files@.len() == before.files@.len()
    &&& after.files@[file_index] == (crate::torrent::TorrentFile {
        path: after.files@[file_index].path,
        ..before.files@[file_index]
    })
    &&& after.files@[file_index].path@ == path
    &&& forall|k: int|
        0 <= k < before.files@.len() && k != file_index ==> #[trigger] after.files@[k]
            == before.files@[k]
}

impl Fleet {
    /// Begins to rename a torrent's file: ends the work on the torrent. `available` says whether
    /// its files, with the new name, would keep clear of all others.
    pub fn rename_path(
        &mut self,
        hash: InfoHash,
        file_index: usize,
        new_path: &str,
        available: Result<(), CoreError>,
        cfg: &Config,
        fallback: &str,
        effects: &mut Vec<Effect>,
    ) -> (outcome: Result<RenameTicket, CoreError>)
        requires
            old(self).wf(),
        ensures
            final(self).wf(),
            outcome.is_ok() == (crate::paths::names_below(new_path@) && old(
                self,
            )@.registry.dom().contains(hash) && file_index < old(
                self,
            )@.registry[hash].meta.files@.len() && available.is_ok()),
            outcome matches Ok(ticket) ==> {
                let torrent = old(self)@.registry[hash];
                &&& ticket.hash == hash
                &&& ticket.interrupted == interrupted_work(torrent.state)
                &&& ticket.file_index == file_index
                &&& crate::config::texts_of(ticket.components@) == crate::paths::components(
                    new_path@,
                )
                &&& ticket.dir@ == payload_dir_of(torrent, *cfg, fallback@)
                &&& crate::copies::same_torrent(ticket.before, torrent)
                &&& final(self)@ == old(self)@.work_stopped(hash)
                &&& final(effects)@ == old(effects)@ + old(self)@.work_stop_effects(hash, false)
            },
            outcome matches Err(error) ==> {
                &&& final(self)@ == old(self)@
                &&& final(effects)@ == old(effects)@
                &&& if !crate::paths::names_below(new_path@) {
                    error@ == crate::paths::path_fault(new_path@)
                } else if !old(self)@.registry.dom().contains(hash) {
                    error@ == crate::error::no_torrent()
                } else if file_index >= old(self)@.registry[hash].meta.files@.len() {
                    error@ == crate::error::no_torrent_file()
                } else {
                    available == Err::<(), CoreError>(error)
                }
            },
    {
        let components: Vec<String> = match validated_relative_path(new_path) {
            Ok(components) => components,
            Err(error) => {
                return Err(error);
            },
        };
        let torrent: &Torrent = match self.registry.get(&hash) {
            Some(torrent) => torrent,
            None => {
                return Err(CoreError::unknown_torrent());
            },
        };
        if file_index >= torrent.meta.files.len() {
            return Err(CoreError::unknown_torrent_file());
        }
        if let Err(error) = available {
            return Err(error);
        }
        let ticket: RenameTicket = RenameTicket {
            hash,
            interrupted: interruption(torrent.state),
            file_index,
            components,
            dir: payload_dir(torrent, cfg, fallback),
            before: torrent.clone(),
        };
        self.stop_work(&hash, false, effects);
        Ok(ticket)
    }

    /// Notes that a file was renamed.
    pub fn enter_rename(&mut self, ticket: &RenameTicket, new_path: &str)
        requires
            old(self).wf(),
            old(self)@.registry.dom().contains(ticket.hash) ==> {
                let torrent = old(self)@.registry[ticket.hash];
                ticket.file_index < torrent.meta.files@.len() && ticket.file_index
                    < torrent.files@.len()
            },
        ensures
            final(self).wf(),
            old(self)@.registry.dom().contains(ticket.hash) ==> {
                let after = final(self)@.registry[ticket.hash];
                &&& final(self)@ == old(self)@.with(ticket.hash, after)
                &&& file_renamed(
                    old(self)@.registry[ticket.hash],
                    after,
                    ticket.file_index as int,
                    ticket.components@,
                    new_path@,
                )
            },
            !old(self)@.registry.dom().contains(ticket.hash) ==> final(self)@ == old(self)@,
    {
        match self.registry.find(&ticket.hash) {
            Some(position) => {
                let torrent: &mut Torrent = self.registry.value_at_mut(position);
                let path: Vec<String> = crate::copies::copied_texts(&ticket.components);
                torrent.meta.files[ticket.file_index].path = path;
                torrent.files[ticket.file_index].path = owned(new_path);
            },
            None => {},
        }
    }

    /// Ends a renaming: after one that was undone the torrent is what it was before, and the work
    /// that was interrupted is taken up again.
    pub fn finish_rename(
        &mut self,
        ticket: RenameTicket,
        end: RenameEnd,
        effects: &mut Vec<Effect>,
    ) -> (outcome: Result<(), CoreError>)
        requires
            old(self).wf(),
        ensures
            final(self).wf(),
            ({
                let settled = if end is Undone {
                    FleetView {
                        registry: crate::fleet::rewritten(
                            old(self)@.registry,
                            ticket.hash,
                            ticket.before,
                        ),
                        ..old(self)@
                    }
                } else {
                    old(self)@
                };
                &&& final(self)@ == settled.taken_up(ticket.hash, ticket.interrupted)
                &&& final(effects)@ == old(effects)@ + settled.take_up_effects(
                    ticket.hash,
                    ticket.interrupted,
                )
            }),
            outcome.is_ok() == (end is Kept || end is Same),
            match end {
                RenameEnd::Refused(error) => outcome == Err::<(), CoreError>(error),
                RenameEnd::Undone(error) => outcome == Err::<(), CoreError>(error),
                RenameEnd::Stuck { refusal, again } => outcome matches Err(error) && error@ == (
                ErrorView {
                    kind: ErrorKind::Storage,
                    message: refusal@ + "; payload rename rollback also failed: "@ + again@,
                }),
                _ => true,
            },
    {
        let RenameTicket { hash, interrupted, before, .. } = ticket;
        let outcome: Result<(), CoreError> = match end {
            RenameEnd::Refused(error) => Err(error),
            RenameEnd::Kept | RenameEnd::Same => Ok(()),
            RenameEnd::Undone(error) => {
                self.put_torrent(hash, before);
                Err(error)
            },
            RenameEnd::Stuck { refusal, again } => {
                let mut message: String = refusal;
                message.append("; payload rename rollback also failed: ");
                message.append(again.as_str());
                Err(CoreError::Storage(message))
            },
        };
        self.take_up(hash, interrupted, effects);
        outcome
    }

    fn put_torrent(&mut self, hash: InfoHash, torrent: Torrent)
        requires
            old(self).wf(),
        ensures
            final(self).wf(),
            final(self)@ == (FleetView {
                registry: crate::fleet::rewritten(old(self)@.registry, hash, torrent),
                ..old(self)@
            }),
    {
        match self.registry.find(&hash) {
            Some(position) => {
                let current: &mut Torrent = self.registry.value_at_mut(position);
                *current = torrent;
            },
            None => {},
        }
    }

    /// Takes over metadata that was found for a torrent, and returns the torrent before.
    /// `available` says whether its files would keep clear of all others.
    pub fn reserve_resolved_magnet_metadata(
        &mut self,
        hash: InfoHash,
        resolved: TorrentMeta,
        available: Result<(), CoreError>,
    ) -> (outcome: Result<Torrent, CoreError>)
        requires
            old(self).wf(),
        ensures
            final(self).wf(),
            outcome.is_ok() == (resolved.info_hash == hash && available.is_ok() && old(
                self,
            )@.registry.dom().contains(hash)),
            outcome matches Ok(previous) ==> {
                let after = final(self)@.registry[hash];
                &&& crate::copies::same_torrent(previous, old(self)@.registry[hash])
                &&& final(self)@ == old(self)@.with(hash, after)
                &&& crate::engine::metadata_applied(
                    old(self)@.registry[hash],
                    after,
                    resolved,
                    Seq::<bool>::empty(),
                )
            },
            outcome matches Err(error) ==> {
                &&& final(self)@ == old(self)@
                &&& if resolved.info_hash != hash {
                    error@ == (ErrorView {
                        kind: ErrorKind::MalformedTorrent,
                        message: "resolved magnet metadata info hash changed during preflight"@,
                    })
                } else if available.is_err() {
                    available == Err::<(), CoreError>(error)
                } else {
                    error@ == crate::error::no_torrent()
                }
            },
    {
        if !(resolved.info_hash == hash) {
            return Err(
                CoreError::MalformedTorrent(
                    owned("resolved magnet metadata info hash changed during preflight"),
                ),
            );
        }
        if let Err(error) = available {
            return Err(error);
        }
        match self.registry.find(&hash) {
            Some(position) => {
                let torrent: &mut Torrent = self.registry.value_at_mut(position);
                let previous: Torrent = torrent.clone();
                let nothing: Vec<bool> = Vec::new();
                apply_resolved_metadata(torrent, resolved, &nothing);
                Ok(previous)
            },
            None => Err(CoreError::unknown_torrent()),
        }
    }

    /// Ends the taking over of found metadata: where the state could not be written out, the
    /// torrent is what it was before; else observers are told.
    pub fn finish_reservation(
        &mut self,
        hash: InfoHash,
        previous: Torrent,
        persisted: Result<(), CoreError>,
        effects: &mut Vec<Effect>,
    ) -> (outcome: Result<(), CoreError>)
        requires
            old(self).wf(),
        ensures
            final(self).wf(),
            outcome == persisted,
            persisted.is_ok() ==> final(self)@ == old(self)@ && final(effects)@ == old(
                effects,
            )@.push(Effect::Publish(Event::MetadataReceived { hash })),
            persisted.is_err() ==> final(effects)@ == old(effects)@ && final(self)@ == (FleetView {
                registry: crate::fleet::rewritten(old(self)@.registry, hash, previous),
                ..old(self)@
            }),
    {
        match persisted {
            Ok(_) => {
                effects.push(Effect::Publish(Event::MetadataReceived { hash }));
            },
            Err(_) => {
                self.put_torrent(hash, previous);
            },
        }
        persisted
    }
}

/// A torrent's payload lies where it was written: in the final directory once every piece is
/// there, and until then in the directory of unfinished torrents, where there is one. The final
/// directory is the torrent's own, else the configured one, else the fallback.
pub proof fn payloads_lie_where_they_were_written(
    torrent: Torrent,
    cfg: Config,
    fallback: Seq<char>,
)
    ensures
        ({
            let have = torrent.progress.have@;
            let whole = have.len() > 0 && forall|piece: int|
                0 <= piece < have.len() ==> #[trigger] have[piece];
            let dir = payload_dir_of(torrent, cfg, fallback);
            &&& whole || cfg.storage.incomplete_dir.is_none() ==> match torrent.download_dir {
                Some(own) => dir == own@,
                None => match cfg.storage.download_dir {
                    Some(shared) => dir == shared@,
                    None => dir == fallback,
                },
            }
            &&& !whole ==> (cfg.storage.incomplete_dir matches Some(unfinished) ==> dir
                == unfinished@)
        }),
{
}

/// After a move that was kept, the payload is looked for where it was moved to: the next move, or
/// a renaming, starts from the destination of this one. After a move that was undone it is looked
/// for where it came from.
pub proof fn moved_payloads_are_found_again(
    fleet: FleetView,
    cfg: Config,
    fallback: Seq<char>,
    ticket: MoveTicket,
    path: String,
)
    requires
        fleet.registry.dom().contains(ticket.hash),
        ticket.source@ == payload_dir_of(fleet.registry[ticket.hash], cfg, fallback),
        ticket.destination@ == if fleet.registry[ticket.hash].progress.complete() {
            path@
        } else {
            crate::config::active_dir_of(path@, cfg)
        },
        ticket.previous_dir == fleet.registry[ticket.hash].download_dir,
    ensures
        ({
            let entered = fleet.work_stopped(ticket.hash).kept_in(ticket.hash, Some(path));
            let kept = entered.taken_up(ticket.hash, ticket.interrupted);
            let undone = entered.kept_in(ticket.hash, ticket.previous_dir).taken_up(
                ticket.hash,
                ticket.interrupted,
            );
            &&& kept.registry[ticket.hash].download_dir == Some(path)
            &&& payload_dir_of(kept.registry[ticket.hash], cfg, fallback) == ticket.destination@
            &&& undone.registry[ticket.hash].download_dir
                == fleet.registry[ticket.hash].download_dir
            &&& payload_dir_of(undone.registry[ticket.hash], cfg, fallback) == ticket.source@
            &&& kept.registry[ticket.hash].progress == fleet.registry[ticket.hash].progress
            &&& undone.registry[ticket.hash].progress == fleet.registry[ticket.hash].progress
            &&& kept.registry[ticket.hash].meta == fleet.registry[ticket.hash].meta
        }),
{
    let stopped = fleet.work_stopped(ticket.hash);
    let entered = stopped.kept_in(ticket.hash, Some(path));
    let back = entered.kept_in(ticket.hash, ticket.previous_dir);
    assert(stopped.registry.dom().contains(ticket.hash));
    assert(entered.registry.dom().contains(ticket.hash));
    assert(back.registry.dom().contains(ticket.hash));
    assert(entered.taken_up(ticket.hash, ticket.interrupted).registry.dom().contains(ticket.hash));
}

/// Whatever a move or a renaming came to, a torrent that was downloading or fetching metadata is
/// taken up at once, at the head of the queue; finished torrents are looked at again for uploading;
/// and for any other torrent nothing is done.
pub proof fn interrupted_work_is_taken_up(fleet: FleetView, settled: FleetView, hash: InfoHash)
    requires
        settled.queue.wf(),
        settled.registry.dom().contains(hash),
    ensures
        ({
            let was = fleet.registry[hash].state;
            let interrupted = interrupted_work(was);
            let after = settled.taken_up(hash, interrupted);
            let asked = settled.take_up_effects(hash, interrupted);
            &&& was == TorrentState::Downloading || was == TorrentState::DownloadingMetadata ==> {
                &&& after.registry[hash].state == TorrentState::Queued
                &&& after.registry[hash].error.is_none()
                &&& after.queue.bypass.contains(hash)
                &&& after.queue.order.contains(hash)
                &&& !after.engines.dom().contains(hash)
                &&& !after.retry_after.dom().contains(hash)
                &&& asked.last() == Effect::ReconcileQueueNow
            }
            &&& was == TorrentState::Completed || was == TorrentState::Seeding ==> after == settled
                && asked == seq![Effect::ReconcileSeeders]
            &&& was != TorrentState::Downloading && was != TorrentState::DownloadingMetadata && was
                != TorrentState::Completed && was != TorrentState::Seeding ==> after == settled
                && asked.len() == 0
            &&& after.registry[hash].meta == settled.registry[hash].meta
            &&& after.registry[hash].files == settled.registry[hash].files
            &&& after.registry[hash].download_dir == settled.registry[hash].download_dir
            &&& forall|other: InfoHash|
                other != hash && settled.registry.dom().contains(other) ==> #[trigger]
                    after.registry[other] == settled.registry[other]
        }),
{
    crate::queue::lemma_appended(settled.queue.bypass, hash);
    crate::queue::lemma_appended(settled.queue.order, hash);
}

/// Renaming a file changes the names of that file and nothing else of the torrent: the lengths, the
/// pieces, the settings and all other files stay.
pub proof fn renaming_changes_one_name(
    before: Torrent,
    after: Torrent,
    file_index: int,
    components: Seq<String>,
    path: Seq<char>,
)
    requires
        0 <= file_index < before.meta.files@.len(),
        file_index < before.files@.len(),
        file_renamed(before, after, file_index, components, path),
    ensures
        after.meta.files@[file_index].path@ == components,
        after.files@[file_index].path@ == path,
        after.meta.info_hash == before.meta.info_hash,
        after.meta.total_length == before.meta.total_length,
        after.progress == before.progress,
        after.state == before.state,
        after.download_dir == before.download_dir,
        after.wanted == before.wanted,
        after.priorities == before.priorities,
        forall|k: int|
            0 <= k < before.meta.files@.len() ==> (#[trigger] after.meta.files@[k]).length
                == before.meta.files@[k].length,
        forall|k: int|
            0 <= k < before.meta.files@.len() && k != file_index ==> (
            #[trigger] after.meta.files@[k]).path == before.meta.files@[k].path,
        forall|k: int|
            0 <= k < before.files@.len() && k != file_index ==> #[trigger] after.files@[k]
                == before.files@[k],
        after.files@[file_index].bytes_completed == before.files@[file_index].bytes_completed,
        after.files@[file_index].length == before.files@[file_index].length,
        after.files@[file_index].wanted == before.files@[file_index].wanted,
        after.files@[file_index].priority == before.files@[file_index].priority,
        after.files@[file_index].index == before.files@[file_index].index,
{
}

} // verus!
