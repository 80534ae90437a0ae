//! Settings of single torrents.
use crate::config::AutopilotMode;
use crate::error::CoreError;
use crate::fleet::{Fleet, FleetView};
use crate::hash::InfoHash;
use crate::seeding::is_usable_ratio;
use crate::text::owned;
use crate::torrent::{FilePriority, SeedingPolicy, Torrent, TorrentFile, TorrentState};
use vstd::prelude::*;

verus! {

impl FleetView {
    /// With one torrent replaced.
    pub open spec fn with(self, hash: InfoHash, torrent: Torrent) -> FleetView {
        FleetView { registry: self.registry.insert(hash, torrent), ..self }
    }

    /// The torrent is shown as downloading or finished.
    pub open spec fn applies_settings(self, hash: InfoHash) -> bool {
        self.registry[hash].state.downloads() || self.registry[hash].state
            == TorrentState::Completed
    }
}

/// Every index names a file.
pub open spec fn in_range(indices: Seq<usize>, count: nat) -> bool {
    forall|i: int| 0 <= i < indices.len() ==> #[trigger] indices[i] < count
}

fn all_in_range(indices: &Vec<usize>, count: usize) -> (ok: bool)
    ensures
        ok == in_range(indices@, count as nat),
{
    let mut i: usize = 0;
    while i < indices.len()
        invariant
            i <= indices@.len(),
            forall|k: int| 0 <= k < i ==> #[trigger] indices@[k] < count,
        decreases indices@.len() - i,
    {
        if indices[i] >= count {
            assert(!(indices@[i as int] < count));
            return false;
        }
        i = i + 1;
    }
    true
}

/// The list of indices names a file.
pub open spec fn names(indices: Seq<usize>, file: int) -> bool {
    exists|i: int| 0 <= i < indices.len() && #[trigger] indices[i] == file
}

/// A list with the named entries set to a value.
pub open spec fn marked<T>(list: Seq<T>, indices: Seq<usize>, value: T) -> Seq<T> {
    Seq::new(
        list.len(),
        |i: int|
            if names(indices, i) {
                value
            } else {
                list[i]
            },
    )
}

proof fn lemma_index_taken(indices: Seq<usize>, count: int, index: int)
    requires
        0 <= count < indices.len(),
    ensures
        names(indices.take(count + 1), index) == (names(indices.take(count), index) || index
            == indices[count]),
{
    let shorter = indices.take(count);
    let longer = indices.take(count + 1);
    if names(shorter, index) {
        let k = choose|k: int| 0 <= k < shorter.len() && #[trigger] shorter[k] == index;
        assert(longer[k] == index);
    }
    assert(longer[count] == indices[count]);
    if names(longer, index) && index != indices[count] {
        let k = choose|k: int| 0 <= k < longer.len() && #[trigger] longer[k] == index;
        assert(shorter[k] == index);
    }
}

/// The files with the named ones wanted or not.
pub open spec fn files_wanted(
    files: Seq<TorrentFile>,
    indices: Seq<usize>,
    wanted: bool,
) -> Seq<TorrentFile> {
    Seq::new(
        files.len(),
        |i: int|
            if names(indices, i) {
                TorrentFile { wanted, ..files[i] }
            } else {
                files[i]
            },
    )
}

/// The files with the named ones at a priority.
pub open spec fn files_ranked(
    files: Seq<TorrentFile>,
    indices: Seq<usize>,
    priority: FilePriority,
) -> Seq<TorrentFile> {
    Seq::new(
        files.len(),
        |i: int|
            if names(indices, i) {
                TorrentFile { priority, ..files[i] }
            } else {
                files[i]
            },
    )
}

impl Fleet {
    /// Gives a torrent other labels.
    pub fn set_labels(&mut self, hash: InfoHash, labels: Vec<String>) -> (outcome: Result<
        (),
        CoreError,
    >)
        requires
            old(self).wf(),
        ensures
            final(self).wf(),
            outcome.is_ok() == old(self)@.registry.dom().contains(hash),
            outcome.is_ok() ==> final(self)@ == old(self)@.with(
                hash,
                Torrent { labels, ..old(self)@.registry[hash] },
            ),
            outcome matches Err(error) ==> error@ == crate::error::no_torrent() && final(self)@
                == old(self)@,
    {
        match self.registry.find(&hash) {
            Some(position) => {
                let torrent: &mut Torrent = self.registry.value_at_mut(position);
                torrent.labels = labels;
                Ok(())
            },
            None => Err(CoreError::unknown_torrent()),
        }
    }

    /// Gives a torrent other limits.
    pub fn set_torrent_limits(&mut self, hash: InfoHash, download: u64, upload: u64) -> (outcome:
        Result<(), CoreError>)
        requires
            old(self).wf(),
        ensures
            final(self).wf(),
            outcome.is_ok() == old(self)@.registry.dom().contains(hash),
            outcome.is_ok() ==> final(self)@ == old(self)@.with(
                hash,
                Torrent {
                    download_limit: download,
                    upload_limit: upload,
                    ..old(self)@.registry[hash]
                },
            ),
            outcome matches Err(error) ==> error@ == crate::error::no_torrent() && final(self)@
                == old(self)@,
    {
        match self.registry.find(&hash) {
            Some(position) => {
                let torrent: &mut Torrent = self.registry.value_at_mut(position);
                torrent.download_limit = download;
                torrent.upload_limit = upload;
                Ok(())
            },
            None => Err(CoreError::unknown_torrent()),
        }
    }

    /// Gives a torrent other upload targets before they are stored, and returns the ones it had.
    pub fn set_torrent_seeding(&mut self, hash: InfoHash, seeding: SeedingPolicy) -> (previous:
        Result<SeedingPolicy, CoreError>)
        requires
            old(self).wf(),
        ensures
            final(self).wf(),
            ({
                let refused = seeding.ratio_limit matches Some(bits)
                    && !crate::seeding::usable_ratio(bits);
                let known = old(self)@.registry.dom().contains(hash);
                &&& previous.is_ok() == (!refused && known)
                &&& previous matches Ok(previous) ==> previous == old(
                    self,
                )@.registry[hash].seeding && final(self)@ == old(self)@.with(
                    hash,
                    Torrent { seeding, ..old(self)@.registry[hash] },
                )
                &&& previous matches Err(error) ==> final(self)@ == old(self)@ && error@
                    == if refused {
                    crate::error::ErrorView {
                        kind: crate::error::ErrorKind::InvalidArgument,
                        message: "ratio_limit must be a finite non-negative number or null"@,
                    }
                } else {
                    crate::error::no_torrent()
                }
            }),
    {
        if let Some(bits) = seeding.ratio_limit {
            if !is_usable_ratio(bits) {
                return Err(
                    CoreError::InvalidArgument(
                        owned("ratio_limit must be a finite non-negative number or null"),
                    ),
                );
            }
        }
        match self.registry.find(&hash) {
            Some(position) => {
                let torrent: &mut Torrent = self.registry.value_at_mut(position);
                let previous: SeedingPolicy = torrent.seeding;
                torrent.seeding = seeding;
                Ok(previous)
            },
            None => Err(CoreError::unknown_torrent()),
        }
    }

    /// Gives a torrent back the upload targets it had.
    pub fn restore_torrent_seeding(&mut self, hash: InfoHash, previous: SeedingPolicy)
        requires
            old(self).wf(),
        ensures
            final(self).wf(),
            final(self)@ == (FleetView {
                registry: crate::fleet::rewritten(
                    old(self)@.registry,
                    hash,
                    Torrent { seeding: previous, ..old(self)@.registry[hash] },
                ),
                ..old(self)@
            }),
    {
        if let Some(position) = self.registry.find(&hash) {
            let torrent: &mut Torrent = self.registry.value_at_mut(position);
            torrent.seeding = previous;
        }
    }

    /// Says for some files of a torrent whether they are wanted, and returns whether the torrent
    /// has to be restarted for that.
    pub fn set_wanted(
        &mut self,
        hash: InfoHash,
        file_indices: &Vec<usize>,
        wanted: bool,
    ) -> (restart: Result<bool, CoreError>)
        requires
            old(self).wf(),
            old(self)@.registry.dom().contains(hash) && in_range(
                file_indices@,
                old(self)@.registry[hash].wanted@.len(),
            ) ==> in_range(file_indices@, old(self)@.registry[hash].files@.len()),
        ensures
            final(self).wf(),
            ({
                let known = old(self)@.registry.dom().contains(hash);
                let torrent = old(self)@.registry[hash];
                let fits = in_range(file_indices@, torrent.wanted@.len());
                &&& restart.is_ok() == (known && fits)
                &&& restart matches Ok(restart) ==> {
                    let after = final(self)@.registry[hash];
                    &&& restart == old(self)@.applies_settings(hash)
                    &&& final(self)@ == old(self)@.with(hash, after)
                    &&& after == (Torrent { wanted: after.wanted, files: after.files, ..torrent })
                    &&& after.wanted@ == marked(torrent.wanted@, file_indices@, wanted)
                    &&& after.files@ == files_wanted(torrent.files@, file_indices@, wanted)
                }
                &&& restart matches Err(error) ==> final(self)@ == old(self)@ && error@ == if known {
                    crate::error::no_torrent_file()
                } else {
                    crate::error::no_torrent()
                }
            }),
    {
        let position: usize = match self.registry.find(&hash) {
            Some(position) => position,
            None => {
                return Err(CoreError::unknown_torrent());
            },
        };
        let count: usize = self.registry.value_at(position).wanted.len();
        if !all_in_range(file_indices, count) {
            return Err(CoreError::unknown_torrent_file());
        }
        let torrent: &mut Torrent = self.registry.value_at_mut(position);
        mark_wanted(torrent, file_indices, wanted);
        Ok(
            matches!(
                torrent.state,
                TorrentState::Downloading
                    | TorrentState::DownloadingMetadata
                    | TorrentState::Completed
            ),
        )
    }

    /// Gives some files of a torrent a priority, and returns whether the torrent has to be
    /// restarted for that.
    pub fn set_priority(
        &mut self,
        hash: InfoHash,
        file_indices: &Vec<usize>,
        priority: FilePriority,
    ) -> (restart: Result<bool, CoreError>)
        requires
            old(self).wf(),
            old(self)@.registry.dom().contains(hash) && in_range(
                file_indices@,
                old(self)@.registry[hash].priorities@.len(),
            ) ==> in_range(file_indices@, old(self)@.registry[hash].files@.len()),
        ensures
            final(self).wf(),
            ({
                let known = old(self)@.registry.dom().contains(hash);
                let torrent = old(self)@.registry[hash];
                let fits = in_range(file_indices@, torrent.priorities@.len());
                &&& restart.is_ok() == (known && fits)
                &&& restart matches Ok(restart) ==> {
                    let after = final(self)@.registry[hash];
                    &&& restart == old(self)@.applies_settings(hash)
                    &&& final(self)@ == old(self)@.with(hash, after)
                    &&& after == (Torrent {
                        priorities: after.priorities,
                        files: after.files,
                        ..torrent
                    })
                    &&& after.priorities@ == marked(torrent.priorities@, file_indices@, priority)
                    &&& after.files@ == files_ranked(torrent.files@, file_indices@, priority)
                }
                &&& restart matches Err(error) ==> final(self)@ == old(self)@ && error@ == if known {
                    crate::error::no_torrent_file()
                } else {
                    crate::error::no_torrent()
                }
            }),
    {
        let position: usize = match self.registry.find(&hash) {
            Some(position) => position,
            None => {
                return Err(CoreError::unknown_torrent());
            },
        };
        let count: usize = self.registry.value_at(position).priorities.len();
        if !all_in_range(file_indices, count) {
            return Err(CoreError::unknown_torrent_file());
        }
        let torrent: &mut Torrent = self.registry.value_at_mut(position);
        mark_priority(torrent, file_indices, priority);
        Ok(
            matches!(
                torrent.state,
                TorrentState::Downloading
                    | TorrentState::DownloadingMetadata
                    | TorrentState::Completed
            ),
        )
    }

    /// Gives a torrent an autopilot mode of its own, or takes it away.
    pub fn set_torrent_autopilot_mode_override(
        &mut self,
        hash: InfoHash,
        mode: Option<AutopilotMode>,
    ) -> (outcome: Result<(), CoreError>)
        requires
            old(self).wf(),
        ensures
            final(self).wf(),
            outcome.is_ok() == old(self)@.registry.dom().contains(hash),
            outcome.is_ok() ==> final(self)@ == old(self)@.with(
                hash,
                Torrent { autopilot_mode_override: mode, ..old(self)@.registry[hash] },
            ),
            outcome matches Err(error) ==> error@ == crate::error::no_torrent() && final(self)@
                == old(self)@,
    {
        match self.registry.find(&hash) {
            Some(position) => {
                let torrent: &mut Torrent = self.registry.value_at_mut(position);
                torrent.autopilot_mode_override = mode;
                Ok(())
            },
            None => Err(CoreError::unknown_torrent()),
        }
    }
}

fn mark_wanted(torrent: &mut Torrent, indices: &Vec<usize>, wanted: bool)
    requires
        in_range(indices@, old(torrent).files@.len()),
        in_range(indices@, old(torrent).wanted@.len()),
    ensures
        *final(torrent) == (Torrent {
            wanted: final(torrent).wanted,
            files: final(torrent).files,
            ..*old(torrent)
        }),
        final(torrent).wanted@ == marked(old(torrent).wanted@, indices@, wanted),
        final(torrent).files@ == files_wanted(old(torrent).files@, indices@, wanted),
{
    let ghost before = *torrent;
    let mut i: usize = 0;
    assert(torrent.wanted@ =~= marked(before.wanted@, indices@.take(0), wanted));
    assert(torrent.files@ =~= files_wanted(before.files@, indices@.take(0), wanted));
    while i < indices.len()
        invariant
            i <= indices@.len(),
            in_range(indices@, before.files@.len()),
            in_range(indices@, before.wanted@.len()),
            *torrent == (Torrent { wanted: torrent.wanted, files: torrent.files, ..before }),
            torrent.wanted@ == marked(before.wanted@, indices@.take(i as int), wanted),
            torrent.files@ == files_wanted(before.files@, indices@.take(i as int), wanted),
        decreases indices@.len() - i,
    {
        let index: usize = indices[i];
        proof {
            assert(indices@[i as int] < before.wanted@.len());
            assert(indices@[i as int] < before.files@.len());
            assert forall|other: int| #[trigger] names(indices@.take(i + 1), other) == (names(
                indices@.take(i as int),
                other,
            ) || other == index) by {
                lemma_index_taken(indices@, i as int, other);
            }
        }
        torrent.wanted.set(index, wanted);
        let file: &mut TorrentFile = &mut torrent.files[index];
        file.wanted = wanted;
        proof {
            assert(torrent.wanted@ =~= marked(before.wanted@, indices@.take(i + 1), wanted));
            assert(torrent.files@ =~= files_wanted(before.files@, indices@.take(i + 1), wanted));
        }
        i = i + 1;
    }
    assert(indices@.take(i as int) =~= indices@);
}

fn mark_priority(torrent: &mut Torrent, indices: &Vec<usize>, priority: FilePriority)
    requires
        in_range(indices@, old(torrent).files@.len()),
        in_range(indices@, old(torrent).priorities@.len()),
    ensures
        *final(torrent) == (Torrent {
            priorities: final(torrent).priorities,
            files: final(torrent).files,
            ..*old(torrent)
        }),
        final(torrent).priorities@ == marked(old(torrent).priorities@, indices@, priority),
        final(torrent).files@ == files_ranked(old(torrent).files@, indices@, priority),
{
    let ghost before = *torrent;
    let mut i: usize = 0;
    assert(torrent.priorities@ =~= marked(before.priorities@, indices@.take(0), priority));
    assert(torrent.files@ =~= files_ranked(before.files@, indices@.take(0), priority));
    while i < indices.len()
        invariant
            i <= indices@.len(),
            in_range(indices@, before.files@.len()),
            in_range(indices@, before.priorities@.len()),
            *torrent == (Torrent {
                priorities: torrent.priorities,
                files: torrent.files,
                ..before
            }),
            torrent.priorities@ == marked(before.priorities@, indices@.take(i as int), priority),
            torrent.files@ == files_ranked(before.files@, indices@.take(i as int), priority),
        decreases indices@.len() - i,
    {
        let index: usize = indices[i];
        proof {
            assert(indices@[i as int] < before.priorities@.len());
            assert(indices@[i as int] < before.files@.len());
            assert forall|other: int| #[trigger] names(indices@.take(i + 1), other) == (names(
                indices@.take(i as int),
                other,
            ) || other == index) by {
                lemma_index_taken(indices@, i as int, other);
            }
        }
        torrent.priorities.set(index, priority);
        let file: &mut TorrentFile = &mut torrent.files[index];
        file.priority = priority;
        proof {
            assert(torrent.priorities@ =~= marked(
                before.priorities@,
                indices@.take(i + 1),
                priority,
            ));
            assert(torrent.files@ =~= files_ranked(before.files@, indices@.take(i + 1), priority));
        }
        i = i + 1;
    }
    assert(indices@.take(i as int) =~= indices@);
}

/// Upload targets that could not be stored leave no trace.
pub proof fn failed_targets_leave_no_trace(fleet: FleetView, hash: InfoHash, seeding: SeedingPolicy)
    requires
        fleet.registry.dom().contains(hash),
    ensures
        ({
            let tentative = fleet.with(hash, Torrent { seeding, ..fleet.registry[hash] });
            tentative.with(
                hash,
                Torrent {
                    seeding: fleet.registry[hash].seeding,
                    ..tentative.registry[hash]
                },
            ) == fleet
        }),
{
    let tentative = fleet.with(hash, Torrent { seeding, ..fleet.registry[hash] });
    let back = tentative.with(
        hash,
        Torrent { seeding: fleet.registry[hash].seeding, ..tentative.registry[hash] },
    );
    assert(back.registry =~= fleet.registry);
}

/// How a torrent moves in the queue.
#[derive(Clone, Copy, PartialEq, Eq, Structural, Debug)]
pub enum QueueMove {
    Up,
    Down,
    Top,
    Bottom,
}

/// An order with one torrent moved.
pub open spec fn moved_order(
    order: Seq<InfoHash>,
    hash: InfoHash,
    how: QueueMove,
) -> Seq<InfoHash> {
    match how {
        QueueMove::Up => match crate::queue::place_of(order, hash) {
            Some(at) => if at > 0 {
                crate::queue::exchanged(order, at - 1)
            } else {
                order
            },
            None => order,
        },
        QueueMove::Down => match crate::queue::place_of(order, hash) {
            Some(at) => if at + 1 < order.len() {
                crate::queue::exchanged(order, at as int)
            } else {
                order
            },
            None => order,
        },
        QueueMove::Top => crate::queue::raised(order, hash),
        QueueMove::Bottom => crate::queue::sunk(order, hash),
    }
}

impl Fleet {
    /// Moves a torrent in the queue.
    pub fn queue_move(&mut self, hash: InfoHash, how: QueueMove) -> (outcome: Result<(), CoreError>)
        requires
            old(self).wf(),
        ensures
            final(self).wf(),
            outcome.is_ok() == old(self)@.registry.dom().contains(hash),
            outcome.is_ok() ==> final(self)@ == (FleetView {
                queue: crate::queue::QueueView {
                    order: moved_order(old(self)@.queue.order, hash, how),
                    ..old(self)@.queue
                },
                ..old(self)@
            }),
            outcome matches Err(error) ==> error@ == crate::error::no_torrent() && final(self)@
                == old(self)@,
    {
        if !self.registry.contains(&hash) {
            return Err(CoreError::unknown_torrent());
        }
        match how {
            QueueMove::Up => self.queue.move_up(&hash),
            QueueMove::Down => self.queue.move_down(&hash),
            QueueMove::Top => self.queue.move_to_top(&hash),
            QueueMove::Bottom => self.queue.move_to_bottom(&hash),
        }
        Ok(())
    }
}

/// Marking files changes exactly the files that are named, each to the value, and nothing else of
/// a file.
pub proof fn only_named_files_are_marked(
    wanted: Seq<bool>,
    priorities: Seq<FilePriority>,
    files: Seq<TorrentFile>,
    indices: Seq<usize>,
    want: bool,
    priority: FilePriority,
    file: int,
)
    ensures
        marked(wanted, indices, want).len() == wanted.len(),
        marked(priorities, indices, priority).len() == priorities.len(),
        files_wanted(files, indices, want).len() == files.len(),
        files_ranked(files, indices, priority).len() == files.len(),
        ({
            let named = 0 <= file && file <= usize::MAX && indices.contains(file as usize);
            &&& 0 <= file < wanted.len() && wanted.len() <= usize::MAX ==> marked(
                wanted,
                indices,
                want,
            )[file] == if named {
                want
            } else {
                wanted[file]
            }
            &&& 0 <= file < priorities.len() && priorities.len() <= usize::MAX ==> marked(
                priorities,
                indices,
                priority,
            )[file] == if named {
                priority
            } else {
                priorities[file]
            }
            &&& 0 <= file < files.len() && files.len() <= usize::MAX ==> files_wanted(
                files,
                indices,
                want,
            )[file] == if named {
                TorrentFile { wanted: want, ..files[file] }
            } else {
                files[file]
            }
            &&& 0 <= file < files.len() && files.len() <= usize::MAX ==> files_ranked(
                files,
                indices,
                priority,
            )[file] == if named {
                TorrentFile { priority, ..files[file] }
            } else {
                files[file]
            }
        }),
{
    if 0 <= file && file <= usize::MAX {
        if indices.contains(file as usize) {
            assert(indices[indices.index_of(file as usize)] == file);
            assert(names(indices, file));
        }
        if names(indices, file) {
            let i = choose|i: int| 0 <= i < indices.len() && #[trigger] indices[i] == file;
            assert(indices[i] == file as usize);
        }
    }
}

/// Files can be named exactly where each index has a file.
pub proof fn named_files_exist(indices: Seq<usize>, count: nat, i: int)
    ensures
        in_range(indices, count) && 0 <= i < indices.len() ==> indices[i] < count,
        0 <= i < indices.len() && indices[i] >= count ==> !in_range(indices, count),
        indices.len() == 0 ==> in_range(indices, count),
{
}

/// A torrent takes up new settings at once where it downloads or is completed.
pub proof fn running_torrents_take_up_settings(fleet: FleetView, hash: InfoHash)
    ensures
        fleet.applies_settings(hash) == (fleet.registry[hash].state == TorrentState::Downloading
            || fleet.registry[hash].state == TorrentState::DownloadingMetadata
            || fleet.registry[hash].state == TorrentState::Completed),
{
}

/// A torrent that is moved up or down passes one other, a torrent that is moved to the top or to
/// the bottom passes all that stood there. The others keep their order, and moving up and down
/// again changes nothing.
pub proof fn moves_pass_whom_they_should(
    order: Seq<InfoHash>,
    hash: InfoHash,
    other: InfoHash,
)
    requires
        order.no_duplicates(),
        order.len() <= usize::MAX,
        order.contains(hash),
        order.contains(other),
        other != hash,
    ensures
        ({
            let at = order.index_of(hash);
            let there = order.index_of(other);
            let up = moved_order(order, hash, QueueMove::Up);
            let down = moved_order(order, hash, QueueMove::Down);
            let top = moved_order(order, hash, QueueMove::Top);
            let bottom = moved_order(order, hash, QueueMove::Bottom);
            &&& up.index_of(hash) == if at > 0 {
                at - 1
            } else {
                at
            }
            &&& up.index_of(other) == if there == at - 1 {
                there + 1
            } else {
                there
            }
            &&& down.index_of(hash) == if at + 1 < order.len() {
                at + 1
            } else {
                at
            }
            &&& down.index_of(other) == if there == at + 1 {
                there - 1
            } else {
                there
            }
            &&& top.index_of(hash) < top.index_of(other)
            &&& bottom.index_of(other) < bottom.index_of(hash)
            &&& up.len() == order.len() && down.len() == order.len() && top.len() == order.len()
                && bottom.len() == order.len()
        }),
{
    let at = order.index_of(hash);
    let there = order.index_of(other);
    assert(order[at] == hash && order[there] == other);
    if at > 0 {
        crate::queue::neighbours_change_places(order, at - 1, at);
        crate::queue::neighbours_change_places(order, at - 1, there);
    }
    if at + 1 < order.len() {
        crate::queue::neighbours_change_places(order, at, at);
        crate::queue::neighbours_change_places(order, at, there);
    }
    crate::queue::raising_passes_all_others(order, hash, other, other);
    crate::queue::sinking_passes_all_others(order, hash, other, other);
}

} // verus!
