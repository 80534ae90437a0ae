//! Moving a payload file to a new name without ever replacing data.
use crate::error::{CoreError, ErrorKind, ErrorView};
use crate::text::owned;
use vstd::prelude::*;
use vstd::string::*;

verus! {

/// What a renaming came to on disk.
#[derive(Clone, Copy, PartialEq, Eq, Structural, Debug)]
pub enum PayloadRenameOutcome {
    /// The payload stands under its new name.
    Moved,
    /// There was no payload yet: an empty file holds the new name.
    PlaceholderCreated,
}

/// What is to be done next in a renaming, or how it ended.
#[derive(Clone, Copy, PartialEq, Eq, Structural, Debug)]
pub enum RenameStage {
    /// Make the directory of the new name.
    MakeParent,
    /// Look at what stands under the old name.
    Inspect,
    /// Create an empty file under the new name, which must be free.
    Reserve,
    /// Flush that file.
    SyncReserved,
    /// Flush its directory.
    SyncReservedParent,
    /// Link the file under the new name too, which must be free.
    Link,
    /// Open the file, to copy it.
    Open,
    /// Create the copy under the new name, which must be free.
    Create,
    /// Copy the contents.
    Copy,
    /// Flush the copy.
    SyncCopy,
    /// Remove a copy that failed.
    Discard,
    /// Flush the directory of the new name.
    SyncDestination,
    /// Remove the new name again.
    Clean,
    /// Remove the old name.
    RemoveSource,
    /// Flush the directory of the old name.
    SyncSource,
    /// Link the file under the old name again.
    Relink,
    /// Remove the new name after the old one is back.
    RemoveDestination,
    /// It is over, and the payload moved.
    Moved,
    /// It is over, and the new name is reserved.
    Reserved,
    /// It is over, and failed.
    Failed,
}

/// What stands under a name.
#[derive(Clone, Copy, PartialEq, Eq, Structural, Debug)]
pub enum SourceKind {
    Missing,
    File,
    Other,
}

/// A failed step.
#[derive(Debug)]
pub struct Failure {
    /// The error to be returned.
    pub error: CoreError,
    /// The cause in the system's words.
    pub cause: String,
    /// The error in words.
    pub rendered: String,
}

/// How a step went.
#[derive(Debug)]
pub enum Report {
    Done,
    /// An inspection found this.
    Found(SourceKind),
    Failed(Failure),
}

/// How a step went, but for the words.
#[derive(Clone, Copy, PartialEq, Eq, Structural, Debug)]
pub enum Course {
    Done,
    Found(SourceKind),
    Failed,
}

impl Report {
    /// How the step went, but for the words.
    pub open spec fn course(self) -> Course {
        match self {
            Report::Done => Course::Done,
            Report::Found(kind) => Course::Found(kind),
            Report::Failed(_) => Course::Failed,
        }
    }
}

/// The stage that follows.
pub open spec fn stage_after(stage: RenameStage, course: Course) -> RenameStage {
    let failed = course == Course::Failed;
    match stage {
        RenameStage::MakeParent => if failed {
            RenameStage::Failed
        } else {
            RenameStage::Inspect
        },
        RenameStage::Inspect => match course {
            Course::Found(SourceKind::Missing) => RenameStage::Reserve,
            Course::Found(SourceKind::File) => RenameStage::Link,
            _ => RenameStage::Failed,
        },
        RenameStage::Reserve => if failed {
            RenameStage::Failed
        } else {
            RenameStage::SyncReserved
        },
        RenameStage::SyncReserved => if failed {
            RenameStage::Failed
        } else {
            RenameStage::SyncReservedParent
        },
        RenameStage::SyncReservedParent => if failed {
            RenameStage::Failed
        } else {
            RenameStage::Reserved
        },
        RenameStage::Link => if failed {
            RenameStage::Open
        } else {
            RenameStage::SyncDestination
        },
        RenameStage::Open => if failed {
            RenameStage::Failed
        } else {
            RenameStage::Create
        },
        RenameStage::Create => if failed {
            RenameStage::Failed
        } else {
            RenameStage::Copy
        },
        RenameStage::Copy => if failed {
            RenameStage::Discard
        } else {
            RenameStage::SyncCopy
        },
        RenameStage::SyncCopy => if failed {
            RenameStage::Discard
        } else {
            RenameStage::SyncDestination
        },
        RenameStage::Discard => RenameStage::Failed,
        RenameStage::SyncDestination => if failed {
            RenameStage::Clean
        } else {
            RenameStage::RemoveSource
        },
        RenameStage::Clean => RenameStage::Failed,
        RenameStage::RemoveSource => if failed {
            RenameStage::Clean
        } else {
            RenameStage::SyncSource
        },
        RenameStage::SyncSource => if failed {
            RenameStage::Relink
        } else {
            RenameStage::Moved
        },
        RenameStage::Relink => if failed {
            RenameStage::Failed
        } else {
            RenameStage::RemoveDestination
        },
        RenameStage::RemoveDestination => RenameStage::Failed,
        RenameStage::Moved => RenameStage::Moved,
        RenameStage::Reserved => RenameStage::Reserved,
        RenameStage::Failed => RenameStage::Failed,
    }
}

/// A storage error with a message.
pub open spec fn storage_error(message: Seq<char>) -> ErrorView {
    ErrorView { kind: ErrorKind::Storage, message }
}

/// A renaming under way.
#[derive(Debug)]
pub struct Renaming {
    pub stage: RenameStage,
    /// What an earlier failure said that the renaming went on after.
    pub note: String,
    /// The error that it will end with.
    pub error: Option<CoreError>,
}

/// The message that the source is no file.
pub open spec fn not_a_file(source: Seq<char>) -> Seq<char> {
    "rename source is not a regular file: "@ + source
}

/// The message that the new name could not be reserved.
pub open spec fn not_reserved(destination: Seq<char>, cause: Seq<char>) -> Seq<char> {
    "cannot reserve rename destination "@ + destination + ": "@ + cause
}

/// The message that the file could be neither linked nor copied.
pub open spec fn not_copied(
    source: Seq<char>,
    destination: Seq<char>,
    link: Seq<char>,
    cause: Seq<char>,
) -> Seq<char> {
    "cannot rename "@ + source + " to "@ + destination
        + " without replacing data: hard link failed ("@ + link + "); exclusive copy failed ("@
        + cause + ")"@
}

/// The message that the new name could not be made to last.
pub open spec fn not_synced(destination: Seq<char>, rendered: Seq<char>) -> Seq<char> {
    "cannot sync rename destination "@ + destination + ": "@ + rendered
}

/// The message that the old name could not be removed.
pub open spec fn not_removed(source: Seq<char>, cause: Seq<char>) -> Seq<char> {
    "cannot remove rename source "@ + source + ": "@ + cause
}

/// The message that the new name could not be removed either.
pub open spec fn not_cleaned(message: Seq<char>, cause: Seq<char>) -> Seq<char> {
    message + "; destination cleanup failed: "@ + cause
}

/// The message that the renaming could not be undone.
pub open spec fn not_undone(rendered: Seq<char>, again: Seq<char>) -> Seq<char> {
    rendered + "; rename rollback also failed: "@ + again
}

/// The error that a renaming holds after a step.
pub open spec fn error_after(
    before: Renaming,
    report: Report,
    source: Seq<char>,
    destination: Seq<char>,
) -> Option<ErrorView> {
    let held = match before.error {
        Some(error) => Some(error@),
        None => None,
    };
    match report {
        Report::Failed(failure) => match before.stage {
            RenameStage::MakeParent | RenameStage::Inspect | RenameStage::SyncReserved
            | RenameStage::SyncReservedParent | RenameStage::Open | RenameStage::Copy
            | RenameStage::SyncCopy | RenameStage::SyncSource => Some(failure.error@),
            RenameStage::Reserve => Some(
                storage_error(not_reserved(destination, failure.cause@)),
            ),
            RenameStage::Create => Some(
                storage_error(not_copied(source, destination, before.note@, failure.cause@)),
            ),
            RenameStage::SyncDestination => Some(
                storage_error(not_synced(destination, failure.rendered@)),
            ),
            RenameStage::RemoveSource => Some(storage_error(not_removed(source, failure.cause@))),
            RenameStage::Clean => Some(storage_error(not_cleaned(before.note@, failure.cause@))),
            RenameStage::Relink | RenameStage::RemoveDestination => Some(
                storage_error(not_undone(before.note@, failure.rendered@)),
            ),
            _ => held,
        },
        Report::Found(kind) => if before.stage == RenameStage::Inspect && kind
            == SourceKind::Other {
            Some(storage_error(not_a_file(source)))
        } else if before.stage == RenameStage::Inspect {
            None
        } else {
            held
        },
        Report::Done => if before.stage == RenameStage::Inspect {
            Some(storage_error(not_a_file(source)))
        } else {
            held
        },
    }
}

/// What a renaming notes after a step.
pub open spec fn note_after(
    before: Renaming,
    report: Report,
    source: Seq<char>,
    destination: Seq<char>,
) -> Seq<char> {
    match report {
        Report::Failed(failure) => match before.stage {
            RenameStage::Link => failure.cause@,
            RenameStage::SyncDestination => not_synced(destination, failure.rendered@),
            RenameStage::RemoveSource => not_removed(source, failure.cause@),
            RenameStage::SyncSource => failure.rendered@,
            _ => before.note@,
        },
        _ => before.note@,
    }
}

fn joined(a: &str, b: &str, c: &str, d: &str) -> (text: String)
    ensures
        text@ == a@ + b@ + c@ + d@,
{
    let mut text: String = owned(a);
    text.append(b);
    text.append(c);
    text.append(d);
    text
}

/// The stage that follows.
fn next_stage(stage: RenameStage, course: Course) -> (next: RenameStage)
    ensures
        next == stage_after(stage, course),
{
    let failed: bool = match course {
        Course::Failed => true,
        _ => false,
    };
    match stage {
        RenameStage::MakeParent => if failed {
            RenameStage::Failed
        } else {
            RenameStage::Inspect
        },
        RenameStage::Inspect => match course {
            Course::Found(SourceKind::Missing) => RenameStage::Reserve,
            Course::Found(SourceKind::File) => RenameStage::Link,
            _ => RenameStage::Failed,
        },
        RenameStage::Reserve => if failed {
            RenameStage::Failed
        } else {
            RenameStage::SyncReserved
        },
        RenameStage::SyncReserved => if failed {
            RenameStage::Failed
        } else {
            RenameStage::SyncReservedParent
        },
        RenameStage::SyncReservedParent => if failed {
            RenameStage::Failed
        } else {
            RenameStage::Reserved
        },
        RenameStage::Link => if failed {
            RenameStage::Open
        } else {
            RenameStage::SyncDestination
        },
        RenameStage::Open => if failed {
            RenameStage::Failed
        } else {
            RenameStage::Create
        },
        RenameStage::Create => if failed {
            RenameStage::Failed
        } else {
            RenameStage::Copy
        },
        RenameStage::Copy => if failed {
            RenameStage::Discard
        } else {
            RenameStage::SyncCopy
        },
        RenameStage::SyncCopy => if failed {
            RenameStage::Discard
        } else {
            RenameStage::SyncDestination
        },
        RenameStage::Discard => RenameStage::Failed,
        RenameStage::SyncDestination => if failed {
            RenameStage::Clean
        } else {
            RenameStage::RemoveSource
        },
        RenameStage::Clean => RenameStage::Failed,
        RenameStage::RemoveSource => if failed {
            RenameStage::Clean
        } else {
            RenameStage::SyncSource
        },
        RenameStage::SyncSource => if failed {
            RenameStage::Relink
        } else {
            RenameStage::Moved
        },
        RenameStage::Relink => if failed {
            RenameStage::Failed
        } else {
            RenameStage::RemoveDestination
        },
        RenameStage::RemoveDestination => RenameStage::Failed,
        RenameStage::Moved => RenameStage::Moved,
        RenameStage::Reserved => RenameStage::Reserved,
        RenameStage::Failed => RenameStage::Failed,
    }
}

impl Renaming {
    /// A renaming of which nothing has been done.
    pub fn rename_payload_exclusive() -> (renaming: Renaming)
        ensures
            renaming.stage == RenameStage::MakeParent,
            renaming.note@.len() == 0,
            renaming.error.is_none(),
    {
        Renaming { stage: RenameStage::MakeParent, note: String::new(), error: None }
    }

    /// Takes in how the step of its stage went.
    pub fn step(self, report: Report, source: &str, destination: &str) -> (next: Renaming)
        ensures
            next.stage == stage_after(self.stage, report.course()),
            next.note@ == note_after(self, report, source@, destination@),
            error_after(self, report, source@, destination@) == match next.error {
                Some(error) => Some(error@),
                None => None,
            },
    {
        let Renaming { stage, note, error } = self;
        match report {
            Report::Done => {
                let next: RenameStage = next_stage(stage, Course::Done);
                let held: Option<CoreError> = match stage {
                    RenameStage::Inspect => {
                        let mut message: String = owned("rename source is not a regular file: ");
                        message.append(source);
                        Some(CoreError::Storage(message))
                    },
                    _ => error,
                };
                Renaming { stage: next, note, error: held }
            },
            Report::Found(kind) => {
                let next: RenameStage = next_stage(stage, Course::Found(kind));
                let held: Option<CoreError> = match stage {
                    RenameStage::Inspect => match kind {
                        SourceKind::Other => {
                            let mut message: String = owned(
                                "rename source is not a regular file: ",
                            );
                            message.append(source);
                            Some(CoreError::Storage(message))
                        },
                        _ => None,
                    },
                    _ => error,
                };
                Renaming { stage: next, note, error: held }
            },
            Report::Failed(failure) => Renaming { stage, note, error }.fail(
                failure,
                source,
                destination,
            ),
        }
    }

    fn fail(self, failure: Failure, source: &str, destination: &str) -> (next: Renaming)
        ensures
            next.stage == stage_after(self.stage, Course::Failed),
            next.note@ == note_after(self, Report::Failed(failure), source@, destination@),
            error_after(self, Report::Failed(failure), source@, destination@) == match next.error {
                Some(error) => Some(error@),
                None => None,
            },
    {
        let Renaming { stage, note, error } = self;
        let next: RenameStage = next_stage(stage, Course::Failed);
        let Failure { error: own, cause, rendered } = failure;
        match stage {
            RenameStage::MakeParent | RenameStage::Inspect | RenameStage::SyncReserved
            | RenameStage::SyncReservedParent | RenameStage::Open | RenameStage::Copy
            | RenameStage::SyncCopy => Renaming { stage: next, note, error: Some(own) },
            RenameStage::Reserve => {
                let message: String = joined(
                    "cannot reserve rename destination ",
                    destination,
                    ": ",
                    cause.as_str(),
                );
                Renaming { stage: next, note, error: Some(CoreError::Storage(message)) }
            },
            RenameStage::Link => Renaming { stage: next, note: cause, error },
            RenameStage::Create => {
                let mut message: String = joined("cannot rename ", source, " to ", destination);
                message.append(" without replacing data: hard link failed (");
                message.append(note.as_str());
                message.append("); exclusive copy failed (");
                message.append(cause.as_str());
                message.append(")");
                Renaming { stage: next, note, error: Some(CoreError::Storage(message)) }
            },
            RenameStage::SyncDestination => {
                let message: String = joined(
                    "cannot sync rename destination ",
                    destination,
                    ": ",
                    rendered.as_str(),
                );
                Renaming {
                    stage: next,
                    note: message.clone(),
                    error: Some(CoreError::Storage(message)),
                }
            },
            RenameStage::RemoveSource => {
                let message: String = joined(
                    "cannot remove rename source ",
                    source,
                    ": ",
                    cause.as_str(),
                );
                Renaming {
                    stage: next,
                    note: message.clone(),
                    error: Some(CoreError::Storage(message)),
                }
            },
            RenameStage::Clean => {
                let mut message: String = note.clone();
                message.append("; destination cleanup failed: ");
                message.append(cause.as_str());
                Renaming { stage: next, note, error: Some(CoreError::Storage(message)) }
            },
            RenameStage::SyncSource => Renaming { stage: next, note: rendered, error: Some(own) },
            RenameStage::Relink | RenameStage::RemoveDestination => {
                let mut message: String = note.clone();
                message.append("; rename rollback also failed: ");
                message.append(rendered.as_str());
                Renaming { stage: next, note, error: Some(CoreError::Storage(message)) }
            },
            _ => Renaming { stage: next, note, error },
        }
    }
}

/// What stands under a name, and what it holds.
pub enum Item {
    File(Seq<u8>),
    Other(nat),
}

/// What stands under the two names.
#[verifier::ext_equal]
pub struct Disk {
    pub source: Option<Item>,
    pub destination: Option<Item>,
}

/// The kind of what stands under a name.
pub open spec fn kind_of(item: Option<Item>) -> SourceKind {
    match item {
        None => SourceKind::Missing,
        Some(Item::File(_)) => SourceKind::File,
        Some(Item::Other(_)) => SourceKind::Other,
    }
}

/// What the step of a stage does on disk, as the system promises it: a name is created only where
/// it is free, and a step that fails leaves all names as they are.
pub open spec fn performed(stage: RenameStage, course: Course, before: Disk, after: Disk) -> bool {
    let failed = course == Course::Failed;
    match stage {
        RenameStage::Inspect => {
            &&& after == before
            &&& course matches Course::Found(kind) ==> kind == kind_of(before.source)
        },
        RenameStage::Reserve | RenameStage::Create => if failed {
            after == before
        } else {
            before.destination.is_none() && after == (Disk {
                destination: Some(Item::File(Seq::<u8>::empty())),
                ..before
            })
        },
        RenameStage::Link => if failed {
            after == before
        } else {
            before.destination.is_none() && after == (Disk {
                destination: before.source,
                ..before
            })
        },
        RenameStage::Copy => if failed {
            after.source == before.source
        } else {
            after == (Disk { destination: before.source, ..before })
        },
        RenameStage::Discard | RenameStage::Clean | RenameStage::RemoveDestination => if failed {
            after == before
        } else {
            after == (Disk { destination: None, ..before })
        },
        RenameStage::RemoveSource => if failed {
            after == before
        } else {
            after == (Disk { source: None, ..before })
        },
        RenameStage::Relink => if failed {
            after == before
        } else {
            before.source.is_none() && after == (Disk { source: before.destination, ..before })
        },
        _ => after == before,
    }
}

/// What holds of the disk at each stage of a renaming that began with `first`.
pub open spec fn consistent(stage: RenameStage, first: Disk, disk: Disk) -> bool {
    let file = kind_of(first.source) == SourceKind::File;
    match stage {
        RenameStage::MakeParent | RenameStage::Inspect => disk == first,
        RenameStage::Reserve => disk == first && first.source.is_none(),
        RenameStage::SyncReserved | RenameStage::SyncReservedParent | RenameStage::Reserved => {
            &&& first.source.is_none()
            &&& first.destination.is_none()
            &&& disk.source.is_none()
            &&& disk.destination == Some(Item::File(Seq::<u8>::empty()))
        },
        RenameStage::Link | RenameStage::Open | RenameStage::Create => disk == first && file,
        RenameStage::Copy | RenameStage::Discard | RenameStage::Clean => {
            &&& file
            &&& first.destination.is_none()
            &&& disk.source == first.source
        },
        RenameStage::SyncCopy | RenameStage::SyncDestination | RenameStage::RemoveSource
        | RenameStage::RemoveDestination => {
            &&& file
            &&& first.destination.is_none()
            &&& disk == (Disk { source: first.source, destination: first.source })
        },
        RenameStage::SyncSource | RenameStage::Relink | RenameStage::Moved => {
            &&& file
            &&& first.destination.is_none()
            &&& disk == (Disk { source: None, destination: first.source })
        },
        RenameStage::Failed => {
            &&& first.destination.is_some() ==> disk == first
            &&& first.source.is_none() ==> disk.source.is_none()
            &&& disk.source == first.source || (disk.source.is_none() && disk.destination
                == first.source)
        },
    }
}

/// However its steps go, a renaming to a name that is taken leaves both names as they are, and
/// the payload stands under the old name or the new one at every moment.
pub proof fn renaming_loses_nothing(
    stage: RenameStage,
    course: Course,
    first: Disk,
    before: Disk,
    after: Disk,
)
    requires
        consistent(stage, first, before),
        performed(stage, course, before, after),
    ensures
        consistent(stage_after(stage, course), first, after),
        first.destination.is_some() ==> after == first,
        first.source.is_some() ==> after.source == first.source || after.destination
            == first.source,
{
}

/// A file that was renamed and then renamed back stands where it stood.
pub proof fn renaming_back_restores(first: Disk, moved: Disk, back: Disk)
    requires
        consistent(RenameStage::Moved, first, moved),
        consistent(
            RenameStage::Moved,
            (Disk { source: moved.destination, destination: moved.source }),
            (Disk { source: back.destination, destination: back.source }),
        ),
    ensures
        back == first,
{
}

/// What undoes a renaming.
#[derive(Clone, Copy, PartialEq, Eq, Structural, Debug)]
pub enum RollbackStep {
    /// Rename the new name to the old one.
    RenameBack,
    /// Remove the new name, then flush its directory.
    RemoveDestination,
}

/// What undoes a renaming that came to an outcome.
pub fn rollback_payload_rename(outcome: PayloadRenameOutcome) -> (step: RollbackStep)
    ensures
        step == match outcome {
            PayloadRenameOutcome::Moved => RollbackStep::RenameBack,
            PayloadRenameOutcome::PlaceholderCreated => RollbackStep::RemoveDestination,
        },
{
    match outcome {
        PayloadRenameOutcome::Moved => RollbackStep::RenameBack,
        PayloadRenameOutcome::PlaceholderCreated => RollbackStep::RemoveDestination,
    }
}

/// What renaming back came to: it must have found the payload.
pub fn renamed_back(renamed: Result<PayloadRenameOutcome, CoreError>) -> (outcome: Result<
    (),
    CoreError,
>)
    ensures
        outcome.is_ok() == (renamed == Ok::<PayloadRenameOutcome, CoreError>(
            PayloadRenameOutcome::Moved,
        )),
        renamed matches Err(error) ==> outcome == Err::<(), CoreError>(error),
        renamed == Ok::<PayloadRenameOutcome, CoreError>(PayloadRenameOutcome::PlaceholderCreated)
            ==> (outcome matches Err(error) && error@ == storage_error(
            "rename rollback found a missing destination payload"@,
        )),
{
    match renamed {
        Ok(PayloadRenameOutcome::Moved) => Ok(()),
        Ok(PayloadRenameOutcome::PlaceholderCreated) => Err(
            CoreError::Storage(owned("rename rollback found a missing destination payload")),
        ),
        Err(error) => Err(error),
    }
}

/// A renaming whose steps all succeed links the new name, flushes it, removes the old name and
/// flushes that; where there is nothing to rename it reserves the new name and flushes it.
pub proof fn renamings_take_their_course(stage: RenameStage, course: Course)
    ensures
        ({
            let next = stage_after(stage, course);
            let failed = course == Course::Failed;
            &&& stage == RenameStage::MakeParent && !failed ==> next == RenameStage::Inspect
            &&& stage == RenameStage::Inspect && course == Course::Found(SourceKind::File) ==> next
                == RenameStage::Link
            &&& stage == RenameStage::Inspect && course == Course::Found(SourceKind::Missing)
                ==> next == RenameStage::Reserve
            &&& stage == RenameStage::Inspect && course == Course::Found(SourceKind::Other) ==> next
                == RenameStage::Failed
            &&& stage == RenameStage::Link && !failed ==> next == RenameStage::SyncDestination
            &&& stage == RenameStage::SyncDestination && !failed ==> next
                == RenameStage::RemoveSource
            &&& stage == RenameStage::RemoveSource && !failed ==> next == RenameStage::SyncSource
            &&& stage == RenameStage::SyncSource && !failed ==> next == RenameStage::Moved
            &&& stage == RenameStage::Reserve && !failed ==> next == RenameStage::SyncReserved
            &&& stage == RenameStage::SyncReserved && !failed ==> next
                == RenameStage::SyncReservedParent
            &&& stage == RenameStage::SyncReservedParent && !failed ==> next
                == RenameStage::Reserved
            &&& stage == RenameStage::Open && !failed ==> next == RenameStage::Create
            &&& stage == RenameStage::Create && !failed ==> next == RenameStage::Copy
            &&& stage == RenameStage::Copy && !failed ==> next == RenameStage::SyncCopy
            &&& stage == RenameStage::SyncCopy && !failed ==> next == RenameStage::SyncDestination
        }),
{
}

/// A name that cannot be linked is copied. What was made under the new name is taken away again
/// where a later step fails, and the old name is put back where it was gone already. A renaming
/// ends as moved, as reserved or as failed, and stays so; the old name goes only after the new one
/// is flushed.
pub proof fn failed_renamings_are_cleared_up(stage: RenameStage, course: Course)
    ensures
        ({
            let next = stage_after(stage, course);
            &&& stage_after(RenameStage::Link, Course::Failed) == RenameStage::Open
            &&& stage_after(RenameStage::Copy, Course::Failed) == RenameStage::Discard
            &&& stage_after(RenameStage::SyncCopy, Course::Failed) == RenameStage::Discard
            &&& stage_after(RenameStage::SyncDestination, Course::Failed) == RenameStage::Clean
            &&& stage_after(RenameStage::RemoveSource, Course::Failed) == RenameStage::Clean
            &&& stage_after(RenameStage::SyncSource, Course::Failed) == RenameStage::Relink
            &&& stage == RenameStage::Relink && course != Course::Failed ==> next
                == RenameStage::RemoveDestination
            &&& stage == RenameStage::Relink && course == Course::Failed ==> next
                == RenameStage::Failed
            &&& stage == RenameStage::Discard || stage == RenameStage::Clean || stage
                == RenameStage::RemoveDestination ==> next == RenameStage::Failed
            &&& stage == RenameStage::Moved || stage == RenameStage::Reserved || stage
                == RenameStage::Failed ==> next == stage
            &&& next == RenameStage::Moved && stage != RenameStage::Moved ==> stage
                == RenameStage::SyncSource && course != Course::Failed
            &&& next == RenameStage::Reserved && stage != RenameStage::Reserved ==> stage
                == RenameStage::SyncReservedParent && course != Course::Failed
            &&& next == RenameStage::RemoveSource ==> stage == RenameStage::SyncDestination
                && course != Course::Failed
        }),
{
}

/// A renaming that comes to an end as failed has an error to tell, unless the step that failed last
/// had one already; a step that succeeded makes none.
pub proof fn failures_leave_an_error(
    before: Renaming,
    report: Report,
    source: Seq<char>,
    destination: Seq<char>,
)
    ensures
        ({
            let after = error_after(before, report, source, destination);
            let held = match before.error {
                Some(error) => Some(error@),
                None => None,
            };
            &&& report is Done && before.stage != RenameStage::Inspect ==> after == held
            &&& report is Failed && (before.stage == RenameStage::MakeParent || before.stage
                == RenameStage::Inspect || before.stage == RenameStage::Open || before.stage
                == RenameStage::Copy || before.stage == RenameStage::SyncCopy || before.stage
                == RenameStage::SyncSource || before.stage == RenameStage::SyncReserved
                || before.stage == RenameStage::SyncReservedParent) ==> after == Some(
                report->Failed_0.error@,
            )
            &&& report is Failed && (before.stage == RenameStage::Reserve || before.stage
                == RenameStage::Create || before.stage == RenameStage::SyncDestination
                || before.stage == RenameStage::RemoveSource || before.stage == RenameStage::Clean
                || before.stage == RenameStage::Relink || before.stage
                == RenameStage::RemoveDestination) ==> after.is_some() && after->0.kind
                == ErrorKind::Storage
            &&& report is Failed && (before.stage == RenameStage::Link || before.stage
                == RenameStage::Discard) ==> after == held
            &&& before.stage == RenameStage::Inspect && report == Report::Found(
                SourceKind::Other,
            ) ==> after.is_some() && after->0.kind == ErrorKind::Storage
            &&& before.stage == RenameStage::Inspect && (report == Report::Found(SourceKind::File)
                || report == Report::Found(SourceKind::Missing)) ==> after.is_none()
        }),
{
}

/// What a failed step said is kept where the renaming goes on after it: why a name could not be
/// linked, flushed or removed.
pub proof fn notes_tell_why(
    before: Renaming,
    report: Report,
    source: Seq<char>,
    destination: Seq<char>,
)
    ensures
        ({
            let after = note_after(before, report, source, destination);
            &&& !(report is Failed) ==> after == before.note@
            &&& report is Failed && before.stage == RenameStage::Link ==> after
                == report->Failed_0.cause@
            &&& report is Failed && before.stage == RenameStage::SyncSource ==> after
                == report->Failed_0.rendered@
            &&& report is Failed && (before.stage == RenameStage::MakeParent || before.stage
                == RenameStage::Open || before.stage == RenameStage::Copy || before.stage
                == RenameStage::Clean) ==> after == before.note@
        }),
{
}

} // verus!
