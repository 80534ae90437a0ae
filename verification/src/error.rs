//! Errors of the daemon.
use vstd::prelude::*;

verus! {

/// What went wrong, with a message for people.
#[derive(PartialEq, Eq, Debug)]
pub enum CoreError {
    Bencode(String),
    MalformedTorrent(String),
    InvalidInfoHash(String),
    Parse(String),
    Storage(String),
    NetworkBlocked(String),
    Internal(String),
    InvalidConfig(String),
    NotFound(String),
    DuplicateTorrent(String),
    InvalidArgument(String),
}

/// The variant of an error.
#[derive(Clone, Copy, PartialEq, Eq, Structural, Debug)]
pub enum ErrorKind {
    Bencode,
    MalformedTorrent,
    InvalidInfoHash,
    Parse,
    Storage,
    NetworkBlocked,
    Internal,
    InvalidConfig,
    NotFound,
    DuplicateTorrent,
    InvalidArgument,
}

/// An error as a value: its variant and its message.
pub struct ErrorView {
    pub kind: ErrorKind,
    pub message: Seq<char>,
}

impl View for CoreError {
    type V = ErrorView;

    open spec fn view(&self) -> ErrorView {
        match self {
            CoreError::Bencode(m) => ErrorView { kind: ErrorKind::Bencode, message: m@ },
            CoreError::MalformedTorrent(m) => ErrorView {
                kind: ErrorKind::MalformedTorrent,
                message: m@,
            },
            CoreError::InvalidInfoHash(m) => ErrorView {
                kind: ErrorKind::InvalidInfoHash,
                message: m@,
            },
            CoreError::Parse(m) => ErrorView { kind: ErrorKind::Parse, message: m@ },
            CoreError::Storage(m) => ErrorView { kind: ErrorKind::Storage, message: m@ },
            CoreError::NetworkBlocked(m) => ErrorView {
                kind: ErrorKind::NetworkBlocked,
                message: m@,
            },
            CoreError::Internal(m) => ErrorView { kind: ErrorKind::Internal, message: m@ },
            CoreError::InvalidConfig(m) => ErrorView { kind: ErrorKind::InvalidConfig, message: m@ },
            CoreError::NotFound(m) => ErrorView { kind: ErrorKind::NotFound, message: m@ },
            CoreError::DuplicateTorrent(m) => ErrorView {
                kind: ErrorKind::DuplicateTorrent,
                message: m@,
            },
            CoreError::InvalidArgument(m) => ErrorView {
                kind: ErrorKind::InvalidArgument,
                message: m@,
            },
        }
    }
}

impl Clone for CoreError {
    fn clone(&self) -> (copy: CoreError)
        ensures
            copy == *self,
    {
        match self {
            CoreError::Bencode(m) => CoreError::Bencode(m.clone()),
            CoreError::MalformedTorrent(m) => CoreError::MalformedTorrent(m.clone()),
            CoreError::InvalidInfoHash(m) => CoreError::InvalidInfoHash(m.clone()),
            CoreError::Parse(m) => CoreError::Parse(m.clone()),
            CoreError::Storage(m) => CoreError::Storage(m.clone()),
            CoreError::NetworkBlocked(m) => CoreError::NetworkBlocked(m.clone()),
            CoreError::Internal(m) => CoreError::Internal(m.clone()),
            CoreError::InvalidConfig(m) => CoreError::InvalidConfig(m.clone()),
            CoreError::NotFound(m) => CoreError::NotFound(m.clone()),
            CoreError::DuplicateTorrent(m) => CoreError::DuplicateTorrent(m.clone()),
            CoreError::InvalidArgument(m) => CoreError::InvalidArgument(m.clone()),
        }
    }
}

/// The error of an unknown torrent.
pub open spec fn no_torrent() -> ErrorView {
    ErrorView { kind: ErrorKind::NotFound, message: "torrent"@ }
}

/// The error of a torrent file index that is out of range.
pub open spec fn no_torrent_file() -> ErrorView {
    ErrorView { kind: ErrorKind::NotFound, message: "torrent file"@ }
}

impl CoreError {
    /// Whether torrent traffic was refused by containment.
    pub fn is_network_blocked(&self) -> (blocked: bool)
        ensures
            blocked == (self@.kind == ErrorKind::NetworkBlocked),
    {
        matches!(self, CoreError::NetworkBlocked(_))
    }

    /// The error of an unknown torrent.
    pub fn unknown_torrent() -> (error: CoreError)
        ensures
            error@ == no_torrent(),
    {
        CoreError::NotFound(crate::text::owned("torrent"))
    }

    /// The error of a torrent file index that is out of range.
    pub fn unknown_torrent_file() -> (error: CoreError)
        ensures
            error@ == no_torrent_file(),
    {
        CoreError::NotFound(crate::text::owned("torrent file"))
    }
}

/// Errors that no later attempt on the same watched file can cure.
pub fn is_permanent_watch_error(error: &CoreError) -> (permanent: bool)
    ensures
        permanent == (error@.kind == ErrorKind::Bencode || error@.kind
            == ErrorKind::MalformedTorrent || error@.kind == ErrorKind::InvalidInfoHash
            || error@.kind == ErrorKind::Parse),
{
    matches!(
        error,
        CoreError::Bencode(_)
            | CoreError::MalformedTorrent(_)
            | CoreError::InvalidInfoHash(_)
            | CoreError::Parse(_)
    )
}

/// Metadata discovery that gave up because no peer was found, which a later attempt may cure.
pub open spec fn retryable_discovery(error: ErrorView) -> bool {
    &&& error.kind == ErrorKind::Internal
    &&& crate::text::holds_text(
        error.message,
        "magnet metadata fetch failed after discovery retries"@,
    )
    &&& crate::text::holds_text(error.message, "magnet metadata fetch: no peers discovered"@)
}

/// Whether metadata discovery gave up because no peer was found.
pub fn is_retryable_magnet_metadata_discovery_error(error: &CoreError) -> (retryable: bool)
    ensures
        retryable == retryable_discovery(error@),
{
    match error {
        CoreError::Internal(message) => crate::text::contains_text(
            message.as_str(),
            "magnet metadata fetch failed after discovery retries",
        ) && crate::text::contains_text(
            message.as_str(),
            "magnet metadata fetch: no peers discovered",
        ),
        _ => false,
    }
}

/// Only a failed search for metadata that found no peers is worth another try; no other kind of
/// error is, whatever it says.
pub proof fn only_searches_are_tried_again(error: ErrorView)
    ensures
        error.kind != ErrorKind::Internal ==> !retryable_discovery(error),
        error.message.len() == 0 ==> !retryable_discovery(error),
        error.kind == ErrorKind::Internal && crate::text::holds_text(
            error.message,
            "magnet metadata fetch failed after discovery retries"@,
        ) && crate::text::holds_text(error.message, "magnet metadata fetch: no peers discovered"@)
            ==> retryable_discovery(error),
        no_torrent().kind == ErrorKind::NotFound && no_torrent_file().kind == ErrorKind::NotFound,
{
    reveal_strlit("magnet metadata fetch: no peers discovered");
    if error.message.len() == 0 {
        assert("magnet metadata fetch: no peers discovered"@.len() > 0);
    }
}

} // verus!
