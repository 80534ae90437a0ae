//! Whether finished torrents upload.
use crate::clock::Tick;
use crate::fleet::RateSample;
use crate::torrent::{SeedingStatus, Torrent};
use vstd::prelude::*;

verus! {

/// What the upload targets say of a finished torrent.
#[derive(Clone, Copy, PartialEq, Eq, Structural, Debug)]
pub enum SeedDecision {
    Continue,
    StopOnRatio,
    StopOnIdle,
}

/// The upload status that a decision leads to.
pub open spec fn decided_status(decision: SeedDecision) -> SeedingStatus {
    match decision {
        SeedDecision::Continue => SeedingStatus::Queued,
        SeedDecision::StopOnRatio => SeedingStatus::StoppedRatio,
        SeedDecision::StopOnIdle => SeedingStatus::StoppedIdle,
    }
}

/// The upload status that a decision leads to.
pub fn automatic_seeding_status(decision: SeedDecision) -> (status: SeedingStatus)
    ensures
        status == decided_status(decision),
{
    match decision {
        SeedDecision::Continue => SeedingStatus::Queued,
        SeedDecision::StopOnRatio => SeedingStatus::StoppedRatio,
        SeedDecision::StopOnIdle => SeedingStatus::StoppedIdle,
    }
}

/// Seconds since a torrent was finished, or added where that is not known.
pub open spec fn seconds_since_completion(torrent: Torrent, now_seconds: u64) -> u64 {
    let since = torrent.date_completed.unwrap_or(torrent.date_added);
    if now_seconds >= since {
        (now_seconds - since) as u64
    } else {
        0
    }
}

/// Seconds that a torrent has uploaded nothing, counted from its completion where it never did.
pub open spec fn idle_seconds_of(
    torrent: Torrent,
    sample: Option<RateSample>,
    now: Tick,
    now_seconds: u64,
) -> u64 {
    match sample {
        Some(RateSample { last_upload_at: Some(at), .. }) => {
            (now.since(at) / crate::clock::NANOS_PER_SECOND as int) as u64
        },
        _ => seconds_since_completion(torrent, now_seconds),
    }
}

/// Seconds since a torrent was finished, or added where that is not known.
pub fn completion_age_seconds(torrent: &Torrent, now_seconds: u64) -> (age: u64)
    ensures
        age == seconds_since_completion(*torrent, now_seconds),
{
    let since: u64 = match torrent.date_completed {
        Some(date) => date,
        None => torrent.date_added,
    };
    now_seconds.saturating_sub(since)
}

/// Seconds that a torrent has uploaded nothing.
pub fn idle_seconds(
    torrent: &Torrent,
    sample: Option<RateSample>,
    now: Tick,
    now_seconds: u64,
) -> (idle: u64)
    ensures
        idle == idle_seconds_of(*torrent, sample, now, now_seconds),
{
    match sample {
        Some(sample) => match sample.last_upload_at {
            Some(at) => now.saturating_since(&at) / crate::clock::NANOS_PER_SECOND,
            None => completion_age_seconds(torrent, now_seconds),
        },
        None => completion_age_seconds(torrent, now_seconds),
    }
}

/// The bits of a double that is a finite number and not below zero.
pub open spec fn usable_ratio(bits: u64) -> bool {
    let exponent = (bits / 0x10_0000_0000_0000) % 0x800;
    let negative = bits >= 0x8000_0000_0000_0000;
    let zero = bits % 0x8000_0000_0000_0000 == 0;
    exponent != 0x7ff && (!negative || zero)
}

/// Whether a ratio limit, kept as the bits of a double, is a finite number and not below zero.
pub fn is_usable_ratio(bits: u64) -> (usable: bool)
    ensures
        usable == usable_ratio(bits),
{
    let exponent: u64 = (bits / 0x10_0000_0000_0000) % 0x800;
    let negative: bool = bits >= 0x8000_0000_0000_0000;
    let zero: bool = bits % 0x8000_0000_0000_0000 == 0;
    exponent != 0x7ff && (!negative || zero)
}

/// How long a torrent has been idle counts from its last upload where one was measured, else from
/// its completion, else from when it was added; in whole seconds.
pub proof fn idleness_counts_from_the_last_upload(
    torrent: Torrent,
    sample: Option<RateSample>,
    now: Tick,
    now_seconds: u64,
)
    ensures
        ({
            let idle = idle_seconds_of(torrent, sample, now, now_seconds);
            let last = match sample {
                Some(sample) => sample.last_upload_at,
                None => None,
            };
            &&& last matches Some(at) ==> (now.nanos >= at.nanos ==> idle * 1_000_000_000
                <= now.nanos - at.nanos < idle * 1_000_000_000 + 1_000_000_000) && (now.nanos
                < at.nanos ==> idle == 0)
            &&& last.is_none() ==> (torrent.date_completed matches Some(done) ==> (now_seconds
                >= done ==> idle == now_seconds - done) && (now_seconds < done ==> idle == 0))
            &&& last.is_none() && torrent.date_completed.is_none() ==> (now_seconds
                >= torrent.date_added ==> idle == now_seconds - torrent.date_added) && (now_seconds
                < torrent.date_added ==> idle == 0)
        }),
{
}

/// A torrent without a reached target waits to upload; one with a reached target is stopped by it.
pub proof fn reached_targets_are_shown(decision: SeedDecision)
    ensures
        decision == SeedDecision::Continue ==> decided_status(decision) == SeedingStatus::Queued,
        decision == SeedDecision::StopOnRatio ==> decided_status(decision)
            == SeedingStatus::StoppedRatio,
        decision == SeedDecision::StopOnIdle ==> decided_status(decision)
            == SeedingStatus::StoppedIdle,
{
}

} // verus!
