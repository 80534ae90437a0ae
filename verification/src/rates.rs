//! Transfer rates, smoothed in double precision.
use crate::binary64::to_nearest;
use crate::clock::Tick;
use vstd::prelude::*;

verus! {

/// The double nearest to 0.65, times two to the power 54.
pub const KEEP_SHARE: u128 = 11_709_359_031_163_290;

/// The double nearest to 0.35, times two to the power 54.
pub const FRESH_SHARE: u128 = 6_305_039_478_318_694;

/// The double nearest to 0.85, times two to the power 54.
pub const DECAY_SHARE: u128 = 15_312_238_733_059_686;

/// Two to the power 54.
pub const SHARE_SCALE: u128 = 0x40_0000_0000_0000;

/// How long a rate fades after the last transfer before it is zero.
pub const FADE_SECONDS: u64 = 20;

/// A scaled value without its fraction, as large as a counter can hold at most.
pub open spec fn whole(scaled: nat) -> u64 {
    let value = scaled / SHARE_SCALE as nat;
    if value <= u64::MAX {
        value as u64
    } else {
        u64::MAX
    }
}

/// A rate times a share, both rounded as doubles are.
pub open spec fn share_of(rate: u64, share: u128) -> nat {
    crate::binary64::nearest(crate::binary64::nearest(rate as nat) * share as nat)
}

/// A previous and a fresh rate, weighted and rounded as doubles are.
pub open spec fn blended(previous: u64, fresh: u64) -> u64 {
    whole(
        crate::binary64::nearest(share_of(previous, KEEP_SHARE) + share_of(fresh, FRESH_SHARE)),
    )
}

/// A rate that fades.
pub open spec fn faded(previous: u64) -> u64 {
    whole(share_of(previous, DECAY_SHARE))
}

/// The smoothed rate: the fresh one after silence, a blend while data flows, and after the last
/// transfer a rate that fades for a while.
pub open spec fn smoothed(
    previous: u64,
    fresh: u64,
    last_activity: Option<Tick>,
    now: Tick,
) -> u64 {
    if fresh > 0 {
        if previous == 0 {
            fresh
        } else {
            blended(previous, fresh)
        }
    } else if last_activity matches Some(at) && now.since(at) <= FADE_SECONDS
        * crate::clock::NANOS_PER_SECOND {
        faded(previous)
    } else {
        0
    }
}

fn whole_of(scaled: u128) -> (value: u64)
    ensures
        value == whole(scaled as nat),
{
    let value: u128 = scaled / SHARE_SCALE;
    if value <= u64::MAX as u128 {
        value as u64
    } else {
        u64::MAX
    }
}

fn take_share(rate: u64, share: u128) -> (scaled: u128)
    requires
        share <= SHARE_SCALE,
    ensures
        scaled == share_of(rate, share),
        scaled <= 0x100_0000_0000_0000_0000_0000_0000_0000,
{
    let rounded: u128 = to_nearest(rate as u128);
    assert(rounded * share <= 0x80_0000_0000_0000_0000_0000_0000_0000) by (nonlinear_arith)
        requires
            rounded <= 0x2_0000_0000_0000_0000,
            share <= 0x40_0000_0000_0000,
    ;
    to_nearest(rounded * share)
}

/// The smoothed rate.
pub fn smooth_rate(
    previous_rate: u64,
    instantaneous_rate: u64,
    last_activity_at: Option<Tick>,
    now: Tick,
) -> (rate: u64)
    ensures
        rate == smoothed(previous_rate, instantaneous_rate, last_activity_at, now),
{
    if instantaneous_rate > 0 {
        if previous_rate == 0 {
            return instantaneous_rate;
        }
        let kept: u128 = take_share(previous_rate, KEEP_SHARE);
        let fresh: u128 = take_share(instantaneous_rate, FRESH_SHARE);
        return whole_of(to_nearest(kept + fresh));
    }
    let fading: bool = match last_activity_at {
        Some(at) => now.saturating_since(&at) <= FADE_SECONDS * crate::clock::NANOS_PER_SECOND,
        None => false,
    };
    if fading {
        whole_of(take_share(previous_rate, DECAY_SHARE))
    } else {
        0
    }
}

/// A torrent that has moved nothing for longer than rates fade shows no rate.
pub proof fn silence_shows_no_rate(previous: u64, last_activity: Option<Tick>, now: Tick)
    requires
        last_activity matches Some(at) ==> now.since(at) > FADE_SECONDS
            * crate::clock::NANOS_PER_SECOND,
    ensures
        smoothed(previous, 0, last_activity, now) == 0,
{
}

/// A rate while data flows is made of 65 parts of the previous one and 35 parts of the fresh one in
/// a hundred, but for rounding. After a silence the fresh rate shows at once.
pub proof fn rates_follow_the_transfer(
    previous: u64,
    fresh: u64,
    last_activity: Option<Tick>,
    now: Tick,
)
    requires
        fresh > 0,
        previous <= 0x4000_0000_0000_0000,
        fresh <= 0x4000_0000_0000_0000,
    ensures
        previous == 0 ==> smoothed(previous, fresh, last_activity, now) == fresh,
        previous > 0 ==> 1_000_000 * smoothed(previous, fresh, last_activity, now) <= 650_001
            * previous + 350_001 * fresh,
        previous > 0 ==> 1_000_000 * smoothed(previous, fresh, last_activity, now) + 1_000_000
            >= 649_999 * previous + 349_999 * fresh,
{
    if previous > 0 {
        let p = crate::binary64::nearest(previous as nat);
        let f = crate::binary64::nearest(fresh as nat);
        crate::binary64::rounding_is_close(previous as nat);
        crate::binary64::rounding_is_close(fresh as nat);
        let kept = p * KEEP_SHARE as nat;
        let added = f * FRESH_SHARE as nat;
        assert(kept == p * 11_709_359_031_163_290);
        assert(added == f * 6_305_039_478_318_694);
        crate::binary64::rounding_is_close(kept);
        crate::binary64::rounding_is_close(added);
        let a = crate::binary64::nearest(kept);
        let b = crate::binary64::nearest(added);
        assert(a == share_of(previous, KEEP_SHARE));
        assert(b == share_of(fresh, FRESH_SHARE));
        crate::binary64::rounding_is_close(a + b);
        let sum = crate::binary64::nearest(a + b);
        let value = sum / 0x40_0000_0000_0000;
        assert(value * 0x40_0000_0000_0000 <= sum < value * 0x40_0000_0000_0000
            + 0x40_0000_0000_0000);
        assert(value <= u64::MAX);
        assert(blended(previous, fresh) == value);
    }
}

/// A rate without a transfer falls to 85 parts in a hundred, but for rounding, for twenty seconds
/// after the last one, and is zero after that and where there never was one.
pub proof fn rates_fade_without_transfer(previous: u64, last_activity: Option<Tick>, now: Tick)
    ensures
        ({
            let shown = smoothed(previous, 0, last_activity, now);
            let fades = last_activity matches Some(at) && now.nanos <= at.nanos + 20_000_000_000;
            &&& !fades ==> shown == 0
            &&& fades ==> 1_000_000 * shown <= 850_001 * previous
            &&& fades ==> 1_000_000 * shown + 1_000_000 >= 849_999 * previous
        }),
{
    let p = crate::binary64::nearest(previous as nat);
    crate::binary64::rounding_is_close(previous as nat);
    let kept = p * DECAY_SHARE as nat;
    assert(kept == p * 15_312_238_733_059_686);
    crate::binary64::rounding_is_close(kept);
    let sum = crate::binary64::nearest(kept);
    assert(sum == share_of(previous, DECAY_SHARE));
    let value = sum / 0x40_0000_0000_0000;
    assert(value * 0x40_0000_0000_0000 <= sum < value * 0x40_0000_0000_0000
        + 0x40_0000_0000_0000);
    assert(value <= u64::MAX);
    assert(faded(previous) == value);
    assert(20 * 1_000_000_000 == 20_000_000_000int);
}

} // verus!
