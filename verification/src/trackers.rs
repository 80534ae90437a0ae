//! Trackers of torrents, and announcing uploads to them.
use crate::error::CoreError;
use crate::fleet::Fleet;
use crate::hash::InfoHash;
use crate::text::{characters, same_text};
use crate::torrent::{Torrent, TorrentMeta};
use vstd::prelude::*;

verus! {

/// What came of the last announce to a tracker.
#[derive(Clone, Copy, PartialEq, Eq, Structural, Debug)]
pub enum TrackerStatus {
    NotContacted,
    Working,
    Error,
}

/// What an engine keeps of a tracker.
#[derive(Debug)]
pub struct TrackerSnapshot {
    pub url: String,
    pub status: TrackerStatus,
    pub seeders: u32,
    pub leechers: u32,
    pub downloads: u32,
    pub last_error: Option<String>,
    pub last_message: Option<String>,
    pub last_announce: Option<u64>,
}

/// A tracker as it is shown.
#[derive(Debug)]
pub struct TrackerInfo {
    pub url: String,
    pub tier: usize,
    pub status: TrackerStatus,
    pub seeders: u32,
    pub leechers: u32,
    pub downloads: u32,
    pub last_error: Option<String>,
    pub last_message: Option<String>,
    pub next_announce: Option<u64>,
    pub last_announce: Option<u64>,
}

/// The shortest wait between announces that is shown, in seconds.
pub const SHORTEST_INTERVAL: u64 = 30;

/// A tracker that was not contacted yet.
pub open spec fn is_idle_tracker(info: TrackerInfo, url: String, tier: usize) -> bool {
    info == (TrackerInfo {
        url,
        tier,
        status: TrackerStatus::NotContacted,
        seeders: 0,
        leechers: 0,
        downloads: 0,
        last_error: None,
        last_message: None,
        next_announce: None,
        last_announce: None,
    })
}

/// When the next announce is due.
pub open spec fn next_announce_of(last: Option<u64>, interval: u64) -> Option<u64> {
    match last {
        Some(last) => {
            let wait = if interval >= SHORTEST_INTERVAL {
                interval
            } else {
                SHORTEST_INTERVAL
            };
            Some(
                if last + wait <= u64::MAX {
                    (last + wait) as u64
                } else {
                    u64::MAX
                },
            )
        },
        None => None,
    }
}

/// A tracker as it is shown with what an engine keeps of it.
pub open spec fn shows_snapshot(
    info: TrackerInfo,
    url: String,
    tier: usize,
    snapshot: TrackerSnapshot,
    interval: u64,
) -> bool {
    info == (TrackerInfo {
        url,
        tier,
        status: snapshot.status,
        seeders: snapshot.seeders,
        leechers: snapshot.leechers,
        downloads: snapshot.downloads,
        last_error: snapshot.last_error,
        last_message: snapshot.last_message,
        next_announce: next_announce_of(snapshot.last_announce, interval),
        last_announce: snapshot.last_announce,
    })
}

/// A tracker that was not contacted yet.
pub fn make_tracker(url: &String, tier: usize) -> (info: TrackerInfo)
    ensures
        is_idle_tracker(info, *url, tier),
{
    TrackerInfo {
        url: url.clone(),
        tier,
        status: TrackerStatus::NotContacted,
        seeders: 0,
        leechers: 0,
        downloads: 0,
        last_error: None,
        last_message: None,
        next_announce: None,
        last_announce: None,
    }
}

fn copied_text(text: &Option<String>) -> (copy: Option<String>)
    ensures
        copy == *text,
{
    match text {
        Some(text) => Some(text.clone()),
        None => None,
    }
}

/// The first kept tracker with an address.
pub open spec fn snapshot_place(snapshots: Seq<TrackerSnapshot>, url: Seq<char>) -> Option<int> {
    if exists|i: int| 0 <= i < snapshots.len() && (#[trigger] snapshots[i]).url@ == url {
        Some(
            choose|i: int|
                0 <= i < snapshots.len() && (#[trigger] snapshots[i]).url@ == url
                    && forall|k: int| 0 <= k < i ==> (#[trigger] snapshots[k]).url@ != url,
        )
    } else {
        None
    }
}

/// A tracker of a tier as it is shown.
pub open spec fn tracker_shown(
    info: TrackerInfo,
    url: String,
    tier: usize,
    snapshots: Seq<TrackerSnapshot>,
    interval: u64,
) -> bool {
    match snapshot_place(snapshots, url@) {
        Some(at) => shows_snapshot(info, url, tier, snapshots[at], interval),
        None => is_idle_tracker(info, url, tier),
    }
}

/// A tracker of a tier as it is shown.
pub fn show_tracker(
    url: &String,
    tier: usize,
    snapshots: &Vec<TrackerSnapshot>,
    interval_seconds: u64,
) -> (info: TrackerInfo)
    ensures
        tracker_shown(info, *url, tier, snapshots@, interval_seconds),
{
    let mut i: usize = 0;
    while i < snapshots.len()
        invariant
            i <= snapshots@.len(),
            forall|k: int| 0 <= k < i ==> (#[trigger] snapshots@[k]).url@ != url@,
        decreases snapshots@.len() - i,
    {
        let snapshot: &TrackerSnapshot = &snapshots[i];
        if same_text(snapshot.url.as_str(), url.as_str()) {
            proof {
                assert(snapshots@[i as int].url@ == url@);
                let at = snapshot_place(snapshots@, url@)->0;
                assert(0 <= at < snapshots@.len() && snapshots@[at].url@ == url@);
                if at < i {
                    assert(snapshots@[at].url@ != url@);
                }
                if i < at {
                    assert(snapshots@[i as int].url@ != url@);
                }
            }
            let wait: u64 = if interval_seconds >= SHORTEST_INTERVAL {
                interval_seconds
            } else {
                SHORTEST_INTERVAL
            };
            let next_announce: Option<u64> = match snapshot.last_announce {
                Some(last) => Some(last.saturating_add(wait)),
                None => None,
            };
            return TrackerInfo {
                url: url.clone(),
                tier,
                status: snapshot.status,
                seeders: snapshot.seeders,
                leechers: snapshot.leechers,
                downloads: snapshot.downloads,
                last_error: copied_text(&snapshot.last_error),
                last_message: copied_text(&snapshot.last_message),
                next_announce,
                last_announce: snapshot.last_announce,
            };
        }
        i = i + 1;
    }
    make_tracker(url, tier)
}

/// The trackers of the first tiers with their tiers, in order.
pub open spec fn listed(tiers: Seq<Vec<String>>, count: nat) -> Seq<(String, usize)>
    decreases count,
{
    if count == 0 {
        Seq::<(String, usize)>::empty()
    } else {
        let last = (count - 1) as nat;
        listed(tiers, last) + tiers[last as int]@.map_values(
            |url: String| (url, last as usize),
        )
    }
}

/// The trackers of a torrent as they are shown.
pub fn list_trackers(
    tiers: &Vec<Vec<String>>,
    snapshots: &Vec<TrackerSnapshot>,
    interval_seconds: u64,
) -> (infos: Vec<TrackerInfo>)
    ensures
        infos@.len() == listed(tiers@, tiers@.len()).len(),
        forall|i: int|
            0 <= i < infos@.len() ==> tracker_shown(
                #[trigger] infos@[i],
                listed(tiers@, tiers@.len())[i].0,
                listed(tiers@, tiers@.len())[i].1,
                snapshots@,
                interval_seconds,
            ),
{
    let mut infos: Vec<TrackerInfo> = Vec::new();
    let mut tier: usize = 0;
    while tier < tiers.len()
        invariant
            tier <= tiers@.len(),
            infos@.len() == listed(tiers@, tier as nat).len(),
            forall|i: int|
                0 <= i < infos@.len() ==> tracker_shown(
                    #[trigger] infos@[i],
                    listed(tiers@, tier as nat)[i].0,
                    listed(tiers@, tier as nat)[i].1,
                    snapshots@,
                    interval_seconds,
                ),
        decreases tiers@.len() - tier,
    {
        let ghost before = listed(tiers@, tier as nat);
        let urls: &Vec<String> = &tiers[tier];
        let mut k: usize = 0;
        while k < urls.len()
            invariant
                k <= urls@.len(),
                infos@.len() == before.len() + k,
                forall|i: int|
                    0 <= i < before.len() ==> tracker_shown(
                        #[trigger] infos@[i],
                        before[i].0,
                        before[i].1,
                        snapshots@,
                        interval_seconds,
                    ),
                forall|i: int|
                    before.len() <= i < infos@.len() ==> tracker_shown(
                        #[trigger] infos@[i],
                        urls@[i - before.len()],
                        tier,
                        snapshots@,
                        interval_seconds,
                    ),
            decreases urls@.len() - k,
        {
            infos.push(show_tracker(&urls[k], tier, snapshots, interval_seconds));
            k = k + 1;
        }
        proof {
            let after = listed(tiers@, (tier + 1) as nat);
            assert forall|i: int| 0 <= i < infos@.len() implies tracker_shown(
                #[trigger] infos@[i],
                after[i].0,
                after[i].1,
                snapshots@,
                interval_seconds,
            ) by {
                if i < before.len() {
                    assert(after[i] == before[i]);
                } else {
                    assert(after[i] == (urls@[i - before.len()], tier));
                }
            }
        }
        tier = tier + 1;
    }
    infos
}

/// Addresses other than one.
pub open spec fn other_url(url: Seq<char>) -> spec_fn(String) -> bool {
    |other: String| other@ != url
}

/// The first tiers without an address, and without tiers in which nothing is left.
pub open spec fn tiers_without(tiers: Seq<Seq<String>>, url: Seq<char>, count: nat) -> Seq<
    Seq<String>,
>
    decreases count,
{
    if count == 0 {
        Seq::<Seq<String>>::empty()
    } else {
        let before = tiers_without(tiers, url, (count - 1) as nat);
        let kept = tiers[count - 1].filter(other_url(url));
        if kept.len() == 0 {
            before
        } else {
            before.push(kept)
        }
    }
}

/// A tier with an address replaced.
pub open spec fn tier_with(tier: Seq<String>, old_url: Seq<char>, new_url: String) -> Seq<String> {
    tier.map_values(
        |url: String|
            if url@ == old_url {
                new_url
            } else {
                url
            },
    )
}

/// A change of tiers that replaces an address.
pub open spec fn url_replaced(old_url: Seq<char>, new_url: String) -> spec_fn(Seq<String>) -> Seq<
    String,
> {
    |tier: Seq<String>| tier_with(tier, old_url, new_url)
}

/// The torrent's first tracker has the address.
pub open spec fn announces_to(meta: TorrentMeta, url: Seq<char>) -> bool {
    meta.announce matches Some(announce) && announce@ == url
}

/// The metadata with one more tracker: the first where there was none, else a tier of its own.
pub open spec fn tracker_added(before: TorrentMeta, after: TorrentMeta, url: String) -> bool {
    &&& after == (TorrentMeta {
        announce: after.announce,
        announce_list: after.announce_list,
        ..before
    })
    &&& before.announce.is_none() ==> after.announce == Some(url) && after.announce_list
        == before.announce_list
    &&& before.announce.is_some() ==> after.announce == before.announce && crate::copies::lists_of(
        after.announce_list@,
    ) == crate::copies::lists_of(before.announce_list@).push(seq![url])
}

/// The metadata without a tracker.
pub open spec fn tracker_removed(before: TorrentMeta, after: TorrentMeta, url: Seq<char>) -> bool {
    &&& after == (TorrentMeta {
        announce: after.announce,
        announce_list: after.announce_list,
        ..before
    })
    &&& after.announce == if announces_to(before, url) {
        None
    } else {
        before.announce
    }
    &&& crate::copies::lists_of(after.announce_list@) == tiers_without(
        crate::copies::lists_of(before.announce_list@),
        url,
        before.announce_list@.len(),
    )
}

/// The metadata with a tracker's address replaced: that of the first tracker, else all of that
/// address in the tiers.
pub open spec fn tracker_edited(
    before: TorrentMeta,
    after: TorrentMeta,
    old_url: Seq<char>,
    new_url: String,
) -> bool {
    &&& after == (TorrentMeta {
        announce: after.announce,
        announce_list: after.announce_list,
        ..before
    })
    &&& announces_to(before, old_url) ==> after.announce == Some(new_url) && after.announce_list
        == before.announce_list
    &&& !announces_to(before, old_url) ==> after.announce == before.announce && crate::copies::lists_of(
        after.announce_list@,
    ) == crate::copies::lists_of(before.announce_list@).map_values(url_replaced(old_url, new_url))
}

fn drop_url(tier: &Vec<String>, url: &str) -> (kept: Vec<String>)
    ensures
        kept@ == tier@.filter(other_url(url@)),
{
    let mut kept: Vec<String> = Vec::new();
    let ghost keep = other_url(url@);
    let mut i: usize = 0;
    assert(tier@.take(0).filter(keep) =~= kept@) by {
        reveal(Seq::filter);
    }
    while i < tier.len()
        invariant
            i <= tier@.len(),
            keep == other_url(url@),
            kept@ == tier@.take(i as int).filter(keep),
        decreases tier@.len() - i,
    {
        proof {
            reveal(Seq::filter);
            assert(tier@.take(i + 1).drop_last() =~= tier@.take(i as int));
            assert(tier@.take(i + 1).last() == tier@[i as int]);
        }
        if !same_text(tier[i].as_str(), url) {
            kept.push(tier[i].clone());
        }
        i = i + 1;
    }
    assert(tier@.take(i as int) =~= tier@);
    kept
}

fn remove_from_tiers(list: &Vec<Vec<String>>, url: &str) -> (kept: Vec<Vec<String>>)
    ensures
        crate::copies::lists_of(kept@) == tiers_without(crate::copies::lists_of(list@), url@, list@.len()),
{
    let mut kept: Vec<Vec<String>> = Vec::new();
    let mut i: usize = 0;
    assert(crate::copies::lists_of(kept@) =~= Seq::<Seq<String>>::empty());
    while i < list.len()
        invariant
            i <= list@.len(),
            crate::copies::lists_of(kept@) == tiers_without(crate::copies::lists_of(list@), url@, i as nat),
        decreases list@.len() - i,
    {
        let tier: Vec<String> = drop_url(&list[i], url);
        assert(crate::copies::lists_of(list@)[i as int] == list@[i as int]@);
        if tier.len() > 0 {
            let ghost before = kept@;
            let ghost value = tier@;
            kept.push(tier);
            assert(crate::copies::lists_of(kept@) =~= crate::copies::lists_of(before).push(value));
        }
        i = i + 1;
    }
    kept
}

fn replace_in_tier(tier: &Vec<String>, old_url: &str, new_url: &String) -> (edited: Vec<String>)
    ensures
        edited@ == tier_with(tier@, old_url@, *new_url),
{
    let mut edited: Vec<String> = Vec::new();
    let mut i: usize = 0;
    while i < tier.len()
        invariant
            i <= tier@.len(),
            edited@ == tier_with(tier@.take(i as int), old_url@, *new_url),
        decreases tier@.len() - i,
    {
        if same_text(tier[i].as_str(), old_url) {
            edited.push(new_url.clone());
        } else {
            edited.push(tier[i].clone());
        }
        i = i + 1;
        assert(edited@ =~= tier_with(tier@.take(i as int), old_url@, *new_url));
    }
    assert(tier@.take(i as int) =~= tier@);
    edited
}

fn replace_in_tiers(list: &Vec<Vec<String>>, old_url: &str, new_url: &String) -> (edited: Vec<
    Vec<String>,
>)
    ensures
        crate::copies::lists_of(edited@) == crate::copies::lists_of(list@).map_values(url_replaced(old_url@, *new_url)),
{
    let ghost change = url_replaced(old_url@, *new_url);
    let mut edited: Vec<Vec<String>> = Vec::new();
    let mut i: usize = 0;
    while i < list.len()
        invariant
            i <= list@.len(),
            change == url_replaced(old_url@, *new_url),
            crate::copies::lists_of(edited@) == crate::copies::lists_of(list@.take(i as int)).map_values(change),
        decreases list@.len() - i,
    {
        let ghost before = edited@;
        let tier: Vec<String> = replace_in_tier(&list[i], old_url, new_url);
        let ghost value = tier@;
        edited.push(tier);
        assert(crate::copies::lists_of(edited@) =~= crate::copies::lists_of(before).push(value));
        assert(list@.take(i + 1) =~= list@.take(i as int).push(list@[i as int]));
        assert(crate::copies::lists_of(list@.take(i + 1)) =~= crate::copies::lists_of(list@.take(i as int)).push(
            list@[i as int]@,
        ));
        i = i + 1;
        assert(crate::copies::lists_of(edited@) =~= crate::copies::lists_of(list@.take(i as int)).map_values(change));
    }
    assert(list@.take(i as int) =~= list@);
    edited
}

impl Fleet {
    /// Gives a torrent one more tracker.
    pub fn add_tracker(&mut self, hash: InfoHash, url: String) -> (outcome: Result<(), CoreError>)
        requires
            old(self).wf(),
        ensures
            final(self).wf(),
            outcome.is_ok() == old(self)@.registry.dom().contains(hash),
            outcome.is_ok() ==> {
                let before = old(self)@.registry[hash];
                let after = final(self)@.registry[hash];
                &&& final(self)@ == old(self)@.with(hash, after)
                &&& after == (Torrent { meta: after.meta, ..before })
                &&& tracker_added(before.meta, after.meta, url)
            },
            outcome matches Err(error) ==> error@ == crate::error::no_torrent() && final(self)@
                == old(self)@,
    {
        match self.registry.find(&hash) {
            Some(position) => {
                let torrent: &mut Torrent = self.registry.value_at_mut(position);
                if torrent.meta.announce.is_none() {
                    torrent.meta.announce = Some(url);
                } else {
                    let ghost before = torrent.meta.announce_list@;
                    let mut tier: Vec<String> = Vec::new();
                    tier.push(url);
                    assert(tier@ =~= seq![url]);
                    torrent.meta.announce_list.push(tier);
                    assert(crate::copies::lists_of(torrent.meta.announce_list@) =~= crate::copies::lists_of(before).push(
                        seq![url],
                    ));
                }
                Ok(())
            },
            None => Err(CoreError::unknown_torrent()),
        }
    }

    /// Takes a tracker away from a torrent.
    pub fn remove_tracker(&mut self, hash: InfoHash, url: &str) -> (outcome: Result<(), CoreError>)
        requires
            old(self).wf(),
        ensures
            final(self).wf(),
            outcome.is_ok() == old(self)@.registry.dom().contains(hash),
            outcome.is_ok() ==> {
                let before = old(self)@.registry[hash];
                let after = final(self)@.registry[hash];
                &&& final(self)@ == old(self)@.with(hash, after)
                &&& after == (Torrent { meta: after.meta, ..before })
                &&& tracker_removed(before.meta, after.meta, url@)
            },
            outcome matches Err(error) ==> error@ == crate::error::no_torrent() && final(self)@
                == old(self)@,
    {
        match self.registry.find(&hash) {
            Some(position) => {
                let torrent: &mut Torrent = self.registry.value_at_mut(position);
                let first: bool = match &torrent.meta.announce {
                    Some(announce) => same_text(announce.as_str(), url),
                    None => false,
                };
                if first {
                    torrent.meta.announce = None;
                }
                let kept: Vec<Vec<String>> = remove_from_tiers(&torrent.meta.announce_list, url);
                torrent.meta.announce_list = kept;
                Ok(())
            },
            None => Err(CoreError::unknown_torrent()),
        }
    }

    /// Replaces the address of a torrent's tracker.
    pub fn edit_tracker(&mut self, hash: InfoHash, old_url: &str, new_url: String) -> (outcome:
        Result<(), CoreError>)
        requires
            old(self).wf(),
        ensures
            final(self).wf(),
            outcome.is_ok() == old(self)@.registry.dom().contains(hash),
            outcome.is_ok() ==> {
                let before = old(self)@.registry[hash];
                let after = final(self)@.registry[hash];
                &&& final(self)@ == old(self)@.with(hash, after)
                &&& after == (Torrent { meta: after.meta, ..before })
                &&& tracker_edited(before.meta, after.meta, old_url@, new_url)
            },
            outcome matches Err(error) ==> error@ == crate::error::no_torrent() && final(self)@
                == old(self)@,
    {
        match self.registry.find(&hash) {
            Some(position) => {
                let torrent: &mut Torrent = self.registry.value_at_mut(position);
                let first: bool = match &torrent.meta.announce {
                    Some(announce) => same_text(announce.as_str(), old_url),
                    None => false,
                };
                if first {
                    torrent.meta.announce = Some(new_url);
                } else {
                    let edited: Vec<Vec<String>> = replace_in_tiers(
                        &torrent.meta.announce_list,
                        old_url,
                        &new_url,
                    );
                    torrent.meta.announce_list = edited;
                }
                Ok(())
            },
            None => Err(CoreError::unknown_torrent()),
        }
    }
}

/// After a tracker was taken away, no tier holds its address.
pub proof fn removed_trackers_are_gone(
    before: TorrentMeta,
    after: TorrentMeta,
    url: Seq<char>,
    tier: int,
    place: int,
)
    requires
        tracker_removed(before, after, url),
        0 <= tier < after.announce_list@.len(),
        0 <= place < after.announce_list@[tier]@.len(),
    ensures
        !announces_to(after, url),
        after.announce_list@[tier]@[place]@ != url,
{
    lemma_tiers_without(crate::copies::lists_of(before.announce_list@), url, before.announce_list@.len());
    assert(crate::copies::lists_of(after.announce_list@)[tier] == after.announce_list@[tier]@);
    assert(lacks(crate::copies::lists_of(after.announce_list@)[tier], url));
}

/// No address of the tier is this one.
pub open spec fn lacks(tier: Seq<String>, url: Seq<char>) -> bool {
    forall|place: int| 0 <= place < tier.len() ==> (#[trigger] tier[place])@ != url
}

proof fn lemma_tiers_without(tiers: Seq<Seq<String>>, url: Seq<char>, count: nat)
    requires
        count <= tiers.len(),
    ensures
        forall|tier: int|
            0 <= tier < tiers_without(tiers, url, count).len() ==> lacks(
                #[trigger] tiers_without(tiers, url, count)[tier],
                url,
            ),
    decreases count,
{
    if count > 0 {
        lemma_tiers_without(tiers, url, (count - 1) as nat);
        lemma_filtered_urls(tiers[count - 1], url);
        let before = tiers_without(tiers, url, (count - 1) as nat);
        assert forall|tier: int| 0 <= tier < tiers_without(tiers, url, count).len() implies lacks(
            #[trigger] tiers_without(tiers, url, count)[tier],
            url,
        ) by {
            if tier < before.len() {
                assert(lacks(before[tier], url));
            }
        }
    }
}

proof fn lemma_filtered_urls(tier: Seq<String>, url: Seq<char>)
    ensures
        lacks(tier.filter(other_url(url)), url),
    decreases tier.len(),
{
    reveal(Seq::filter);
    if tier.len() > 0 {
        lemma_filtered_urls(tier.drop_last(), url);
    }
}

/// What an announce came to.
#[derive(Clone, Copy, PartialEq, Eq, Structural, Debug)]
pub enum AnnounceOutcome {
    /// The tracker took it and says when to come back.
    Accepted { interval: u64, min_interval: Option<u64> },
    /// The tracker refused it.
    Refused,
    /// It could not be sent or answered.
    Failed,
    /// No answer came in time.
    TimedOut,
}

/// The wait after an announce that was taken, in seconds: what the tracker asks for, between half
/// a minute and a day.
pub open spec fn accepted_wait(interval: u64, min_interval: Option<u64>) -> u64 {
    let least = min_interval.unwrap_or(0);
    let asked = if interval >= least {
        interval
    } else {
        least
    };
    if asked < 30 {
        30
    } else if asked > 86_400 {
        86_400
    } else {
        asked
    }
}

/// The wait after a round of announces, in seconds: that of the first tracker that took one, else
/// five minutes.
pub open spec fn round_wait(outcomes: Seq<AnnounceOutcome>) -> u64
    decreases outcomes.len(),
{
    if outcomes.len() == 0 {
        300
    } else {
        match outcomes[0] {
            AnnounceOutcome::Accepted { interval, min_interval } => accepted_wait(
                interval,
                min_interval,
            ),
            _ => round_wait(outcomes.skip(1)),
        }
    }
}

/// The wait that an announce leads to, if it was taken; then no further tracker is asked.
pub fn announce_wait(outcome: AnnounceOutcome) -> (wait: Option<u64>)
    ensures
        wait == match outcome {
            AnnounceOutcome::Accepted { interval, min_interval } => Some(
                accepted_wait(interval, min_interval),
            ),
            _ => None,
        },
{
    match outcome {
        AnnounceOutcome::Accepted { interval, min_interval } => {
            let least: u64 = match min_interval {
                Some(least) => least,
                None => 0,
            };
            let asked: u64 = if interval >= least {
                interval
            } else {
                least
            };
            Some(
                if asked < 30 {
                    30
                } else if asked > 86_400 {
                    86_400
                } else {
                    asked
                },
            )
        },
        _ => None,
    }
}

/// The wait after a round of announces.
pub fn seeder_announce_once(outcomes: &Vec<AnnounceOutcome>) -> (wait: u64)
    ensures
        wait == round_wait(outcomes@),
{
    let mut i: usize = 0;
    assert(outcomes@.skip(0) =~= outcomes@);
    while i < outcomes.len()
        invariant
            i <= outcomes@.len(),
            round_wait(outcomes@) == round_wait(outcomes@.skip(i as int)),
        decreases outcomes@.len() - i,
    {
        assert(outcomes@.skip(i as int)[0] == outcomes@[i as int]);
        assert(outcomes@.skip(i as int).skip(1) =~= outcomes@.skip(i + 1));
        if let Some(wait) = announce_wait(outcomes[i]) {
            return wait;
        }
        i = i + 1;
    }
    300
}

/// An announce that is taken is followed by a wait between half a minute and a day.
pub proof fn waits_are_bounded(outcomes: Seq<AnnounceOutcome>)
    ensures
        30 <= round_wait(outcomes) <= 86_400,
    decreases outcomes.len(),
{
    if outcomes.len() > 0 {
        waits_are_bounded(outcomes.skip(1));
    }
}

/// The text begins with the sample.
pub open spec fn begins_with(text: Seq<char>, sample: Seq<char>) -> bool {
    sample.len() <= text.len() && text.take(sample.len() as int) == sample
}

/// Whether a tracker is announced to by datagrams.
pub fn is_udp_tracker(url: &str) -> (udp: bool)
    ensures
        udp == begins_with(url@, "udp://"@),
{
    let text: Vec<char> = characters(url);
    let sample: Vec<char> = characters("udp://");
    if sample.len() > text.len() {
        return false;
    }
    let mut i: usize = 0;
    while i < sample.len()
        invariant
            i <= sample@.len() <= text@.len(),
            text@ == url@,
            sample@ == "udp://"@,
            forall|k: int| 0 <= k < i ==> text@[k] == #[trigger] sample@[k],
        decreases sample@.len() - i,
    {
        if text[i] != sample[i] {
            assert(text@.take(sample@.len() as int)[i as int] != sample@[i as int]);
            return false;
        }
        i = i + 1;
    }
    assert(text@.take(sample@.len() as int) =~= sample@);
    true
}

/// Where the announcing of an upload stands.
#[derive(Clone, Copy, PartialEq, Eq, Structural, Debug)]
pub enum AnnounceState {
    /// The first announce is on its way.
    Starting,
    /// The next announce is due after this many seconds.
    Waiting { seconds: u64 },
    /// It is over.
    Ended,
}

/// What an announce tells the tracker.
#[derive(Clone, Copy, PartialEq, Eq, Structural, Debug)]
pub enum AnnounceEvent {
    Started,
    Empty,
    Stopped,
}

/// What happens while an upload is announced.
#[derive(Clone, Copy, PartialEq, Eq, Structural, Debug)]
pub enum AnnounceInput {
    /// The shutdown signal changed to this.
    Shutdown(bool),
    /// A round of announces is over and leads to this wait.
    Announced { wait: u64 },
    /// The wait is over.
    Due,
}

/// What is to be done next.
#[derive(Clone, Copy, PartialEq, Eq, Structural, Debug)]
pub enum AnnounceAction {
    Announce(AnnounceEvent),
    Sleep { seconds: u64 },
    /// A last announce, then nothing more.
    Farewell,
    End,
}

/// The next state and action of announcing an upload. A shutdown before the first announce came
/// through ends it without a farewell; a later one ends it with one.
pub open spec fn announce_next(
    state: AnnounceState,
    input: AnnounceInput,
) -> (AnnounceState, AnnounceAction) {
    match (state, input) {
        (AnnounceState::Ended, _) => (AnnounceState::Ended, AnnounceAction::End),
        (AnnounceState::Starting, AnnounceInput::Shutdown(true)) => (
            AnnounceState::Ended,
            AnnounceAction::End,
        ),
        (AnnounceState::Starting, AnnounceInput::Shutdown(false)) => (
            AnnounceState::Waiting { seconds: 300 },
            AnnounceAction::Sleep { seconds: 300 },
        ),
        (AnnounceState::Starting, AnnounceInput::Due) => (
            AnnounceState::Starting,
            AnnounceAction::Announce(AnnounceEvent::Started),
        ),
        (_, AnnounceInput::Announced { wait }) => (
            AnnounceState::Waiting { seconds: wait },
            AnnounceAction::Sleep { seconds: wait },
        ),
        (AnnounceState::Waiting { .. }, AnnounceInput::Shutdown(true)) => (
            AnnounceState::Ended,
            AnnounceAction::Farewell,
        ),
        (AnnounceState::Waiting { seconds }, AnnounceInput::Shutdown(false)) => (
            AnnounceState::Waiting { seconds },
            AnnounceAction::Sleep { seconds },
        ),
        (AnnounceState::Waiting { seconds }, AnnounceInput::Due) => (
            AnnounceState::Waiting { seconds },
            AnnounceAction::Announce(AnnounceEvent::Empty),
        ),
    }
}

/// The next state and action of announcing an upload.
pub fn seeder_announce_step(state: AnnounceState, input: AnnounceInput) -> (next: (
    AnnounceState,
    AnnounceAction,
))
    ensures
        next == announce_next(state, input),
{
    match (state, input) {
        (AnnounceState::Ended, _) => (AnnounceState::Ended, AnnounceAction::End),
        (AnnounceState::Starting, AnnounceInput::Shutdown(true)) => (
            AnnounceState::Ended,
            AnnounceAction::End,
        ),
        (AnnounceState::Starting, AnnounceInput::Shutdown(false)) => (
            AnnounceState::Waiting { seconds: 300 },
            AnnounceAction::Sleep { seconds: 300 },
        ),
        (AnnounceState::Starting, AnnounceInput::Due) => (
            AnnounceState::Starting,
            AnnounceAction::Announce(AnnounceEvent::Started),
        ),
        (_, AnnounceInput::Announced { wait }) => (
            AnnounceState::Waiting { seconds: wait },
            AnnounceAction::Sleep { seconds: wait },
        ),
        (AnnounceState::Waiting { .. }, AnnounceInput::Shutdown(true)) => (
            AnnounceState::Ended,
            AnnounceAction::Farewell,
        ),
        (AnnounceState::Waiting { seconds }, AnnounceInput::Shutdown(false)) => (
            AnnounceState::Waiting { seconds },
            AnnounceAction::Sleep { seconds },
        ),
        (AnnounceState::Waiting { seconds }, AnnounceInput::Due) => (
            AnnounceState::Waiting { seconds },
            AnnounceAction::Announce(AnnounceEvent::Empty),
        ),
    }
}

/// After an announce that was taken the wait is what the tracker asks for, and no shorter than the
/// least that it allows, as far as both lie between half a minute and a day.
pub proof fn trackers_set_the_wait(interval: u64, min_interval: Option<u64>)
    ensures
        ({
            let wait = accepted_wait(interval, min_interval);
            &&& 30 <= wait <= 86_400
            &&& interval <= 86_400 ==> wait >= interval
            &&& min_interval matches Some(least) ==> least <= 86_400 ==> wait >= least
            &&& 30 <= interval <= 86_400 && (min_interval matches Some(least) ==> least
                <= interval) ==> wait == interval
            &&& min_interval matches Some(least) ==> interval <= least && 30 <= least <= 86_400
                ==> wait == least
            &&& interval > 86_400 ==> wait == 86_400
            &&& interval < 30 && (min_interval matches Some(least) ==> least < 30) ==> wait == 30
        }),
{
}

/// The first tracker that took an announce sets the wait of the round, whatever the later ones
/// said; where none took one, the round comes again after five minutes.
pub proof fn the_first_answer_sets_the_wait(outcomes: Seq<AnnounceOutcome>, first: int)
    requires
        0 <= first <= outcomes.len(),
        forall|i: int|
            0 <= i < first ==> !((#[trigger] outcomes[i]) is Accepted),
        first < outcomes.len() ==> outcomes[first] is Accepted,
    ensures
        first == outcomes.len() ==> round_wait(outcomes) == 300,
        first < outcomes.len() ==> (outcomes[first] matches AnnounceOutcome::Accepted {
            interval,
            min_interval,
        } ==> round_wait(outcomes) == accepted_wait(interval, min_interval)),
    decreases first,
{
    if first > 0 {
        let rest = outcomes.skip(1);
        assert(!(outcomes[0] is Accepted));
        assert forall|i: int| 0 <= i < first - 1 implies !((#[trigger] rest[i]) is Accepted) by {
            assert(rest[i] == outcomes[i + 1]);
        }
        if first < outcomes.len() {
            assert(rest[first - 1] == outcomes[first]);
        }
        the_first_answer_sets_the_wait(rest, first - 1);
    }
}

/// The next announce is due the interval after the last one, and half a minute after it at the
/// earliest; without a last one it is not known.
pub proof fn announces_are_due_after_the_interval(last: u64, interval: u64)
    ensures
        next_announce_of(None, interval).is_none(),
        interval >= 30 && last + interval <= u64::MAX ==> next_announce_of(Some(last), interval)
            == Some((last + interval) as u64),
        interval < 30 && last + 30 <= u64::MAX ==> next_announce_of(Some(last), interval) == Some(
            (last + 30) as u64,
        ),
        next_announce_of(Some(last), interval) matches Some(due) && due >= last,
{
}

/// An upload is announced as started until the trackers were reached, and without an event after
/// that. It ends with a farewell exactly where the trackers were reached before; nothing follows
/// its end. After a round it waits as long as the round says.
pub proof fn announcing_runs_its_course(state: AnnounceState, input: AnnounceInput)
    ensures
        ({
            let (next, action) = announce_next(state, input);
            &&& state is Ended ==> next is Ended && action is End
            &&& input == AnnounceInput::Shutdown(true) ==> next is Ended
            &&& next is Ended && !(state is Ended) ==> input == AnnounceInput::Shutdown(true)
            &&& (action is Farewell) == (state is Waiting && input == AnnounceInput::Shutdown(true))
            &&& action == AnnounceAction::Announce(AnnounceEvent::Started) ==> state is Starting
                && next is Starting && input is Due
            &&& action == AnnounceAction::Announce(AnnounceEvent::Empty) ==> state is Waiting
                && next == state && input is Due
            &&& input is Due && !(state is Ended) ==> action is Announce && action
                != AnnounceAction::Announce(AnnounceEvent::Stopped)
            &&& !(state is Ended) ==> (input matches AnnounceInput::Announced { wait } ==> next
                == (AnnounceState::Waiting { seconds: wait }) && action == (AnnounceAction::Sleep {
                seconds: wait,
            }))
            &&& state is Starting && input == AnnounceInput::Shutdown(false) ==> next == (
            AnnounceState::Waiting { seconds: 300 })
            &&& state is Waiting && input == AnnounceInput::Shutdown(false) ==> next == state
            &&& next matches AnnounceState::Waiting { seconds } ==> !(input is Due) ==> action == (
            AnnounceAction::Sleep { seconds })
        }),
{
    match state {
        AnnounceState::Ended => {},
        AnnounceState::Starting => {
            match input {
                AnnounceInput::Shutdown(off) => {},
                AnnounceInput::Announced { wait } => {},
                AnnounceInput::Due => {},
            }
        },
        AnnounceState::Waiting { seconds } => {
            match input {
                AnnounceInput::Shutdown(off) => {},
                AnnounceInput::Announced { wait } => {},
                AnnounceInput::Due => {},
            }
        },
    }
}

/// An added tracker is the torrent's first where it had none, and stands alone in a last tier
/// otherwise; the trackers that were there stay.
pub proof fn added_trackers_come_last(before: TorrentMeta, after: TorrentMeta, url: String)
    requires
        tracker_added(before, after, url),
    ensures
        before.announce.is_none() ==> after.announce == Some(url) && after.announce_list
            == before.announce_list,
        before.announce.is_some() ==> {
            &&& after.announce == before.announce
            &&& after.announce_list@.len() == before.announce_list@.len() + 1
            &&& after.announce_list@.last()@.len() == 1
            &&& after.announce_list@.last()@[0] == url
            &&& forall|tier: int|
                0 <= tier < before.announce_list@.len() ==> (
                #[trigger] after.announce_list@[tier])@ == before.announce_list@[tier]@
        },
        after.info_hash == before.info_hash && after.files == before.files && after.name
            == before.name,
{
    if before.announce.is_some() {
        let was = crate::copies::lists_of(before.announce_list@);
        let lists = crate::copies::lists_of(after.announce_list@);
        assert(lists.len() == after.announce_list@.len());
        assert(lists[lists.len() - 1] == seq![url]);
        assert(after.announce_list@.last()@ == lists[lists.len() - 1]);
        assert forall|tier: int| 0 <= tier < before.announce_list@.len() implies (
        #[trigger] after.announce_list@[tier])@ == before.announce_list@[tier]@ by {
            assert(lists[tier] == was[tier]);
        }
    }
}

/// Replacing a tracker's address changes the first tracker where that has the address, and else
/// every place in the tiers that has it; no other address changes, and none is added or lost.
pub proof fn edited_trackers_keep_their_places(
    before: TorrentMeta,
    after: TorrentMeta,
    old_url: Seq<char>,
    new_url: String,
    tier: int,
    place: int,
)
    requires
        tracker_edited(before, after, old_url, new_url),
        0 <= tier < before.announce_list@.len(),
        0 <= place < before.announce_list@[tier]@.len(),
    ensures
        after.announce_list@.len() == before.announce_list@.len(),
        after.announce_list@[tier]@.len() == before.announce_list@[tier]@.len(),
        (before.announce matches Some(first) && first@ == old_url) ==> after.announce == Some(
            new_url,
        ) && after.announce_list@[tier]@[place] == before.announce_list@[tier]@[place],
        !(before.announce matches Some(first) && first@ == old_url) ==> after.announce
            == before.announce && after.announce_list@[tier]@[place] == if before.announce_list@[tier]@[place]@
            == old_url {
            new_url
        } else {
            before.announce_list@[tier]@[place]
        },
{
    let was = crate::copies::lists_of(before.announce_list@);
    let lists = crate::copies::lists_of(after.announce_list@);
    assert(was.len() == before.announce_list@.len());
    assert(lists.len() == after.announce_list@.len());
    assert(was[tier] == before.announce_list@[tier]@);
    if !announces_to(before, old_url) {
        assert(lists[tier] == tier_with(was[tier], old_url, new_url));
        assert(lists[tier] == after.announce_list@[tier]@);
    }
}

/// Every address of every tier is shown once, in order, with its tier; and nothing else is.
pub proof fn every_tracker_is_listed(tiers: Seq<Vec<String>>, count: nat, tier: int, place: int)
    requires
        0 <= tier < count <= tiers.len(),
        tiers.len() <= usize::MAX,
        0 <= place < tiers[tier]@.len(),
    ensures
        listed(tiers, count).contains((tiers[tier]@[place], tier as usize)),
        listed(tiers, count).len() >= tiers[tier]@.len(),
        forall|i: int, j: int|
            #![trigger listed(tiers, count)[i], listed(tiers, count)[j]]
            0 <= i < j < listed(tiers, count).len() ==> listed(tiers, count)[i].1 <= listed(
                tiers,
                count,
            )[j].1,
        forall|i: int|
            0 <= i < listed(tiers, count).len() ==> (#[trigger] listed(tiers, count)[i]).1 < count,
    decreases count,
{
    lemma_listed_order(tiers, count);
    let last = (count - 1) as nat;
    let before = listed(tiers, last);
    let all = listed(tiers, count);
    if tier == last {
        assert(all[before.len() + place] == (tiers[tier]@[place], tier as usize));
    } else {
        every_tracker_is_listed(tiers, last, tier, place);
        let wanted = (tiers[tier]@[place], tier as usize);
        assert(all[before.index_of(wanted)] == wanted);
    }
}

proof fn lemma_listed_order(tiers: Seq<Vec<String>>, count: nat)
    requires
        count <= tiers.len(),
        tiers.len() <= usize::MAX,
    ensures
        forall|i: int|
            0 <= i < listed(tiers, count).len() ==> (#[trigger] listed(tiers, count)[i]).1 < count,
        forall|i: int, j: int|
            #![trigger listed(tiers, count)[i], listed(tiers, count)[j]]
            0 <= i < j < listed(tiers, count).len() ==> listed(tiers, count)[i].1 <= listed(
                tiers,
                count,
            )[j].1,
    decreases count,
{
    if count > 0 {
        let last = (count - 1) as nat;
        lemma_listed_order(tiers, last);
        let before = listed(tiers, last);
        let all = listed(tiers, count);
        assert forall|i: int| 0 <= i < all.len() implies (#[trigger] all[i]).1 < count by {
            if i < before.len() {
                assert(all[i] == before[i]);
            }
        }
        assert forall|i: int, j: int|
            #![trigger all[i], all[j]]
            0 <= i < j < all.len() implies all[i].1 <= all[j].1 by {
            if j < before.len() {
                assert(all[i] == before[i] && all[j] == before[j]);
            } else if i < before.len() {
                assert(all[i] == before[i]);
            }
        }
    }
}

/// A tracker is shown with what was last heard of exactly its address; one that nothing was heard
/// of is shown as not contacted.
pub proof fn trackers_are_shown_as_heard_of(
    info: TrackerInfo,
    url: String,
    tier: usize,
    snapshots: Seq<TrackerSnapshot>,
    interval: u64,
    at: int,
)
    requires
        tracker_shown(info, url, tier, snapshots, interval),
    ensures
        info.url == url && info.tier == tier,
        (forall|i: int| 0 <= i < snapshots.len() ==> (#[trigger] snapshots[i]).url@ != url@)
            ==> info.status == TrackerStatus::NotContacted && info.seeders == 0 && info.leechers
            == 0 && info.last_error.is_none() && info.next_announce.is_none(),
        0 <= at < snapshots.len() && snapshots[at].url@ == url@ && (forall|i: int|
            0 <= i < at ==> (#[trigger] snapshots[i]).url@ != url@) ==> info.status
            == snapshots[at].status && info.seeders == snapshots[at].seeders && info.leechers
            == snapshots[at].leechers && info.downloads == snapshots[at].downloads
            && info.last_error == snapshots[at].last_error && info.last_message
            == snapshots[at].last_message && info.last_announce == snapshots[at].last_announce,
{
    if 0 <= at < snapshots.len() && snapshots[at].url@ == url@ && (forall|i: int|
        0 <= i < at ==> (#[trigger] snapshots[i]).url@ != url@) {
        let found = choose|i: int|
            0 <= i < snapshots.len() && (#[trigger] snapshots[i]).url@ == url@ && forall|k: int|
                0 <= k < i ==> (#[trigger] snapshots[k]).url@ != url@;
        assert(0 <= found < snapshots.len() && snapshots[found].url@ == url@);
        assert(found == at);
    }
}

/// A text begins with a sample where it goes on from it, and nowhere else.
pub proof fn beginnings_are_compared(sample: Seq<char>, rest: Seq<char>, text: Seq<char>, i: int)
    ensures
        begins_with(sample + rest, sample),
        begins_with(text, sample) && 0 <= i < sample.len() ==> text[i] == sample[i],
        0 <= i < sample.len() && i < text.len() && text[i] != sample[i] ==> !begins_with(
            text,
            sample,
        ),
        text.len() < sample.len() ==> !begins_with(text, sample),
{
    assert((sample + rest).take(sample.len() as int) =~= sample);
    if begins_with(text, sample) && 0 <= i < sample.len() {
        assert(text.take(sample.len() as int)[i] == text[i]);
    }
}

/// Taking a tracker away changes nothing of a torrent but its trackers, and leaves the first
/// tracker alone where it has another address.
pub proof fn removing_a_tracker_changes_nothing_else(
    before: TorrentMeta,
    after: TorrentMeta,
    url: Seq<char>,
)
    requires
        tracker_removed(before, after, url),
    ensures
        after.info_hash == before.info_hash && after.name == before.name && after.files
            == before.files && after.piece_count == before.piece_count && after.piece_length
            == before.piece_length && after.total_length == before.total_length && after.private
            == before.private,
        (before.announce matches Some(first) && first@ != url) ==> after.announce
            == before.announce,
        (before.announce matches Some(first) && first@ == url) ==> after.announce.is_none(),
{
}

} // verus!
