//! What a torrent's health is judged by.
use crate::clock::Tick;
use crate::engine::{EnginePeerHealth, EngineState};
use crate::network::NetworkHealth;
use crate::copies::copied;
use crate::torrent::{Torrent, TorrentState};
use vstd::prelude::*;

verus! {

/// The signals that a torrent's health is computed from.
#[derive(Debug)]
pub struct HealthInput {
    pub state: TorrentState,
    pub private: bool,
    pub piece_count: usize,
    pub pieces_have: Vec<bool>,
    pub peers: Vec<EnginePeerHealth>,
    pub rate_down: u64,
    pub rate_down_observed_peak: u64,
    pub download_limit: u64,
    pub upload_limit: u64,
    pub global_download_limit: u64,
    pub network: NetworkHealth,
    pub tracker_ok: bool,
    pub tracker_recent_ok: bool,
    pub tracker_failures_recent: u32,
    pub dht_recent_ok: bool,
    pub pex_recent_ok: bool,
    pub peer_disconnects_recent: u32,
    pub hash_failures: u32,
    pub timeout_failures: u32,
    pub received_block_recently: bool,
    pub webseed_recent_ok: bool,
    /// Nanoseconds since the last block.
    pub time_since_last_block: Option<u64>,
    pub known_peers: usize,
    pub no_peers_discovered: bool,
}

/// Signals older than this many seconds are no longer recent.
pub const RECENT_SECONDS: u32 = 90;

/// Peers that were not seen for this many seconds do not count as useful now.
pub const PEER_RECENT_SECONDS: u32 = 30;

/// Something was seen recently.
pub open spec fn recent(now: Tick, seen: Option<Tick>) -> bool {
    now.within(seen, RECENT_SECONDS as int)
}

/// The peer sent a valid block recently, or is said to be useful and was seen recently.
pub open spec fn useful(peer: EnginePeerHealth, now: Tick) -> bool {
    (peer.useful_recently && recent(now, peer.last_seen)) || recent(now, peer.last_valid_block)
}

/// A peer as far as recent signals bear it out.
pub open spec fn judged(peer: EnginePeerHealth, shown: EnginePeerHealth, now: Tick) -> bool {
    &&& shown.pieces@ == peer.pieces@
    &&& shown.has_missing_pieces == ((useful(peer, now) || peer.has_missing_pieces) && recent(
        now,
        peer.last_seen,
    ))
    &&& shown.unchoked == ((peer.unchoked && recent(now, peer.last_seen)) || useful(peer, now))
    &&& shown.blocked == peer.blocked
    &&& shown.last_valid_block == peer.last_valid_block
    &&& shown.useful_recently == useful(peer, now)
    &&& shown.discovered_from_pex == peer.discovered_from_pex
    &&& shown.last_seen == peer.last_seen
}

/// Some peer sent a valid block recently.
pub open spec fn peer_block_recent(peers: Seq<EnginePeerHealth>, now: Tick) -> bool {
    exists|i: int| 0 <= i < peers.len() && recent(now, (#[trigger] peers[i]).last_valid_block)
}

/// The first of three instants that was seen.
pub open spec fn first_seen(a: Option<Tick>, b: Option<Tick>, c: Option<Tick>) -> Option<Tick> {
    if a.is_some() {
        a
    } else if b.is_some() {
        b
    } else {
        c
    }
}

/// The signals as they follow from the torrent and from what its engine reported.
pub open spec fn signals_match(
    input: HealthInput,
    torrent: Torrent,
    engine: EngineState,
    peak: u64,
    global_download_limit: u64,
    network: NetworkHealth,
    now: Tick,
) -> bool {
    &&& input.state == torrent.state
    &&& input.private == torrent.meta.private
    &&& input.piece_count == engine.piece_count
    &&& input.pieces_have@ == engine.pieces_have@
    &&& input.peers@.len() == engine.peer_health@.len()
    &&& forall|i: int|
        0 <= i < engine.peer_health@.len() ==> judged(
            engine.peer_health@[i],
            #[trigger] input.peers@[i],
            now,
        )
    &&& input.rate_down == torrent.rate_down
    &&& input.rate_down_observed_peak == peak
    &&& input.download_limit == torrent.download_limit
    &&& input.upload_limit == torrent.upload_limit
    &&& input.global_download_limit == global_download_limit
    &&& input.network == network
    &&& input.tracker_ok == engine.tracker_ok
    &&& input.tracker_recent_ok == (engine.tracker_ok || recent(now, engine.tracker_last_ok))
    &&& input.tracker_failures_recent == engine.tracker_failures_recent
    &&& input.dht_recent_ok == (engine.dht_discovery_ok || recent(now, engine.dht_last_seen))
    &&& input.pex_recent_ok == (engine.pex_discovery_ok || recent(now, engine.pex_last_seen))
    &&& input.peer_disconnects_recent == engine.peer_disconnects_recent
    &&& input.hash_failures == engine.hash_failures
    &&& input.timeout_failures == engine.timeout_failures
    &&& input.received_block_recently == (recent(now, engine.last_valid_block) || recent(
        now,
        engine.block_last_seen,
    ) || recent(now, engine.webseed_last_seen) || peer_block_recent(engine.peer_health@, now)
        || torrent.rate_down > 0)
    &&& input.webseed_recent_ok == recent(now, engine.webseed_last_seen)
    &&& input.time_since_last_block == match first_seen(
        engine.last_valid_block,
        engine.block_last_seen,
        engine.webseed_last_seen,
    ) {
        Some(at) => Some(now.since(at) as u64),
        None => None,
    }
    &&& input.known_peers == engine.known_peers
    &&& input.no_peers_discovered == (engine.known_peers == 0 && engine.peer_health@.len() == 0
        && torrent.rate_down == 0)
}

fn judge_peer(peer: &EnginePeerHealth, now: Tick) -> (result: EnginePeerHealth)
    ensures
        judged(*peer, result, now),
{
    let seen: bool = now.seen_within(peer.last_seen, RECENT_SECONDS);
    let useful: bool = (peer.useful_recently && seen) || now.seen_within(
        peer.last_valid_block,
        RECENT_SECONDS,
    );
    EnginePeerHealth {
        pieces: copied(&peer.pieces),
        has_missing_pieces: (useful || peer.has_missing_pieces) && seen,
        unchoked: (peer.unchoked && seen) || useful,
        blocked: peer.blocked,
        last_valid_block: peer.last_valid_block,
        useful_recently: useful,
        discovered_from_pex: peer.discovered_from_pex,
        last_seen: peer.last_seen,
    }
}

/// Gathers the signals that a torrent's health is computed from.
pub fn build_health_input(
    torrent: &Torrent,
    engine: &EngineState,
    rate_down_observed_peak: u64,
    global_download_limit: u64,
    network: &NetworkHealth,
    now: Tick,
) -> (input: HealthInput)
    ensures
        signals_match(
            input,
            *torrent,
            *engine,
            rate_down_observed_peak,
            global_download_limit,
            *network,
            now,
        ),
{
    let mut peers: Vec<EnginePeerHealth> = Vec::new();
    let mut block_recent: bool = false;
    let mut i: usize = 0;
    while i < engine.peer_health.len()
        invariant
            i <= engine.peer_health@.len(),
            peers@.len() == i,
            forall|k: int|
                0 <= k < i ==> judged(engine.peer_health@[k], #[trigger] peers@[k], now),
            block_recent == peer_block_recent(engine.peer_health@.take(i as int), now),
        decreases engine.peer_health@.len() - i,
    {
        let fresh: bool = now.seen_within(engine.peer_health[i].last_valid_block, RECENT_SECONDS);
        proof {
            let shorter = engine.peer_health@.take(i as int);
            let longer = engine.peer_health@.take(i + 1);
            if peer_block_recent(shorter, now) {
                let k = choose|k: int|
                    0 <= k < shorter.len() && recent(now, (#[trigger] shorter[k]).last_valid_block);
                assert(longer[k] == shorter[k]);
            }
            assert(longer[i as int] == engine.peer_health@[i as int]);
            if peer_block_recent(longer, now) && !fresh {
                let k = choose|k: int|
                    0 <= k < longer.len() && recent(now, (#[trigger] longer[k]).last_valid_block);
                assert(shorter[k] == longer[k]);
            }
        }
        block_recent = block_recent || fresh;
        peers.push(judge_peer(&engine.peer_health[i], now));
        i = i + 1;
    }
    assert(engine.peer_health@.take(i as int) =~= engine.peer_health@);
    let webseed_recent_ok: bool = now.seen_within(engine.webseed_last_seen, RECENT_SECONDS);
    let received_block_recently: bool = now.seen_within(engine.last_valid_block, RECENT_SECONDS)
        || now.seen_within(engine.block_last_seen, RECENT_SECONDS) || webseed_recent_ok
        || block_recent || torrent.rate_down > 0;
    let last_block: Option<Tick> = if engine.last_valid_block.is_some() {
        engine.last_valid_block
    } else if engine.block_last_seen.is_some() {
        engine.block_last_seen
    } else {
        engine.webseed_last_seen
    };
    let time_since_last_block: Option<u64> = match last_block {
        Some(at) => Some(now.saturating_since(&at)),
        None => None,
    };
    HealthInput {
        state: torrent.state,
        private: torrent.meta.private,
        piece_count: engine.piece_count,
        pieces_have: copied(&engine.pieces_have),
        peers,
        rate_down: torrent.rate_down,
        rate_down_observed_peak,
        download_limit: torrent.download_limit,
        upload_limit: torrent.upload_limit,
        global_download_limit,
        network: network.clone(),
        tracker_ok: engine.tracker_ok,
        tracker_recent_ok: engine.tracker_ok || now.seen_within(
            engine.tracker_last_ok,
            RECENT_SECONDS,
        ),
        tracker_failures_recent: engine.tracker_failures_recent,
        dht_recent_ok: engine.dht_discovery_ok || now.seen_within(
            engine.dht_last_seen,
            RECENT_SECONDS,
        ),
        pex_recent_ok: engine.pex_discovery_ok || now.seen_within(
            engine.pex_last_seen,
            RECENT_SECONDS,
        ),
        peer_disconnects_recent: engine.peer_disconnects_recent,
        hash_failures: engine.hash_failures,
        timeout_failures: engine.timeout_failures,
        received_block_recently,
        webseed_recent_ok,
        time_since_last_block,
        known_peers: engine.known_peers,
        no_peers_discovered: engine.known_peers == 0 && engine.peer_health.len() == 0
            && torrent.rate_down == 0,
    }
}

/// A sign counts as recent for ninety seconds.
pub proof fn signs_stay_recent_for_a_while(now: Tick, at: Tick)
    ensures
        recent(now, Some(at)) == (now.nanos < at.nanos + 90_000_000_000),
        !recent(now, None),
{
    assert(90 * 1_000_000_000 == 90_000_000_000int);
}

/// A peer counts as useful where it sent a valid block in the last ninety seconds, or was called
/// useful and seen in that time. A useful peer counts as giving out data. A peer that was not seen
/// in that time lacks nothing that we know of, and gives out data only if it sent a block.
pub proof fn old_signs_do_not_count(peer: EnginePeerHealth, shown: EnginePeerHealth, now: Tick)
    requires
        judged(peer, shown, now),
    ensures
        ({
            let seen = peer.last_seen matches Some(at) && now.nanos < at.nanos + 90_000_000_000;
            let sent = peer.last_valid_block matches Some(at) && now.nanos < at.nanos
                + 90_000_000_000;
            &&& shown.useful_recently == (sent || (seen && peer.useful_recently))
            &&& shown.unchoked == (shown.useful_recently || (seen && peer.unchoked))
            &&& shown.has_missing_pieces == (seen && (peer.has_missing_pieces
                || shown.useful_recently))
            &&& shown.blocked == peer.blocked && shown.pieces@ == peer.pieces@
            &&& shown.discovered_from_pex == peer.discovered_from_pex
        }),
{
    assert(90 * 1_000_000_000 == 90_000_000_000int);
}

/// What is said of a torrent's health follows its signals: data came in recently where a block was
/// seen in the last ninety seconds or a rate is shown, and each way of finding peers is fine where
/// it says so or worked in that time.
pub proof fn health_follows_recent_signals(
    input: HealthInput,
    torrent: Torrent,
    engine: EngineState,
    peak: u64,
    global_download_limit: u64,
    network: NetworkHealth,
    now: Tick,
)
    requires
        signals_match(input, torrent, engine, peak, global_download_limit, network, now),
    ensures
        ({
            let webseed = engine.webseed_last_seen matches Some(at) && now.nanos < at.nanos
                + 90_000_000_000;
            let block = engine.block_last_seen matches Some(at) && now.nanos < at.nanos
                + 90_000_000_000;
            let valid = engine.last_valid_block matches Some(at) && now.nanos < at.nanos
                + 90_000_000_000;
            let peers = exists|i: int|
                0 <= i < engine.peer_health@.len() && ((
                #[trigger] engine.peer_health@[i]).last_valid_block matches Some(at) && now.nanos
                    < at.nanos + 90_000_000_000);
            &&& input.received_block_recently == (webseed || block || valid || peers
                || torrent.rate_down > 0)
            &&& input.webseed_recent_ok == webseed
            &&& input.tracker_recent_ok == (engine.tracker_ok || (
            engine.tracker_last_ok matches Some(at) && now.nanos < at.nanos + 90_000_000_000))
            &&& input.dht_recent_ok == (engine.dht_discovery_ok || (
            engine.dht_last_seen matches Some(at) && now.nanos < at.nanos + 90_000_000_000))
            &&& input.pex_recent_ok == (engine.pex_discovery_ok || (
            engine.pex_last_seen matches Some(at) && now.nanos < at.nanos + 90_000_000_000))
            &&& engine.last_valid_block matches Some(at) ==> now.nanos >= at.nanos
                ==> input.time_since_last_block == Some((now.nanos - at.nanos) as u64)
            &&& engine.last_valid_block.is_none() && engine.block_last_seen.is_none()
                && engine.webseed_last_seen.is_none() ==> input.time_since_last_block.is_none()
            &&& input.private == torrent.meta.private && input.piece_count == engine.piece_count
                && input.pieces_have@ == engine.pieces_have@ && input.peers@.len()
                == engine.peer_health@.len()
            &&& input.rate_down_observed_peak == peak && input.network == network
            &&& input.known_peers == engine.known_peers
            &&& input.no_peers_discovered == (engine.known_peers == 0 && engine.peer_health@.len()
                == 0 && torrent.rate_down == 0)
            &&& input.tracker_ok == engine.tracker_ok && input.tracker_failures_recent
                == engine.tracker_failures_recent
            &&& input.peer_disconnects_recent == engine.peer_disconnects_recent
                && input.hash_failures == engine.hash_failures && input.timeout_failures
                == engine.timeout_failures
            &&& input.state == torrent.state && input.rate_down == torrent.rate_down
                && input.download_limit == torrent.download_limit && input.upload_limit
                == torrent.upload_limit && input.global_download_limit == global_download_limit
        }),
{
    assert(90 * 1_000_000_000 == 90_000_000_000int);
    if peer_block_recent(engine.peer_health@, now) {
        let i = choose|i: int|
            0 <= i < engine.peer_health@.len() && recent(
                now,
                (#[trigger] engine.peer_health@[i]).last_valid_block,
            );
        assert(engine.peer_health@[i].last_valid_block.is_some());
    }
    if exists|i: int|
        0 <= i < engine.peer_health@.len() && ((
        #[trigger] engine.peer_health@[i]).last_valid_block matches Some(at) && now.nanos
            < at.nanos + 90_000_000_000) {
        let i = choose|i: int|
            0 <= i < engine.peer_health@.len() && ((
            #[trigger] engine.peer_health@[i]).last_valid_block matches Some(at) && now.nanos
                < at.nanos + 90_000_000_000);
        assert(recent(now, engine.peer_health@[i].last_valid_block));
    }
}

/// The time since the last block counts from the last valid one, else from the last that was seen,
/// else from the last of a web seed.
pub proof fn the_last_block_is_found_in_turn(valid: Tick, block: Tick, webseed: Tick)
    ensures
        first_seen(Some(valid), Some(block), Some(webseed)) == Some(valid),
        first_seen(None, Some(block), Some(webseed)) == Some(block),
        first_seen(None, None, Some(webseed)) == Some(webseed),
        first_seen(Some(valid), None, None) == Some(valid),
        first_seen(None, Some(block), None) == Some(block),
        first_seen(None, None, None).is_none(),
{
}

} // verus!
