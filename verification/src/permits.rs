//! Budgets for peer sessions: one for all torrents together, and one for each.
use crate::config::{effective_per_torrent_peer_limit, Config};
use crate::error::{CoreError, ErrorKind, ErrorView};
use crate::hash::InfoHash;
use crate::index::HashIndex;
use crate::text::owned;
use crate::torrent::Torrent;
use vstd::prelude::*;

verus! {

/// A pool of permits. Two pools are the same pool when their numbers agree.
#[derive(Clone, Copy, PartialEq, Eq, Structural, Debug)]
pub struct PermitPool {
    pub id: u64,
    pub limit: usize,
}

/// The pools that are in force.
#[derive(Debug)]
pub struct PeerPermitConfiguration {
    pub global: PermitPool,
    pub per_torrent: HashIndex<PermitPool>,
}

/// The pools as values.
pub struct PermitView {
    pub global: PermitPool,
    pub per_torrent: Map<InfoHash, PermitPool>,
}

impl View for PeerPermitConfiguration {
    type V = PermitView;

    open spec fn view(&self) -> PermitView {
        PermitView { global: self.global, per_torrent: self.per_torrent@ }
    }
}

/// The limit on the sessions of each torrent.
pub open spec fn torrent_limit(cfg: Config, built_in_limit: usize) -> usize {
    if cfg.bandwidth.max_peers_per_torrent == 0 {
        built_in_limit
    } else {
        cfg.bandwidth.max_peers_per_torrent
    }
}

/// The pools for a configuration: a fresh one for all torrents together and a fresh one for each.
pub open spec fn fresh_pools(
    permits: PermitView,
    registry: Seq<(InfoHash, Torrent)>,
    cfg: Config,
    built_in_limit: usize,
    first_id: u64,
) -> bool {
    &&& permits.global == (PermitPool { id: first_id, limit: cfg.bandwidth.max_peers })
    &&& permits.per_torrent.dom() == crate::index::entry_map(registry).dom()
    &&& forall|k: int|
        0 <= k < registry.len() ==> permits.per_torrent[(#[trigger] registry[k]).0] == (PermitPool {
            id: (first_id + 1 + k) as u64,
            limit: torrent_limit(cfg, built_in_limit),
        })
}

/// Builds the pools for a configuration. The two verdicts say whether a pool of the limit for all
/// torrents, and one of the limit for each, can be made.
pub fn build_peer_permit_configuration(
    registry: &HashIndex<Torrent>,
    cfg: &Config,
    built_in_limit: usize,
    first_id: u64,
    global: Result<(), CoreError>,
    each: Result<(), CoreError>,
) -> (built: Result<PeerPermitConfiguration, CoreError>)
    requires
        registry.wf(),
        first_id + registry.seq().len() <= u64::MAX,
    ensures
        built.is_ok() == (global.is_ok() && (each.is_ok() || registry.seq().len() == 0)),
        built matches Ok(permits) ==> permits.per_torrent.wf() && fresh_pools(
            permits@,
            registry.seq(),
            *cfg,
            built_in_limit,
            first_id,
        ),
        built matches Err(error) ==> if global.is_err() {
            global == Err::<(), CoreError>(error)
        } else {
            each == Err::<(), CoreError>(error)
        },
{
    if let Err(error) = global {
        return Err(error);
    }
    let limit: usize = effective_per_torrent_peer_limit(
        cfg.bandwidth.max_peers_per_torrent,
        built_in_limit,
    );
    if registry.len() > 0 {
        if let Err(error) = each {
            return Err(error);
        }
    }
    let mut per_torrent: HashIndex<PermitPool> = HashIndex::new();
    let ghost entries = registry.seq();
    let mut i: usize = 0;
    while i < registry.len()
        invariant
            registry.wf(),
            entries == registry.seq(),
            i <= entries.len(),
            first_id + entries.len() <= u64::MAX,
            per_torrent.wf(),
            forall|hash: InfoHash| #[trigger]
                per_torrent@.dom().contains(hash) == exists|k: int|
                    0 <= k < i && (#[trigger] entries[k]).0 == hash,
            forall|k: int|
                0 <= k < i ==> per_torrent@[(#[trigger] entries[k]).0] == (PermitPool {
                    id: (first_id + 1 + k) as u64,
                    limit,
                }),
        decreases entries.len() - i,
    {
        let hash: InfoHash = registry.key_at(i);
        let ghost before = per_torrent@;
        per_torrent.insert(hash, PermitPool { id: first_id + 1 + i as u64, limit });
        proof {
            assert(hash == entries[i as int].0);
            assert forall|k: int| 0 <= k < i implies (#[trigger] entries[k]).0 != hash by {
                assert(entries[k].0.rank() < entries[i as int].0.rank());
            }
            assert forall|other: InfoHash| #[trigger]
                per_torrent@.dom().contains(other) == exists|k: int|
                    0 <= k < i + 1 && (#[trigger] entries[k]).0 == other by {
                if before.dom().contains(other) {
                    let k = choose|k: int| 0 <= k < i && (#[trigger] entries[k]).0 == other;
                    assert(entries[k].0 == other);
                }
            }
        }
        i = i + 1;
    }
    proof {
        assert forall|hash: InfoHash| #[trigger]
            per_torrent@.dom().contains(hash) == crate::index::entry_map(entries).dom().contains(
                hash,
            ) by {
            if crate::index::entry_map(entries).dom().contains(hash) {
                let k = crate::index::position_of(entries, hash);
                assert(entries[k].0 == hash);
            }
            if per_torrent@.dom().contains(hash) {
                let k = choose|k: int| 0 <= k < i && (#[trigger] entries[k]).0 == hash;
                crate::index::lemma_entry(entries, k);
            }
        }
        assert(per_torrent@.dom() =~= crate::index::entry_map(entries).dom());
    }
    Ok(
        PeerPermitConfiguration {
            global: PermitPool { id: first_id, limit: cfg.bandwidth.max_peers },
            per_torrent,
        },
    )
}

/// The error of pools that are not the expected ones.
pub open spec fn identity_error() -> ErrorView {
    ErrorView {
        kind: ErrorKind::Internal,
        message: "peer permit configuration identity or size mismatch"@,
    }
}

/// Checks that the pools in force are the expected ones.
pub fn verify_peer_permit_configuration_identity(
    actual: &PeerPermitConfiguration,
    expected: &PeerPermitConfiguration,
) -> (outcome: Result<(), CoreError>)
    requires
        actual.per_torrent.wf(),
        expected.per_torrent.wf(),
    ensures
        outcome.is_ok() == (actual@ == expected@),
        outcome matches Err(error) ==> error@ == identity_error(),
{
    let ghost found = actual.per_torrent.seq();
    let ghost wanted = expected.per_torrent.seq();
    let mut same: bool = actual.global == expected.global && actual.per_torrent.len()
        == expected.per_torrent.len();
    if same {
        let mut i: usize = 0;
        while i < expected.per_torrent.len()
            invariant
                actual.per_torrent.wf(),
                expected.per_torrent.wf(),
                found == actual.per_torrent.seq(),
                wanted == expected.per_torrent.seq(),
                found.len() == wanted.len(),
                i <= wanted.len(),
                same == (forall|k: int| 0 <= k < i ==> #[trigger] found[k] == wanted[k]),
            decreases wanted.len() - i,
        {
            let agree: bool = actual.per_torrent.key_at(i) == expected.per_torrent.key_at(i)
                && *actual.per_torrent.value_at(i) == *expected.per_torrent.value_at(i);
            assert(agree == (found[i as int] == wanted[i as int]));
            if !agree {
                same = false;
            }
            i = i + 1;
        }
        proof {
            if same {
                assert(found =~= wanted);
            }
        }
    }
    proof {
        if actual@ == expected@ {
            lemma_same_entries(found, wanted);
        }
    }
    if same {
        Ok(())
    } else {
        Err(
            CoreError::Internal(owned("peer permit configuration identity or size mismatch")),
        )
    }
}

/// Two lists in the order of their keys that give the same map are the same list.
proof fn lemma_same_entries(a: Seq<(InfoHash, PermitPool)>, b: Seq<(InfoHash, PermitPool)>)
    requires
        crate::index::keys_increase(a),
        crate::index::keys_increase(b),
        crate::index::entry_map(a) == crate::index::entry_map(b),
    ensures
        a == b,
    decreases a.len(),
{
    let map = crate::index::entry_map(a);
    if a.len() == 0 {
        if b.len() > 0 {
            crate::index::lemma_entry(b, 0);
            let k = crate::index::position_of(a, b[0].0);
            assert(crate::index::has_key(a, b[0].0));
        }
        assert(a =~= b);
    } else if b.len() == 0 {
        crate::index::lemma_entry(a, 0);
        assert(crate::index::has_key(b, a[0].0));
    } else {
        let last_a = a.len() - 1;
        let last_b = b.len() - 1;
        crate::index::lemma_entry(a, last_a);
        crate::index::lemma_entry(b, last_b);
        let in_b = crate::index::position_of(b, a[last_a].0);
        let in_a = crate::index::position_of(a, b[last_b].0);
        assert(crate::index::has_key(b, a[last_a].0));
        assert(crate::index::has_key(a, b[last_b].0));
        assert(b[in_b].0 == a[last_a].0);
        assert(a[in_a].0 == b[last_b].0);
        if in_b < last_b {
            assert(b[in_b].0.rank() < b[last_b].0.rank());
            if in_a < last_a {
                assert(a[in_a].0.rank() < a[last_a].0.rank());
            }
        }
        if in_a < last_a {
            assert(a[in_a].0.rank() < a[last_a].0.rank());
        }
        assert(a[last_a] == b[last_b]);
        let front_a = a.drop_last();
        let front_b = b.drop_last();
        assert forall|i: int, k: int| 0 <= i < k < front_a.len() implies (
        #[trigger] front_a[i]).0.rank() < (#[trigger] front_a[k]).0.rank() by {
            assert(a[i].0.rank() < a[k].0.rank());
        }
        assert forall|i: int, k: int| 0 <= i < k < front_b.len() implies (
        #[trigger] front_b[i]).0.rank() < (#[trigger] front_b[k]).0.rank() by {
            assert(b[i].0.rank() < b[k].0.rank());
        }
        assert(crate::index::entry_map(front_a) =~= map.remove(a[last_a].0)) by {
            lemma_front(a);
        }
        assert(crate::index::entry_map(front_b) =~= map.remove(b[last_b].0)) by {
            lemma_front(b);
        }
        lemma_same_entries(front_a, front_b);
        assert(a =~= front_a.push(a[last_a]));
        assert(b =~= front_b.push(b[last_b]));
    }
}

proof fn lemma_front(a: Seq<(InfoHash, PermitPool)>)
    requires
        crate::index::keys_increase(a),
        a.len() > 0,
    ensures
        crate::index::entry_map(a.drop_last()) =~= crate::index::entry_map(a).remove(a.last().0),
{
    let front = a.drop_last();
    let map = crate::index::entry_map(a);
    assert(crate::index::keys_increase(front)) by {
        assert forall|i: int, k: int| 0 <= i < k < front.len() implies (
        #[trigger] front[i]).0.rank() < (#[trigger] front[k]).0.rank() by {
            assert(a[i].0.rank() < a[k].0.rank());
        }
    }
    assert forall|hash: InfoHash| true implies #[trigger] crate::index::entry_map(
        front,
    ).dom().contains(hash) == (map.dom().contains(hash) && hash != a.last().0) by {
        if crate::index::has_key(front, hash) {
            let k = crate::index::position_of(front, hash);
            assert(a[k].0 == hash);
            assert(a[k].0.rank() < a[a.len() - 1].0.rank());
            crate::index::lemma_entry(a, k);
        }
        if map.dom().contains(hash) && hash != a.last().0 {
            let k = crate::index::position_of(a, hash);
            assert(front[k].0 == hash);
        }
    }
    assert forall|hash: InfoHash| crate::index::entry_map(front).dom().contains(
        hash,
    ) implies crate::index::entry_map(front)[hash] == map[hash] by {
        let k = crate::index::position_of(front, hash);
        crate::index::lemma_entry(front, k);
        crate::index::lemma_entry(a, k);
        assert(front[k] == a[k]);
    }
}

/// How many permits of each pool are in use.
#[derive(Debug)]
pub struct PermitUse {
    pub global: usize,
    pub per_torrent: Vec<usize>,
}

/// No permit is in use.
pub open spec fn is_drained(used: PermitUse) -> bool {
    used.global == 0 && forall|k: int|
        0 <= k < used.per_torrent@.len() ==> #[trigger] used.per_torrent@[k] == 0
}

/// Whether no permit is in use any more.
pub fn permits_drained(used: &PermitUse) -> (drained: bool)
    ensures
        drained == is_drained(*used),
{
    if used.global != 0 {
        return false;
    }
    let mut i: usize = 0;
    while i < used.per_torrent.len()
        invariant
            used.global == 0,
            i <= used.per_torrent@.len(),
            forall|k: int| 0 <= k < i ==> #[trigger] used.per_torrent@[k] == 0,
        decreases used.per_torrent@.len() - i,
    {
        if used.per_torrent[i] != 0 {
            return false;
        }
        i = i + 1;
    }
    true
}

/// With a pool for a torrent; one that has none yet gets a fresh one.
pub open spec fn with_pool(
    permits: PermitView,
    hash: InfoHash,
    fresh_id: u64,
    limit: usize,
) -> PermitView {
    PermitView {
        per_torrent: if permits.per_torrent.dom().contains(hash) {
            permits.per_torrent
        } else {
            permits.per_torrent.insert(hash, PermitPool { id: fresh_id, limit })
        },
        ..permits
    }
}

impl PeerPermitConfiguration {
    /// The pool of a torrent; one that has none yet gets a fresh one.
    pub fn ensure_torrent_peer_permit_pool(
        &mut self,
        hash: InfoHash,
        cfg: &Config,
        built_in_limit: usize,
        fresh_id: u64,
    ) -> (pool: PermitPool)
        requires
            old(self).per_torrent.wf(),
        ensures
            final(self).per_torrent.wf(),
            pool == if old(self)@.per_torrent.dom().contains(hash) {
                old(self)@.per_torrent[hash]
            } else {
                PermitPool { id: fresh_id, limit: torrent_limit(*cfg, built_in_limit) }
            },
            final(self)@ == with_pool(
                old(self)@,
                hash,
                fresh_id,
                torrent_limit(*cfg, built_in_limit),
            ),
    {
        if let Some(pool) = self.per_torrent.get(&hash) {
            return *pool;
        }
        let pool: PermitPool = PermitPool {
            id: fresh_id,
            limit: effective_per_torrent_peer_limit(
                cfg.bandwidth.max_peers_per_torrent,
                built_in_limit,
            ),
        };
        self.per_torrent.insert(hash, pool);
        pool
    }
}

/// A torrent has as many permits as are configured for one torrent, and as many as are built in
/// where none are configured.
pub proof fn permits_are_as_configured(cfg: Config, built_in_limit: usize)
    ensures
        cfg.bandwidth.max_peers_per_torrent > 0 ==> torrent_limit(cfg, built_in_limit)
            == cfg.bandwidth.max_peers_per_torrent,
        cfg.bandwidth.max_peers_per_torrent == 0 ==> torrent_limit(cfg, built_in_limit)
            == built_in_limit,
{
}

/// A torrent that has a pool keeps it; one that has none gets a fresh one. No other pool changes.
pub proof fn pools_are_kept(
    permits: PermitView,
    hash: InfoHash,
    fresh_id: u64,
    limit: usize,
    other: InfoHash,
)
    requires
        other != hash,
    ensures
        ({
            let after = with_pool(permits, hash, fresh_id, limit);
            &&& after.per_torrent.dom().contains(hash)
            &&& permits.per_torrent.dom().contains(hash) ==> after == permits
            &&& !permits.per_torrent.dom().contains(hash) ==> after.per_torrent[hash].id
                == fresh_id && after.per_torrent[hash].limit == limit
            &&& after.global == permits.global
            &&& after.per_torrent.dom().contains(other) == permits.per_torrent.dom().contains(other)
            &&& permits.per_torrent.dom().contains(other) ==> after.per_torrent[other]
                == permits.per_torrent[other]
        }),
{
}

/// Fresh pools are one for all and one for each torrent, each with an identity of its own, as large
/// as is configured.
pub proof fn fresh_pools_are_told_apart(
    permits: PermitView,
    registry: Seq<(InfoHash, Torrent)>,
    cfg: Config,
    built_in_limit: usize,
    first_id: u64,
    i: int,
    k: int,
)
    requires
        fresh_pools(permits, registry, cfg, built_in_limit, first_id),
        0 <= i < k < registry.len(),
        first_id + registry.len() <= u64::MAX,
    ensures
        permits.global.limit == cfg.bandwidth.max_peers,
        permits.per_torrent.dom().contains(registry[i].0),
        permits.per_torrent[registry[i].0].id != permits.per_torrent[registry[k].0].id,
        permits.per_torrent[registry[i].0].id != permits.global.id,
        cfg.bandwidth.max_peers_per_torrent > 0 ==> permits.per_torrent[registry[i].0].limit
            == cfg.bandwidth.max_peers_per_torrent,
        cfg.bandwidth.max_peers_per_torrent == 0 ==> permits.per_torrent[registry[i].0].limit
            == built_in_limit,
{
    assert(crate::index::entry_map(registry).dom().contains(registry[i].0)) by {
        assert(registry[i].0 == registry[i].0);
    }
}

/// Permits are drained exactly where none is in use, neither of the pool for all nor of any
/// torrent's.
pub proof fn drained_permits_are_all_back(used: PermitUse, k: int)
    ensures
        is_drained(used) ==> used.global == 0,
        is_drained(used) && 0 <= k < used.per_torrent@.len() ==> used.per_torrent@[k] == 0,
        used.global > 0 ==> !is_drained(used),
        0 <= k < used.per_torrent@.len() && used.per_torrent@[k] > 0 ==> !is_drained(used),
        used.global == 0 && used.per_torrent@.len() == 0 ==> is_drained(used),
{
}

} // verus!
