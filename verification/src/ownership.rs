//! Which torrents lay claim to which directories, and what stands against it.
use crate::admission::storage_dirs;
use crate::config::Config;
use crate::error::{CoreError, ErrorKind, ErrorView};
use crate::hash::InfoHash;
use crate::index::HashIndex;
use crate::text::owned;
use crate::torrent::Torrent;
use vstd::prelude::*;

verus! {

/// A directory that a torrent writes its files below.
#[derive(Debug)]
pub struct StorageClaim {
    pub hash: InfoHash,
    pub root: String,
}

/// The directories of a torrent with a directory of its own, or none: the one while it is
/// unfinished, then the one when it is finished, once where they are the same path.
pub open spec fn roots_of(torrent: Torrent, cfg: Config, fallback: Seq<char>) -> Seq<Seq<char>> {
    let complete_dir = crate::config::complete_dir_of(
        crate::config::text_of(torrent.download_dir),
        cfg,
        fallback,
    );
    let active_dir = crate::config::active_dir_of(complete_dir, cfg);
    if crate::paths::same_path(active_dir, complete_dir) {
        seq![active_dir]
    } else {
        seq![active_dir, complete_dir]
    }
}

/// The claims of one torrent.
pub open spec fn own_claims(
    hash: InfoHash,
    torrent: Torrent,
    cfg: Config,
    fallback: Seq<char>,
) -> Seq<(InfoHash, Seq<char>)> {
    roots_of(torrent, cfg, fallback).map_values(|root: Seq<char>| (hash, root))
}

/// The claims of the first torrents of a registry, but for one.
pub open spec fn claims_among(
    entries: Seq<(InfoHash, Torrent)>,
    cfg: Config,
    fallback: Seq<char>,
    except: Option<InfoHash>,
    count: nat,
) -> Seq<(InfoHash, Seq<char>)>
    decreases count,
{
    if count == 0 {
        Seq::<(InfoHash, Seq<char>)>::empty()
    } else {
        let before = claims_among(entries, cfg, fallback, except, (count - 1) as nat);
        let (hash, torrent) = entries[count - 1];
        if except == Some(hash) {
            before
        } else {
            before + own_claims(hash, torrent, cfg, fallback)
        }
    }
}

/// A list of claims as values.
pub open spec fn claims_of(claims: Seq<StorageClaim>) -> Seq<(InfoHash, Seq<char>)> {
    claims.map_values(|claim: StorageClaim| (claim.hash, claim.root@))
}

/// The directories that the torrents of a registry write below, but for one torrent.
pub fn storage_claims(
    registry: &HashIndex<Torrent>,
    cfg: &Config,
    fallback: &str,
    except: Option<InfoHash>,
) -> (claims: Vec<StorageClaim>)
    requires
        registry.wf(),
    ensures
        claims_of(claims@) == claims_among(
            registry.seq(),
            *cfg,
            fallback@,
            except,
            registry.seq().len(),
        ),
{
    let mut claims: Vec<StorageClaim> = Vec::new();
    let mut i: usize = 0;
    assert(claims_of(claims@) =~= Seq::<(InfoHash, Seq<char>)>::empty());
    while i < registry.len()
        invariant
            registry.wf(),
            i <= registry.seq().len(),
            claims_of(claims@) == claims_among(registry.seq(), *cfg, fallback@, except, i as nat),
        decreases registry.seq().len() - i,
    {
        let hash: InfoHash = registry.key_at(i);
        let excepted: bool = match except {
            Some(other) => other == hash,
            None => false,
        };
        if !excepted {
            let torrent: &Torrent = registry.value_at(i);
            let roots: Vec<String> = storage_dirs(torrent, cfg, fallback);
            let ghost before = claims_of(claims@);
            let mut k: usize = 0;
            assert(before + own_claims(hash, *torrent, *cfg, fallback@).take(0) =~= before);
            while k < roots.len()
                invariant
                    k <= roots@.len(),
                    crate::config::texts_of(roots@) == roots_of(*torrent, *cfg, fallback@),
                    claims_of(claims@) == before + own_claims(
                        hash,
                        *torrent,
                        *cfg,
                        fallback@,
                    ).take(k as int),
                decreases roots@.len() - k,
            {
                let ghost had = claims@;
                claims.push(StorageClaim { hash, root: roots[k].clone() });
                proof {
                    assert(claims_of(claims@) =~= claims_of(had).push((hash, roots@[k as int]@)));
                    assert(crate::config::texts_of(roots@)[k as int] == roots@[k as int]@);
                    let own = own_claims(hash, *torrent, *cfg, fallback@);
                    assert(own.take(k + 1) =~= own.take(k as int).push(own[k as int]));
                }
                k = k + 1;
            }
            proof {
                let own = own_claims(hash, *torrent, *cfg, fallback@);
                assert(crate::config::texts_of(roots@).len() == roots@.len());
                assert(own.take(k as int) =~= own);
            }
        }
        i = i + 1;
    }
    claims
}

/// The first fault of a list.
pub open spec fn first_fault(faults: Seq<Option<CoreError>>) -> Option<CoreError>
    decreases faults.len(),
{
    if faults.len() == 0 {
        None
    } else if faults[0].is_some() {
        faults[0]
    } else {
        first_fault(faults.skip(1))
    }
}

/// The first fault of a list of lists.
pub open spec fn first_clash(rows: Seq<Vec<Option<CoreError>>>) -> Option<CoreError>
    decreases rows.len(),
{
    if rows.len() == 0 {
        None
    } else if first_fault(rows[0]@).is_some() {
        first_fault(rows[0]@)
    } else {
        first_clash(rows.skip(1))
    }
}

/// What stands against claims: a fault of their own, else the first clash.
pub open spec fn claims_fault(
    own: Seq<Option<CoreError>>,
    rows: Seq<Vec<Option<CoreError>>>,
) -> Option<CoreError> {
    if first_fault(own).is_some() {
        first_fault(own)
    } else {
        first_clash(rows)
    }
}

/// An outcome as the fault that it stands for.
pub open spec fn fault_of(outcome: Result<(), CoreError>) -> Option<CoreError> {
    match outcome {
        Ok(_) => None,
        Err(error) => Some(error),
    }
}

fn search_faults(faults: &Vec<Option<CoreError>>) -> (outcome: Result<(), CoreError>)
    ensures
        fault_of(outcome) == first_fault(faults@),
{
    let mut i: usize = 0;
    assert(faults@.skip(0) =~= faults@);
    while i < faults.len()
        invariant
            i <= faults@.len(),
            first_fault(faults@) == first_fault(faults@.skip(i as int)),
        decreases faults@.len() - i,
    {
        proof {
            assert(faults@.skip(i as int)[0] == faults@[i as int]);
            assert(faults@.skip(i as int).skip(1) =~= faults@.skip(i + 1));
        }
        if let Some(error) = &faults[i] {
            return Err(error.clone());
        }
        i = i + 1;
    }
    Ok(())
}

/// What stands against claims. Each list of the second argument holds what stands between one
/// claim and others, in the order in which they are tried.
fn judge_claims(
    own: &Vec<Option<CoreError>>,
    rows: &Vec<Vec<Option<CoreError>>>,
) -> (outcome: Result<(), CoreError>)
    ensures
        fault_of(outcome) == claims_fault(own@, rows@),
{
    match search_faults(own) {
        Err(error) => {
            return Err(error);
        },
        Ok(_) => {},
    }
    let mut i: usize = 0;
    assert(rows@.skip(0) =~= rows@);
    while i < rows.len()
        invariant
            i <= rows@.len(),
            first_fault(own@).is_none(),
            first_clash(rows@) == first_clash(rows@.skip(i as int)),
        decreases rows@.len() - i,
    {
        proof {
            assert(rows@.skip(i as int)[0] == rows@[i as int]);
            assert(rows@.skip(i as int).skip(1) =~= rows@.skip(i + 1));
        }
        match search_faults(&rows[i]) {
            Err(error) => {
                return Err(error);
            },
            Ok(_) => {},
        }
        i = i + 1;
    }
    Ok(())
}

/// Whether the files of a new or moved torrent keep clear of those of all others. The first
/// argument holds what stands against its own claims; the second, for each claim of the others,
/// what stands against that claim itself and then what stands between it and each own claim.
pub fn ensure_storage_paths_available_except(
    own: &Vec<Option<CoreError>>,
    others: &Vec<Vec<Option<CoreError>>>,
) -> (outcome: Result<(), CoreError>)
    ensures
        fault_of(outcome) == claims_fault(own@, others@),
{
    judge_claims(own, others)
}

/// Whether the files of all torrents keep clear of each other. The first argument holds what
/// stands against each claim itself; the second, for each claim, what stands between it and each
/// later one.
pub fn validate_restored_storage_ownership(
    own: &Vec<Option<CoreError>>,
    later: &Vec<Vec<Option<CoreError>>>,
) -> (outcome: Result<(), CoreError>)
    ensures
        fault_of(outcome) == claims_fault(own@, later@),
{
    judge_claims(own, later)
}

/// Claims are accepted exactly when nothing stands against any of them.
pub proof fn accepted_claims_do_not_clash(
    own: Seq<Option<CoreError>>,
    rows: Seq<Vec<Option<CoreError>>>,
)
    ensures
        claims_fault(own, rows).is_none() == ((forall|i: int|
            0 <= i < own.len() ==> (#[trigger] own[i]).is_none()) && (forall|i: int, k: int|
            0 <= i < rows.len() && 0 <= k < rows[i]@.len() ==> (#[trigger] rows[i]@[k]).is_none())),
{
    lemma_first_fault(own);
    lemma_first_clash(rows);
}

proof fn lemma_first_fault(faults: Seq<Option<CoreError>>)
    ensures
        first_fault(faults).is_none() == (forall|i: int|
            0 <= i < faults.len() ==> (#[trigger] faults[i]).is_none()),
    decreases faults.len(),
{
    if faults.len() > 0 {
        let rest = faults.skip(1);
        lemma_first_fault(rest);
        assert forall|i: int| 0 < i < faults.len() implies faults[i] == rest[i - 1] by {}
        if faults[0].is_none() && first_fault(rest).is_none() {
            assert forall|i: int| 0 <= i < faults.len() implies (#[trigger] faults[i]).is_none() by {
                if i > 0 {
                    assert(rest[i - 1].is_none());
                }
            }
        }
        if forall|i: int| 0 <= i < faults.len() ==> (#[trigger] faults[i]).is_none() {
            assert(faults[0].is_none());
            assert forall|i: int| 0 <= i < rest.len() implies (#[trigger] rest[i]).is_none() by {
                assert(faults[i + 1].is_none());
            }
        }
    }
}

proof fn lemma_first_clash(rows: Seq<Vec<Option<CoreError>>>)
    ensures
        first_clash(rows).is_none() == (forall|i: int, k: int|
            0 <= i < rows.len() && 0 <= k < rows[i]@.len() ==> (#[trigger] rows[i]@[k]).is_none()),
    decreases rows.len(),
{
    if rows.len() > 0 {
        let rest = rows.skip(1);
        lemma_first_fault(rows[0]@);
        lemma_first_clash(rest);
        if first_clash(rows).is_none() {
            assert forall|i: int, k: int|
                0 <= i < rows.len() && 0 <= k < rows[i]@.len() implies (
            #[trigger] rows[i]@[k]).is_none() by {
                if i > 0 {
                    assert(rows[i] == rest[i - 1]);
                    assert(rest[i - 1]@[k].is_none());
                }
            }
        }
        if forall|i: int, k: int|
            0 <= i < rows.len() && 0 <= k < rows[i]@.len() ==> (#[trigger] rows[i]@[k]).is_none() {
            assert forall|k: int| 0 <= k < rows[0]@.len() implies (
            #[trigger] rows[0]@[k]).is_none() by {}
            assert forall|i: int, k: int|
                0 <= i < rest.len() && 0 <= k < rest[i]@.len() implies (
            #[trigger] rest[i]@[k]).is_none() by {
                assert(rows[i + 1]@[k].is_none());
            }
        }
    }
}

/// Some torrent of the registry is kept in the directory that all share.
pub open spec fn uses_shared_dir(registry: Map<InfoHash, Torrent>) -> bool {
    exists|hash: InfoHash|
        registry.dom().contains(hash) && (#[trigger] registry[hash]).download_dir.is_none()
}

/// Some torrent of the registry is unfinished.
pub open spec fn has_unfinished(registry: Map<InfoHash, Torrent>) -> bool {
    exists|hash: InfoHash|
        registry.dom().contains(hash) && !(#[trigger] registry[hash]).progress.complete()
}

/// What stands against new settings for storage, whether or not the torrents' files would keep
/// clear of each other under them.
pub open spec fn transition_fault(
    previous: Config,
    next: Config,
    registry: Map<InfoHash, Torrent>,
) -> Option<ErrorView> {
    if crate::config::text_of(previous.storage.download_dir) != crate::config::text_of(
        next.storage.download_dir,
    ) && uses_shared_dir(registry) {
        Some(
            ErrorView {
                kind: ErrorKind::InvalidConfig,
                message:
                    "storage.download_dir cannot change while torrents still use the global download directory; move those torrents to explicit locations first"@,
            },
        )
    } else if crate::config::text_of(previous.storage.incomplete_dir) != crate::config::text_of(
        next.storage.incomplete_dir,
    ) && has_unfinished(registry) {
        Some(
            ErrorView {
                kind: ErrorKind::InvalidConfig,
                message:
                    "storage.incomplete_dir cannot change while torrents have incomplete payloads"@,
            },
        )
    } else {
        None
    }
}

/// Whether new settings for storage can be taken over while torrents exist. The last argument says
/// whether the torrents' files would keep clear of each other under them.
pub fn validate_storage_config_transition(
    previous: &Config,
    next: &Config,
    registry: &HashIndex<Torrent>,
    ownership: Result<(), CoreError>,
) -> (outcome: Result<(), CoreError>)
    requires
        registry.wf(),
    ensures
        transition_fault(*previous, *next, registry@).is_some() ==> (outcome matches Err(error)
            && Some(error@) == transition_fault(*previous, *next, registry@)),
        transition_fault(*previous, *next, registry@).is_none() ==> outcome == ownership,
{
    let mut shared: bool = false;
    let mut unfinished: bool = false;
    let mut i: usize = 0;
    while i < registry.len()
        invariant
            registry.wf(),
            i <= registry.seq().len(),
            shared == exists|k: int|
                0 <= k < i && (#[trigger] registry.seq()[k]).1.download_dir.is_none(),
            unfinished == exists|k: int|
                0 <= k < i && !(#[trigger] registry.seq()[k]).1.progress.complete(),
        decreases registry.seq().len() - i,
    {
        let torrent: &Torrent = registry.value_at(i);
        assert(*torrent == registry.seq()[i as int].1);
        if torrent.download_dir.is_none() {
            shared = true;
        }
        if !torrent.progress.is_complete() {
            unfinished = true;
        }
        i = i + 1;
    }
    proof {
        lemma_some_torrent(registry.seq());
    }
    if !crate::config::same_optional_text(
        &previous.storage.download_dir,
        &next.storage.download_dir,
    ) && shared {
        return Err(
            CoreError::InvalidConfig(
                owned(
                    "storage.download_dir cannot change while torrents still use the global download directory; move those torrents to explicit locations first",
                ),
            ),
        );
    }
    if !crate::config::same_optional_text(
        &previous.storage.incomplete_dir,
        &next.storage.incomplete_dir,
    ) && unfinished {
        return Err(
            CoreError::InvalidConfig(
                owned(
                    "storage.incomplete_dir cannot change while torrents have incomplete payloads",
                ),
            ),
        );
    }
    ownership
}

proof fn lemma_some_torrent(entries: Seq<(InfoHash, Torrent)>)
    requires
        crate::index::keys_increase(entries),
    ensures
        uses_shared_dir(crate::index::entry_map(entries)) == exists|k: int|
            0 <= k < entries.len() && (#[trigger] entries[k]).1.download_dir.is_none(),
        has_unfinished(crate::index::entry_map(entries)) == exists|k: int|
            0 <= k < entries.len() && !(#[trigger] entries[k]).1.progress.complete(),
{
    let registry = crate::index::entry_map(entries);
    assert forall|k: int| 0 <= k < entries.len() implies registry.dom().contains(
        (#[trigger] entries[k]).0,
    ) && registry[entries[k].0] == entries[k].1 by {
        crate::index::lemma_entry(entries, k);
    }
    assert forall|hash: InfoHash| #[trigger] registry.dom().contains(hash) implies exists|k: int|
        0 <= k < entries.len() && #[trigger] entries[k] == (hash, registry[hash]) by {
        let k = crate::index::position_of(entries, hash);
        assert(entries[k] == (hash, registry[hash]));
    }
}

/// A torrent owns the directory of its unfinished payload and that of its finished one.
pub proof fn torrents_claim_their_directories(
    hash: InfoHash,
    torrent: Torrent,
    cfg: Config,
    fallback: Seq<char>,
)
    ensures
        ({
            let complete_dir = match torrent.download_dir {
                Some(own) => own@,
                None => match cfg.storage.download_dir {
                    Some(dir) => dir@,
                    None => fallback,
                },
            };
            let active_dir = match cfg.storage.incomplete_dir {
                Some(dir) => dir@,
                None => complete_dir,
            };
            let claims = own_claims(hash, torrent, cfg, fallback);
            &&& claims.contains((hash, active_dir))
            &&& crate::paths::same_path(active_dir, complete_dir) || claims.contains(
                (hash, complete_dir),
            )
            &&& forall|i: int|
                0 <= i < claims.len() ==> (#[trigger] claims[i]).0 == hash && (claims[i].1
                    == active_dir || claims[i].1 == complete_dir)
            &&& claims.len() == if crate::paths::same_path(active_dir, complete_dir) {
                1nat
            } else {
                2nat
            }
        }),
{
    let claims = own_claims(hash, torrent, cfg, fallback);
    let roots = roots_of(torrent, cfg, fallback);
    assert(claims[0] == (hash, roots[0]));
    if roots.len() == 2 {
        assert(claims[1] == (hash, roots[1]));
    }
}

/// Every torrent among the first but the one that is left out has all its claims, and no claim
/// belongs to any other.
pub proof fn all_claims_are_listed(
    entries: Seq<(InfoHash, Torrent)>,
    cfg: Config,
    fallback: Seq<char>,
    except: Option<InfoHash>,
    count: nat,
    i: int,
    k: int,
)
    requires
        0 <= i < count <= entries.len(),
        0 <= k < own_claims(entries[i].0, entries[i].1, cfg, fallback).len(),
    ensures
        except != Some(entries[i].0) ==> claims_among(entries, cfg, fallback, except, count).contains(
            own_claims(entries[i].0, entries[i].1, cfg, fallback)[k],
        ),
        forall|j: int|
            0 <= j < claims_among(entries, cfg, fallback, except, count).len() ==> Some(
                (#[trigger] claims_among(entries, cfg, fallback, except, count)[j]).0,
            ) != except,
    decreases count,
{
    lemma_excluded(entries, cfg, fallback, except, count);
    let before = claims_among(entries, cfg, fallback, except, (count - 1) as nat);
    let all = claims_among(entries, cfg, fallback, except, count);
    let claim = own_claims(entries[i].0, entries[i].1, cfg, fallback)[k];
    if except != Some(entries[i].0) {
        if i == count - 1 {
            assert(all[before.len() + k] == claim);
        } else {
            all_claims_are_listed(entries, cfg, fallback, except, (count - 1) as nat, i, k);
            assert(all[before.index_of(claim)] == claim);
        }
    }
}

proof fn lemma_excluded(
    entries: Seq<(InfoHash, Torrent)>,
    cfg: Config,
    fallback: Seq<char>,
    except: Option<InfoHash>,
    count: nat,
)
    ensures
        forall|j: int|
            0 <= j < claims_among(entries, cfg, fallback, except, count).len() ==> Some(
                (#[trigger] claims_among(entries, cfg, fallback, except, count)[j]).0,
            ) != except,
    decreases count,
{
    if count > 0 {
        lemma_excluded(entries, cfg, fallback, except, (count - 1) as nat);
        let before = claims_among(entries, cfg, fallback, except, (count - 1) as nat);
        let all = claims_among(entries, cfg, fallback, except, count);
        assert forall|j: int| 0 <= j < all.len() implies Some((#[trigger] all[j]).0) != except by {
            if j < before.len() {
                assert(all[j] == before[j]);
            }
        }
    }
}

/// The shared directory cannot change while a torrent without a directory of its own lies in it,
/// and the directory for unfinished torrents cannot change while one is unfinished. Every other
/// change is fine.
pub proof fn directories_in_use_do_not_change(
    previous: Config,
    next: Config,
    registry: Map<InfoHash, Torrent>,
    hash: InfoHash,
)
    requires
        registry.dom().contains(hash),
    ensures
        crate::config::text_of(previous.storage.download_dir) != crate::config::text_of(
            next.storage.download_dir,
        ) && registry[hash].download_dir.is_none() ==> (transition_fault(previous, next, registry)
            matches Some(fault) && fault.kind == ErrorKind::InvalidConfig),
        crate::config::text_of(previous.storage.incomplete_dir) != crate::config::text_of(
            next.storage.incomplete_dir,
        ) && registry[hash].progress.have@.len() == 0 ==> (transition_fault(previous, next, registry)
            matches Some(fault) && fault.kind == ErrorKind::InvalidConfig),
        crate::config::text_of(previous.storage.incomplete_dir) != crate::config::text_of(
            next.storage.incomplete_dir,
        ) && (exists|piece: int|
            0 <= piece < registry[hash].progress.have@.len()
                && !(#[trigger] registry[hash].progress.have@[piece])) ==> (transition_fault(
            previous,
            next,
            registry,
        ) matches Some(fault) && fault.kind == ErrorKind::InvalidConfig),
        crate::config::text_of(previous.storage.download_dir) == crate::config::text_of(
            next.storage.download_dir,
        ) && crate::config::text_of(previous.storage.incomplete_dir) == crate::config::text_of(
            next.storage.incomplete_dir,
        ) ==> transition_fault(previous, next, registry).is_none(),
        (forall|other: InfoHash| #[trigger]
            registry.dom().contains(other) ==> registry[other].download_dir.is_some()
                && registry[other].progress.have@.len() > 0 && forall|piece: int|
                0 <= piece < registry[other].progress.have@.len()
                    ==> #[trigger] registry[other].progress.have@[piece]) ==> transition_fault(
            previous,
            next,
            registry,
        ).is_none(),
{
    assert(registry[hash].download_dir == registry[hash].download_dir);
    if exists|piece: int|
        0 <= piece < registry[hash].progress.have@.len()
            && !(#[trigger] registry[hash].progress.have@[piece]) {
        assert(!registry[hash].progress.complete());
    }
}

/// The first fault that was found is the one that is told, those of the torrent itself before those
/// with others; and there is none exactly where nothing was found.
pub proof fn the_first_fault_is_told(faults: Seq<Option<CoreError>>, first: int)
    requires
        0 <= first <= faults.len(),
        forall|i: int| 0 <= i < first ==> (#[trigger] faults[i]).is_none(),
        first < faults.len() ==> faults[first].is_some(),
    ensures
        first == faults.len() ==> first_fault(faults).is_none(),
        first < faults.len() ==> first_fault(faults) == faults[first],
        first < faults.len() ==> forall|rows: Seq<Vec<Option<CoreError>>>| #[trigger]
            claims_fault(faults, rows) == faults[first],
    decreases first,
{
    if first > 0 {
        let rest = faults.skip(1);
        assert(faults[0].is_none());
        assert forall|i: int| 0 <= i < first - 1 implies (#[trigger] rest[i]).is_none() by {
            assert(rest[i] == faults[i + 1]);
        }
        if first < faults.len() {
            assert(rest[first - 1] == faults[first]);
        }
        the_first_fault_is_told(rest, first - 1);
    }
}

/// What was found of a claim is a fault exactly where it was refused, and the fault is the reason.
pub proof fn refusals_are_faults(outcome: Result<(), CoreError>)
    ensures
        outcome.is_ok() ==> fault_of(outcome).is_none(),
        outcome matches Err(error) ==> fault_of(outcome) == Some(error),
{
}

} // verus!
