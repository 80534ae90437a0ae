//! The directories that payloads are kept in, what each is for, and how each is used.
use crate::config::{
    resolve_download_dir_from_config, resolve_incomplete_dir_from_config, Config, WatchFolderConfig,
};
use crate::hash::InfoHash;
use crate::index::HashIndex;
use crate::order::{rank_texts, Rank};
use crate::text::{owned, same_text};
use crate::torrent::Torrent;
use vstd::prelude::*;

verus! {

/// What a directory is for.
#[derive(Clone, Copy, PartialEq, Eq, Structural, Debug)]
pub enum StorageRootRole {
    Download,
    DefaultDownload,
    Incomplete,
    WatchDownload,
    TorrentOverride,
}

/// A directory that payloads are kept in.
#[derive(Debug)]
pub struct StorageRoot {
    pub path: String,
    pub roles: Vec<StorageRootRole>,
    pub torrent_count: usize,
    pub active_torrents: usize,
    pub active_write_rate: u64,
}

/// A directory as a value, but for its path.
pub struct RootView {
    pub roles: Seq<StorageRootRole>,
    pub torrent_count: nat,
    pub active_torrents: nat,
    pub active_write_rate: nat,
}

impl View for StorageRoot {
    type V = RootView;

    open spec fn view(&self) -> RootView {
        RootView {
            roles: self.roles@,
            torrent_count: self.torrent_count as nat,
            active_torrents: self.active_torrents as nat,
            active_write_rate: self.active_write_rate as nat,
        }
    }
}

/// The directories stand in the order of their paths, each once.
pub open spec fn paths_increase(roots: Seq<StorageRoot>) -> bool {
    forall|i: int, k: int|
        0 <= i < k < roots.len() ==> crate::order::text_before(
            (#[trigger] roots[i]).path@,
            (#[trigger] roots[k]).path@,
        )
}

/// A list holds a directory of a path.
pub open spec fn lists_root(roots: Seq<StorageRoot>, path: Seq<char>) -> bool {
    exists|k: int| 0 <= k < roots.len() && (#[trigger] roots[k]).path@ == path
}

/// Where a list holds a directory of a path.
pub open spec fn place_of_root(roots: Seq<StorageRoot>, path: Seq<char>) -> int {
    choose|k: int| 0 <= k < roots.len() && (#[trigger] roots[k]).path@ == path
}

/// The directories of a list by path.
pub open spec fn root_map(roots: Seq<StorageRoot>) -> Map<Seq<char>, RootView> {
    Map::new(
        |path: Seq<char>| lists_root(roots, path),
        |path: Seq<char>| roots[place_of_root(roots, path)]@,
    )
}

/// A directory of which nothing is known yet.
pub open spec fn unused_root() -> RootView {
    RootView {
        roles: Seq::<StorageRootRole>::empty(),
        torrent_count: 0,
        active_torrents: 0,
        active_write_rate: 0,
    }
}

/// What is known of a directory.
pub open spec fn known_root(roots: Map<Seq<char>, RootView>, path: Seq<char>) -> RootView {
    if roots.dom().contains(path) {
        roots[path]
    } else {
        unused_root()
    }
}

/// A directory serves one more purpose.
pub open spec fn role_added(
    roots: Map<Seq<char>, RootView>,
    path: Seq<char>,
    role: StorageRootRole,
) -> Map<Seq<char>, RootView> {
    let root = known_root(roots, path);
    roots.insert(
        path,
        RootView {
            roles: if root.roles.contains(role) {
                root.roles
            } else {
                root.roles.push(role)
            },
            ..root
        },
    )
}

/// A sum of rates; at most what fits.
pub open spec fn rate_sum(a: nat, b: nat) -> nat {
    if a + b <= u64::MAX {
        a + b
    } else {
        u64::MAX as nat
    }
}

/// A directory holds one more torrent.
pub open spec fn usage_added(
    roots: Map<Seq<char>, RootView>,
    path: Seq<char>,
    torrent: Torrent,
) -> Map<Seq<char>, RootView> {
    let root = known_root(roots, path);
    let active = torrent.state.active();
    roots.insert(
        path,
        RootView {
            torrent_count: root.torrent_count + 1,
            active_torrents: root.active_torrents + if active {
                1nat
            } else {
                0nat
            },
            active_write_rate: if active {
                rate_sum(root.active_write_rate, torrent.rate_down as nat)
            } else {
                root.active_write_rate
            },
            ..root
        },
    )
}

proof fn lemma_root_place(roots: Seq<StorageRoot>, k: int)
    requires
        paths_increase(roots),
        0 <= k < roots.len(),
    ensures
        lists_root(roots, roots[k].path@),
        place_of_root(roots, roots[k].path@) == k,
        root_map(roots).dom().contains(roots[k].path@),
        root_map(roots)[roots[k].path@] == roots[k]@,
{
    let place = place_of_root(roots, roots[k].path@);
    assert(roots[place].path@ == roots[k].path@);
    crate::order::order_is_total(roots[k].path@, roots[k].path@);
}

/// Changing what is known of a directory, but for its path, changes it in the map alone.
proof fn lemma_root_changed(before: Seq<StorageRoot>, after: Seq<StorageRoot>, at: int)
    requires
        paths_increase(before),
        0 <= at < before.len(),
        after.len() == before.len(),
        after[at].path@ == before[at].path@,
        forall|k: int| 0 <= k < before.len() && k != at ==> #[trigger] after[k] == before[k],
    ensures
        paths_increase(after),
        root_map(after) == root_map(before).insert(before[at].path@, after[at]@),
{
    assert forall|i: int, k: int| 0 <= i < k < after.len() implies crate::order::text_before(
        (#[trigger] after[i]).path@,
        (#[trigger] after[k]).path@,
    ) by {
        assert(after[i].path@ == before[i].path@);
        assert(after[k].path@ == before[k].path@);
    }
    assert forall|path: Seq<char>| true implies #[trigger] lists_root(after, path) == lists_root(
        before,
        path,
    ) by {
        if lists_root(before, path) {
            assert(after[place_of_root(before, path)].path@ == path);
        }
        if lists_root(after, path) {
            assert(before[place_of_root(after, path)].path@ == path);
        }
    }
    lemma_root_place(before, at);
    lemma_root_place(after, at);
    assert forall|path: Seq<char>| lists_root(before, path) && path != before[at].path@ implies
        root_map(after)[path] == root_map(before)[path] by {
        let k = place_of_root(before, path);
        assert(after[k] == before[k]);
        lemma_root_place(before, k);
        lemma_root_place(after, k);
    }
    assert(root_map(after) =~= root_map(before).insert(before[at].path@, after[at]@));
}

/// Inserting a directory at its place adds it to the map.
proof fn lemma_root_inserted(before: Seq<StorageRoot>, root: StorageRoot, at: int)
    requires
        paths_increase(before),
        0 <= at <= before.len(),
        forall|k: int|
            0 <= k < at ==> crate::order::text_before(
                (#[trigger] before[k]).path@,
                root.path@,
            ),
        forall|k: int|
            at <= k < before.len() ==> crate::order::text_before(
                root.path@,
                (#[trigger] before[k]).path@,
            ),
    ensures
        paths_increase(before.insert(at, root)),
        !lists_root(before, root.path@),
        root_map(before.insert(at, root)) == root_map(before).insert(root.path@, root@),
{
    let after = before.insert(at, root);
    crate::order::order_is_total(root.path@, root.path@);
    assert forall|i: int, k: int| 0 <= i < k < after.len() implies crate::order::text_before(
        (#[trigger] after[i]).path@,
        (#[trigger] after[k]).path@,
    ) by {
        if i != at {
            assert(after[i] == if i < at {
                before[i]
            } else {
                before[i - 1]
            });
        }
        if k != at {
            assert(after[k] == if k < at {
                before[k]
            } else {
                before[k - 1]
            });
        }
    }
    if lists_root(before, root.path@) {
        assert(before[place_of_root(before, root.path@)].path@ == root.path@);
    }
    assert forall|path: Seq<char>| true implies #[trigger] lists_root(after, path) == (lists_root(
        before,
        path,
    ) || path == root.path@) by {
        if lists_root(before, path) {
            let k = place_of_root(before, path);
            assert(after[if k < at {
                k
            } else {
                k + 1
            }] == before[k]);
        }
        assert(after[at] == root);
        if lists_root(after, path) && path != root.path@ {
            let k = place_of_root(after, path);
            assert(after[k] == before[if k < at {
                k
            } else {
                k - 1
            }]);
        }
    }
    lemma_root_place(after, at);
    assert forall|path: Seq<char>| lists_root(before, path) implies root_map(after)[path]
        == root_map(before)[path] by {
        let k = place_of_root(before, path);
        let moved = if k < at {
            k
        } else {
            k + 1
        };
        assert(after[moved] == before[k]);
        lemma_root_place(before, k);
        lemma_root_place(after, moved);
    }
    assert(root_map(after) =~= root_map(before).insert(root.path@, root@));
}

/// Where a directory stands; one that is not there yet is put there.
fn root_position(roots: &mut Vec<StorageRoot>, path: &str) -> (position: usize)
    requires
        paths_increase(old(roots)@),
    ensures
        paths_increase(final(roots)@),
        position < final(roots)@.len(),
        final(roots)@[position as int].path@ == path@,
        final(roots)@[position as int]@ == known_root(root_map(old(roots)@), path@),
        root_map(final(roots)@) == root_map(old(roots)@).insert(
            path@,
            known_root(root_map(old(roots)@), path@),
        ),
{
    let mut i: usize = 0;
    let ghost before = roots@;
    while i < roots.len()
        invariant_except_break
            i <= roots@.len(),
            roots@ == before,
            paths_increase(before),
            forall|k: int|
                0 <= k < i ==> crate::order::text_before((#[trigger] before[k]).path@, path@),
        ensures
            i <= roots@.len(),
            roots@ == before,
            forall|k: int|
                0 <= k < i ==> crate::order::text_before((#[trigger] before[k]).path@, path@),
            i < before.len() ==> crate::order::text_before(path@, before[i as int].path@)
                || before[i as int].path@ == path@,
        decreases roots@.len() - i,
    {
        match rank_texts(roots[i].path.as_str(), path) {
            Rank::Before => {
                i = i + 1;
            },
            _ => {
                break ;
            },
        }
    }
    if i < roots.len() && same_text(roots[i].path.as_str(), path) {
        proof {
            lemma_root_place(before, i as int);
            assert(root_map(before) =~= root_map(before).insert(path@, root_map(before)[path@]));
        }
        return i;
    }
    let root: StorageRoot = StorageRoot {
        path: owned(path),
        roles: Vec::new(),
        torrent_count: 0,
        active_torrents: 0,
        active_write_rate: 0,
    };
    proof {
        assert forall|k: int| i <= k < before.len() implies crate::order::text_before(
            root.path@,
            (#[trigger] before[k]).path@,
        ) by {
            if k > i {
                assert(crate::order::text_before(before[i as int].path@, before[k].path@));
                crate::order::order_is_transitive(
                    root.path@,
                    before[i as int].path@,
                    before[k].path@,
                );
            }
        }
        lemma_root_inserted(before, root, i as int);
        assert(root@.roles =~= Seq::<StorageRootRole>::empty());
    }
    roots.insert(i, root);
    i
}

/// Notes one more purpose of a directory.
pub fn add_storage_root_role(roots: &mut Vec<StorageRoot>, path: &str, role: StorageRootRole)
    requires
        paths_increase(old(roots)@),
    ensures
        paths_increase(final(roots)@),
        root_map(final(roots)@) == role_added(root_map(old(roots)@), path@, role),
{
    let ghost first = root_map(roots@);
    let position: usize = root_position(roots, path);
    let ghost before = roots@;
    let mut known: bool = false;
    let mut i: usize = 0;
    while i < roots[position].roles.len()
        invariant
            roots@ == before,
            position < before.len(),
            i <= before[position as int].roles@.len(),
            known == before[position as int].roles@.take(i as int).contains(role),
        decreases before[position as int].roles@.len() - i,
    {
        proof {
            let list = before[position as int].roles@;
            assert(list.take(i + 1) =~= list.take(i as int).push(list[i as int]));
            assert(list.take(i + 1)[i as int] == list[i as int]);
            if list.take(i as int).contains(role) {
                assert(list.take(i + 1)[list.take(i as int).index_of(role)] == role);
            }
            if list.take(i + 1).contains(role) && list[i as int] != role {
                assert(list.take(i as int)[list.take(i + 1).index_of(role)] == role);
            }
        }
        if roots[position].roles[i] == role {
            known = true;
        }
        i = i + 1;
    }
    assert(before[position as int].roles@.take(i as int) =~= before[position as int].roles@);
    if !known {
        roots[position].roles.push(role);
    }
    proof {
        lemma_root_changed(before, roots@, position as int);
        assert(root_map(roots@) =~= role_added(first, path@, role));
    }
}

/// Notes one more torrent in a directory.
pub fn add_storage_root_usage(roots: &mut Vec<StorageRoot>, path: &str, torrent: &Torrent)
    requires
        paths_increase(old(roots)@),
        known_root(root_map(old(roots)@), path@).torrent_count < usize::MAX,
        known_root(root_map(old(roots)@), path@).active_torrents < usize::MAX,
    ensures
        paths_increase(final(roots)@),
        root_map(final(roots)@) == usage_added(root_map(old(roots)@), path@, *torrent),
{
    let ghost first = root_map(roots@);
    let position: usize = root_position(roots, path);
    let ghost before = roots@;
    let active: bool = torrent.state.is_active();
    let root: &mut StorageRoot = &mut roots[position];
    root.torrent_count = root.torrent_count + 1;
    if active {
        root.active_torrents = root.active_torrents + 1;
        root.active_write_rate = match root.active_write_rate.checked_add(torrent.rate_down) {
            Some(rate) => rate,
            None => u64::MAX,
        };
    }
    proof {
        lemma_root_changed(before, roots@, position as int);
        assert(root_map(roots@) =~= usage_added(first, path@, *torrent));
    }
}

/// After the directories of a torrent were noted.
pub open spec fn torrent_noted(
    roots: Map<Seq<char>, RootView>,
    torrent: Torrent,
    cfg: Config,
    fallback: Seq<char>,
) -> Map<Seq<char>, RootView> {
    let complete_dir = crate::config::complete_dir_of(
        crate::config::text_of(torrent.download_dir),
        cfg,
        fallback,
    );
    let active_dir = crate::config::active_dir_of(complete_dir, cfg);
    let own = if torrent.download_dir.is_some() {
        role_added(roots, complete_dir, StorageRootRole::TorrentOverride)
    } else {
        roots
    };
    let used = usage_added(own, complete_dir, torrent);
    let working = role_added(used, active_dir, StorageRootRole::Incomplete);
    if active_dir != complete_dir {
        usage_added(working, active_dir, torrent)
    } else {
        working
    }
}

/// After the directories of the first torrents were noted.
pub open spec fn torrents_noted(
    roots: Map<Seq<char>, RootView>,
    entries: Seq<(InfoHash, Torrent)>,
    cfg: Config,
    fallback: Seq<char>,
    count: nat,
) -> Map<Seq<char>, RootView>
    decreases count,
{
    if count == 0 {
        roots
    } else {
        torrent_noted(
            torrents_noted(roots, entries, cfg, fallback, (count - 1) as nat),
            entries[count - 1].1,
            cfg,
            fallback,
        )
    }
}

/// After the directories of the first watch folders were noted.
pub open spec fn folders_noted(
    roots: Map<Seq<char>, RootView>,
    folders: Seq<WatchFolderConfig>,
    count: nat,
) -> Map<Seq<char>, RootView>
    decreases count,
{
    if count == 0 {
        roots
    } else {
        let before = folders_noted(roots, folders, (count - 1) as nat);
        match folders[count - 1].download_dir {
            Some(dir) => role_added(before, dir@, StorageRootRole::WatchDownload),
            None => before,
        }
    }
}

/// The directories that the settings name.
pub open spec fn configured_roots(cfg: Config, fallback: Seq<char>) -> Map<Seq<char>, RootView> {
    let download_dir = crate::config::complete_dir_of(None, cfg, fallback);
    let shared = role_added(
        Map::<Seq<char>, RootView>::empty(),
        download_dir,
        if cfg.storage.download_dir.is_some() {
            StorageRootRole::Download
        } else {
            StorageRootRole::DefaultDownload
        },
    );
    let working = role_added(
        shared,
        crate::config::active_dir_of(download_dir, cfg),
        StorageRootRole::Incomplete,
    );
    folders_noted(working, cfg.watch@, cfg.watch@.len())
}

/// No directory holds more torrents than there are.
pub open spec fn counts_bounded(roots: Map<Seq<char>, RootView>, bound: nat) -> bool {
    forall|path: Seq<char>| #[trigger]
        roots.dom().contains(path) ==> roots[path].torrent_count <= bound
            && roots[path].active_torrents <= bound
}

proof fn lemma_torrent_bounded(
    roots: Map<Seq<char>, RootView>,
    torrent: Torrent,
    cfg: Config,
    fallback: Seq<char>,
    bound: nat,
)
    requires
        counts_bounded(roots, bound),
    ensures
        counts_bounded(torrent_noted(roots, torrent, cfg, fallback), bound + 1),
{
}

fn note_torrent(roots: &mut Vec<StorageRoot>, torrent: &Torrent, cfg: &Config, fallback: &str)
    requires
        paths_increase(old(roots)@),
        counts_bounded(root_map(old(roots)@), (usize::MAX - 1) as nat),
    ensures
        paths_increase(final(roots)@),
        root_map(final(roots)@) == torrent_noted(
            root_map(old(roots)@),
            *torrent,
            *cfg,
            fallback@,
        ),
{
    let own_dir: Option<&str> = match &torrent.download_dir {
        Some(dir) => Some(dir.as_str()),
        None => None,
    };
    let complete_dir: String = resolve_download_dir_from_config(own_dir, cfg, fallback);
    if torrent.download_dir.is_some() {
        add_storage_root_role(roots, complete_dir.as_str(), StorageRootRole::TorrentOverride);
    }
    add_storage_root_usage(roots, complete_dir.as_str(), torrent);
    let active_dir: String = resolve_incomplete_dir_from_config(complete_dir.as_str(), cfg);
    add_storage_root_role(roots, active_dir.as_str(), StorageRootRole::Incomplete);
    if !same_text(active_dir.as_str(), complete_dir.as_str()) {
        add_storage_root_usage(roots, active_dir.as_str(), torrent);
    }
}

/// All directories that payloads are kept in, in the order of their paths.
pub fn storage_roots(cfg: &Config, registry: &HashIndex<Torrent>, fallback: &str) -> (roots: Vec<
    StorageRoot,
>)
    requires
        registry.wf(),
    ensures
        paths_increase(roots@),
        root_map(roots@) == torrents_noted(
            configured_roots(*cfg, fallback@),
            registry.seq(),
            *cfg,
            fallback@,
            registry.seq().len(),
        ),
{
    let mut roots: Vec<StorageRoot> = Vec::new();
    assert(root_map(roots@) =~= Map::<Seq<char>, RootView>::empty());
    let download_dir: String = resolve_download_dir_from_config(None, cfg, fallback);
    let role: StorageRootRole = if cfg.storage.download_dir.is_some() {
        StorageRootRole::Download
    } else {
        StorageRootRole::DefaultDownload
    };
    add_storage_root_role(&mut roots, download_dir.as_str(), role);
    let incomplete_dir: String = resolve_incomplete_dir_from_config(download_dir.as_str(), cfg);
    add_storage_root_role(&mut roots, incomplete_dir.as_str(), StorageRootRole::Incomplete);
    let ghost working = root_map(roots@);
    assert(counts_bounded(working, 0));
    let mut i: usize = 0;
    while i < cfg.watch.len()
        invariant
            i <= cfg.watch@.len(),
            paths_increase(roots@),
            counts_bounded(root_map(roots@), 0),
            root_map(roots@) == folders_noted(working, cfg.watch@, i as nat),
        decreases cfg.watch@.len() - i,
    {
        if let Some(dir) = &cfg.watch[i].download_dir {
            add_storage_root_role(&mut roots, dir.as_str(), StorageRootRole::WatchDownload);
        }
        i = i + 1;
    }
    let ghost configured = root_map(roots@);
    let count: usize = registry.len();
    let mut k: usize = 0;
    while k < count
        invariant
            registry.wf(),
            k <= registry.seq().len(),
            count == registry.seq().len(),
            paths_increase(roots@),
            counts_bounded(root_map(roots@), k as nat),
            root_map(roots@) == torrents_noted(
                configured,
                registry.seq(),
                *cfg,
                fallback@,
                k as nat,
            ),
        decreases registry.seq().len() - k,
    {
        proof {
            lemma_torrent_bounded(
                root_map(roots@),
                registry.seq()[k as int].1,
                *cfg,
                fallback@,
                k as nat,
            );
        }
        note_torrent(&mut roots, registry.value_at(k), cfg, fallback);
        k = k + 1;
    }
    roots
}

/// What is shown of the directories that torrents are stored in.
#[derive(Debug)]
pub struct StorageDiagnostics {
    pub roots: Vec<StorageRoot>,
    pub minimum_free_space_bytes: u64,
    pub minimum_free_space_percent: u64,
    /// The seconds since the epoch at which this was put together.
    pub generated_at: u64,
}

/// The directories that torrents are stored in, with the free space that is asked of them.
pub fn storage_diagnostics(
    cfg: &Config,
    registry: &HashIndex<Torrent>,
    fallback: &str,
    now_seconds: u64,
) -> (shown: StorageDiagnostics)
    requires
        registry.wf(),
    ensures
        paths_increase(shown.roots@),
        root_map(shown.roots@) == torrents_noted(
            configured_roots(*cfg, fallback@),
            registry.seq(),
            *cfg,
            fallback@,
            registry.seq().len(),
        ),
        shown.minimum_free_space_bytes == cfg.storage.minimum_free_space_bytes,
        shown.minimum_free_space_percent == cfg.storage.minimum_free_space_percent,
        shown.generated_at == now_seconds,
{
    StorageDiagnostics {
        roots: storage_roots(cfg, registry, fallback),
        minimum_free_space_bytes: cfg.storage.minimum_free_space_bytes,
        minimum_free_space_percent: cfg.storage.minimum_free_space_percent,
        generated_at: now_seconds,
    }
}

/// A directory gets a role once, keeps the roles that it had, and its counts stay; no other
/// directory changes.
pub proof fn roles_are_added_once(
    roots: Map<Seq<char>, RootView>,
    path: Seq<char>,
    role: StorageRootRole,
    other: Seq<char>,
)
    requires
        other != path,
    ensures
        ({
            let after = role_added(roots, path, role);
            &&& after.dom().contains(path)
            &&& after[path].roles.contains(role)
            &&& roots.dom().contains(path) ==> roots[path].roles.is_prefix_of(after[path].roles)
                && after[path].torrent_count == roots[path].torrent_count
                && after[path].active_torrents == roots[path].active_torrents
                && after[path].active_write_rate == roots[path].active_write_rate
            &&& !roots.dom().contains(path) ==> after[path].roles == seq![role]
                && after[path].torrent_count == 0 && after[path].active_torrents == 0
                && after[path].active_write_rate == 0
            &&& after.dom().contains(other) == roots.dom().contains(other)
            &&& roots.dom().contains(other) ==> after[other] == roots[other]
        }),
{
    let root = known_root(roots, path);
    if !root.roles.contains(role) {
        assert(root.roles.push(role)[root.roles.len() as int] == role);
    }
    if !roots.dom().contains(path) {
        assert(root.roles.push(role) =~= seq![role]);
    }
}

/// A torrent counts once for each directory that it uses: where its finished payload lies, and
/// where its unfinished one does if that is another. Only a torrent that downloads or uploads
/// counts as active there and adds its rate. No other directory changes.
pub proof fn torrents_count_where_they_lie(
    roots: Map<Seq<char>, RootView>,
    torrent: Torrent,
    cfg: Config,
    fallback: Seq<char>,
    path: Seq<char>,
)
    ensures
        ({
            let complete_dir = match torrent.download_dir {
                Some(own) => own@,
                None => match cfg.storage.download_dir {
                    Some(dir) => dir@,
                    None => fallback,
                },
            };
            let active_dir = match cfg.storage.incomplete_dir {
                Some(dir) => dir@,
                None => complete_dir,
            };
            let after = torrent_noted(roots, torrent, cfg, fallback);
            let used = path == complete_dir || path == active_dir;
            let active = torrent.state == crate::torrent::TorrentState::Downloading || torrent.state
                == crate::torrent::TorrentState::DownloadingMetadata || torrent.state == crate::torrent::TorrentState::Seeding;
            let was = known_root(roots, path);
            &&& after.dom().contains(path) == (roots.dom().contains(path) || used)
            &&& used ==> after[path].torrent_count == was.torrent_count + 1
            &&& used && active ==> after[path].active_torrents == was.active_torrents + 1
                && after[path].active_write_rate == if was.active_write_rate + torrent.rate_down
                <= u64::MAX {
                was.active_write_rate + torrent.rate_down
            } else {
                u64::MAX as int
            }
            &&& used && !active ==> after[path].active_torrents == was.active_torrents
                && after[path].active_write_rate == was.active_write_rate
            &&& !used && roots.dom().contains(path) ==> after[path] == roots[path]
            &&& path == active_dir ==> after[path].roles.contains(StorageRootRole::Incomplete)
            &&& path == complete_dir && torrent.download_dir.is_some()
                ==> after[path].roles.contains(StorageRootRole::TorrentOverride)
        }),
{
    let complete_dir = crate::config::complete_dir_of(
        crate::config::text_of(torrent.download_dir),
        cfg,
        fallback,
    );
    let active_dir = crate::config::active_dir_of(complete_dir, cfg);
    let own = if torrent.download_dir.is_some() {
        role_added(roots, complete_dir, StorageRootRole::TorrentOverride)
    } else {
        roots
    };
    let used = usage_added(own, complete_dir, torrent);
    let apart = complete_dir.push('a');
    assert(apart.len() != complete_dir.len());
    if torrent.download_dir.is_some() {
        roles_are_added_once(roots, complete_dir, StorageRootRole::TorrentOverride, apart);
        assert(own[complete_dir].roles.contains(StorageRootRole::TorrentOverride));
    }
    let away = active_dir.push('a');
    assert(away.len() != active_dir.len());
    roles_are_added_once(used, active_dir, StorageRootRole::Incomplete, away);
    if active_dir == complete_dir && torrent.download_dir.is_some() {
        let before = used[active_dir].roles;
        let after = role_added(used, active_dir, StorageRootRole::Incomplete)[active_dir].roles;
        let k = before.index_of(StorageRootRole::TorrentOverride);
        assert(after[k] == StorageRootRole::TorrentOverride);
    }
}

/// The directories of a configuration: the shared one, called the default where none is configured,
/// the one for unfinished torrents, and that of every watched folder that has one. No torrent
/// counts there yet.
pub proof fn configured_directories_have_their_roles(cfg: Config, fallback: Seq<char>, folder: int)
    ensures
        ({
            let roots = configured_roots(cfg, fallback);
            let download_dir = match cfg.storage.download_dir {
                Some(dir) => dir@,
                None => fallback,
            };
            let incomplete_dir = match cfg.storage.incomplete_dir {
                Some(dir) => dir@,
                None => download_dir,
            };
            &&& roots.dom().contains(download_dir) && roots.dom().contains(incomplete_dir)
            &&& cfg.storage.download_dir.is_some() ==> roots[download_dir].roles.contains(
                StorageRootRole::Download,
            )
            &&& cfg.storage.download_dir.is_none() ==> roots[download_dir].roles.contains(
                StorageRootRole::DefaultDownload,
            )
            &&& roots[incomplete_dir].roles.contains(StorageRootRole::Incomplete)
            &&& 0 <= folder < cfg.watch@.len() ==> (cfg.watch@[folder].download_dir matches Some(dir)
                ==> roots.dom().contains(dir@) && roots[dir@].roles.contains(
                StorageRootRole::WatchDownload,
            ))
            &&& roots[download_dir].torrent_count == 0 && roots[incomplete_dir].torrent_count == 0
        }),
{
    let download_dir = crate::config::complete_dir_of(None, cfg, fallback);
    let incomplete_dir = crate::config::active_dir_of(download_dir, cfg);
    let first = if cfg.storage.download_dir.is_some() {
        StorageRootRole::Download
    } else {
        StorageRootRole::DefaultDownload
    };
    let none = Map::<Seq<char>, RootView>::empty();
    let shared = role_added(none, download_dir, first);
    let working = role_added(shared, incomplete_dir, StorageRootRole::Incomplete);
    lemma_role_added(none, download_dir, first);
    lemma_role_added(shared, incomplete_dir, StorageRootRole::Incomplete);
    lemma_folders(working, cfg.watch@, cfg.watch@.len());
    assert(keeps_roles(working, configured_roots(cfg, fallback)));
    assert(keeps_roles(shared, working));
    assert(working[download_dir].roles.contains(first));
    assert(working[incomplete_dir].roles.contains(StorageRootRole::Incomplete));
    if 0 <= folder < cfg.watch@.len() {
        assert(cfg.watch@[folder] == cfg.watch@[folder]);
    }
}

/// No directory, role or count is lost.
pub open spec fn keeps_roles(
    before: Map<Seq<char>, RootView>,
    after: Map<Seq<char>, RootView>,
) -> bool {
    forall|path: Seq<char>| #[trigger]
        before.dom().contains(path) ==> after.dom().contains(path) && after[path].torrent_count
            == before[path].torrent_count && forall|role: StorageRootRole| #[trigger]
            before[path].roles.contains(role) ==> after[path].roles.contains(role)
}

proof fn lemma_role_added(
    roots: Map<Seq<char>, RootView>,
    path: Seq<char>,
    role: StorageRootRole,
)
    ensures
        keeps_roles(roots, role_added(roots, path, role)),
        role_added(roots, path, role).dom().contains(path),
        role_added(roots, path, role)[path].roles.contains(role),
        !roots.dom().contains(path) ==> role_added(roots, path, role)[path].torrent_count == 0,
{
    let after = role_added(roots, path, role);
    let root = known_root(roots, path);
    if !root.roles.contains(role) {
        assert(root.roles.push(role)[root.roles.len() as int] == role);
    }
    assert forall|one: Seq<char>| #[trigger] roots.dom().contains(one) implies after.dom().contains(
        one,
    ) && after[one].torrent_count == roots[one].torrent_count && forall|other: StorageRootRole|
     #[trigger]
        roots[one].roles.contains(other) ==> after[one].roles.contains(other) by {
        assert forall|other: StorageRootRole| #[trigger]
            roots[one].roles.contains(other) implies after[one].roles.contains(other) by {
            if one == path && !root.roles.contains(role) {
                assert(after[one].roles[root.roles.index_of(other)] == other);
            }
        }
    }
}

proof fn lemma_folders(
    roots: Map<Seq<char>, RootView>,
    folders: Seq<WatchFolderConfig>,
    count: nat,
)
    requires
        count <= folders.len(),
    ensures
        keeps_roles(roots, folders_noted(roots, folders, count)),
        forall|k: int|
            0 <= k < count ==> ((#[trigger] folders[k]).download_dir matches Some(dir)
                ==> folders_noted(roots, folders, count).dom().contains(dir@) && folders_noted(
                roots,
                folders,
                count,
            )[dir@].roles.contains(StorageRootRole::WatchDownload)),
    decreases count,
{
    if count > 0 {
        let before = folders_noted(roots, folders, (count - 1) as nat);
        let after = folders_noted(roots, folders, count);
        lemma_folders(roots, folders, (count - 1) as nat);
        if let Some(dir) = folders[count - 1].download_dir {
            lemma_role_added(before, dir@, StorageRootRole::WatchDownload);
        }
        assert(keeps_roles(before, after));
        assert forall|path: Seq<char>| #[trigger] roots.dom().contains(
            path,
        ) implies after.dom().contains(path) && after[path].torrent_count
            == roots[path].torrent_count && forall|role: StorageRootRole| #[trigger]
            roots[path].roles.contains(role) ==> after[path].roles.contains(role) by {
            assert(before.dom().contains(path));
            assert forall|role: StorageRootRole| #[trigger]
                roots[path].roles.contains(role) implies after[path].roles.contains(role) by {
                assert(before[path].roles.contains(role));
            }
        }
        assert forall|k: int| 0 <= k < count implies ((
        #[trigger] folders[k]).download_dir matches Some(dir) ==> after.dom().contains(dir@)
            && after[dir@].roles.contains(StorageRootRole::WatchDownload)) by {
            if k < count - 1 {
                if let Some(dir) = folders[k].download_dir {
                    assert(before.dom().contains(dir@));
                    assert(before[dir@].roles.contains(StorageRootRole::WatchDownload));
                }
            }
        }
    }
}

/// Torrents are noted one after the other, every one of them: each adds one to the count of every
/// directory that it uses, and to no other.
pub proof fn every_torrent_is_noted(
    roots: Map<Seq<char>, RootView>,
    entries: Seq<(InfoHash, Torrent)>,
    cfg: Config,
    fallback: Seq<char>,
    count: nat,
    path: Seq<char>,
)
    requires
        count < entries.len(),
    ensures
        ({
            let torrent = entries[count as int].1;
            let complete_dir = match torrent.download_dir {
                Some(own) => own@,
                None => match cfg.storage.download_dir {
                    Some(dir) => dir@,
                    None => fallback,
                },
            };
            let active_dir = match cfg.storage.incomplete_dir {
                Some(dir) => dir@,
                None => complete_dir,
            };
            let before = torrents_noted(roots, entries, cfg, fallback, count);
            let after = torrents_noted(roots, entries, cfg, fallback, count + 1);
            &&& torrents_noted(roots, entries, cfg, fallback, 0) == roots
            &&& path == complete_dir || path == active_dir ==> after.dom().contains(path)
                && after[path].torrent_count == known_root(before, path).torrent_count + 1
            &&& path != complete_dir && path != active_dir ==> after.dom().contains(path)
                == before.dom().contains(path) && (before.dom().contains(path) ==> after[path]
                == before[path])
        }),
{
    let before = torrents_noted(roots, entries, cfg, fallback, count);
    torrents_count_where_they_lie(before, entries[count as int].1, cfg, fallback, path);
}

} // verus!
