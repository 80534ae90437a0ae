//! Copies of the values that tickets and snapshots hold.
use crate::config::{
    ApiConfig, Config, DhtConfig, LoggingConfig, NetworkConfig, StorageConfig, WatchFolderConfig,
};
use crate::torrent::{MetaFile, PieceProgress, Torrent, TorrentFile, TorrentMeta};
use vstd::prelude::*;

verus! {

/// A copy of a list of plain values.
pub fn copied<T: Copy>(list: &Vec<T>) -> (copy: Vec<T>)
    ensures
        copy@ == list@,
{
    let mut copy: Vec<T> = Vec::new();
    let mut i: usize = 0;
    while i < list.len()
        invariant
            i <= list.len(),
            copy@ == list@.take(i as int),
        decreases list.len() - i,
    {
        copy.push(list[i]);
        i = i + 1;
        assert(copy@ =~= list@.take(i as int));
    }
    assert(copy@ =~= list@);
    copy
}

/// A copy of a list of texts.
pub fn copied_texts(list: &Vec<String>) -> (copy: Vec<String>)
    ensures
        copy@ == list@,
{
    let mut copy: Vec<String> = Vec::new();
    let mut i: usize = 0;
    while i < list.len()
        invariant
            i <= list.len(),
            copy@ == list@.take(i as int),
        decreases list.len() - i,
    {
        copy.push(list[i].clone());
        i = i + 1;
        assert(copy@ =~= list@.take(i as int));
    }
    assert(copy@ =~= list@);
    copy
}

/// A list of lists as values.
pub open spec fn lists_of(lists: Seq<Vec<String>>) -> Seq<Seq<String>> {
    lists.map_values(|list: Vec<String>| list@)
}

/// A copy of a list of lists of texts.
pub fn copied_lists(lists: &Vec<Vec<String>>) -> (copy: Vec<Vec<String>>)
    ensures
        lists_of(copy@) == lists_of(lists@),
{
    let mut copy: Vec<Vec<String>> = Vec::new();
    let mut i: usize = 0;
    while i < lists.len()
        invariant
            i <= lists.len(),
            copy@.len() == i,
            forall|k: int| 0 <= k < i ==> (#[trigger] copy@[k])@ == lists@[k]@,
        decreases lists.len() - i,
    {
        copy.push(copied_texts(&lists[i]));
        i = i + 1;
    }
    assert(lists_of(copy@) =~= lists_of(lists@));
    copy
}

/// Two files of the metadata are alike.
pub open spec fn same_meta_file(a: MetaFile, b: MetaFile) -> bool {
    a.path@ == b.path@ && a.length == b.length
}

/// Two pieces of metadata hold the same.
pub open spec fn same_meta(a: TorrentMeta, b: TorrentMeta) -> bool {
    &&& a == (TorrentMeta { files: a.files, announce_list: a.announce_list, ..b })
    &&& a.files@.len() == b.files@.len()
    &&& forall|k: int|
        0 <= k < a.files@.len() ==> same_meta_file(#[trigger] a.files@[k], b.files@[k])
    &&& lists_of(a.announce_list@) == lists_of(b.announce_list@)
}

/// Two torrents hold the same.
pub open spec fn same_torrent(a: Torrent, b: Torrent) -> bool {
    &&& a == (Torrent {
        meta: a.meta,
        files: a.files,
        priorities: a.priorities,
        wanted: a.wanted,
        progress: a.progress,
        labels: a.labels,
        magnet_trackers: a.magnet_trackers,
        ..b
    })
    &&& same_meta(a.meta, b.meta)
    &&& a.files@ == b.files@
    &&& a.priorities@ == b.priorities@
    &&& a.wanted@ == b.wanted@
    &&& a.progress.have@ == b.progress.have@
    &&& a.labels@ == b.labels@
    &&& a.magnet_trackers@ == b.magnet_trackers@
}

/// A copy of an optional text.
pub fn copied_text(text: &Option<String>) -> (copy: Option<String>)
    ensures
        copy == *text,
{
    match text {
        Some(text) => Some(text.clone()),
        None => None,
    }
}

impl Clone for TorrentFile {
    fn clone(&self) -> (copy: TorrentFile)
        ensures
            copy == *self,
    {
        TorrentFile {
            index: self.index,
            path: self.path.clone(),
            length: self.length,
            bytes_completed: self.bytes_completed,
            priority: self.priority,
            wanted: self.wanted,
        }
    }
}

impl Clone for TorrentMeta {
    fn clone(&self) -> (copy: TorrentMeta)
        ensures
            same_meta(copy, *self),
    {
        let mut files: Vec<MetaFile> = Vec::new();
        let mut i: usize = 0;
        while i < self.files.len()
            invariant
                i <= self.files.len(),
                files@.len() == i,
                forall|k: int|
                    0 <= k < i ==> same_meta_file(#[trigger] files@[k], self.files@[k]),
            decreases self.files.len() - i,
        {
            files.push(
                MetaFile { path: copied_texts(&self.files[i].path), length: self.files[i].length },
            );
            i = i + 1;
        }
        TorrentMeta {
            info_hash: self.info_hash,
            name: self.name.clone(),
            piece_length: self.piece_length,
            piece_count: self.piece_count,
            total_length: self.total_length,
            files,
            private: self.private,
            announce: copied_text(&self.announce),
            announce_list: copied_lists(&self.announce_list),
        }
    }
}

/// A copy of a list of files.
pub fn copied_files(list: &Vec<TorrentFile>) -> (copy: Vec<TorrentFile>)
    ensures
        copy@ == list@,
{
    let mut copy: Vec<TorrentFile> = Vec::new();
    let mut i: usize = 0;
    while i < list.len()
        invariant
            i <= list.len(),
            copy@ == list@.take(i as int),
        decreases list.len() - i,
    {
        copy.push(list[i].clone());
        i = i + 1;
        assert(copy@ =~= list@.take(i as int));
    }
    assert(copy@ =~= list@);
    copy
}

impl Clone for Torrent {
    fn clone(&self) -> (copy: Torrent)
        ensures
            same_torrent(copy, *self),
    {
        Torrent {
            meta: self.meta.clone(),
            files: copied_files(&self.files),
            priorities: copied(&self.priorities),
            wanted: copied(&self.wanted),
            progress: PieceProgress { have: copied(&self.progress.have) },
            state: self.state,
            seeding_status: self.seeding_status,
            seeding: self.seeding,
            error: match &self.error {
                Some(notice) => Some(notice.clone()),
                None => None,
            },
            containment_recovery_intent: self.containment_recovery_intent,
            download_dir: copied_text(&self.download_dir),
            labels: copied_texts(&self.labels),
            download_limit: self.download_limit,
            upload_limit: self.upload_limit,
            rate_down: self.rate_down,
            rate_up: self.rate_up,
            downloaded: self.downloaded,
            uploaded: self.uploaded,
            active_peer_workers: self.active_peer_workers,
            known_peers: self.known_peers,
            needs_metadata: self.needs_metadata,
            magnet_info_hash: self.magnet_info_hash,
            magnet_name: copied_text(&self.magnet_name),
            magnet_trackers: copied_texts(&self.magnet_trackers),
            date_added: self.date_added,
            date_completed: self.date_completed,
            autopilot_mode_override: self.autopilot_mode_override,
        }
    }
}

impl Clone for WatchFolderConfig {
    fn clone(&self) -> (copy: WatchFolderConfig)
        ensures
            copy == *self,
    {
        WatchFolderConfig {
            path: self.path.clone(),
            recursive: self.recursive,
            download_dir: copied_text(&self.download_dir),
            label: copied_text(&self.label),
            start_behavior: self.start_behavior,
            archive_dir: copied_text(&self.archive_dir),
            failure_dir: copied_text(&self.failure_dir),
            delete_after_import: self.delete_after_import,
        }
    }
}

/// Two configurations hold the same.
pub open spec fn same_config(a: Config, b: Config) -> bool {
    &&& a == (Config { dht: a.dht, watch: a.watch, ..b })
    &&& a.dht == (DhtConfig { bootstrap_nodes: a.dht.bootstrap_nodes, ..b.dht })
    &&& a.dht.bootstrap_nodes@ == b.dht.bootstrap_nodes@
    &&& a.watch@ == b.watch@
}

impl Clone for Config {
    fn clone(&self) -> (copy: Config)
        ensures
            same_config(copy, *self),
    {
        let mut watch: Vec<WatchFolderConfig> = Vec::new();
        let mut i: usize = 0;
        while i < self.watch.len()
            invariant
                i <= self.watch@.len(),
                watch@ == self.watch@.take(i as int),
            decreases self.watch@.len() - i,
        {
            watch.push(self.watch[i].clone());
            i = i + 1;
            assert(watch@ =~= self.watch@.take(i as int));
        }
        assert(watch@ =~= self.watch@);
        Config {
            api: ApiConfig {
                bind_address: self.api.bind_address.clone(),
                auth_token: copied_text(&self.api.auth_token),
                require_auth: self.api.require_auth,
                max_request_body_bytes: self.api.max_request_body_bytes,
            },
            logging: LoggingConfig {
                level: self.logging.level.clone(),
                json: self.logging.json,
                file: self.logging.file,
                file_path: copied_text(&self.logging.file_path),
            },
            bandwidth: self.bandwidth,
            queue: self.queue,
            seeding: self.seeding,
            torrent: self.torrent,
            network: NetworkConfig {
                mode: self.network.mode,
                required_interface: copied_text(&self.network.required_interface),
                source_address: copied_text(&self.network.source_address),
                namespace: copied_text(&self.network.namespace),
                allow_ipv6: self.network.allow_ipv6,
                validate_dns: self.network.validate_dns,
                fail_closed: self.network.fail_closed,
            },
            storage: StorageConfig {
                download_dir: copied_text(&self.storage.download_dir),
                incomplete_dir: copied_text(&self.storage.incomplete_dir),
                minimum_free_space_bytes: self.storage.minimum_free_space_bytes,
                minimum_free_space_percent: self.storage.minimum_free_space_percent,
                preallocate: self.storage.preallocate,
                sparse: self.storage.sparse,
            },
            dht: DhtConfig {
                enabled: self.dht.enabled,
                port: self.dht.port,
                bootstrap_nodes: copied_texts(&self.dht.bootstrap_nodes),
            },
            pex: self.pex,
            autopilot_mode: self.autopilot_mode,
            watch,
        }
    }
}

/// A copy of a torrent is the torrent in every respect: what it is called, how far it is, where it
/// lies, what is wanted of it, and how it stands.
pub proof fn copies_are_faithful(copy: Torrent, torrent: Torrent, file: int)
    requires
        same_torrent(copy, torrent),
    ensures
        copy.state == torrent.state && copy.seeding_status == torrent.seeding_status,
        copy.error == torrent.error && copy.download_dir == torrent.download_dir,
        copy.containment_recovery_intent == torrent.containment_recovery_intent,
        copy.seeding == torrent.seeding && copy.date_added == torrent.date_added
            && copy.date_completed == torrent.date_completed,
        copy.downloaded == torrent.downloaded && copy.uploaded == torrent.uploaded,
        copy.download_limit == torrent.download_limit && copy.upload_limit == torrent.upload_limit,
        copy.needs_metadata == torrent.needs_metadata && copy.magnet_info_hash
            == torrent.magnet_info_hash && copy.magnet_name == torrent.magnet_name,
        copy.progress.have@ == torrent.progress.have@,
        copy.wanted@ == torrent.wanted@ && copy.priorities@ == torrent.priorities@,
        copy.files@ == torrent.files@ && copy.labels@ == torrent.labels@,
        copy.magnet_trackers@ == torrent.magnet_trackers@,
        copy.meta.info_hash == torrent.meta.info_hash && copy.meta.name == torrent.meta.name
            && copy.meta.piece_count == torrent.meta.piece_count && copy.meta.piece_length
            == torrent.meta.piece_length && copy.meta.total_length == torrent.meta.total_length
            && copy.meta.announce == torrent.meta.announce && copy.meta.private
            == torrent.meta.private,
        copy.meta.files@.len() == torrent.meta.files@.len(),
        0 <= file < copy.meta.files@.len() ==> copy.meta.files@[file].path@
            == torrent.meta.files@[file].path@ && copy.meta.files@[file].length
            == torrent.meta.files@[file].length,
        lists_of(copy.meta.announce_list@) == lists_of(torrent.meta.announce_list@),
{
    if 0 <= file < copy.meta.files@.len() {
        assert(same_meta_file(copy.meta.files@[file], torrent.meta.files@[file]));
    }
}

/// A copy of a configuration is the configuration in every respect.
pub proof fn copied_configurations_are_faithful(copy: Config, config: Config)
    requires
        same_config(copy, config),
    ensures
        copy.bandwidth == config.bandwidth && copy.queue == config.queue && copy.seeding
            == config.seeding && copy.autopilot_mode == config.autopilot_mode,
        copy.network == config.network && copy.torrent == config.torrent && copy.storage
            == config.storage && copy.api == config.api && copy.logging == config.logging
            && copy.pex == config.pex,
        copy.dht.enabled == config.dht.enabled && copy.dht.port == config.dht.port,
        copy.dht.bootstrap_nodes@ == config.dht.bootstrap_nodes@,
        copy.watch@ == config.watch@,
{
}

} // verus!
