//! Configuration and what a change of it entails.
use crate::network::NetworkContainmentMode;
use crate::text::{owned, same_text};
use vstd::prelude::*;

verus! {

/// The control interface.
#[derive(Debug)]
pub struct ApiConfig {
    pub bind_address: String,
    pub auth_token: Option<String>,
    pub require_auth: bool,
    pub max_request_body_bytes: u64,
}

/// Where logs go.
#[derive(Debug)]
pub struct LoggingConfig {
    pub level: String,
    pub json: bool,
    pub file: bool,
    pub file_path: Option<String>,
}

/// Rates and peer budgets; zero peers means unlimited in all, and the built-in limit per torrent.
#[derive(Clone, Copy, PartialEq, Eq, Structural, Debug)]
pub struct BandwidthConfig {
    /// The rate in force for all torrents together.
    pub effective_download: u64,
    /// The rate in force for all torrents together.
    pub effective_upload: u64,
    pub max_peers: usize,
    pub max_peers_per_torrent: usize,
}

/// How many torrents work at a time.
#[derive(Clone, Copy, PartialEq, Eq, Structural, Debug)]
pub struct QueueLimits {
    pub max_active_downloads: usize,
    pub max_active_metadata_fetches: usize,
    pub max_active_seeds: usize,
    pub auto_start: bool,
}

/// The upload targets of torrents that set none of their own.
#[derive(Clone, Copy, PartialEq, Eq, Structural, Debug)]
pub struct SeedingConfig {
    /// The bits of a double.
    pub global_ratio_limit: Option<u64>,
    /// In seconds.
    pub global_idle_limit: Option<u64>,
}

/// Whether peer connections are encrypted.
#[derive(Clone, Copy, PartialEq, Eq, Structural, Debug)]
pub enum PeerEncryptionMode {
    Disabled,
    Preferred,
    Required,
}

/// Peer transports, and whether completed torrents are dropped at once.
#[derive(Clone, Copy, PartialEq, Eq, Structural, Debug)]
pub struct TransportConfig {
    pub listen_port: u16,
    pub allow_ipv6: bool,
    pub utp_enabled: bool,
    pub utp_prefer_tcp: bool,
    pub encryption_mode: PeerEncryptionMode,
    pub selfish: bool,
}

/// The path that torrent traffic must take.
#[derive(Debug)]
pub struct NetworkConfig {
    pub mode: NetworkContainmentMode,
    pub required_interface: Option<String>,
    pub source_address: Option<String>,
    pub namespace: Option<String>,
    pub allow_ipv6: bool,
    pub validate_dns: bool,
    pub fail_closed: bool,
}

/// Where payloads are kept.
#[derive(Debug)]
pub struct StorageConfig {
    pub download_dir: Option<String>,
    pub incomplete_dir: Option<String>,
    pub minimum_free_space_bytes: u64,
    pub minimum_free_space_percent: u64,
    pub preallocate: bool,
    pub sparse: bool,
}

/// The distributed hash table.
#[derive(Debug)]
pub struct DhtConfig {
    pub enabled: bool,
    pub port: u16,
    pub bootstrap_nodes: Vec<String>,
}

/// Peer exchange.
#[derive(Clone, Copy, PartialEq, Eq, Structural, Debug)]
pub struct PexConfig {
    pub enabled: bool,
    pub max_peers: usize,
}

/// How far autopilot may go.
#[derive(Clone, Copy, PartialEq, Eq, Structural, Debug)]
pub enum AutopilotMode {
    Disabled,
    Observe,
    Act,
}

/// How an imported torrent starts.
#[derive(Clone, Copy, PartialEq, Eq, Structural, Debug)]
pub enum StartBehavior {
    Start,
    Paused,
}

/// A directory that is scanned for torrent files.
#[derive(Debug)]
pub struct WatchFolderConfig {
    pub path: String,
    pub recursive: bool,
    pub download_dir: Option<String>,
    pub label: Option<String>,
    pub start_behavior: StartBehavior,
    pub archive_dir: Option<String>,
    pub failure_dir: Option<String>,
    pub delete_after_import: bool,
}

/// The daemon's configuration.
#[derive(Debug)]
pub struct Config {
    pub api: ApiConfig,
    pub logging: LoggingConfig,
    pub bandwidth: BandwidthConfig,
    pub queue: QueueLimits,
    pub seeding: SeedingConfig,
    pub torrent: TransportConfig,
    pub network: NetworkConfig,
    pub storage: StorageConfig,
    pub dht: DhtConfig,
    pub pex: PexConfig,
    pub autopilot_mode: AutopilotMode,
    pub watch: Vec<WatchFolderConfig>,
}

/// An optional text as a value.
pub open spec fn text_of(text: Option<String>) -> Option<Seq<char>> {
    match text {
        Some(text) => Some(text@),
        None => None,
    }
}

/// The texts of a list as values.
pub open spec fn texts_of(texts: Seq<String>) -> Seq<Seq<char>> {
    texts.map_values(|text: String| text@)
}

/// Whether two optional texts are the same.
pub fn same_optional_text(a: &Option<String>, b: &Option<String>) -> (same: bool)
    ensures
        same == (text_of(*a) == text_of(*b)),
{
    match (a, b) {
        (Some(x), Some(y)) => same_text(x.as_str(), y.as_str()),
        (None, None) => true,
        _ => false,
    }
}

/// Whether two lists hold the same texts in the same order.
pub fn same_texts(a: &Vec<String>, b: &Vec<String>) -> (same: bool)
    ensures
        same == (texts_of(a@) == texts_of(b@)),
{
    if a.len() != b.len() {
        assert(texts_of(a@).len() != texts_of(b@).len());
        return false;
    }
    let mut i: usize = 0;
    while i < a.len()
        invariant
            i <= a.len(),
            a.len() == b.len(),
            forall|k: int| 0 <= k < i ==> (#[trigger] a@[k])@ == b@[k]@,
        decreases a.len() - i,
    {
        if !same_text(a[i].as_str(), b[i].as_str()) {
            assert(texts_of(a@)[i as int] != texts_of(b@)[i as int]);
            return false;
        }
        i = i + 1;
    }
    assert(texts_of(a@) =~= texts_of(b@));
    true
}

/// The containment settings agree.
pub open spec fn same_network(a: NetworkConfig, b: NetworkConfig) -> bool {
    &&& a.mode == b.mode
    &&& text_of(a.required_interface) == text_of(b.required_interface)
    &&& text_of(a.source_address) == text_of(b.source_address)
    &&& text_of(a.namespace) == text_of(b.namespace)
    &&& a.allow_ipv6 == b.allow_ipv6
    &&& a.validate_dns == b.validate_dns
    &&& a.fail_closed == b.fail_closed
}

/// The hash-table settings agree.
pub open spec fn same_dht(a: DhtConfig, b: DhtConfig) -> bool {
    &&& a.enabled == b.enabled
    &&& a.port == b.port
    &&& texts_of(a.bootstrap_nodes@) == texts_of(b.bootstrap_nodes@)
}

fn network_matches(a: &NetworkConfig, b: &NetworkConfig) -> (same: bool)
    ensures
        same == same_network(*a, *b),
{
    a.mode == b.mode && same_optional_text(&a.required_interface, &b.required_interface)
        && same_optional_text(&a.source_address, &b.source_address) && same_optional_text(
        &a.namespace,
        &b.namespace,
    ) && a.allow_ipv6 == b.allow_ipv6 && a.validate_dns == b.validate_dns && a.fail_closed
        == b.fail_closed
}

fn dht_matches(a: &DhtConfig, b: &DhtConfig) -> (same: bool)
    ensures
        same == same_dht(*a, *b),
{
    a.enabled == b.enabled && a.port == b.port && same_texts(&a.bootstrap_nodes, &b.bootstrap_nodes)
}

/// A name in a list of one, where a condition holds.
pub open spec fn named_if(condition: bool, name: Seq<char>) -> Seq<Seq<char>> {
    if condition {
        seq![name]
    } else {
        Seq::<Seq<char>>::empty()
    }
}

/// The settings that only a restart applies and that differ.
pub open spec fn restart_fields(previous: Config, next: Config) -> Seq<Seq<char>> {
    named_if(previous.api.bind_address@ != next.api.bind_address@, "api.bind_address"@) + named_if(
        previous.api.max_request_body_bytes != next.api.max_request_body_bytes,
        "api.max_request_body_bytes"@,
    ) + named_if(previous.logging.level@ != next.logging.level@, "logging.level"@) + named_if(
        previous.logging.json != next.logging.json,
        "logging.json"@,
    ) + named_if(previous.logging.file != next.logging.file, "logging.file"@) + named_if(
        text_of(previous.logging.file_path) != text_of(next.logging.file_path),
        "logging.file_path"@,
    )
}

fn push_if(fields: &mut Vec<String>, condition: bool, name: &str)
    ensures
        texts_of(final(fields)@) == texts_of(old(fields)@) + named_if(condition, name@),
{
    if condition {
        let field: String = owned(name);
        let ghost before = fields@;
        fields.push(field);
        assert(texts_of(fields@) =~= texts_of(before).push(name@));
        assert(texts_of(before).push(name@) =~= texts_of(before) + seq![name@]);
    } else {
        assert(texts_of(fields@) =~= texts_of(old(fields)@) + named_if(condition, name@));
    }
}

/// The settings that only a restart applies and that differ.
pub fn restart_required_fields(previous: &Config, next: &Config) -> (fields: Vec<String>)
    ensures
        texts_of(fields@) == restart_fields(*previous, *next),
{
    let mut fields: Vec<String> = Vec::new();
    assert(texts_of(fields@) =~= Seq::<Seq<char>>::empty());
    let address: bool = !same_text(
        previous.api.bind_address.as_str(),
        next.api.bind_address.as_str(),
    );
    push_if(&mut fields, address, "api.bind_address");
    let body: bool = previous.api.max_request_body_bytes != next.api.max_request_body_bytes;
    push_if(&mut fields, body, "api.max_request_body_bytes");
    let level: bool = !same_text(previous.logging.level.as_str(), next.logging.level.as_str());
    push_if(&mut fields, level, "logging.level");
    push_if(&mut fields, previous.logging.json != next.logging.json, "logging.json");
    push_if(&mut fields, previous.logging.file != next.logging.file, "logging.file");
    let path: bool = !same_optional_text(&previous.logging.file_path, &next.logging.file_path);
    push_if(&mut fields, path, "logging.file_path");
    assert(texts_of(fields@) =~= restart_fields(*previous, *next));
    fields
}

/// The peer budgets differ.
pub open spec fn peer_limits_differ(previous: Config, next: Config) -> bool {
    previous.bandwidth.max_peers != next.bandwidth.max_peers
        || previous.bandwidth.max_peers_per_torrent != next.bandwidth.max_peers_per_torrent
}

/// Whether the peer budgets differ.
pub fn peer_limits_changed(previous: &Config, next: &Config) -> (changed: bool)
    ensures
        changed == peer_limits_differ(*previous, *next),
{
    previous.bandwidth.max_peers != next.bandwidth.max_peers
        || previous.bandwidth.max_peers_per_torrent != next.bandwidth.max_peers_per_torrent
}

/// Some setting differs that running torrent work was built from.
pub open spec fn data_plane_differs(previous: Config, next: Config) -> bool {
    ||| !same_network(previous.network, next.network)
    ||| previous.torrent.listen_port != next.torrent.listen_port
    ||| previous.torrent.allow_ipv6 != next.torrent.allow_ipv6
    ||| previous.torrent.utp_enabled != next.torrent.utp_enabled
    ||| previous.torrent.utp_prefer_tcp != next.torrent.utp_prefer_tcp
    ||| previous.torrent.encryption_mode != next.torrent.encryption_mode
    ||| !same_dht(previous.dht, next.dht)
    ||| previous.pex != next.pex
    ||| peer_limits_differ(previous, next)
    ||| text_of(previous.storage.download_dir) != text_of(next.storage.download_dir)
    ||| text_of(previous.storage.incomplete_dir) != text_of(next.storage.incomplete_dir)
    ||| previous.storage.minimum_free_space_bytes != next.storage.minimum_free_space_bytes
    ||| previous.storage.minimum_free_space_percent != next.storage.minimum_free_space_percent
    ||| previous.storage.preallocate != next.storage.preallocate
    ||| previous.storage.sparse != next.storage.sparse
}

/// Whether running torrent work has to be rebuilt.
pub fn data_plane_config_changed(previous: &Config, next: &Config) -> (changed: bool)
    ensures
        changed == data_plane_differs(*previous, *next),
{
    !network_matches(&previous.network, &next.network) || previous.torrent.listen_port
        != next.torrent.listen_port || previous.torrent.allow_ipv6 != next.torrent.allow_ipv6
        || previous.torrent.utp_enabled != next.torrent.utp_enabled
        || previous.torrent.utp_prefer_tcp != next.torrent.utp_prefer_tcp
        || previous.torrent.encryption_mode != next.torrent.encryption_mode || !dht_matches(
        &previous.dht,
        &next.dht,
    ) || previous.pex.enabled != next.pex.enabled || previous.pex.max_peers != next.pex.max_peers
        || peer_limits_changed(previous, next) || !same_optional_text(
        &previous.storage.download_dir,
        &next.storage.download_dir,
    ) || !same_optional_text(&previous.storage.incomplete_dir, &next.storage.incomplete_dir)
        || previous.storage.minimum_free_space_bytes != next.storage.minimum_free_space_bytes
        || previous.storage.minimum_free_space_percent != next.storage.minimum_free_space_percent
        || previous.storage.preallocate != next.storage.preallocate || previous.storage.sparse
        != next.storage.sparse
}

/// A configuration with the peer budgets of another.
pub fn with_peer_limits_of(next: Config, previous: &Config) -> (normalized: Config)
    ensures
        normalized == (Config {
            bandwidth: BandwidthConfig {
                max_peers: previous.bandwidth.max_peers,
                max_peers_per_torrent: previous.bandwidth.max_peers_per_torrent,
                ..next.bandwidth
            },
            ..next
        }),
{
    let mut normalized: Config = next;
    normalized.bandwidth.max_peers = previous.bandwidth.max_peers;
    normalized.bandwidth.max_peers_per_torrent = previous.bandwidth.max_peers_per_torrent;
    normalized
}

/// Whether two configurations differ in their peer budgets and in nothing else. The serialized
/// forms are those of `previous` and of `next` with the budgets of `previous`; a configuration
/// that cannot be serialized counts as different.
pub fn configs_differ_only_in_peer_limits(
    previous: &Config,
    next: &Config,
    previous_serialized: Option<&str>,
    normalized_serialized: Option<&str>,
) -> (only: bool)
    ensures
        only == (peer_limits_differ(*previous, *next) && (previous_serialized matches Some(a)
            && normalized_serialized matches Some(b) && a@ == b@)),
{
    if !peer_limits_changed(previous, next) {
        return false;
    }
    match (previous_serialized, normalized_serialized) {
        (Some(a), Some(b)) => same_text(a, b),
        _ => false,
    }
}

/// A configuration that may be shown: without the token.
pub fn redact_config(cfg: Config) -> (shown: Config)
    ensures
        shown == (Config { api: ApiConfig { auth_token: None, ..cfg.api }, ..cfg }),
{
    let mut shown: Config = cfg;
    shown.api.auth_token = None;
    shown
}

/// The limit on a torrent's peer sessions: the configured one, or the built-in one where none is
/// configured.
pub fn effective_per_torrent_peer_limit(configured: usize, built_in: usize) -> (limit: usize)
    ensures
        limit == if configured == 0 {
            built_in
        } else {
            configured
        },
{
    if configured == 0 {
        built_in
    } else {
        configured
    }
}

/// The autopilot mode of a torrent: its own where it has one, unless autopilot is off for all.
pub open spec fn autopilot_mode_of(
    global: AutopilotMode,
    own: Option<AutopilotMode>,
) -> AutopilotMode {
    if global == AutopilotMode::Disabled {
        AutopilotMode::Disabled
    } else {
        own.unwrap_or(global)
    }
}

/// The autopilot mode of a torrent.
pub fn effective_autopilot_mode(
    global_mode: AutopilotMode,
    override_mode: Option<AutopilotMode>,
) -> (mode: AutopilotMode)
    ensures
        mode == autopilot_mode_of(global_mode, override_mode),
{
    if global_mode == AutopilotMode::Disabled {
        AutopilotMode::Disabled
    } else {
        match override_mode {
            Some(mode) => mode,
            None => global_mode,
        }
    }
}

/// No torrent can switch autopilot on where it is off for all.
pub proof fn global_autopilot_switch_wins(own: Option<AutopilotMode>)
    ensures
        autopilot_mode_of(AutopilotMode::Disabled, own) == AutopilotMode::Disabled,
{
}

/// A change of the peer budgets always rebuilds torrent work and never asks for a restart by
/// itself.
pub proof fn peer_budget_changes_rebuild(previous: Config, next: Config)
    requires
        peer_limits_differ(previous, next),
    ensures
        data_plane_differs(previous, next),
        previous.api == next.api && previous.logging == next.logging ==> restart_fields(
            previous,
            next,
        ) == Seq::<Seq<char>>::empty(),
{
    if previous.api == next.api && previous.logging == next.logging {
        assert(restart_fields(previous, next) =~= Seq::<Seq<char>>::empty());
    }
}

/// The directory of a finished torrent: its own, else the configured one, else the fallback.
pub open spec fn complete_dir_of(
    own: Option<Seq<char>>,
    cfg: Config,
    fallback: Seq<char>,
) -> Seq<char> {
    match own {
        Some(dir) => dir,
        None => match cfg.storage.download_dir {
            Some(dir) => dir@,
            None => fallback,
        },
    }
}

/// The directory that an unfinished torrent is written to.
pub open spec fn active_dir_of(complete_dir: Seq<char>, cfg: Config) -> Seq<char> {
    match cfg.storage.incomplete_dir {
        Some(dir) => dir@,
        None => complete_dir,
    }
}

/// The directory of a finished torrent.
pub fn resolve_download_dir_from_config(
    download_dir: Option<&str>,
    cfg: &Config,
    fallback: &str,
) -> (dir: String)
    ensures
        dir@ == complete_dir_of(
            match download_dir {
                Some(own) => Some(own@),
                None => None,
            },
            *cfg,
            fallback@,
        ),
{
    match download_dir {
        Some(own) => owned(own),
        None => match &cfg.storage.download_dir {
            Some(configured) => configured.clone(),
            None => owned(fallback),
        },
    }
}

/// The directory that an unfinished torrent is written to.
pub fn resolve_incomplete_dir_from_config(download_dir: &str, cfg: &Config) -> (dir: String)
    ensures
        dir@ == active_dir_of(download_dir@, *cfg),
{
    match &cfg.storage.incomplete_dir {
        Some(configured) => configured.clone(),
        None => owned(download_dir),
    }
}

/// The data plane is rebuilt where the network, the port, a protocol, the discovery of peers, a
/// peer limit or the storage of payloads changed; and a configuration that agrees in all of these
/// leaves it running.
pub proof fn data_plane_changes_are_seen(previous: Config, next: Config)
    ensures
        previous.network.mode != next.network.mode ==> data_plane_differs(previous, next),
        previous.network.allow_ipv6 != next.network.allow_ipv6 ==> data_plane_differs(
            previous,
            next,
        ),
        previous.network.validate_dns != next.network.validate_dns ==> data_plane_differs(
            previous,
            next,
        ),
        previous.network.fail_closed != next.network.fail_closed ==> data_plane_differs(
            previous,
            next,
        ),
        text_of(previous.network.required_interface) != text_of(next.network.required_interface)
            ==> data_plane_differs(previous, next),
        text_of(previous.network.source_address) != text_of(next.network.source_address)
            ==> data_plane_differs(previous, next),
        text_of(previous.network.namespace) != text_of(next.network.namespace)
            ==> data_plane_differs(previous, next),
        previous.torrent.listen_port != next.torrent.listen_port ==> data_plane_differs(
            previous,
            next,
        ),
        previous.torrent.allow_ipv6 != next.torrent.allow_ipv6 ==> data_plane_differs(
            previous,
            next,
        ),
        previous.torrent.utp_enabled != next.torrent.utp_enabled ==> data_plane_differs(
            previous,
            next,
        ),
        previous.torrent.utp_prefer_tcp != next.torrent.utp_prefer_tcp ==> data_plane_differs(
            previous,
            next,
        ),
        previous.torrent.encryption_mode != next.torrent.encryption_mode ==> data_plane_differs(
            previous,
            next,
        ),
        previous.dht.enabled != next.dht.enabled || previous.dht.port != next.dht.port
            ==> data_plane_differs(previous, next),
        texts_of(previous.dht.bootstrap_nodes@) != texts_of(next.dht.bootstrap_nodes@)
            ==> data_plane_differs(previous, next),
        previous.pex != next.pex ==> data_plane_differs(previous, next),
        previous.bandwidth.max_peers != next.bandwidth.max_peers ==> data_plane_differs(
            previous,
            next,
        ),
        previous.bandwidth.max_peers_per_torrent != next.bandwidth.max_peers_per_torrent
            ==> data_plane_differs(previous, next),
        text_of(previous.storage.download_dir) != text_of(next.storage.download_dir) || text_of(
            previous.storage.incomplete_dir,
        ) != text_of(next.storage.incomplete_dir) ==> data_plane_differs(previous, next),
        previous.storage.minimum_free_space_bytes != next.storage.minimum_free_space_bytes
            || previous.storage.minimum_free_space_percent
            != next.storage.minimum_free_space_percent ==> data_plane_differs(previous, next),
        previous.storage.preallocate != next.storage.preallocate || previous.storage.sparse
            != next.storage.sparse ==> data_plane_differs(previous, next),
        previous.network == next.network && previous.torrent == next.torrent && previous.dht
            == next.dht && previous.pex == next.pex && previous.storage == next.storage
            && previous.bandwidth.max_peers == next.bandwidth.max_peers
            && previous.bandwidth.max_peers_per_torrent == next.bandwidth.max_peers_per_torrent
            ==> !data_plane_differs(previous, next),
        data_plane_differs(previous, next) == data_plane_differs(next, previous),
{
}

/// A change that only a restart brings about is named, each such setting by its own name, and
/// nothing is named where none changed.
pub proof fn changes_that_need_a_restart_are_named(previous: Config, next: Config)
    ensures
        ({
            let named = restart_fields(previous, next);
            let address = previous.api.bind_address@ != next.api.bind_address@;
            let body = previous.api.max_request_body_bytes != next.api.max_request_body_bytes;
            let level = previous.logging.level@ != next.logging.level@;
            let json = previous.logging.json != next.logging.json;
            let file = previous.logging.file != next.logging.file;
            let path = text_of(previous.logging.file_path) != text_of(next.logging.file_path);
            &&& address ==> named.contains("api.bind_address"@)
            &&& body ==> named.contains("api.max_request_body_bytes"@)
            &&& level ==> named.contains("logging.level"@)
            &&& json ==> named.contains("logging.json"@)
            &&& file ==> named.contains("logging.file"@)
            &&& path ==> named.contains("logging.file_path"@)
            &&& named.len() == one_if(address) + one_if(body) + one_if(level) + one_if(json)
                + one_if(file) + one_if(path)
        }),
{
    let named = restart_fields(previous, next);
    let address = previous.api.bind_address@ != next.api.bind_address@;
    let body = previous.api.max_request_body_bytes != next.api.max_request_body_bytes;
    let level = previous.logging.level@ != next.logging.level@;
    let json = previous.logging.json != next.logging.json;
    let file = previous.logging.file != next.logging.file;
    let path = text_of(previous.logging.file_path) != text_of(next.logging.file_path);
    let at_body = one_if(address) as int;
    let at_level = at_body + one_if(body);
    let at_json = at_level + one_if(level);
    let at_file = at_json + one_if(json);
    let at_path = at_file + one_if(file);
    if address {
        assert(named[0] == "api.bind_address"@);
    }
    if body {
        assert(named[at_body] == "api.max_request_body_bytes"@);
    }
    if level {
        assert(named[at_level] == "logging.level"@);
    }
    if json {
        assert(named[at_json] == "logging.json"@);
    }
    if file {
        assert(named[at_file] == "logging.file"@);
    }
    if path {
        assert(named[at_path] == "logging.file_path"@);
    }
}

/// One where something holds.
pub open spec fn one_if(condition: bool) -> nat {
    if condition {
        1
    } else {
        0
    }
}

/// A finished torrent lies in its own directory where it has one, else in the configured one, else
/// in the fallback; an unfinished one in the configured directory for unfinished torrents, else
/// where it lies when it is finished.
pub proof fn directories_are_found_in_turn(
    own: Option<Seq<char>>,
    cfg: Config,
    fallback: Seq<char>,
)
    ensures
        own matches Some(dir) ==> complete_dir_of(own, cfg, fallback) == dir,
        own.is_none() ==> (cfg.storage.download_dir matches Some(dir) ==> complete_dir_of(
            own,
            cfg,
            fallback,
        ) == dir@),
        own.is_none() && cfg.storage.download_dir.is_none() ==> complete_dir_of(own, cfg, fallback)
            == fallback,
        cfg.storage.incomplete_dir matches Some(dir) ==> active_dir_of(
            complete_dir_of(own, cfg, fallback),
            cfg,
        ) == dir@,
        cfg.storage.incomplete_dir.is_none() ==> active_dir_of(
            complete_dir_of(own, cfg, fallback),
            cfg,
        ) == complete_dir_of(own, cfg, fallback),
{
}

/// A torrent's own autopilot mode counts, except where the autopilot is switched off for all.
pub proof fn own_autopilot_modes_count(global: AutopilotMode, own: AutopilotMode)
    ensures
        global == AutopilotMode::Disabled ==> autopilot_mode_of(global, Some(own))
            == AutopilotMode::Disabled,
        global != AutopilotMode::Disabled ==> autopilot_mode_of(global, Some(own)) == own,
        autopilot_mode_of(global, None) == global,
{
}

} // verus!
