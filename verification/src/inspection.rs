//! What is shown of the network and of the logs.
use crate::config::{Config, PeerEncryptionMode};
use crate::doctor::{traffic_level, DiagnosticLevel};
use crate::network::NetworkHealth;
use crate::probe::{InterfaceAddress, InterfaceInfo};
use crate::text::{owned, read_last_lines, same_text};
use vstd::prelude::*;
use vstd::string::*;

verus! {

/// A check of a path that traffic takes.
#[derive(Debug)]
pub struct NetworkPathCheck {
    pub id: String,
    pub label: String,
    pub level: DiagnosticLevel,
    pub detail: String,
}

/// A check as a value.
pub struct PathCheckView {
    pub id: Seq<char>,
    pub label: Seq<char>,
    pub level: DiagnosticLevel,
    pub detail: Seq<char>,
}

impl View for NetworkPathCheck {
    type V = PathCheckView;

    open spec fn view(&self) -> PathCheckView {
        PathCheckView {
            id: self.id@,
            label: self.label@,
            level: self.level,
            detail: self.detail@,
        }
    }
}

/// Checks as values.
pub open spec fn path_checks_of(checks: Seq<NetworkPathCheck>) -> Seq<PathCheckView> {
    checks.map_values(|check: NetworkPathCheck| check@)
}

fn push_path_check(
    checks: &mut Vec<NetworkPathCheck>,
    id: &str,
    label: &str,
    level: DiagnosticLevel,
    detail: &str,
)
    ensures
        path_checks_of(final(checks)@) == path_checks_of(old(checks)@).push(
            PathCheckView { id: id@, label: label@, level, detail: detail@ },
        ),
{
    let ghost before = checks@;
    let check: NetworkPathCheck = NetworkPathCheck {
        id: owned(id),
        label: owned(label),
        level,
        detail: owned(detail),
    };
    let ghost view = check@;
    checks.push(check);
    assert(path_checks_of(checks@) =~= path_checks_of(before).push(view));
}

/// A row of the matrix.
pub open spec fn row(
    id: Seq<char>,
    label: Seq<char>,
    level: DiagnosticLevel,
    detail: Seq<char>,
) -> PathCheckView {
    PathCheckView { id, label, level, detail }
}

/// How each kind of traffic is contained. Datagram transport to peers is left out where it is
/// switched off.
pub open spec fn matrix_of(utp_enabled: bool, level: DiagnosticLevel) -> Seq<PathCheckView> {
    let utp = if utp_enabled {
        seq![
            row(
                "peer_utp"@,
                "Peer uTP"@,
                level,
                "uTP uses contained UDP sockets with TCP fallback policy"@,
            ),
        ]
    } else {
        Seq::<PathCheckView>::empty()
    };
    seq![
        row(
            "peer_tcp"@,
            "Peer TCP"@,
            level,
            "outbound peer TCP uses the contained NetworkBinder"@,
        ),
    ] + utp + seq![
        row(
            "dht_udp"@,
            "DHT UDP"@,
            level,
            "DHT packets use the same contained UDP socket layer"@,
        ),
        row(
            "udp_tracker"@,
            "UDP trackers"@,
            level,
            "UDP tracker announces use contained UDP sockets"@,
        ),
        row(
            "http_tracker"@,
            "HTTP(S) trackers"@,
            level,
            "tracker HTTP/TLS is performed over contained sockets"@,
        ),
        row(
            "webseed"@,
            "Web seeds"@,
            level,
            "webseed range requests use contained HTTP/TLS sockets"@,
        ),
        row(
            "dns"@,
            "DNS resolution"@,
            level,
            "hostname resolution is validated or blocked by containment policy"@,
        ),
    ]
}

/// How each kind of traffic is contained.
pub fn containment_matrix(config: &Config, level: DiagnosticLevel) -> (rows: Vec<NetworkPathCheck>)
    ensures
        path_checks_of(rows@) == matrix_of(config.torrent.utp_enabled, level),
{
    let mut rows: Vec<NetworkPathCheck> = Vec::new();
    assert(path_checks_of(rows@) =~= Seq::<PathCheckView>::empty());
    push_path_check(
        &mut rows,
        "peer_tcp",
        "Peer TCP",
        level,
        "outbound peer TCP uses the contained NetworkBinder",
    );
    if config.torrent.utp_enabled {
        push_path_check(
            &mut rows,
            "peer_utp",
            "Peer uTP",
            level,
            "uTP uses contained UDP sockets with TCP fallback policy",
        );
    }
    push_path_check(
        &mut rows,
        "dht_udp",
        "DHT UDP",
        level,
        "DHT packets use the same contained UDP socket layer",
    );
    push_path_check(
        &mut rows,
        "udp_tracker",
        "UDP trackers",
        level,
        "UDP tracker announces use contained UDP sockets",
    );
    push_path_check(
        &mut rows,
        "http_tracker",
        "HTTP(S) trackers",
        level,
        "tracker HTTP/TLS is performed over contained sockets",
    );
    push_path_check(
        &mut rows,
        "webseed",
        "Web seeds",
        level,
        "webseed range requests use contained HTTP/TLS sockets",
    );
    push_path_check(
        &mut rows,
        "dns",
        "DNS resolution",
        level,
        "hostname resolution is validated or blocked by containment policy",
    );
    assert(path_checks_of(rows@) =~= matrix_of(config.torrent.utp_enabled, level));
    rows
}

/// What is shown of an interface.
#[derive(Debug)]
pub struct NetworkInterfaceDiagnostic {
    pub name: String,
    pub selected: bool,
    pub status: String,
    pub addresses: Vec<String>,
    pub has_ipv4: bool,
    pub has_ipv6: bool,
}

/// Some address is of a kind.
pub open spec fn has_kind(addresses: Seq<InterfaceAddress>, ipv6: bool) -> bool {
    exists|k: int| 0 <= k < addresses.len() && (#[trigger] addresses[k]).ipv6 == ipv6
}

/// What is shown is what is known of the interface; it is selected where all traffic must take it.
pub open spec fn interface_shown(
    shown: NetworkInterfaceDiagnostic,
    interface: InterfaceInfo,
    required: Option<Seq<char>>,
) -> bool {
    &&& shown.name == interface.name
    &&& shown.selected == (required == Some(interface.name@))
    &&& shown.status@ == crate::probe::interface_status_name(interface.status)
    &&& shown.addresses@ == interface.addresses@.map_values(
        |address: InterfaceAddress| address.text,
    )
    &&& shown.has_ipv4 == has_kind(interface.addresses@, false)
    &&& shown.has_ipv6 == has_kind(interface.addresses@, true)
}

fn show_interface(interface: &InterfaceInfo, required: &Option<String>) -> (shown:
    NetworkInterfaceDiagnostic)
    ensures
        interface_shown(shown, *interface, crate::config::text_of(*required)),
{
    let mut addresses: Vec<String> = Vec::new();
    let mut has_ipv4: bool = false;
    let mut has_ipv6: bool = false;
    let ghost text = |address: InterfaceAddress| address.text;
    let mut i: usize = 0;
    while i < interface.addresses.len()
        invariant
            i <= interface.addresses@.len(),
            text == |address: InterfaceAddress| address.text,
            addresses@ == interface.addresses@.take(i as int).map_values(text),
            has_ipv4 == has_kind(interface.addresses@.take(i as int), false),
            has_ipv6 == has_kind(interface.addresses@.take(i as int), true),
        decreases interface.addresses@.len() - i,
    {
        let ghost before = interface.addresses@.take(i as int);
        let ghost after = interface.addresses@.take(i + 1);
        proof {
            assert(after =~= before.push(interface.addresses@[i as int]));
            assert forall|ipv6: bool| true implies #[trigger] has_kind(after, ipv6) == (has_kind(
                before,
                ipv6,
            ) || interface.addresses@[i as int].ipv6 == ipv6) by {
                if has_kind(before, ipv6) {
                    let k = choose|k: int|
                        0 <= k < before.len() && (#[trigger] before[k]).ipv6 == ipv6;
                    assert(after[k].ipv6 == ipv6);
                }
                assert(after[i as int] == interface.addresses@[i as int]);
                if has_kind(after, ipv6) && interface.addresses@[i as int].ipv6 != ipv6 {
                    let k = choose|k: int|
                        0 <= k < after.len() && (#[trigger] after[k]).ipv6 == ipv6;
                    assert(before[k].ipv6 == ipv6);
                }
            }
        }
        addresses.push(interface.addresses[i].text.clone());
        if interface.addresses[i].ipv6 {
            has_ipv6 = true;
        } else {
            has_ipv4 = true;
        }
        i = i + 1;
        assert(addresses@ =~= interface.addresses@.take(i as int).map_values(text));
    }
    assert(interface.addresses@.take(i as int) =~= interface.addresses@);
    let selected: bool = match required {
        Some(name) => same_text(name.as_str(), interface.name.as_str()),
        None => false,
    };
    NetworkInterfaceDiagnostic {
        name: interface.name.clone(),
        selected,
        status: owned(interface.status.as_str()),
        addresses,
        has_ipv4,
        has_ipv6,
    }
}

/// A truth value in words.
pub open spec fn truth(value: bool) -> Seq<char> {
    if value {
        "true"@
    } else {
        "false"@
    }
}

fn truth_text(value: bool) -> (text: &'static str)
    ensures
        text@ == truth(value),
{
    if value {
        "true"
    } else {
        "false"
    }
}

/// The name of an encryption mode.
pub open spec fn encryption_name(mode: PeerEncryptionMode) -> Seq<char> {
    match mode {
        PeerEncryptionMode::Disabled => "disabled"@,
        PeerEncryptionMode::Preferred => "preferred"@,
        PeerEncryptionMode::Required => "required"@,
    }
}

impl PeerEncryptionMode {
    /// The name of the mode.
    pub fn as_str(&self) -> (name: &'static str)
        ensures
            name@ == encryption_name(*self),
    {
        match self {
            PeerEncryptionMode::Disabled => "disabled",
            PeerEncryptionMode::Preferred => "preferred",
            PeerEncryptionMode::Required => "required",
        }
    }
}

/// How peers are reached, in words.
pub open spec fn transport_text(cfg: Config) -> Seq<char> {
    "TCP is enabled, uTP is "@ + (if cfg.torrent.utp_enabled {
        "enabled"@
    } else {
        "disabled"@
    }) + ", preference is "@ + (if cfg.torrent.utp_prefer_tcp {
        "tcp-first"@
    } else {
        "utp-first"@
    }) + ", peer encryption is \""@ + encryption_name(cfg.torrent.encryption_mode) + "\""@
}

/// The checks of the network.
pub open spec fn network_checks(cfg: Config, health: NetworkHealth) -> Seq<PathCheckView> {
    let traffic = crate::doctor::traffic_level_of(health);
    seq![
        row("containment_status"@, "Containment state"@, traffic, health.detail@),
        row(
            "ipv6_policy"@,
            "IPv4/IPv6 policy"@,
            crate::doctor::ok_or_warning(cfg.network.allow_ipv6 && cfg.torrent.allow_ipv6),
            "network.allow_ipv6="@ + truth(cfg.network.allow_ipv6) + ", torrent.allow_ipv6="@
                + truth(cfg.torrent.allow_ipv6),
        ),
        row(
            "dns_validation"@,
            "DNS containment validation"@,
            if cfg.network.validate_dns {
                traffic
            } else {
                DiagnosticLevel::Warning
            },
            if cfg.network.validate_dns {
                "DNS validation is enabled for the configured path"@
            } else {
                "DNS validation is disabled; IP-literal peers and contained namespaces remain safest"@
            },
        ),
        row(
            "transport_selection"@,
            "Peer transport selection"@,
            DiagnosticLevel::Good,
            transport_text(cfg),
        ),
    ]
}

/// What is shown of the network.
#[derive(Debug)]
pub struct NetworkDiagnostics {
    pub health: NetworkHealth,
    pub listen_port: u16,
    pub dht_port: u16,
    pub torrent_allow_ipv6: bool,
    pub utp_enabled: bool,
    pub utp_prefer_tcp: bool,
    pub peer_encryption_mode: PeerEncryptionMode,
    pub interfaces: Vec<NetworkInterfaceDiagnostic>,
    pub checks: Vec<NetworkPathCheck>,
    pub containment_matrix: Vec<NetworkPathCheck>,
}

fn list_network_checks(cfg: &Config, health: &NetworkHealth) -> (checks: Vec<NetworkPathCheck>)
    ensures
        path_checks_of(checks@) == network_checks(*cfg, *health),
{
    let traffic: DiagnosticLevel = traffic_level(health);
    let mut checks: Vec<NetworkPathCheck> = Vec::new();
    assert(path_checks_of(checks@) =~= Seq::<PathCheckView>::empty());
    push_path_check(
        &mut checks,
        "containment_status",
        "Containment state",
        traffic,
        health.detail.as_str(),
    );
    let both: DiagnosticLevel = if cfg.network.allow_ipv6 && cfg.torrent.allow_ipv6 {
        DiagnosticLevel::Good
    } else {
        DiagnosticLevel::Warning
    };
    let mut policy: String = owned("network.allow_ipv6=");
    policy.append(truth_text(cfg.network.allow_ipv6));
    policy.append(", torrent.allow_ipv6=");
    policy.append(truth_text(cfg.torrent.allow_ipv6));
    push_path_check(&mut checks, "ipv6_policy", "IPv4/IPv6 policy", both, policy.as_str());
    if cfg.network.validate_dns {
        push_path_check(
            &mut checks,
            "dns_validation",
            "DNS containment validation",
            traffic,
            "DNS validation is enabled for the configured path",
        );
    } else {
        push_path_check(
            &mut checks,
            "dns_validation",
            "DNS containment validation",
            DiagnosticLevel::Warning,
            "DNS validation is disabled; IP-literal peers and contained namespaces remain safest",
        );
    }
    let mut transport: String = owned("TCP is enabled, uTP is ");
    transport.append(
        if cfg.torrent.utp_enabled {
            "enabled"
        } else {
            "disabled"
        },
    );
    transport.append(", preference is ");
    transport.append(
        if cfg.torrent.utp_prefer_tcp {
            "tcp-first"
        } else {
            "utp-first"
        },
    );
    transport.append(", peer encryption is \"");
    transport.append(cfg.torrent.encryption_mode.as_str());
    transport.append("\"");
    push_path_check(
        &mut checks,
        "transport_selection",
        "Peer transport selection",
        DiagnosticLevel::Good,
        transport.as_str(),
    );
    assert(path_checks_of(checks@) =~= network_checks(*cfg, *health));
    checks
}

/// What is shown of the network, with the interfaces that were found.
pub fn network_diagnostics(
    cfg: &Config,
    health: &NetworkHealth,
    found: &Vec<InterfaceInfo>,
) -> (shown: NetworkDiagnostics)
    ensures
        shown.health == *health,
        shown.listen_port == cfg.torrent.listen_port,
        shown.dht_port == cfg.dht.port,
        shown.torrent_allow_ipv6 == cfg.torrent.allow_ipv6,
        shown.utp_enabled == cfg.torrent.utp_enabled,
        shown.utp_prefer_tcp == cfg.torrent.utp_prefer_tcp,
        shown.peer_encryption_mode == cfg.torrent.encryption_mode,
        shown.interfaces@.len() == found@.len(),
        forall|i: int|
            0 <= i < found@.len() ==> interface_shown(
                #[trigger] shown.interfaces@[i],
                found@[i],
                crate::config::text_of(cfg.network.required_interface),
            ),
        path_checks_of(shown.checks@) == network_checks(*cfg, *health),
        path_checks_of(shown.containment_matrix@) == matrix_of(
            cfg.torrent.utp_enabled,
            crate::doctor::traffic_level_of(*health),
        ),
{
    let mut interfaces: Vec<NetworkInterfaceDiagnostic> = Vec::new();
    let mut i: usize = 0;
    while i < found.len()
        invariant
            i <= found@.len(),
            interfaces@.len() == i,
            forall|k: int|
                0 <= k < i ==> interface_shown(
                    #[trigger] interfaces@[k],
                    found@[k],
                    crate::config::text_of(cfg.network.required_interface),
                ),
        decreases found@.len() - i,
    {
        interfaces.push(show_interface(&found[i], &cfg.network.required_interface));
        i = i + 1;
    }
    NetworkDiagnostics {
        health: health.clone(),
        listen_port: cfg.torrent.listen_port,
        dht_port: cfg.dht.port,
        torrent_allow_ipv6: cfg.torrent.allow_ipv6,
        utp_enabled: cfg.torrent.utp_enabled,
        utp_prefer_tcp: cfg.torrent.utp_prefer_tcp,
        peer_encryption_mode: cfg.torrent.encryption_mode,
        interfaces,
        checks: list_network_checks(cfg, health),
        containment_matrix: containment_matrix(cfg, traffic_level(health)),
    }
}

/// The newest lines of the log.
#[derive(Debug)]
pub struct LogSnapshot {
    pub enabled: bool,
    pub path: Option<String>,
    pub lines: Vec<String>,
    pub truncated: bool,
}

/// The newest lines of the log: without a log file none, and of one that could not be read none.
pub fn recent_logs(path: Option<&str>, read: Option<&Vec<String>>, max_lines: usize) -> (snapshot:
    LogSnapshot)
    ensures
        path.is_none() ==> !snapshot.enabled && snapshot.path.is_none() && snapshot.lines@.len()
            == 0 && !snapshot.truncated,
        path matches Some(path) ==> {
            &&& snapshot.enabled
            &&& snapshot.path matches Some(shown) && shown@ == path@
            &&& crate::config::texts_of(snapshot.lines@) == match read {
                Some(lines) => crate::text::newest_lines(lines@, max_lines as nat),
                None => Seq::<Seq<char>>::empty(),
            }
            &&& snapshot.truncated == (snapshot.lines@.len() >= max_lines)
        },
{
    let path: &str = match path {
        Some(path) => path,
        None => {
            return LogSnapshot {
                enabled: false,
                path: None,
                lines: Vec::new(),
                truncated: false,
            };
        },
    };
    let lines: Vec<String> = match read {
        Some(lines) => read_last_lines(lines, max_lines),
        None => Vec::new(),
    };
    assert(read.is_none() ==> crate::config::texts_of(lines@) =~= Seq::<Seq<char>>::empty());
    LogSnapshot {
        enabled: true,
        path: Some(owned(path)),
        truncated: lines.len() >= max_lines,
        lines,
    }
}

/// Every path that traffic takes is checked, all at the level of the network, and micro transport
/// only where it is enabled.
pub proof fn every_path_is_checked(utp_enabled: bool, level: DiagnosticLevel, i: int)
    ensures
        matrix_of(utp_enabled, level).len() == if utp_enabled {
            7nat
        } else {
            6nat
        },
        0 <= i < matrix_of(utp_enabled, level).len() ==> matrix_of(utp_enabled, level)[i].level
            == level,
        matrix_of(utp_enabled, level)[0].id == "peer_tcp"@,
        utp_enabled ==> matrix_of(utp_enabled, level)[1].id == "peer_utp"@,
        matrix_of(utp_enabled, level).last().id == "dns"@,
{
    let rows = matrix_of(utp_enabled, level);
    if 0 <= i < rows.len() {
        if utp_enabled {
            assert(i == 0 || i == 1 || i == 2 || i == 3 || i == 4 || i == 5 || i == 6);
        } else {
            assert(i == 0 || i == 1 || i == 2 || i == 3 || i == 4 || i == 5);
        }
    }
}

/// Of the network four things are checked: whether traffic may flow, whether both address families
/// are allowed, whether name resolution is validated, and how peers are reached.
pub proof fn networks_are_checked(cfg: Config, health: NetworkHealth)
    ensures
        ({
            let checks = network_checks(cfg, health);
            &&& checks.len() == 4
            &&& (checks[0].level == DiagnosticLevel::Good) == health.traffic_allowed
            &&& (checks[0].level == DiagnosticLevel::Invalid) == !health.traffic_allowed
            &&& checks[0].detail == health.detail@
            &&& (checks[1].level == DiagnosticLevel::Good) == (cfg.network.allow_ipv6
                && cfg.torrent.allow_ipv6)
            &&& checks[1].level != DiagnosticLevel::Invalid
            &&& !cfg.network.validate_dns ==> checks[2].level == DiagnosticLevel::Warning
            &&& cfg.network.validate_dns ==> checks[2].level == checks[0].level
            &&& checks[3].level == DiagnosticLevel::Good
        }),
{
}

/// An interface is shown with its name, whether it is the required one, and which address families
/// it has.
pub proof fn interfaces_are_shown(
    shown: NetworkInterfaceDiagnostic,
    interface: InterfaceInfo,
    required: Option<Seq<char>>,
    k: int,
)
    requires
        interface_shown(shown, interface, required),
    ensures
        shown.name == interface.name,
        shown.selected == (required matches Some(name) && name == interface.name@),
        shown.addresses@.len() == interface.addresses@.len(),
        0 <= k < interface.addresses@.len() ==> shown.addresses@[k] == interface.addresses@[k].text,
        0 <= k < interface.addresses@.len() && interface.addresses@[k].ipv6 ==> shown.has_ipv6,
        0 <= k < interface.addresses@.len() && !interface.addresses@[k].ipv6 ==> shown.has_ipv4,
        interface.addresses@.len() == 0 ==> !shown.has_ipv4 && !shown.has_ipv6,
{
}

/// How peers are reached is told: whether micro transport is enabled, and which transport comes
/// first.
pub proof fn transports_are_told(cfg: Config)
    ensures
        cfg.torrent.utp_enabled && cfg.torrent.utp_prefer_tcp ==> transport_text(cfg)
            == "TCP is enabled, uTP is "@ + "enabled"@ + ", preference is "@ + "tcp-first"@
            + ", peer encryption is \""@ + encryption_name(cfg.torrent.encryption_mode) + "\""@,
        cfg.torrent.utp_enabled && !cfg.torrent.utp_prefer_tcp ==> transport_text(cfg)
            == "TCP is enabled, uTP is "@ + "enabled"@ + ", preference is "@ + "utp-first"@
            + ", peer encryption is \""@ + encryption_name(cfg.torrent.encryption_mode) + "\""@,
        !cfg.torrent.utp_enabled && cfg.torrent.utp_prefer_tcp ==> transport_text(cfg)
            == "TCP is enabled, uTP is "@ + "disabled"@ + ", preference is "@ + "tcp-first"@
            + ", peer encryption is \""@ + encryption_name(cfg.torrent.encryption_mode) + "\""@,
        truth(true) == "true"@ && truth(false) == "false"@,
{
}

} // verus!
