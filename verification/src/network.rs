//! Network containment states.
use vstd::prelude::*;

verus! {

/// How strictly torrent traffic is contained.
#[derive(Clone, Copy, PartialEq, Eq, Structural, Debug)]
pub enum NetworkContainmentMode {
    Disabled,
    Strict,
}

/// What containment found of the required path.
#[derive(Clone, Copy, PartialEq, Eq, Structural, Debug)]
pub enum NetworkContainmentStatus {
    Disabled,
    Healthy,
    InterfaceMissing,
    InterfaceDown,
    RouteInvalid,
    SocketBindFailed,
    BlockedFailClosed,
}

/// The name of a status.
pub open spec fn status_name(status: NetworkContainmentStatus) -> Seq<char> {
    match status {
        NetworkContainmentStatus::Disabled => "disabled"@,
        NetworkContainmentStatus::Healthy => "healthy"@,
        NetworkContainmentStatus::InterfaceMissing => "interface_missing"@,
        NetworkContainmentStatus::InterfaceDown => "interface_down"@,
        NetworkContainmentStatus::RouteInvalid => "route_invalid"@,
        NetworkContainmentStatus::SocketBindFailed => "socket_bind_failed"@,
        NetworkContainmentStatus::BlockedFailClosed => "blocked_fail_closed"@,
    }
}

impl NetworkContainmentStatus {
    /// The name of the status.
    pub fn as_str(&self) -> (name: &'static str)
        ensures
            name@ == status_name(*self),
    {
        match self {
            NetworkContainmentStatus::Disabled => "disabled",
            NetworkContainmentStatus::Healthy => "healthy",
            NetworkContainmentStatus::InterfaceMissing => "interface_missing",
            NetworkContainmentStatus::InterfaceDown => "interface_down",
            NetworkContainmentStatus::RouteInvalid => "route_invalid",
            NetworkContainmentStatus::SocketBindFailed => "socket_bind_failed",
            NetworkContainmentStatus::BlockedFailClosed => "blocked_fail_closed",
        }
    }
}

/// The outcome of one containment evaluation.
#[derive(Debug)]
pub struct NetworkHealth {
    pub mode: NetworkContainmentMode,
    pub status: NetworkContainmentStatus,
    pub traffic_allowed: bool,
    pub detail: String,
}

impl Clone for NetworkHealth {
    fn clone(&self) -> (copy: NetworkHealth)
        ensures
            copy == *self,
    {
        NetworkHealth {
            mode: self.mode,
            status: self.status,
            traffic_allowed: self.traffic_allowed,
            detail: self.detail.clone(),
        }
    }
}

impl NetworkHealth {
    /// Torrent traffic may flow: the path is healthy, or nothing is contained.
    pub open spec fn permits(self) -> bool {
        self.traffic_allowed || self.mode == NetworkContainmentMode::Disabled
    }

    /// Whether torrent traffic may flow.
    pub fn permits_traffic(&self) -> (permitted: bool)
        ensures
            permitted == self.permits(),
    {
        self.traffic_allowed || self.mode == NetworkContainmentMode::Disabled
    }
}

/// Traffic may flow where it is allowed, and wherever containment is switched off; nowhere else.
pub proof fn traffic_flows_where_allowed(health: NetworkHealth)
    ensures
        health.traffic_allowed ==> health.permits(),
        health.mode == NetworkContainmentMode::Disabled ==> health.permits(),
        !health.traffic_allowed && health.mode != NetworkContainmentMode::Disabled
            ==> !health.permits(),
{
}

} // verus!
