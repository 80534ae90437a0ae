//! The process-wide containment gate.
use crate::error::CoreError;
use crate::network::NetworkContainmentStatus;
use crate::text::owned;
use vstd::prelude::*;

verus! {

/// The single authority for whether torrent traffic is permitted. Every bind, connect, resolve,
/// accept, send and request asks it first.
#[derive(Debug)]
pub struct ContainmentGate {
    allowed: bool,
    generation: u64,
    status: Option<NetworkContainmentStatus>,
    detail: String,
}

/// A gate as a value.
pub struct GateView {
    pub allowed: bool,
    pub generation: u64,
    pub status: Option<NetworkContainmentStatus>,
    pub detail: Seq<char>,
}

/// The counter after one more transition.
pub open spec fn next_generation(generation: u64) -> u64 {
    vstd::wrapping::u64_specs::wrapping_add(generation, 1)
}

/// A gate after traffic was permitted.
pub open spec fn allowed_gate(gate: GateView) -> GateView {
    if gate.allowed {
        gate
    } else {
        GateView {
            allowed: true,
            generation: next_generation(gate.generation),
            status: None,
            detail: Seq::<char>::empty(),
        }
    }
}

/// A gate after traffic was denied for a reason.
pub open spec fn blocked_gate(
    gate: GateView,
    status: NetworkContainmentStatus,
    detail: Seq<char>,
) -> GateView {
    GateView {
        allowed: false,
        generation: if gate.allowed {
            next_generation(gate.generation)
        } else {
            gate.generation
        },
        status: Some(status),
        detail,
    }
}

/// What an operation is told that a closed gate refuses.
pub open spec fn refusal(gate: GateView) -> Seq<char> {
    let status = gate.status.unwrap_or(NetworkContainmentStatus::BlockedFailClosed);
    let named = "torrent data plane blocked: "@ + crate::network::status_name(status);
    if gate.detail.len() == 0 {
        named
    } else {
        named + ": "@ + gate.detail
    }
}

impl View for ContainmentGate {
    type V = GateView;

    closed spec fn view(&self) -> GateView {
        GateView {
            allowed: self.allowed,
            generation: self.generation,
            status: self.status,
            detail: self.detail@,
        }
    }
}

impl ContainmentGate {
    pub fn new(traffic_allowed: bool) -> (gate: ContainmentGate)
        ensures
            gate@ == (GateView {
                allowed: traffic_allowed,
                generation: 0,
                status: None,
                detail: Seq::<char>::empty(),
            }),
    {
        ContainmentGate {
            allowed: traffic_allowed,
            generation: 0,
            status: None,
            detail: String::new(),
        }
    }

    /// Permits traffic. The generation advances only where traffic was denied before.
    pub fn allow(&mut self)
        ensures
            final(self)@ == allowed_gate(old(self)@),
    {
        if !self.allowed {
            self.allowed = true;
            self.generation = self.generation.wrapping_add(1);
            self.status = None;
            self.detail = String::new();
        }
    }

    /// Denies traffic and keeps the reason. The generation advances only where traffic was
    /// permitted before.
    pub fn block(&mut self, status: NetworkContainmentStatus, detail: &str)
        ensures
            final(self)@ == blocked_gate(old(self)@, status, detail@),
    {
        if self.allowed {
            self.generation = self.generation.wrapping_add(1);
        }
        self.allowed = false;
        self.status = Some(status);
        self.detail = owned(detail);
    }

    /// Refuses the caller's operation where traffic is denied.
    pub fn enforce(&self) -> (outcome: Result<(), CoreError>)
        ensures
            outcome.is_ok() == self@.allowed,
            outcome matches Err(error) ==> error@ == (crate::error::ErrorView {
                kind: crate::error::ErrorKind::NetworkBlocked,
                message: refusal(self@),
            }),
    {
        if self.allowed {
            return Ok(());
        }
        let status: NetworkContainmentStatus = match self.status {
            Some(status) => status,
            None => NetworkContainmentStatus::BlockedFailClosed,
        };
        let mut message: String = owned("torrent data plane blocked: ");
        message.append(status.as_str());
        if !self.detail.as_str().is_empty() {
            message.append(": ");
            message.append(self.detail.as_str());
        }
        Err(CoreError::NetworkBlocked(message))
    }

    /// Whether traffic is permitted.
    pub fn traffic_allowed(&self) -> (allowed: bool)
        ensures
            allowed == self@.allowed,
    {
        self.allowed
    }

    /// Why traffic is denied, if it is.
    pub fn blocked_status(&self) -> (status: Option<NetworkContainmentStatus>)
        ensures
            status == self@.status,
    {
        self.status
    }

    /// The words that came with the denial.
    pub fn blocked_detail(&self) -> (detail: String)
        ensures
            detail@ == self@.detail,
    {
        self.detail.clone()
    }

    /// How often the containment gate opened or closed.
    pub fn generation(&self) -> (generation: u64)
        ensures
            generation == self@.generation,
    {
        self.generation
    }

    /// Whether work that began at a generation has been cancelled: the containment gate has moved on since,
    /// and is closed.
    pub fn cancelled_since(&self, start_generation: u64) -> (cancelled: bool)
        ensures
            cancelled == (!self@.allowed && self@.generation != start_generation),
    {
        !self.allowed && self.generation != start_generation
    }
}

/// Work that began while the containment gate was open is cancelled as soon as the containment gate closes.
pub proof fn closing_cancels_open_work(
    gate: GateView,
    status: NetworkContainmentStatus,
    detail: Seq<char>,
)
    requires
        gate.allowed,
    ensures
        !blocked_gate(gate, status, detail).allowed,
        blocked_gate(gate, status, detail).generation != gate.generation,
{
}

/// Opening a closed gate forgets the reason; opening an open gate changes nothing.
pub proof fn opening_forgets_the_reason(gate: GateView)
    ensures
        allowed_gate(gate).allowed,
        gate.allowed ==> allowed_gate(gate) == gate,
        !gate.allowed ==> allowed_gate(gate).status.is_none() && allowed_gate(gate).detail.len()
            == 0 && allowed_gate(gate).generation == next_generation(gate.generation),
{
}

/// Closing a closed gate replaces the reason and does not count as a transition.
pub proof fn closing_again_is_no_transition(
    gate: GateView,
    status: NetworkContainmentStatus,
    detail: Seq<char>,
)
    requires
        !gate.allowed,
    ensures
        blocked_gate(gate, status, detail).generation == gate.generation,
        blocked_gate(gate, status, detail).status == Some(status),
        blocked_gate(gate, status, detail).detail == detail,
{
}

/// The containment gate counts its openings and closings: the count moves exactly where it turns,
/// and never otherwise, so that work sees whether there was a turn since it began.
pub proof fn turns_are_counted(
    gate: GateView,
    status: NetworkContainmentStatus,
    detail: Seq<char>,
)
    ensures
        allowed_gate(gate).allowed,
        !blocked_gate(gate, status, detail).allowed,
        (allowed_gate(gate).generation != gate.generation) == !gate.allowed,
        (blocked_gate(gate, status, detail).generation != gate.generation) == gate.allowed,
        gate.allowed ==> allowed_gate(gate) == gate,
        blocked_gate(gate, status, detail).status == Some(status),
        blocked_gate(gate, status, detail).detail == detail,
{
}

/// A refusal says which status closed the containment gate, and why where that is known.
pub proof fn refusals_give_the_reason(gate: GateView, status: NetworkContainmentStatus)
    requires
        gate.status == Some(status),
    ensures
        gate.detail.len() == 0 ==> refusal(gate) == "torrent data plane blocked: "@
            + crate::network::status_name(status),
        gate.detail.len() > 0 ==> refusal(gate) == "torrent data plane blocked: "@
            + crate::network::status_name(status) + ": "@ + gate.detail,
{
}

} // verus!
