//! Network interfaces, and a probe of them whose answers are set by hand.
use crate::text::{owned, same_text};
use vstd::prelude::*;

verus! {

/// Whether an interface is up.
#[derive(Clone, Copy, PartialEq, Eq, Structural, Debug)]
pub enum InterfaceStatus {
    Up,
    Down,
}

/// The name of a status.
pub open spec fn interface_status_name(status: InterfaceStatus) -> Seq<char> {
    match status {
        InterfaceStatus::Up => "up"@,
        InterfaceStatus::Down => "down"@,
    }
}

impl InterfaceStatus {
    /// The name of the status.
    pub fn as_str(&self) -> (name: &'static str)
        ensures
            name@ == interface_status_name(*self),
    {
        match self {
            InterfaceStatus::Up => "up",
            InterfaceStatus::Down => "down",
        }
    }
}

/// An address of an interface.
#[derive(Debug)]
pub struct InterfaceAddress {
    pub text: String,
    pub ipv6: bool,
}

impl Clone for InterfaceAddress {
    fn clone(&self) -> (copy: InterfaceAddress)
        ensures
            copy == *self,
    {
        InterfaceAddress { text: self.text.clone(), ipv6: self.ipv6 }
    }
}

/// A network interface.
#[derive(Debug)]
pub struct InterfaceInfo {
    pub name: String,
    pub status: InterfaceStatus,
    pub addresses: Vec<InterfaceAddress>,
}

/// What is known of an interface but for its name.
pub struct InterfaceView {
    pub status: InterfaceStatus,
    pub addresses: Seq<InterfaceAddress>,
}

impl View for InterfaceInfo {
    type V = InterfaceView;

    open spec fn view(&self) -> InterfaceView {
        InterfaceView { status: self.status, addresses: self.addresses@ }
    }
}

/// A list holds an interface of a name.
pub open spec fn lists_interface(interfaces: Seq<InterfaceInfo>, name: Seq<char>) -> bool {
    exists|k: int| 0 <= k < interfaces.len() && (#[trigger] interfaces[k]).name@ == name
}

/// Where a list holds an interface of a name.
pub open spec fn place_of_interface(interfaces: Seq<InterfaceInfo>, name: Seq<char>) -> int {
    choose|k: int| 0 <= k < interfaces.len() && (#[trigger] interfaces[k]).name@ == name
}

/// No two interfaces have the same name.
pub open spec fn names_differ(interfaces: Seq<InterfaceInfo>) -> bool {
    forall|i: int, k: int|
        0 <= i < k < interfaces.len() ==> (#[trigger] interfaces[i]).name@ != (
        #[trigger] interfaces[k]).name@
}

/// The interfaces of a list by name.
pub open spec fn interface_map(interfaces: Seq<InterfaceInfo>) -> Map<Seq<char>, InterfaceView> {
    Map::new(
        |name: Seq<char>| lists_interface(interfaces, name),
        |name: Seq<char>| interfaces[place_of_interface(interfaces, name)]@,
    )
}

/// An address is among those of an interface.
pub open spec fn has_address(addresses: Seq<InterfaceAddress>, address: Seq<char>) -> bool {
    exists|k: int| 0 <= k < addresses.len() && (#[trigger] addresses[k]).text@ == address
}

/// A probe whose answers are set by hand.
#[derive(Debug)]
pub struct FakeInterfaceProbe {
    interfaces: Vec<InterfaceInfo>,
    route_ok: bool,
    dns_ok: bool,
    namespace_ok: bool,
}

/// A probe as a value.
pub struct ProbeView {
    pub interfaces: Map<Seq<char>, InterfaceView>,
    pub route_ok: bool,
    pub dns_ok: bool,
    pub namespace_ok: bool,
}

impl View for FakeInterfaceProbe {
    type V = ProbeView;

    closed spec fn view(&self) -> ProbeView {
        ProbeView {
            interfaces: interface_map(self.interfaces@),
            route_ok: self.route_ok,
            dns_ok: self.dns_ok,
            namespace_ok: self.namespace_ok,
        }
    }
}

proof fn lemma_place(interfaces: Seq<InterfaceInfo>, k: int)
    requires
        names_differ(interfaces),
        0 <= k < interfaces.len(),
    ensures
        lists_interface(interfaces, interfaces[k].name@),
        place_of_interface(interfaces, interfaces[k].name@) == k,
        interface_map(interfaces)[interfaces[k].name@] == interfaces[k]@,
{
    let place = place_of_interface(interfaces, interfaces[k].name@);
    assert(interfaces[place].name@ == interfaces[k].name@);
}

fn copied_addresses(list: &Vec<InterfaceAddress>) -> (copy: Vec<InterfaceAddress>)
    ensures
        copy@ == list@,
{
    let mut copy: Vec<InterfaceAddress> = Vec::new();
    let mut i: usize = 0;
    while i < list.len()
        invariant
            i <= list.len(),
            copy@ == list@.take(i as int),
        decreases list.len() - i,
    {
        copy.push(list[i].clone());
        i = i + 1;
        assert(copy@ =~= list@.take(i as int));
    }
    assert(copy@ =~= list@);
    copy
}

impl Clone for InterfaceInfo {
    fn clone(&self) -> (copy: InterfaceInfo)
        ensures
            copy.name == self.name,
            copy@ == self@,
    {
        InterfaceInfo {
            name: self.name.clone(),
            status: self.status,
            addresses: copied_addresses(&self.addresses),
        }
    }
}

fn holds_address(addresses: &Vec<InterfaceAddress>, address: &str) -> (found: bool)
    ensures
        found == has_address(addresses@, address@),
{
    let mut i: usize = 0;
    while i < addresses.len()
        invariant
            i <= addresses@.len(),
            forall|k: int| 0 <= k < i ==> (#[trigger] addresses@[k]).text@ != address@,
        decreases addresses@.len() - i,
    {
        if same_text(addresses[i].text.as_str(), address) {
            assert(addresses@[i as int].text@ == address@);
            return true;
        }
        i = i + 1;
    }
    false
}

impl FakeInterfaceProbe {
    /// The names of the interfaces differ.
    pub closed spec fn wf(&self) -> bool {
        names_differ(self.interfaces@)
    }

    /// A probe that knows no interface and answers no to everything.
    pub fn new() -> (probe: FakeInterfaceProbe)
        ensures
            probe.wf(),
            probe@ == (ProbeView {
                interfaces: Map::<Seq<char>, InterfaceView>::empty(),
                route_ok: false,
                dns_ok: false,
                namespace_ok: false,
            }),
    {
        let probe: FakeInterfaceProbe = FakeInterfaceProbe {
            interfaces: Vec::new(),
            route_ok: false,
            dns_ok: false,
            namespace_ok: false,
        };
        assert(probe@.interfaces =~= Map::<Seq<char>, InterfaceView>::empty());
        probe
    }

    fn position(&self, name: &str) -> (position: Option<usize>)
        ensures
            position matches Some(k) ==> k < self.interfaces@.len() && self.interfaces@[k as int].name@
                == name@,
            position.is_none() ==> !lists_interface(self.interfaces@, name@),
    {
        let mut i: usize = 0;
        while i < self.interfaces.len()
            invariant
                i <= self.interfaces@.len(),
                forall|k: int| 0 <= k < i ==> (#[trigger] self.interfaces@[k]).name@ != name@,
            decreases self.interfaces@.len() - i,
        {
            if same_text(self.interfaces[i].name.as_str(), name) {
                return Some(i);
            }
            i = i + 1;
        }
        None
    }

    /// Adds an interface, or replaces the one of that name.
    pub fn set_interface(
        &mut self,
        name: &str,
        status: InterfaceStatus,
        addresses: Vec<InterfaceAddress>,
    )
        requires
            old(self).wf(),
        ensures
            final(self).wf(),
            final(self)@ == (ProbeView {
                interfaces: old(self)@.interfaces.insert(
                    name@,
                    InterfaceView { status, addresses: addresses@ },
                ),
                ..old(self)@
            }),
    {
        self.remove_interface(name);
        let ghost before = self.interfaces@;
        assert(self@.interfaces.dom().contains(name@) == lists_interface(before, name@));
        let ghost view = InterfaceView { status, addresses: addresses@ };
        self.interfaces.push(InterfaceInfo { name: owned(name), status, addresses });
        proof {
            let after = self.interfaces@;
            let added = after[before.len() as int];
            assert forall|i: int, k: int| 0 <= i < k < after.len() implies (
            #[trigger] after[i]).name@ != (#[trigger] after[k]).name@ by {
                if k == before.len() {
                    assert(after[i] == before[i]);
                    assert(!lists_interface(before, name@));
                }
            }
            assert forall|other: Seq<char>| true implies #[trigger] lists_interface(after, other)
                == (lists_interface(before, other) || other == name@) by {
                if lists_interface(before, other) {
                    let k = place_of_interface(before, other);
                    assert(after[k].name@ == other);
                }
                if other == name@ {
                    assert(added.name@ == other);
                }
                if lists_interface(after, other) && other != name@ {
                    let k = place_of_interface(after, other);
                    assert(before[k].name@ == other);
                }
            }
            lemma_place(after, before.len() as int);
            assert forall|other: Seq<char>| lists_interface(before, other) implies interface_map(
                after,
            )[other] == interface_map(before)[other] by {
                let k = place_of_interface(before, other);
                assert(after[k].name@ == other);
                lemma_place(after, k);
                lemma_place(before, k);
            }
            assert(interface_map(after) =~= interface_map(before).insert(name@, view));
            assert(self@.interfaces =~= old(self)@.interfaces.insert(name@, view));
        }
    }

    /// Removes an interface.
    pub fn remove_interface(&mut self, name: &str)
        requires
            old(self).wf(),
        ensures
            final(self).wf(),
            final(self)@ == (ProbeView {
                interfaces: old(self)@.interfaces.remove(name@),
                ..old(self)@
            }),
    {
        let ghost before = self.interfaces@;
        match self.position(name) {
            Some(position) => {
                self.interfaces.remove(position);
                proof {
                    let after = self.interfaces@;
                    let gone = position as int;
                    assert forall|other: Seq<char>| true implies #[trigger] lists_interface(
                        after,
                        other,
                    ) == (lists_interface(before, other) && other != name@) by {
                        if lists_interface(before, other) && other != name@ {
                            let k = place_of_interface(before, other);
                            let moved = if k < gone {
                                k
                            } else {
                                k - 1
                            };
                            assert(after[moved] == before[k]);
                        }
                        if lists_interface(after, other) {
                            let k = place_of_interface(after, other);
                            let moved = if k < gone {
                                k
                            } else {
                                k + 1
                            };
                            assert(after[k] == before[moved]);
                            assert(before[moved].name@ != before[gone].name@);
                        }
                    }
                    assert forall|i: int, k: int| 0 <= i < k < after.len() implies (
                    #[trigger] after[i]).name@ != (#[trigger] after[k]).name@ by {
                        let from = if i < gone {
                            i
                        } else {
                            i + 1
                        };
                        let to = if k < gone {
                            k
                        } else {
                            k + 1
                        };
                        assert(after[i] == before[from] && after[k] == before[to]);
                    }
                    assert forall|other: Seq<char>| lists_interface(after, other) implies
                        interface_map(after)[other] == interface_map(before)[other] by {
                        let k = place_of_interface(after, other);
                        let moved = if k < gone {
                            k
                        } else {
                            k + 1
                        };
                        assert(after[k] == before[moved]);
                        lemma_place(after, k);
                        lemma_place(before, moved);
                    }
                    assert(interface_map(after) =~= interface_map(before).remove(name@));
                }
            },
            None => {
                assert(interface_map(before) =~= interface_map(before).remove(name@));
            },
        }
    }

    /// Sets whether the route is valid.
    pub fn set_route_valid(&mut self, valid: bool)
        requires
            old(self).wf(),
        ensures
            final(self).wf(),
            final(self)@ == (ProbeView { route_ok: valid, ..old(self)@ }),
    {
        self.route_ok = valid;
    }

    /// Sets whether names resolve over the contained path.
    pub fn set_dns_ok(&mut self, ok: bool)
        requires
            old(self).wf(),
        ensures
            final(self).wf(),
            final(self)@ == (ProbeView { dns_ok: ok, ..old(self)@ }),
    {
        self.dns_ok = ok;
    }

    /// Sets whether namespaces are available.
    pub fn set_namespace_ok(&mut self, ok: bool)
        requires
            old(self).wf(),
        ensures
            final(self).wf(),
            final(self)@ == (ProbeView { namespace_ok: ok, ..old(self)@ }),
    {
        self.namespace_ok = ok;
    }

    /// All interfaces.
    pub fn list(&self) -> (interfaces: Vec<InterfaceInfo>)
        requires
            self.wf(),
        ensures
            names_differ(interfaces@),
            interface_map(interfaces@) == self@.interfaces,
    {
        let mut interfaces: Vec<InterfaceInfo> = Vec::new();
        let mut i: usize = 0;
        while i < self.interfaces.len()
            invariant
                i <= self.interfaces@.len(),
                interfaces@.len() == i,
                forall|k: int|
                    0 <= k < i ==> (#[trigger] interfaces@[k]).name == self.interfaces@[k].name
                        && interfaces@[k]@ == self.interfaces@[k]@,
            decreases self.interfaces@.len() - i,
        {
            interfaces.push(self.interfaces[i].clone());
            i = i + 1;
        }
        proof {
            let own = self.interfaces@;
            let copy = interfaces@;
            assert forall|a: int, b: int| 0 <= a < b < copy.len() implies (
            #[trigger] copy[a]).name@ != (#[trigger] copy[b]).name@ by {
                assert(own[a].name@ != own[b].name@);
            }
            assert forall|name: Seq<char>| true implies #[trigger] lists_interface(copy, name)
                == lists_interface(own, name) by {
                if lists_interface(copy, name) {
                    assert(own[place_of_interface(copy, name)].name@ == name);
                }
                if lists_interface(own, name) {
                    assert(copy[place_of_interface(own, name)].name@ == name);
                }
            }
            assert forall|name: Seq<char>| lists_interface(own, name) implies interface_map(
                copy,
            )[name] == interface_map(own)[name] by {
                let k = place_of_interface(own, name);
                assert(copy[k].name@ == name);
                lemma_place(copy, k);
                lemma_place(own, k);
            }
            assert(interface_map(copy) =~= interface_map(own));
        }
        interfaces
    }

    /// The interface of a name.
    pub fn find(&self, name: &str) -> (found: Option<InterfaceInfo>)
        requires
            self.wf(),
        ensures
            found.is_some() == self@.interfaces.dom().contains(name@),
            found matches Some(interface) ==> interface.name@ == name@ && interface@
                == self@.interfaces[name@],
    {
        match self.position(name) {
            Some(position) => {
                proof {
                    lemma_place(self.interfaces@, position as int);
                }
                Some(self.interfaces[position].clone())
            },
            None => None,
        }
    }

    /// Whether an address is assigned: to the interface of a name, or to any.
    pub fn source_assigned(&self, address: &str, interface: Option<&str>) -> (assigned: bool)
        requires
            self.wf(),
        ensures
            assigned == match interface {
                Some(name) => self@.interfaces.dom().contains(name@) && has_address(
                    self@.interfaces[name@].addresses,
                    address@,
                ),
                None => exists|name: Seq<char>| #[trigger]
                    self@.interfaces.dom().contains(name) && has_address(
                        self@.interfaces[name].addresses,
                        address@,
                    ),
            },
    {
        match interface {
            Some(name) => match self.position(name) {
                Some(position) => {
                    proof {
                        lemma_place(self.interfaces@, position as int);
                    }
                    holds_address(&self.interfaces[position].addresses, address)
                },
                None => false,
            },
            None => {
                let mut i: usize = 0;
                while i < self.interfaces.len()
                    invariant
                        self.wf(),
                        interface.is_none(),
                        i <= self.interfaces@.len(),
                        forall|k: int|
                            0 <= k < i ==> !has_address(
                                (#[trigger] self.interfaces@[k]).addresses@,
                                address@,
                            ),
                    decreases self.interfaces@.len() - i,
                {
                    if holds_address(&self.interfaces[i].addresses, address) {
                        proof {
                            lemma_place(self.interfaces@, i as int);
                            assert(self@.interfaces.dom().contains(
                                self.interfaces@[i as int].name@,
                            ));
                        }
                        return true;
                    }
                    i = i + 1;
                }
                proof {
                    assert forall|name: Seq<char>| #[trigger]
                        self@.interfaces.dom().contains(name) implies !has_address(
                        self@.interfaces[name].addresses,
                        address@,
                    ) by {
                        let k = place_of_interface(self.interfaces@, name);
                        lemma_place(self.interfaces@, k);
                    }
                }
                false
            },
        }
    }

    /// Whether the route is valid.
    pub fn route_valid(&self) -> (valid: bool)
        ensures
            valid == self@.route_ok,
    {
        self.route_ok
    }

    /// Whether names resolve over the contained path.
    pub fn dns_constrained(&self) -> (ok: bool)
        ensures
            ok == self@.dns_ok,
    {
        self.dns_ok
    }

    /// Whether namespaces are available.
    pub fn namespace_available(&self) -> (ok: bool)
        ensures
            ok == self@.namespace_ok,
    {
        self.namespace_ok
    }
}

/// An interface has an address exactly where it is one of those that it lists.
pub proof fn addresses_are_found(addresses: Seq<InterfaceAddress>, address: Seq<char>, k: int)
    ensures
        0 <= k < addresses.len() ==> has_address(addresses, addresses[k].text@),
        addresses.len() == 0 ==> !has_address(addresses, address),
        (forall|i: int| 0 <= i < addresses.len() ==> (#[trigger] addresses[i]).text@ != address)
            ==> !has_address(addresses, address),
{
}

} // verus!
