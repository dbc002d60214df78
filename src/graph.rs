//! The routing graph: devices with their ports, connections between ports, and the
//! counters that hand out identifiers.
use vstd::prelude::*;
use crate::types::{DeviceId, DeviceType, PortDirection, PortId, PortInfo};

verus! {

/// A device and its ports.
#[derive(Debug)]
pub struct DeviceInfo {
    pub id: DeviceId,
    pub name: String,
    pub device_type: DeviceType,
    /// Ports in the order they were announced.
    pub ports: Vec<PortInfo>,
}

impl DeviceInfo {
    /// A device without ports.
    pub fn new(id: DeviceId, name: String, device_type: DeviceType) -> (r: Self)
        ensures
            r.id == id,
            r.name == name,
            r.device_type == device_type,
            r.ports@.len() == 0,
    {
        DeviceInfo { id, name, device_type, ports: Vec::new() }
    }
}

/// Whether a port sends audio.
pub open spec fn is_output() -> spec_fn(PortInfo) -> bool {
    |q: PortInfo| q.direction == PortDirection::Output
}

impl DeviceInfo {
    /// The first output port, the one a capture listens to.
    pub fn first_output_port(&self) -> (r: Option<PortId>)
        ensures
            ({
                let i = first_index(self.ports@, is_output());
                if i >= 0 {
                    r == Some(self.ports@[i].id)
                } else {
                    r is None
                }
            }),
    {
        proof {
            lemma_first_index(self.ports@, is_output());
        }
        let mut i: usize = 0;
        while i < self.ports.len()
            invariant
                i <= self.ports@.len(),
                forall|j: int| 0 <= j < i ==> self.ports@[j].direction != PortDirection::Output,
            decreases self.ports.len() - i,
        {
            if self.ports[i].direction == PortDirection::Output {
                proof {
                    lemma_first_index_at(self.ports@, is_output(), i as int);
                }
                return Some(self.ports[i].id);
            }
            i = i + 1;
        }
        None
    }
}

impl Clone for DeviceInfo {
    fn clone(&self) -> (r: Self)
        ensures
            r.id == self.id,
            r.name == self.name,
            r.device_type == self.device_type,
            r.ports@ == self.ports@,
    {
        let mut ports: Vec<PortInfo> = Vec::new();
        let mut i: usize = 0;
        while i < self.ports.len()
            invariant
                i <= self.ports@.len(),
                ports@ == self.ports@.subrange(0, i as int),
            decreases self.ports.len() - i,
        {
            ports.push(self.ports[i].clone());
            i = i + 1;
            assert(ports@ == self.ports@.subrange(0, i as int));
        }
        assert(ports@ == self.ports@);
        DeviceInfo { id: self.id, name: self.name.clone(), device_type: self.device_type, ports }
    }
}

/// A directed link from an output port to an input port. Its identity is the pair.
#[derive(Debug, Clone, Copy, PartialEq, Eq, Hash, Structural)]
pub struct Connection {
    pub source: PortId,
    pub destination: PortId,
}

impl Connection {
    pub fn new(source: PortId, destination: PortId) -> (r: Self)
        ensures
            r.source == source,
            r.destination == destination,
    {
        Connection { source, destination }
    }
}

/// The ports of `devs`, device after device, each device's ports in order.
pub open spec fn ports_of(devs: Seq<DeviceInfo>) -> Seq<PortInfo>
    decreases devs.len(),
{
    if devs.len() == 0 {
        Seq::empty()
    } else {
        ports_of(devs.drop_last()) + devs.last().ports@
    }
}

/// Position of the first element of `s` that satisfies `p`, or -1.
pub open spec fn first_index<A>(s: Seq<A>, p: spec_fn(A) -> bool) -> int
    decreases s.len(),
{
    if s.len() == 0 {
        -1
    } else if p(s[0]) {
        0
    } else {
        let k = first_index(s.drop_first(), p);
        if k >= 0 {
            k + 1
        } else {
            -1
        }
    }
}

/// Whether a port's qualified name is `name`.
pub open spec fn named(name: Seq<char>) -> spec_fn(PortInfo) -> bool {
    |q: PortInfo| q.pipewire_port_name@ == name
}

/// Whether a port's identifier is `id`.
pub open spec fn with_port_id(id: PortId) -> spec_fn(PortInfo) -> bool {
    |q: PortInfo| q.id == id
}

/// Whether a device's identifier is `id`.
pub open spec fn with_device_id(id: DeviceId) -> spec_fn(DeviceInfo) -> bool {
    |d: DeviceInfo| d.id == id
}

/// The identifier of the first port in `ports` whose qualified name is `name`.
pub open spec fn first_named(ports: Seq<PortInfo>, name: Seq<char>) -> Option<PortId> {
    let i = first_index(ports, named(name));
    if i >= 0 {
        Some(ports[i].id)
    } else {
        None
    }
}

/// The qualified name of the first port in `ports` with identifier `id`.
pub open spec fn first_with_id(ports: Seq<PortInfo>, id: PortId) -> Option<Seq<char>> {
    let i = first_index(ports, with_port_id(id));
    if i >= 0 {
        Some(ports[i].pipewire_port_name@)
    } else {
        None
    }
}

/// Position of the device with identifier `id` in `devs`, or -1.
pub open spec fn device_index(devs: Seq<DeviceInfo>, id: DeviceId) -> int {
    first_index(devs, with_device_id(id))
}

/// `first_index` is the least position whose element satisfies `p`.
pub proof fn lemma_first_index<A>(s: Seq<A>, p: spec_fn(A) -> bool)
    ensures
        -1 <= first_index(s, p) < s.len(),
        first_index(s, p) == -1 <==> (forall|i: int| 0 <= i < s.len() ==> !p(#[trigger] s[i])),
        first_index(s, p) >= 0 ==> p(s[first_index(s, p)]),
        forall|j: int| 0 <= j < first_index(s, p) ==> !p(#[trigger] s[j]),
    decreases s.len(),
{
    if s.len() > 0 && !p(s[0]) {
        let t = s.drop_first();
        lemma_first_index(t, p);
        assert forall|j: int| 0 <= j < first_index(s, p) implies !p(#[trigger] s[j]) by {
            if j > 0 {
                assert(s[j] == t[j - 1]);
            }
        }
        if first_index(t, p) == -1 {
            assert forall|i: int| 0 <= i < s.len() implies !p(#[trigger] s[i]) by {
                if i > 0 {
                    assert(s[i] == t[i - 1]);
                }
            }
        }
    }
}

/// A position holding an element that satisfies `p`, with none before it, is `first_index`.
pub proof fn lemma_first_index_at<A>(s: Seq<A>, p: spec_fn(A) -> bool, i: int)
    requires
        0 <= i < s.len(),
        p(s[i]),
        forall|j: int| 0 <= j < i ==> !p(#[trigger] s[j]),
    ensures
        first_index(s, p) == i,
{
    lemma_first_index(s, p);
}

/// The ports of two device lists placed one after the other.
pub proof fn lemma_ports_of_concat(a: Seq<DeviceInfo>, b: Seq<DeviceInfo>)
    ensures
        ports_of(a + b) == ports_of(a) + ports_of(b),
    decreases b.len(),
{
    if b.len() == 0 {
        assert(a + b =~= a);
        assert(ports_of(a) + ports_of(b) =~= ports_of(a));
    } else {
        lemma_ports_of_concat(a, b.drop_last());
        assert((a + b).drop_last() =~= a + b.drop_last());
        assert((a + b).last() == b.last());
        assert(ports_of(a + b) =~= ports_of(a) + ports_of(b));
    }
}

/// The ports of `devs`, split around the device at `d`.
pub proof fn lemma_ports_of_split(devs: Seq<DeviceInfo>, d: int)
    requires
        0 <= d < devs.len(),
    ensures
        ports_of(devs) == ports_of(devs.subrange(0, d)) + devs[d].ports@ + ports_of(
            devs.subrange(d + 1, devs.len() as int),
        ),
        ports_of(devs.subrange(0, d + 1)) == ports_of(devs.subrange(0, d)) + devs[d].ports@,
{
    let pre = devs.subrange(0, d + 1);
    let post = devs.subrange(d + 1, devs.len() as int);
    assert(pre.drop_last() =~= devs.subrange(0, d));
    assert(devs =~= pre + post);
    lemma_ports_of_concat(pre, post);
}

/// The first device of `devs` with identifier `id`, if any.
pub open spec fn device_in(devs: Seq<DeviceInfo>, id: DeviceId) -> Option<DeviceInfo> {
    let i = device_index(devs, id);
    if i >= 0 {
        Some(devs[i])
    } else {
        None
    }
}

/// With distinct identifiers, the device with identifier `id` is the one at the
/// position holding it, and there is none where no position holds it.
pub proof fn lemma_device_in(devs: Seq<DeviceInfo>, id: DeviceId)
    requires
        ids_unique(devs),
    ensures
        forall|i: int| 0 <= i < devs.len() && devs[i].id == id ==> device_in(devs, id) == Some(devs[i])
            && device_index(devs, id) == i,
        (forall|i: int| 0 <= i < devs.len() ==> devs[i].id != id) ==> device_in(devs, id) is None,
{
    lemma_first_index(devs, with_device_id(id));
}

/// Whether no two devices of `devs` share an identifier.
pub open spec fn ids_unique(devs: Seq<DeviceInfo>) -> bool {
    forall|i: int, j: int| 0 <= i < devs.len() && 0 <= j < devs.len() && i != j
        ==> devs[i].id != devs[j].id
}

/// `devs` after storing `d`: it replaces the device with the same identifier in
/// place, or is appended.
pub open spec fn devices_with(devs: Seq<DeviceInfo>, d: DeviceInfo) -> Seq<DeviceInfo> {
    let i = device_index(devs, d.id);
    if i >= 0 {
        devs.update(i, d)
    } else {
        devs.push(d)
    }
}

/// `devs` without the device with identifier `id`, order otherwise kept.
pub open spec fn devices_without(devs: Seq<DeviceInfo>, id: DeviceId) -> Seq<DeviceInfo> {
    let i = device_index(devs, id);
    if i >= 0 {
        devs.remove(i)
    } else {
        devs
    }
}

/// Devices, connections and identifier counters.
pub struct RoutingGraph {
    devices: Vec<DeviceInfo>,
    connections: Vec<Connection>,
    next_device_id: u64,
    next_port_id: u64,
}

impl RoutingGraph {
    /// The devices, in the order they were first added.
    pub closed spec fn devices(&self) -> Seq<DeviceInfo> {
        self.devices@
    }

    /// The set of connections.
    pub closed spec fn connections(&self) -> Set<Connection> {
        self.connections@.to_set()
    }

    /// The identifier that `generate_device_id` hands out next.
    pub closed spec fn next_device(&self) -> u64 {
        self.next_device_id
    }

    /// The identifier that `generate_port_id` hands out next.
    pub closed spec fn next_port(&self) -> u64 {
        self.next_port_id
    }

    /// Every port of every device, in device order.
    pub open spec fn all_ports(&self) -> Seq<PortInfo> {
        ports_of(self.devices())
    }

    /// The device with identifier `id`, if any.
    pub open spec fn device(&self, id: DeviceId) -> Option<DeviceInfo> {
        device_in(self.devices(), id)
    }

    /// Well-formed graphs hold each device identifier at most once.
    pub proof fn lemma_ids_unique(&self)
        requires
            self.wf(),
        ensures
            ids_unique(self.devices()),
    {
    }

    /// Well-formedness: device identifiers are unique and no connection is stored twice.
    pub closed spec fn wf(&self) -> bool {
        &&& ids_unique(self.devices@)
        &&& self.connections@.no_duplicates()
        &&& self.next_device_id >= 1
        &&& self.next_port_id >= 1
    }

    /// An empty graph whose counters start at 1.
    pub fn new() -> (r: Self)
        ensures
            r.wf(),
            r.devices().len() == 0,
            r.connections() == Set::<Connection>::empty(),
            r.next_device() == 1,
            r.next_port() == 1,
    {
        let r = RoutingGraph {
            devices: Vec::new(),
            connections: Vec::new(),
            next_device_id: 1,
            next_port_id: 1,
        };
        assert(r.connections@.to_set() =~= Set::<Connection>::empty());
        r
    }

    /// Whether `generate_device_id` can still hand out a fresh identifier.
    pub fn device_ids_left(&self) -> (r: bool)
        ensures
            r == (self.next_device() < u64::MAX),
    {
        self.next_device_id < u64::MAX
    }

    /// Whether `generate_port_id` can still hand out a fresh identifier.
    pub fn port_ids_left(&self) -> (r: bool)
        ensures
            r == (self.next_port() < u64::MAX),
    {
        self.next_port_id < u64::MAX
    }

    /// Whether `a + b` more port identifiers can still be handed out.
    pub fn port_ids_available(&self, a: usize, b: usize) -> (r: bool)
        ensures
            r == (self.next_port() + a + b <= u64::MAX),
    {
        let room = u64::MAX - self.next_port_id;
        (a as u64) <= room && (b as u64) <= room - (a as u64)
    }

    /// Hands out the next device identifier; each one is larger than all before it.
    pub fn generate_device_id(&mut self) -> (r: DeviceId)
        requires
            old(self).wf(),
            old(self).next_device() < u64::MAX,
        ensures
            final(self).wf(),
            r.0 == old(self).next_device(),
            counter_step(*old(self), *final(self), true, false),
            final(self).next_device() == old(self).next_device() + 1,
            final(self).next_port() == old(self).next_port(),
            final(self).devices() == old(self).devices(),
            final(self).connections() == old(self).connections(),
    {
        let id = DeviceId::new(self.next_device_id);
        self.next_device_id = self.next_device_id + 1;
        id
    }

    /// Hands out the next port identifier; each one is larger than all before it.
    pub fn generate_port_id(&mut self) -> (r: PortId)
        requires
            old(self).wf(),
            old(self).next_port() < u64::MAX,
        ensures
            final(self).wf(),
            r.0 == old(self).next_port(),
            counter_step(*old(self), *final(self), false, true),
            final(self).next_port() == old(self).next_port() + 1,
            final(self).next_device() == old(self).next_device(),
            final(self).devices() == old(self).devices(),
            final(self).connections() == old(self).connections(),
    {
        let id = PortId::new(self.next_port_id);
        self.next_port_id = self.next_port_id + 1;
        id
    }

    fn index_of_device(&self, device_id: DeviceId) -> (r: Option<usize>)
        requires
            self.wf(),
        ensures
            match r {
                Some(i) => i as int == device_index(self.devices(), device_id) && i < self.devices().len(),
                None => device_index(self.devices(), device_id) == -1,
            },
    {
        let ghost p = with_device_id(device_id);
        proof {
            lemma_first_index(self.devices@, p);
        }
        let mut i: usize = 0;
        while i < self.devices.len()
            invariant
                i <= self.devices@.len(),
                p == with_device_id(device_id),
                forall|j: int| 0 <= j < i ==> self.devices@[j].id != device_id,
            decreases self.devices.len() - i,
        {
            if self.devices[i].id == device_id {
                proof {
                    lemma_first_index_at(self.devices@, p, i as int);
                }
                return Some(i);
            }
            i = i + 1;
        }
        None
    }

    /// Stores `device`, replacing in place a device with the same identifier.
    pub fn add_device(&mut self, device: DeviceInfo)
        requires
            old(self).wf(),
        ensures
            final(self).wf(),
            final(self).devices() == devices_with(old(self).devices(), device),
            final(self).device(device.id) == Some(device),
            counter_step(*old(self), *final(self), false, false),
            forall|k: DeviceId| k != device.id ==> final(self).device(k) == old(self).device(k),
            final(self).connections() == old(self).connections(),
            final(self).next_device() == old(self).next_device(),
            final(self).next_port() == old(self).next_port(),
    {
        let ghost before = self.devices@;
        let ghost p = with_device_id(device.id);
        proof {
            lemma_first_index(self.devices@, p);
        }
        match self.index_of_device(device.id) {
            Some(i) => {
                self.devices.set(i, device);
            },
            None => {
                self.devices.push(device);
            },
        }
        proof {
            let after = self.devices@;
            let at = if device_index(before, device.id) >= 0 { device_index(before, device.id) } else { before.len() as int };
            assert(after[at] == device);
            assert forall|j: int| 0 <= j < after.len() && j != at implies after[j] == before[j] by {}
            lemma_device_in(after, device.id);
            assert forall|k: DeviceId| k != device.id implies device_in(after, k) == device_in(before, k) by {
                lemma_device_in(after, k);
                lemma_device_in(before, k);
                if exists|j: int| 0 <= j < before.len() && before[j].id == k {
                    let j = choose|j: int| 0 <= j < before.len() && before[j].id == k;
                    assert(j != at);
                    assert(after[j] == before[j]);
                } else {
                    assert forall|j: int| 0 <= j < after.len() implies after[j].id != k by {
                        if j != at {
                            assert(after[j] == before[j]);
                        }
                    }
                }
            }
        }
    }

    /// Takes out the device with identifier `device_id`, if there is one. Its ports stay
    /// in the connections that name them.
    pub fn remove_device(&mut self, device_id: DeviceId) -> (r: Option<DeviceInfo>)
        requires
            old(self).wf(),
        ensures
            final(self).wf(),
            r == old(self).device(device_id),
            final(self).devices() == devices_without(old(self).devices(), device_id),
            final(self).device(device_id) is None,
            forall|k: DeviceId| k != device_id ==> final(self).device(k) == old(self).device(k),
            counter_step(*old(self), *final(self), false, false),
            final(self).connections() == old(self).connections(),
            final(self).next_device() == old(self).next_device(),
            final(self).next_port() == old(self).next_port(),
    {
        let ghost before = self.devices@;
        proof {
            lemma_device_in(before, device_id);
        }
        match self.index_of_device(device_id) {
            Some(i) => {
                let d = self.devices.remove(i);
                proof {
                    let after = self.devices@;
                    assert forall|j: int| 0 <= j < after.len() implies after[j].id != device_id by {
                        if j < i {
                            assert(after[j] == before[j]);
                        } else {
                            assert(after[j] == before[j + 1]);
                        }
                    }
                    lemma_device_in(after, device_id);
                    assert forall|k: DeviceId| k != device_id implies device_in(after, k) == device_in(before, k) by {
                        lemma_device_in(after, k);
                        lemma_device_in(before, k);
                        if exists|j: int| 0 <= j < before.len() && before[j].id == k {
                            let j = choose|j: int| 0 <= j < before.len() && before[j].id == k;
                            assert(j != i);
                            if j < i {
                                assert(after[j] == before[j]);
                            } else {
                                assert(after[j - 1] == before[j]);
                            }
                        } else {
                            assert forall|j: int| 0 <= j < after.len() implies after[j].id != k by {
                                if j < i {
                                    assert(after[j] == before[j]);
                                } else {
                                    assert(after[j] == before[j + 1]);
                                }
                            }
                        }
                    }
                }
                Some(d)
            },
            None => None,
        }
    }

    /// The device with identifier `device_id`, if there is one.
    pub fn get_device(&self, device_id: DeviceId) -> (r: Option<&DeviceInfo>)
        requires
            self.wf(),
        ensures
            r is Some <==> self.device(device_id) is Some,
            r matches Some(d) ==> self.device(device_id) == Some(*d),
    {
        match self.index_of_device(device_id) {
            Some(i) => Some(&self.devices[i]),
            None => None,
        }
    }

    /// All devices, in the order they were first added.
    pub fn list_devices(&self) -> (r: Vec<&DeviceInfo>)
        ensures
            r@.len() == self.devices().len(),
            forall|i: int| 0 <= i < r@.len() ==> *r@[i] == self.devices()[i],
    {
        let mut r: Vec<&DeviceInfo> = Vec::new();
        let mut i: usize = 0;
        while i < self.devices.len()
            invariant
                i <= self.devices@.len(),
                r@.len() == i,
                forall|j: int| 0 <= j < i ==> *r@[j] == self.devices@[j],
            decreases self.devices.len() - i,
        {
            r.push(&self.devices[i]);
            i = i + 1;
        }
        r
    }

    fn connection_index(&self, connection: &Connection) -> (r: Option<usize>)
        ensures
            match r {
                Some(i) => i < self.connections@.len() && self.connections@[i as int] == *connection,
                None => !self.connections@.contains(*connection),
            },
    {
        let mut i: usize = 0;
        while i < self.connections.len()
            invariant
                i <= self.connections@.len(),
                forall|j: int| 0 <= j < i ==> self.connections@[j] != *connection,
            decreases self.connections.len() - i,
        {
            if self.connections[i] == *connection {
                return Some(i);
            }
            i = i + 1;
        }
        None
    }

    /// Records `connection`; recording one that is already there changes nothing.
    pub fn add_connection(&mut self, connection: Connection)
        requires
            old(self).wf(),
        ensures
            final(self).wf(),
            final(self).connections() == old(self).connections().insert(connection),
            counter_step(*old(self), *final(self), false, false),
            final(self).devices() == old(self).devices(),
            final(self).next_device() == old(self).next_device(),
            final(self).next_port() == old(self).next_port(),
    {
        match self.connection_index(&connection) {
            Some(i) => {
                proof {
                    assert(self.connections@.to_set().contains(connection));
                    assert(self.connections@.to_set().insert(connection) =~= self.connections@.to_set());
                }
            },
            None => {
                let ghost before = self.connections@;
                self.connections.push(connection);
                proof {
                    assert forall|c: Connection|
                        self.connections@.contains(c) <==> (before.contains(c) || c == connection) by {
                        if before.contains(c) {
                            let k = choose|k: int| 0 <= k < before.len() && before[k] == c;
                            assert(self.connections@[k] == c);
                        }
                        if c == connection {
                            assert(self.connections@[before.len() as int] == c);
                        }
                        if self.connections@.contains(c) {
                            let k = choose|k: int| 0 <= k < self.connections@.len() && self.connections@[k] == c;
                            if k < before.len() {
                                assert(before[k] == c);
                            }
                        }
                    }
                    assert(self.connections@.to_set() =~= before.to_set().insert(connection));
                }
            },
        }
    }

    /// Takes out `connection`; tells whether it was there.
    pub fn remove_connection(&mut self, connection: &Connection) -> (r: bool)
        requires
            old(self).wf(),
        ensures
            final(self).wf(),
            r == old(self).connections().contains(*connection),
            !r ==> *final(self) == *old(self),
            final(self).connections() == old(self).connections().remove(*connection),
            counter_step(*old(self), *final(self), false, false),
            final(self).devices() == old(self).devices(),
            final(self).next_device() == old(self).next_device(),
            final(self).next_port() == old(self).next_port(),
    {
        match self.connection_index(connection) {
            Some(i) => {
                let ghost before = self.connections@;
                self.connections.remove(i);
                proof {
                    assert(before.to_set().contains(*connection));
                    assert forall|c: Connection|
                        self.connections@.contains(c) <==> before.to_set().remove(*connection).contains(c) by {
                        if before.contains(c) && c != *connection {
                            let k = choose|k: int| 0 <= k < before.len() && before[k] == c;
                            if k < i {
                                assert(self.connections@[k] == c);
                            } else {
                                assert(k > i);
                                assert(self.connections@[k - 1] == c);
                            }
                        }
                        if self.connections@.contains(c) {
                            let k = choose|k: int| 0 <= k < self.connections@.len() && self.connections@[k] == c;
                            if k < i {
                                assert(before[k] == c);
                            } else {
                                assert(before[k + 1] == c);
                            }
                        }
                    }
                    assert(self.connections@.to_set() =~= before.to_set().remove(*connection));
                }
                true
            },
            None => {
                proof {
                    assert(self.connections@.to_set().remove(*connection) =~= self.connections@.to_set());
                }
                false
            },
        }
    }

    /// The connections that start or end at `port_id`, each once.
    pub fn get_connections_for_port(&self, port_id: PortId) -> (r: Vec<&Connection>)
        requires
            self.wf(),
        ensures
            forall|c: Connection|
                (exists|i: int| 0 <= i < r@.len() && *r@[i] == c) <==> (self.connections().contains(c)
                    && (c.source == port_id || c.destination == port_id)),
            forall|i: int, j: int| 0 <= i < r@.len() && 0 <= j < r@.len() && i != j ==> *r@[i] != *r@[j],
    {
        let mut r: Vec<&Connection> = Vec::new();
        let ghost mut idx: Seq<int> = Seq::empty();
        let mut i: usize = 0;
        while i < self.connections.len()
            invariant
                self.wf(),
                i <= self.connections@.len(),
                idx.len() == r@.len(),
                forall|k: int| 0 <= k < r@.len() ==> 0 <= #[trigger] idx[k] < i && *r@[k] == self.connections@[idx[k]],
                forall|k: int, l: int| 0 <= k < l < r@.len() ==> idx[k] < idx[l],
                forall|j: int| 0 <= j < i && (self.connections@[j].source == port_id
                    || self.connections@[j].destination == port_id)
                    ==> exists|k: int| 0 <= k < r@.len() && idx[k] == j,
                forall|k: int| 0 <= k < r@.len() ==> (r@[k].source == port_id || r@[k].destination == port_id),
            decreases self.connections.len() - i,
        {
            let c = &self.connections[i];
            if c.source == port_id || c.destination == port_id {
                let ghost old_idx = idx;
                r.push(c);
                proof {
                    idx = idx.push(i as int);
                    assert forall|j: int| 0 <= j < i + 1 && (self.connections@[j].source == port_id
                        || self.connections@[j].destination == port_id)
                        implies exists|k: int| 0 <= k < r@.len() && idx[k] == j by {
                        if j == i {
                            assert(idx[r@.len() - 1] == j);
                        } else {
                            let k = choose|k: int| 0 <= k < old_idx.len() && old_idx[k] == j;
                            assert(idx[k] == j);
                        }
                    }
                }
            }
            i = i + 1;
        }
        proof {
            assert forall|c: Connection|
                (exists|i: int| 0 <= i < r@.len() && *r@[i] == c) <== (self.connections().contains(c)
                    && (c.source == port_id || c.destination == port_id)) by {
                if self.connections@.to_set().contains(c) && (c.source == port_id || c.destination == port_id) {
                    let j = choose|j: int| 0 <= j < self.connections@.len() && self.connections@[j] == c;
                    let k = choose|k: int| 0 <= k < r@.len() && idx[k] == j;
                    assert(*r@[k] == c);
                }
            }
            assert forall|c: Connection|
                (exists|i: int| 0 <= i < r@.len() && *r@[i] == c) ==> self.connections().contains(c) by {
                if exists|i: int| 0 <= i < r@.len() && *r@[i] == c {
                    let k = choose|i: int| 0 <= i < r@.len() && *r@[i] == c;
                    assert(self.connections@[idx[k]] == c);
                }
            }
            assert forall|k: int, l: int| 0 <= k < r@.len() && 0 <= l < r@.len() && k != l
                implies *r@[k] != *r@[l] by {
                if k < l {
                    assert(idx[k] < idx[l]);
                } else {
                    assert(idx[l] < idx[k]);
                }
            }
        }
        r
    }

    /// All connections, each once.
    pub fn list_connections(&self) -> (r: Vec<&Connection>)
        requires
            self.wf(),
        ensures
            forall|c: Connection|
                (exists|i: int| 0 <= i < r@.len() && *r@[i] == c) <==> self.connections().contains(c),
            forall|i: int, j: int| 0 <= i < r@.len() && 0 <= j < r@.len() && i != j ==> *r@[i] != *r@[j],
    {
        let mut r: Vec<&Connection> = Vec::new();
        let mut i: usize = 0;
        while i < self.connections.len()
            invariant
                i <= self.connections@.len(),
                r@.len() == i,
                forall|j: int| 0 <= j < i ==> *r@[j] == self.connections@[j],
            decreases self.connections.len() - i,
        {
            r.push(&self.connections[i]);
            i = i + 1;
        }
        proof {
            assert forall|c: Connection|
                (exists|i: int| 0 <= i < r@.len() && *r@[i] == c) ==> self.connections().contains(c) by {
                if exists|i: int| 0 <= i < r@.len() && *r@[i] == c {
                    let k = choose|i: int| 0 <= i < r@.len() && *r@[i] == c;
                    assert(self.connections@[k] == c);
                }
            }
            assert forall|c: Connection|
                self.connections().contains(c) ==> (exists|i: int| 0 <= i < r@.len() && *r@[i] == c) by {
                if self.connections@.to_set().contains(c) {
                    let k = choose|k: int| 0 <= k < self.connections@.len() && self.connections@[k] == c;
                    assert(*r@[k] == c);
                }
            }
        }
        r
    }

    /// The port whose qualified name is `port_name`; where several match, the first in
    /// device order.
    pub fn find_port_by_name(&self, port_name: &str) -> (r: Option<PortId>)
        ensures
            r == first_named(self.all_ports(), port_name@),
    {
        let name = port_name.to_owned();
        let ghost pr = named(port_name@);
        let ghost devs = self.devices@;
        let mut d: usize = 0;
        while d < self.devices.len()
            invariant
                d <= devs.len(),
                devs == self.devices@,
                self.all_ports() == ports_of(devs),
                name@ == port_name@,
                pr == named(port_name@),
                forall|k: int| 0 <= k < ports_of(devs.subrange(0, d as int)).len()
                    ==> !pr(#[trigger] ports_of(devs.subrange(0, d as int))[k]),
            decreases self.devices.len() - d,
        {
            let ports = &self.devices[d].ports;
            proof {
                lemma_ports_of_split(devs, d as int);
            }
            let ghost before = ports_of(devs.subrange(0, d as int));
            let mut q: usize = 0;
            while q < ports.len()
                invariant
                    q <= ports@.len(),
                    d < devs.len(),
                    devs == self.devices@,
                    ports@ == devs[d as int].ports@,
                    ports_of(devs) == before + ports@ + ports_of(devs.subrange(d + 1, devs.len() as int)),
                    name@ == port_name@,
                    pr == named(port_name@),
                    forall|k: int| 0 <= k < before.len() ==> !pr(#[trigger] before[k]),
                    forall|j: int| 0 <= j < q ==> ports@[j].pipewire_port_name@ != name@,
                decreases ports.len() - q,
            {
                if ports[q].pipewire_port_name == name {
                    proof {
                        let all = ports_of(devs);
                        let g = before.len() + q;
                        assert(all[g] == ports@[q as int]);
                        assert forall|j: int| 0 <= j < g implies !pr(#[trigger] all[j]) by {
                            if j < before.len() {
                                assert(all[j] == before[j]);
                            } else {
                                assert(all[j] == ports@[j - before.len()]);
                            }
                        }
                        lemma_first_index_at(all, pr, g);
                    }
                    return Some(ports[q].id);
                }
                q = q + 1;
            }
            proof {
                let next = ports_of(devs.subrange(0, d + 1));
                assert forall|k: int| 0 <= k < next.len() implies !pr(#[trigger] next[k]) by {
                    if k < before.len() {
                        assert(next[k] == before[k]);
                    } else {
                        assert(next[k] == ports@[k - before.len()]);
                    }
                }
            }
            d = d + 1;
        }
        proof {
            assert(devs.subrange(0, devs.len() as int) =~= devs);
            lemma_first_index(ports_of(devs), pr);
        }
        None
    }

    /// The qualified name of the port with identifier `port_id`; where several match,
    /// the first in device order.
    pub fn find_port_name(&self, port_id: PortId) -> (r: Option<&str>)
        ensures
            r is Some <==> first_with_id(self.all_ports(), port_id) is Some,
            r matches Some(n) ==> first_with_id(self.all_ports(), port_id) == Some(n@),
    {
        let ghost pr = with_port_id(port_id);
        let ghost devs = self.devices@;
        let mut d: usize = 0;
        while d < self.devices.len()
            invariant
                d <= devs.len(),
                devs == self.devices@,
                self.all_ports() == ports_of(devs),
                pr == with_port_id(port_id),
                forall|k: int| 0 <= k < ports_of(devs.subrange(0, d as int)).len()
                    ==> !pr(#[trigger] ports_of(devs.subrange(0, d as int))[k]),
            decreases self.devices.len() - d,
        {
            let ports = &self.devices[d].ports;
            proof {
                lemma_ports_of_split(devs, d as int);
            }
            let ghost before = ports_of(devs.subrange(0, d as int));
            let mut q: usize = 0;
            while q < ports.len()
                invariant
                    q <= ports@.len(),
                    d < devs.len(),
                    devs == self.devices@,
                    ports@ == devs[d as int].ports@,
                    ports_of(devs) == before + ports@ + ports_of(devs.subrange(d + 1, devs.len() as int)),
                    pr == with_port_id(port_id),
                    forall|k: int| 0 <= k < before.len() ==> !pr(#[trigger] before[k]),
                    forall|j: int| 0 <= j < q ==> ports@[j].id != port_id,
                decreases ports.len() - q,
            {
                if ports[q].id == port_id {
                    proof {
                        let all = ports_of(devs);
                        let g = before.len() + q;
                        assert(all[g] == ports@[q as int]);
                        assert forall|j: int| 0 <= j < g implies !pr(#[trigger] all[j]) by {
                            if j < before.len() {
                                assert(all[j] == before[j]);
                            } else {
                                assert(all[j] == ports@[j - before.len()]);
                            }
                        }
                        lemma_first_index_at(all, pr, g);
                    }
                    return Some(ports[q].pipewire_port_name.as_str());
                }
                q = q + 1;
            }
            proof {
                let next = ports_of(devs.subrange(0, d + 1));
                assert forall|k: int| 0 <= k < next.len() implies !pr(#[trigger] next[k]) by {
                    if k < before.len() {
                        assert(next[k] == before[k]);
                    } else {
                        assert(next[k] == ports@[k - before.len()]);
                    }
                }
            }
            d = d + 1;
        }
        proof {
            assert(devs.subrange(0, devs.len() as int) =~= devs);
            lemma_first_index(ports_of(devs), pr);
        }
        None
    }

    /// Mutable access to the device with identifier `device_id`, if there is one.
    pub fn get_device_mut(&mut self, device_id: DeviceId) -> (r: Option<&mut DeviceInfo>)
        requires
            old(self).wf(),
        ensures
            r is Some <==> old(self).device(device_id) is Some,
            r is None ==> *final(self) == *old(self),
            counter_step(*old(self), *final(self), false, false),
            r matches Some(d) ==> {
                &&& old(self).device(device_id) == Some(*d)
                &&& final(self).devices() == old(self).devices().update(
                    device_index(old(self).devices(), device_id),
                    *final(d),
                )
                &&& final(self).connections() == old(self).connections()
                &&& final(self).next_device() == old(self).next_device()
                &&& final(self).next_port() == old(self).next_port()
                &&& (*final(d)).id == (*d).id ==> final(self).wf()
            },
    {
        match self.index_of_device(device_id) {
            Some(i) => Some(&mut self.devices[i]),
            None => None,
        }
    }
}

impl Default for RoutingGraph {
    fn default() -> (r: Self)
        ensures
            r.wf(),
            r.devices().len() == 0,
            r.connections() == Set::<Connection>::empty(),
            r.next_device() == 1,
            r.next_port() == 1,
    {
        RoutingGraph::new()
    }
}

/// Adding the same connection twice leaves it recorded once: the second addition
/// changes nothing, and on an empty graph the result holds that one connection alone.
pub proof fn lemma_add_connection_twice(g0: RoutingGraph, g1: RoutingGraph, g2: RoutingGraph, c: Connection)
    requires
        g1.connections() == g0.connections().insert(c),
        g2.connections() == g1.connections().insert(c),
    ensures
        g2.connections() == g1.connections(),
        g0.connections() == Set::<Connection>::empty() ==> g2.connections() == set![c]
            && g2.connections().len() == 1,
{
    assert(g1.connections().insert(c) =~= g1.connections());
    if g0.connections() == Set::<Connection>::empty() {
        assert(g2.connections() =~= set![c]);
        assert(set![c].len() == 1) by {
            assert(Set::<Connection>::empty().insert(c) == set![c]);
        }
    }
}

/// After adding a device, looking up the qualified name of one of its ports finds that
/// port (the first of the device's ports with that name), provided no other device has
/// a port of that name.
pub proof fn lemma_added_port_is_found(g: RoutingGraph, d: DeviceInfo, name: Seq<char>, k: int)
    requires
        g.wf(),
        first_named(ports_of(devices_without(g.devices(), d.id)), name) is None,
        0 <= k < d.ports@.len(),
        d.ports@[k].pipewire_port_name@ == name,
        forall|j: int| 0 <= j < k ==> d.ports@[j].pipewire_port_name@ != name,
    ensures
        first_named(ports_of(devices_with(g.devices(), d)), name) == Some(d.ports@[k].id),
{
    let devs = g.devices();
    let pr = named(name);
    let i = device_index(devs, d.id);
    lemma_first_index(devs, with_device_id(d.id));
    let others = devices_without(devs, d.id);
    lemma_first_index(ports_of(others), pr);
    assert(forall|j: int| 0 <= j < ports_of(others).len() ==> !pr(#[trigger] ports_of(others)[j]));
    let new = devices_with(devs, d);
    let pre = if i >= 0 { devs.subrange(0, i) } else { devs };
    let head = ports_of(pre);
    let all = ports_of(new);
    if i >= 0 {
        let post = devs.subrange(i + 1, devs.len() as int);
        assert(others =~= pre + post);
        lemma_ports_of_concat(pre, post);
        lemma_ports_of_split(new, i);
        assert(new.subrange(0, i) =~= pre);
        assert(all == head + d.ports@ + ports_of(new.subrange(i + 1, new.len() as int)));
        assert(ports_of(others) == head + ports_of(post));
        assert forall|j: int| 0 <= j < head.len() implies !pr(#[trigger] head[j]) by {
            assert(ports_of(others)[j] == head[j]);
        }
    } else {
        assert(others == devs);
        assert(new.drop_last() =~= devs);
        assert(all == head + d.ports@);
        assert forall|j: int| 0 <= j < head.len() implies !pr(#[trigger] head[j]) by {
            assert(ports_of(others)[j] == head[j]);
        }
    }
    let at = head.len() + k;
    assert(all[at] == d.ports@[k]);
    assert forall|j: int| 0 <= j < at implies !pr(#[trigger] all[j]) by {
        if j < head.len() {
            assert(all[j] == head[j]);
        } else {
            assert(all[j] == d.ports@[j - head.len()]);
        }
    }
    lemma_first_index_at(all, pr, at);
}

/// How one operation moved the identifier counters: `device` and `port` tell whether it
/// handed out a device or a port identifier. Every operation of `RoutingGraph` that
/// takes `&mut self` states its step in its `ensures`.
pub open spec fn counter_step(before: RoutingGraph, after: RoutingGraph, device: bool, port: bool) -> bool {
    &&& after.next_device() == before.next_device() + (if device { 1int } else { 0int })
    &&& after.next_port() == before.next_port() + (if port { 1int } else { 0int })
}

/// The number of `true` entries of `s`.
pub open spec fn count_true(s: Seq<bool>) -> nat
    decreases s.len(),
{
    if s.len() == 0 {
        0
    } else {
        count_true(s.drop_last()) + if s.last() { 1nat } else { 0nat }
    }
}

proof fn lemma_count_true_grows(s: Seq<bool>, i: int, j: int)
    requires
        0 <= i <= j <= s.len(),
    ensures
        count_true(s.subrange(0, i)) <= count_true(s.subrange(0, j)),
        i < j && s[i] ==> count_true(s.subrange(0, i)) < count_true(s.subrange(0, j)),
    decreases j - i,
{
    if i < j {
        lemma_count_true_grows(s, i, j - 1);
        assert(s.subrange(0, j).drop_last() =~= s.subrange(0, j - 1));
        if i == j - 1 {
            assert(s.subrange(0, j).last() == s[i]);
        }
    }
}

proof fn lemma_counters_count(states: Seq<RoutingGraph>, devices: Seq<bool>, ports: Seq<bool>, i: int)
    requires
        states.len() == devices.len() + 1,
        ports.len() == devices.len(),
        states[0].next_device() == 1,
        states[0].next_port() == 1,
        forall|k: int| 0 <= k < devices.len() ==> counter_step(
            #[trigger] states[k],
            states[k + 1],
            devices[k],
            ports[k],
        ),
        0 <= i < states.len(),
    ensures
        states[i].next_device() == 1 + count_true(devices.subrange(0, i)),
        states[i].next_port() == 1 + count_true(ports.subrange(0, i)),
    decreases i,
{
    if i > 0 {
        lemma_counters_count(states, devices, ports, i - 1);
        assert(devices.subrange(0, i).drop_last() =~= devices.subrange(0, i - 1));
        assert(ports.subrange(0, i).drop_last() =~= ports.subrange(0, i - 1));
        assert(counter_step(states[i - 1], states[i], devices[i - 1], ports[i - 1]));
    } else {
        assert(devices.subrange(0, 0) =~= Seq::<bool>::empty());
        assert(ports.subrange(0, 0) =~= Seq::<bool>::empty());
    }
}

/// Over any history of graph operations that starts from a new graph, identifiers are
/// handed out as 1, 2, 3, ... and never twice, removals of devices included.
/// `states` are the graphs before and after each operation, and `devices` and `ports`
/// tell which operations handed out a device or a port identifier. An operation that
/// hands one out returns the counter of the state before it (`generate_device_id`,
/// `generate_port_id`). So the identifier handed out at step `i` is one more than the
/// number handed out before it, and identifiers handed out at two different steps
/// differ, the later being larger.
pub proof fn lemma_identifier_history(states: Seq<RoutingGraph>, devices: Seq<bool>, ports: Seq<bool>)
    requires
        states.len() == devices.len() + 1,
        ports.len() == devices.len(),
        states[0].next_device() == 1,
        states[0].next_port() == 1,
        forall|k: int| 0 <= k < devices.len() ==> counter_step(
            #[trigger] states[k],
            states[k + 1],
            devices[k],
            ports[k],
        ),
    ensures
        forall|i: int| 0 <= i < states.len() ==> (#[trigger] states[i]).next_device() == 1 + count_true(
            devices.subrange(0, i),
        ) && states[i].next_port() == 1 + count_true(ports.subrange(0, i)),
        forall|i: int, j: int| 0 <= i < j < devices.len() && devices[i] && devices[j]
            ==> states[i].next_device() < states[j].next_device(),
        forall|i: int, j: int| 0 <= i < j < ports.len() && ports[i] && ports[j]
            ==> states[i].next_port() < states[j].next_port(),
{
    assert forall|i: int| 0 <= i < states.len() implies (#[trigger] states[i]).next_device() == 1 + count_true(
        devices.subrange(0, i),
    ) && states[i].next_port() == 1 + count_true(ports.subrange(0, i)) by {
        lemma_counters_count(states, devices, ports, i);
    }
    assert forall|i: int, j: int| 0 <= i < j < devices.len() && devices[i] && devices[j]
        implies states[i].next_device() < states[j].next_device() by {
        lemma_counters_count(states, devices, ports, i);
        lemma_counters_count(states, devices, ports, j);
        lemma_count_true_grows(devices, i, j);
    }
    assert forall|i: int, j: int| 0 <= i < j < ports.len() && ports[i] && ports[j]
        implies states[i].next_port() < states[j].next_port() by {
        lemma_counters_count(states, devices, ports, i);
        lemma_counters_count(states, devices, ports, j);
        lemma_count_true_grows(ports, i, j);
    }
}

} // verus!
