use vstd::prelude::*;

verus! {

/// What the control core knows of one connected device.
#[derive(Debug, PartialEq, Eq)]
pub struct Device {
    /// The identifier under which the device service announced the device.
    pub id: u32,
    /// A name fit for people to read.
    pub name: String,
    /// Whether the device can be driven by a plain speed.
    pub supports_scalar_actuation: bool,
    /// Whether the device reported itself connected when last asked.
    pub connected: bool,
}

impl Clone for Device {
    fn clone(&self) -> (result: Device)
        ensures
            result == *self,
    {
        Device {
            id: self.id,
            name: self.name.clone(),
            supports_scalar_actuation: self.supports_scalar_actuation,
            connected: self.connected,
        }
    }
}

impl Device {
    pub fn new(id: u32, name: String, supports_scalar_actuation: bool, connected: bool) -> (result:
        Device)
        ensures
            result == (Device { id, name, supports_scalar_actuation, connected }),
    {
        Device { id, name, supports_scalar_actuation, connected }
    }
}

/// No identifier occurs twice in `devices`.
pub open spec fn unique_ids(devices: Seq<Device>) -> bool {
    forall|i: int, j: int|
        0 <= i < j < devices.len() ==> (#[trigger] devices[i]).id != (#[trigger] devices[j]).id
}

/// Some device in `devices` has the identifier `id`.
pub open spec fn has_id(devices: Seq<Device>, id: u32) -> bool {
    exists|i: int| 0 <= i < devices.len() && (#[trigger] devices[i]).id == id
}

/// Whether a device stays after the device `removed` was reported gone.
pub open spec fn survives(device: Device, removed: u32) -> bool {
    device.id != removed && device.connected
}

/// What is left of `devices` after `removed` was reported gone: the devices
/// that are neither the one named nor disconnected, in their old order.
pub open spec fn reconciled(devices: Seq<Device>, removed: u32) -> Seq<Device>
    decreases devices.len(),
{
    if devices.len() == 0 {
        devices
    } else if survives(devices.last(), removed) {
        reconciled(devices.drop_last(), removed).push(devices.last())
    } else {
        reconciled(devices.drop_last(), removed)
    }
}

/// `devices` with the liveness flag of the device `id` set to `connected`.
pub open spec fn with_liveness(devices: Seq<Device>, id: u32, connected: bool) -> Seq<Device> {
    Seq::new(
        devices.len(),
        |i: int|
            if devices[i].id == id {
                Device { connected, ..devices[i] }
            } else {
                devices[i]
            },
    )
}

/// What the latest of `readings` says of the device `id`, if any speaks of
/// it. A reading is a device's identifier and whether it answered as
/// connected.
pub open spec fn last_reading(readings: Seq<(u32, bool)>, id: u32) -> Option<bool>
    decreases readings.len(),
{
    if readings.len() == 0 {
        None
    } else if readings.last().0 == id {
        Some(readings.last().1)
    } else {
        last_reading(readings.drop_last(), id)
    }
}

/// `devices` after every reading has been recorded, in the readings' order.
pub open spec fn refreshed(devices: Seq<Device>, readings: Seq<(u32, bool)>) -> Seq<Device>
    decreases readings.len(),
{
    if readings.len() == 0 {
        devices
    } else {
        with_liveness(
            refreshed(devices, readings.drop_last()),
            readings.last().0,
            readings.last().1,
        )
    }
}

/// Recording readings changes nothing but liveness flags, and sets each
/// device's flag to what the latest reading of that device says.
pub proof fn lemma_refreshed(devices: Seq<Device>, readings: Seq<(u32, bool)>)
    ensures
        refreshed(devices, readings).len() == devices.len(),
        forall|i: int|
            0 <= i < devices.len() ==> #[trigger] refreshed(devices, readings)[i] == (Device {
                connected: match last_reading(readings, devices[i].id) {
                    Some(connected) => connected,
                    None => devices[i].connected,
                },
                ..devices[i]
            }),
    decreases readings.len(),
{
    if readings.len() > 0 {
        let earlier = refreshed(devices, readings.drop_last());
        lemma_refreshed(devices, readings.drop_last());
        assert forall|i: int| 0 <= i < devices.len() implies #[trigger] refreshed(
            devices,
            readings,
        )[i] == (Device {
            connected: match last_reading(readings, devices[i].id) {
                Some(connected) => connected,
                None => devices[i].connected,
            },
            ..devices[i]
        }) by {
            assert(earlier[i].id == devices[i].id);
        }
    }
}

/// Every device of a reconciled list was in the list before, is connected
/// and is not the one removed; every such device of the old list is kept;
/// and identifiers that were unique stay unique.
pub proof fn lemma_reconciled(devices: Seq<Device>, removed: u32)
    ensures
        reconciled(devices, removed).len() <= devices.len(),
        forall|k: int|
            0 <= k < reconciled(devices, removed).len() ==> {
                let d = #[trigger] reconciled(devices, removed)[k];
                survives(d, removed) && devices.contains(d)
            },
        forall|i: int|
            0 <= i < devices.len() && survives(#[trigger] devices[i], removed) ==> reconciled(
                devices,
                removed,
            ).contains(devices[i]),
        unique_ids(devices) ==> unique_ids(reconciled(devices, removed)),
    decreases devices.len(),
{
    if devices.len() > 0 {
        let front = devices.drop_last();
        let last = devices.last();
        let kept_front = reconciled(front, removed);
        let kept = reconciled(devices, removed);
        lemma_reconciled(front, removed);
        assert forall|k: int| 0 <= k < kept.len() implies {
            let d = #[trigger] kept[k];
            survives(d, removed) && devices.contains(d)
        } by {
            if k < kept_front.len() {
                let d = kept_front[k];
                assert(kept[k] == d);
                assert(front.contains(d));
                let w = choose|w: int| 0 <= w < front.len() && front[w] == d;
                assert(devices[w] == d);
            } else {
                assert(kept[k] == last);
                assert(devices[devices.len() - 1] == last);
            }
        }
        assert forall|i: int|
            0 <= i < devices.len() && survives(#[trigger] devices[i], removed) implies kept.contains(
            devices[i],
        ) by {
            if i < front.len() {
                assert(front[i] == devices[i]);
                assert(kept_front.contains(front[i]));
                let w = choose|w: int| 0 <= w < kept_front.len() && kept_front[w] == front[i];
                assert(kept[w] == devices[i]);
            } else {
                assert(kept[kept.len() - 1] == devices[i]);
            }
        }
        if unique_ids(devices) {
            assert forall|i: int, j: int| 0 <= i < j < front.len() implies (#[trigger] front[i]).id
                != (#[trigger] front[j]).id by {
                assert(front[i] == devices[i]);
                assert(front[j] == devices[j]);
            }
            assert(unique_ids(kept_front));
            assert forall|i: int, j: int| 0 <= i < j < kept.len() implies (#[trigger] kept[i]).id
                != (#[trigger] kept[j]).id by {
                if j < kept_front.len() {
                    assert(kept[i] == kept_front[i]);
                    assert(kept[j] == kept_front[j]);
                } else {
                    assert(kept[j] == last);
                    assert(kept[i] == kept_front[i]);
                    assert(front.contains(kept_front[i]));
                    let w = choose|w: int| 0 <= w < front.len() && front[w] == kept_front[i];
                    assert(devices[w] == kept_front[i]);
                    assert(devices[devices.len() - 1] == last);
                }
            }
        }
    }
}

/// After the removal of one device has been reported, no device that says
/// it is disconnected is left, whichever device the report named.
pub proof fn lemma_disconnected_devices_leave(devices: Seq<Device>, removed: u32, other: Device)
    requires
        devices.contains(other),
        !other.connected || other.id == removed,
    ensures
        !reconciled(devices, removed).contains(other),
        !has_id(devices, removed) || !has_id(reconciled(devices, removed), removed),
        unique_ids(devices) ==> !has_id(reconciled(devices, removed), other.id),
{
    lemma_reconciled(devices, removed);
    let kept = reconciled(devices, removed);
    if kept.contains(other) {
        let k = choose|k: int| 0 <= k < kept.len() && kept[k] == other;
        assert(survives(kept[k], removed));
    }
    if has_id(kept, removed) {
        let k = choose|k: int| 0 <= k < kept.len() && (#[trigger] kept[k]).id == removed;
        assert(survives(kept[k], removed));
    }
    if unique_ids(devices) && has_id(kept, other.id) {
        let k = choose|k: int| 0 <= k < kept.len() && (#[trigger] kept[k]).id == other.id;
        let d = kept[k];
        assert(survives(d, removed) && devices.contains(d));
        let a = choose|a: int| 0 <= a < devices.len() && devices[a] == d;
        let b = choose|b: int| 0 <= b < devices.len() && devices[b] == other;
        if a != b {
            if a < b {
                assert(devices[a].id != devices[b].id);
            } else {
                assert(devices[b].id != devices[a].id);
            }
        }
    }
}

/// A device whose latest reading says disconnected is gone after a removal
/// was handled, even though the removal named another device.
pub proof fn lemma_stale_devices_leave(
    devices: Seq<Device>,
    readings: Seq<(u32, bool)>,
    removed: u32,
    stale: u32,
)
    requires
        last_reading(readings, stale) == Some(false),
    ensures
        !has_id(reconciled(refreshed(devices, readings), removed), stale),
        !has_id(reconciled(refreshed(devices, readings), removed), removed),
{
    let current = refreshed(devices, readings);
    let kept = reconciled(current, removed);
    lemma_refreshed(devices, readings);
    lemma_reconciled(current, removed);
    if has_id(kept, stale) {
        let k = choose|k: int| 0 <= k < kept.len() && (#[trigger] kept[k]).id == stale;
        let d = kept[k];
        assert(survives(d, removed) && current.contains(d));
        let w = choose|w: int| 0 <= w < current.len() && current[w] == d;
        assert(current[w].id == devices[w].id);
        assert(!current[w].connected);
    }
    if has_id(kept, removed) {
        let k = choose|k: int| 0 <= k < kept.len() && (#[trigger] kept[k]).id == removed;
        assert(survives(kept[k], removed));
    }
}

/// The devices that are connected right now, each identifier at most once.
pub struct DeviceRegistry {
    devices: Vec<Device>,
}

impl View for DeviceRegistry {
    type V = Seq<Device>;

    closed spec fn view(&self) -> Seq<Device> {
        self.devices@
    }
}

impl DeviceRegistry {
    /// What holds of every registry: identifiers are unique.
    #[verifier::type_invariant]
    closed spec fn wf(&self) -> bool {
        unique_ids(self.devices@)
    }

    /// Moves the devices out and leaves the registry empty.
    fn take_devices(&mut self) -> (devices: Vec<Device>)
        ensures
            devices@ == old(self)@,
            unique_ids(devices@),
            final(self)@ == Seq::<Device>::empty(),
    {
        proof {
            use_type_invariant(&*self);
        }
        let mut emptied = DeviceRegistry { devices: Vec::new() };
        core::mem::swap(self, &mut emptied);
        emptied.devices
    }

    /// A registry without devices.
    pub fn new() -> (result: DeviceRegistry)
        ensures
            result@ == Seq::<Device>::empty(),
    {
        DeviceRegistry { devices: Vec::new() }
    }

    /// The number of registered devices.
    pub fn len(&self) -> (result: usize)
        ensures
            result == self@.len(),
    {
        self.devices.len()
    }

    /// Where the device `id` stands, if it is registered.
    pub fn position(&self, id: u32) -> (result: Option<usize>)
        ensures
            result.is_some() <==> has_id(self@, id),
            match result {
                Some(i) => i < self@.len() && self@[i as int].id == id,
                None => true,
            },
            unique_ids(self@),
    {
        proof {
            use_type_invariant(self);
        }
        let mut i: usize = 0;
        while i < self.devices.len()
            invariant
                i <= self.devices.len(),
                unique_ids(self.devices@),
                forall|k: int| 0 <= k < i ==> (#[trigger] self.devices@[k]).id != id,
            decreases self.devices.len() - i,
        {
            if self.devices[i].id == id {
                return Some(i);
            }
            i += 1;
        }
        None
    }

    /// Registers a device. One with the same identifier is replaced where it
    /// stands; otherwise the device is appended. Returns whether a device
    /// was replaced.
    pub fn add(&mut self, device: Device) -> (replaced: bool)
        ensures
            unique_ids(old(self)@),
            unique_ids(final(self)@),
            replaced == has_id(old(self)@, device.id),
            !replaced ==> final(self)@ == old(self)@.push(device),
            replaced ==> exists|i: int|
                0 <= i < old(self)@.len() && (#[trigger] old(self)@[i]).id == device.id
                    && final(self)@ == old(self)@.update(i, device),
            has_id(final(self)@, device.id),
    {
        let found = self.position(device.id);
        let ghost before = self.devices@;
        let mut devices = self.take_devices();
        let replaced = match found {
            Some(i) => {
                devices.set(i, device);
                assert(devices@[i as int].id == device.id);
                assert(devices@ == before.update(i as int, device));
                assert forall|a: int, b: int| 0 <= a < b < devices@.len() implies (
                #[trigger] devices@[a]).id != (#[trigger] devices@[b]).id by {
                    assert(before[a].id != before[b].id);
                }
                true
            },
            None => {
                devices.push(device);
                assert(devices@[before.len() as int].id == device.id);
                assert forall|a: int, b: int| 0 <= a < b < devices@.len() implies (
                #[trigger] devices@[a]).id != (#[trigger] devices@[b]).id by {
                    if b < before.len() {
                        assert(before[a].id != before[b].id);
                    } else {
                        assert(before[a].id != device.id);
                    }
                }
                false
            },
        };
        *self = DeviceRegistry { devices };
        replaced
    }

    /// Records what the device `id` last said of its connection. Returns
    /// whether the device is registered.
    pub fn set_connected(&mut self, id: u32, connected: bool) -> (found: bool)
        ensures
            unique_ids(old(self)@),
            unique_ids(final(self)@),
            found == has_id(old(self)@, id),
            final(self)@ == with_liveness(old(self)@, id, connected),
    {
        match self.position(id) {
            Some(i) => {
                let ghost before = self.devices@;
                let mut devices = self.take_devices();
                let mut device = devices[i].clone();
                device.connected = connected;
                devices.set(i, device);
                assert forall|k: int| 0 <= k < before.len() implies #[trigger] devices@[k]
                    == with_liveness(before, id, connected)[k] by {
                    if k != i {
                        if k < i {
                            assert(before[k].id != before[i as int].id);
                        } else {
                            assert(before[i as int].id != before[k].id);
                        }
                    }
                }
                assert(devices@ =~= with_liveness(before, id, connected));
                assert forall|a: int, b: int| 0 <= a < b < devices@.len() implies (
                #[trigger] devices@[a]).id != (#[trigger] devices@[b]).id by {
                    assert(before[a].id != before[b].id);
                }
                *self = DeviceRegistry { devices };
                true
            },
            None => {
                assert(self.devices@ =~= with_liveness(self.devices@, id, connected));
                false
            },
        }
    }

    /// Handles the report that the device `id` is gone: drops that device
    /// and, with it, every device whose liveness flag says disconnected.
    /// The others keep their order.
    pub fn remove(&mut self, id: u32)
        ensures
            unique_ids(old(self)@),
            unique_ids(final(self)@),
            final(self)@ == reconciled(old(self)@, id),
            !has_id(final(self)@, id),
            forall|k: int|
                0 <= k < final(self)@.len() ==> (#[trigger] final(self)@[k]).connected
                    && old(self)@.contains(final(self)@[k]),
            forall|i: int|
                0 <= i < old(self)@.len() && survives(#[trigger] old(self)@[i], id)
                    ==> final(self)@.contains(old(self)@[i]),
    {
        proof {
            use_type_invariant(&*self);
        }
        let ghost before = self.devices@;
        let mut kept: Vec<Device> = Vec::new();
        let mut i: usize = 0;
        while i < self.devices.len()
            invariant
                i <= self.devices.len(),
                self.devices@ == before,
                kept@ == reconciled(before.take(i as int), id),
            decreases self.devices.len() - i,
        {
            proof {
                assert(before.take(i + 1).drop_last() =~= before.take(i as int));
                assert(before.take(i + 1).last() == before[i as int]);
            }
            if self.devices[i].id != id && self.devices[i].connected {
                kept.push(self.devices[i].clone());
            }
            i += 1;
        }
        proof {
            assert(before.take(i as int) =~= before);
            lemma_reconciled(before, id);
            if has_id(kept@, id) {
                let k = choose|k: int| 0 <= k < kept@.len() && (#[trigger] kept@[k]).id == id;
                assert(survives(kept@[k], id));
            }
        }
        *self = DeviceRegistry { devices: kept };
    }

    /// Handles the report that the device `removed` is gone, given what
    /// the registered devices answered when asked whether they are still
    /// connected: records the readings, then drops the device named and
    /// every device that is disconnected.
    pub fn reconcile(&mut self, removed: u32, readings: &Vec<(u32, bool)>)
        ensures
            unique_ids(old(self)@),
            unique_ids(final(self)@),
            final(self)@ == reconciled(refreshed(old(self)@, readings@), removed),
            !has_id(final(self)@, removed),
            forall|k: int| 0 <= k < final(self)@.len() ==> (#[trigger] final(self)@[k]).connected,
    {
        proof {
            use_type_invariant(&*self);
        }
        let ghost before = self@;
        let mut i: usize = 0;
        while i < readings.len()
            invariant
                i <= readings.len(),
                self@ == refreshed(before, readings@.take(i as int)),
            decreases readings.len() - i,
        {
            proof {
                assert(readings@.take(i + 1).drop_last() =~= readings@.take(i as int));
                assert(readings@.take(i + 1).last() == readings@[i as int]);
            }
            let reading = readings[i];
            self.set_connected(reading.0, reading.1);
            i += 1;
        }
        assert(readings@.take(i as int) =~= readings@);
        self.remove(removed);
    }

    /// The registered devices, in order, as values of their own: what is
    /// done to the registry afterwards does not reach them.
    pub fn snapshot(&self) -> (result: Vec<Device>)
        ensures
            result@ == self@,
            unique_ids(result@),
    {
        proof {
            use_type_invariant(self);
        }
        let mut copies: Vec<Device> = Vec::new();
        let mut i: usize = 0;
        while i < self.devices.len()
            invariant
                i <= self.devices.len(),
                copies@ == self.devices@.take(i as int),
            decreases self.devices.len() - i,
        {
            copies.push(self.devices[i].clone());
            assert(copies@ =~= self.devices@.take(i + 1));
            i += 1;
        }
        assert(self.devices@.take(i as int) =~= self.devices@);
        copies
    }
}

} // verus!
