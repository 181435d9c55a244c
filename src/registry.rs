//! The fixed-capacity registry of device slots.
use vstd::prelude::*;
use crate::devices::{
    apply_spec, fresh_device, recognized, vacant_device, joystick_poll_event, Device, DeviceView, CONTROLLER_MAX,
};
use crate::event::{event_of, EVENT_SIZE};
use crate::hotplug::{notice_spec, parse_notice, Change};

verus! {

/// Number of slots whose device is plugged in.
pub open spec fn num_present(s: Seq<DeviceView>) -> nat
    decreases s.len(),
{
    if s.len() == 0 {
        0
    } else {
        num_present(s.drop_last()) + if s.last().plug {
            1nat
        } else {
            0nat
        }
    }
}

/// A sequence with two of its entries exchanged.
pub open spec fn swap_spec<T>(s: Seq<T>, a: int, b: int) -> Seq<T> {
    s.update(a, s[b]).update(b, s[a])
}

/// The slots with slot `i` marked as no longer plugged in.
pub open spec fn unplug_spec(s: Seq<DeviceView>, i: int) -> Seq<DeviceView> {
    s.update(i, DeviceView { plug: false, ..s[i] })
}

/// The first slot with no device plugged in.
pub open spec fn first_vacant_spec(s: Seq<DeviceView>) -> Option<usize> {
    if exists|i: int| 0 <= i < s.len() && !s[i].plug {
        let i = choose|i: int|
            0 <= i < s.len() && !s[i].plug && forall|j: int| 0 <= j < i ==> s[j].plug;
        Some(i as usize)
    } else {
        None
    }
}

/// The first plugged-in slot whose node has the name `name`.
pub open spec fn slot_of_name_spec(s: Seq<DeviceView>, names: Seq<Seq<u8>>, name: Seq<u8>) -> Option<
    usize,
> {
    if exists|i: int| 0 <= i < s.len() && s[i].plug && names[i] == name {
        let i = choose|i: int|
            0 <= i < s.len() && s[i].plug && names[i] == name && forall|j: int|
                0 <= j < i ==> !(s[j].plug && names[j] == name);
        Some(i as usize)
    } else {
        None
    }
}

/// A copy of a byte string.
fn copy_bytes(b: &[u8]) -> (r: Vec<u8>)
    ensures
        r@ == b@,
{
    let mut r: Vec<u8> = Vec::new();
    let mut i: usize = 0;
    while i < b.len()
        invariant
            i <= b@.len(),
            r@ == b@.subrange(0, i as int),
        decreases b@.len() - i,
    {
        r.push(b[i]);
        i = i + 1;
        assert(r@ =~= b@.subrange(0, i as int));
    }
    assert(r@ =~= b@);
    r
}

/// Whether two byte strings are equal.
fn bytes_eq(a: &[u8], b: &[u8]) -> (r: bool)
    ensures
        r == (a@ == b@),
{
    if a.len() != b.len() {
        return false;
    }
    let mut i: usize = 0;
    while i < a.len()
        invariant
            a@.len() == b@.len(),
            i <= a@.len(),
            forall|j: int| 0 <= j < i ==> a@[j] == b@[j],
        decreases a@.len() - i,
    {
        if a[i] != b[i] {
            return false;
        }
        i = i + 1;
    }
    assert(a@ =~= b@);
    true
}

/// The first plugged-in slot whose device reads from `handle`.
pub open spec fn slot_of_handle_spec(s: Seq<DeviceView>, handle: u32) -> Option<usize> {
    if exists|i: int| 0 <= i < s.len() && s[i].plug && s[i].handle == handle {
        let i = choose|i: int|
            0 <= i < s.len() && s[i].plug && s[i].handle == handle && forall|j: int|
                0 <= j < i ==> !(s[j].plug && s[j].handle == handle);
        Some(i as usize)
    } else {
        None
    }
}

proof fn lemma_num_present_bound(s: Seq<DeviceView>)
    ensures
        num_present(s) <= s.len(),
    decreases s.len(),
{
    if s.len() > 0 {
        lemma_num_present_bound(s.drop_last());
    }
}

proof fn lemma_num_present_update(s: Seq<DeviceView>, i: int, d: DeviceView)
    requires
        0 <= i < s.len(),
    ensures
        num_present(s.update(i, d)) + (if s[i].plug {
            1int
        } else {
            0int
        }) == num_present(s) + (if d.plug {
            1int
        } else {
            0int
        }),
    decreases s.len(),
{
    let t = s.update(i, d);
    if i == s.len() - 1 {
        assert(t.drop_last() =~= s.drop_last());
    } else {
        lemma_num_present_update(s.drop_last(), i, d);
        assert(t.drop_last() =~= s.drop_last().update(i, d));
    }
}

/// Why a slot operation failed.
#[derive(Copy, Clone, Debug, PartialEq, Eq, Structural)]
pub enum SlotError {
    /// A slot index was not below `CONTROLLER_MAX`.
    OutOfRange,
}

/// What the poll loop read from a ready device handle.
pub enum Read {
    /// The bytes of one read; a whole record is `EVENT_SIZE` bytes.
    Record(Vec<u8>),
    /// The read failed: the device is gone.
    Failed,
}

/// What the poll loop does after one read from a device handle.
#[derive(Copy, Clone, Debug, PartialEq, Eq, Structural)]
pub enum Next {
    /// A record was applied; read the handle again.
    ReadAgain,
    /// A whole record that the decoder does not act on; read the handle
    /// again.
    Skipped,
    /// The handle is drained and records were applied: report this slot.
    Report(u8),
    /// Nothing to report from this handle (it held nothing, or the device
    /// is gone and was removed): go on with the next handle.
    NextHandle,
}

/// What the poll loop does after one hot-plug notification.
#[derive(Debug)]
pub enum NoticeStep {
    /// An event-joystick node with this name appeared: open it, and
    /// `connect` it.
    Open(Vec<u8>),
    /// The node of a plugged-in device went away: its slot is removed here,
    /// the caller closes the handle.
    Closed { handle: u32, slot: usize },
    /// Nothing to do.
    Ignore,
}

/// An interface to all joystick, gamepad and controller devices: a fixed
/// sequence of `CONTROLLER_MAX` slots and the number of devices plugged in.
pub struct Port {
    count: usize,
    controllers: Vec<Device>,
    names: Vec<Vec<u8>>,
}

impl View for Port {
    type V = Seq<DeviceView>;

    closed spec fn view(&self) -> Seq<DeviceView> {
        self.controllers@.map_values(|d: Device| d@)
    }
}

impl Port {
    /// `CONTROLLER_MAX` well-formed slots, with the live count equal to the
    /// number of plugged-in slots.
    pub closed spec fn wf(&self) -> bool {
        &&& self.controllers@.len() == CONTROLLER_MAX
        &&& self.names@.len() == CONTROLLER_MAX
        &&& self.count == num_present(self@)
        &&& forall|i: int| 0 <= i < CONTROLLER_MAX ==> (#[trigger] self@[i]).wf()
    }

    /// The device node name of each slot, as `connect` recorded it.
    pub closed spec fn node_names(&self) -> Seq<Seq<u8>> {
        self.names@.map_values(|v: Vec<u8>| v@)
    }

    /// A registry with every slot vacant.
    pub fn new() -> (r: Port)
        ensures
            r.wf(),
            r@.len() == CONTROLLER_MAX,
            forall|i: int| 0 <= i < CONTROLLER_MAX ==> !(#[trigger] r@[i]).plug,
            r.node_names().len() == CONTROLLER_MAX,
            forall|i: int| 0 <= i < CONTROLLER_MAX ==> (#[trigger] r.node_names()[i]).len() == 0,
    {
        let mut names: Vec<Vec<u8>> = Vec::new();
        let mut controllers: Vec<Device> = Vec::new();
        let mut i: usize = 0;
        while i < CONTROLLER_MAX
            invariant
                i <= CONTROLLER_MAX,
                controllers@.len() == i,
                forall|j: int| 0 <= j < i ==> (#[trigger] controllers@[j])@ == vacant_device(),
            decreases CONTROLLER_MAX - i,
        {
            controllers.push(Device::vacant());
            i = i + 1;
        }
        let mut i: usize = 0;
        while i < CONTROLLER_MAX
            invariant
                i <= CONTROLLER_MAX,
                names@.len() == i,
                forall|j: int| 0 <= j < i ==> (#[trigger] names@[j])@.len() == 0,
            decreases CONTROLLER_MAX - i,
        {
            names.push(Vec::new());
            i = i + 1;
        }
        let port = Port { count: 0, controllers, names };
        proof {
            let s = port@;
            assert forall|j: int| 0 <= j < s.len() implies !(#[trigger] s[j]).plug && s[j].wf() by {
                assert(s[j] == controllers@[j]@);
            }
            lemma_no_plug_none(s);
        }
        port
    }

    /// A well-formed registry has exactly `CONTROLLER_MAX` slots.
    pub proof fn lemma_slot_count(&self)
        requires
            self.wf(),
        ensures
            self@.len() == CONTROLLER_MAX,
    {
    }

    fn place(&mut self, index: usize, name: Vec<u8>, handle: u32, hardware_id: u32, abs_min: i32, abs_max: i32)
        requires
            old(self).wf(),
            index < CONTROLLER_MAX,
        ensures
            final(self).wf(),
            final(self)@ == old(self)@.update(
                index as int,
                fresh_device(handle, hardware_id, abs_min, abs_max),
            ),
            final(self).node_names() == old(self).node_names().update(index as int, name@),
    {
        let d = Device::plugged(handle, hardware_id, abs_min, abs_max);
        let was = self.controllers[index].plug_state();
        proof {
            lemma_num_present_update(self@, index as int, d@);
            lemma_num_present_bound(self@);
        }
        let ghost before = self@;
        let ghost names_before = self.node_names();
        self.controllers.set(index, d);
        self.names.set(index, name);
        assert(self@ =~= before.update(index as int, d@));
        assert(self.node_names() =~= names_before.update(index as int, name@));
        if !was {
            self.count = self.count + 1;
        }
        proof {
            lemma_num_present_bound(self@);
        }
    }

    /// Places a newly discovered device in slot `index`, overwriting what the
    /// slot held, with its live state zeroed and no node name. Fails,
    /// changing nothing, when the index is out of range.
    pub fn add_stick(&mut self, index: usize, handle: u32, hardware_id: u32, abs_min: i32, abs_max: i32) -> (r: Result<(), SlotError>)
        requires
            old(self).wf(),
        ensures
            final(self).wf(),
            final(self)@.len() == CONTROLLER_MAX,
            r.is_ok() == (index < CONTROLLER_MAX),
            r.is_ok() ==> final(self)@ == old(self)@.update(
                index as int,
                fresh_device(handle, hardware_id, abs_min, abs_max),
            ),
            r.is_ok() ==> final(self).node_names() == old(self).node_names().update(
                index as int,
                Seq::<u8>::empty(),
            ),
            r.is_err() ==> final(self)@ == old(self)@ && final(self).node_names() == old(
                self,
            ).node_names(),
    {
        if index >= CONTROLLER_MAX {
            return Err(SlotError::OutOfRange);
        }
        let name: Vec<u8> = Vec::new();
        assert(name@ =~= Seq::<u8>::empty());
        self.place(index, name, handle, hardware_id, abs_min, abs_max);
        Ok(())
    }

    /// Marks slot `index` as no longer plugged in. Returns whether a device
    /// was plugged in there; the slot's last state stays in memory.
    pub fn remove(&mut self, index: usize) -> (r: bool)
        requires
            old(self).wf(),
        ensures
            final(self).wf(),
            final(self)@.len() == CONTROLLER_MAX,
            final(self).node_names() == old(self).node_names(),
            r == (index < CONTROLLER_MAX && old(self)@[index as int].plug),
            r ==> final(self)@ == unplug_spec(old(self)@, index as int),
            !r ==> final(self)@ == old(self)@,
    {
        if index >= CONTROLLER_MAX || !self.controllers[index].plug_state() {
            return false;
        }
        let ghost before = self@;
        let d = self.controllers[index].unplugged();
        proof {
            lemma_num_present_update(before, index as int, d@);
        }
        self.controllers.set(index, d);
        assert(self@ =~= unplug_spec(before, index as int));
        self.count = self.count - 1;
        true
    }

    /// The first slot with no device plugged in, if any.
    pub fn first_vacant(&self) -> (r: Option<usize>)
        requires
            self.wf(),
        ensures
            r == first_vacant_spec(self@),
    {
        let mut i: usize = 0;
        while i < CONTROLLER_MAX
            invariant
                self.wf(),
                i <= CONTROLLER_MAX,
                forall|j: int| 0 <= j < i ==> (#[trigger] self@[j]).plug,
            decreases CONTROLLER_MAX - i,
        {
            if !self.controllers[i].plug_state() {
                assert(self@[i as int] == self.controllers@[i as int]@);
                proof {
                    let s = self@;
                    let k = choose|k: int|
                        0 <= k < s.len() && !s[k].plug && forall|j: int| 0 <= j < k ==> s[j].plug;
                    assert(k == i as int) by {
                        if k < i {
                            assert(s[k].plug);
                        } else if k > i {
                            assert(s[i as int].plug);
                        }
                    }
                }
                return Some(i);
            }
            assert(self@[i as int] == self.controllers@[i as int]@);
            i = i + 1;
        }
        None
    }

    /// The first plugged-in slot whose device reads from `handle`, if any.
    pub fn slot_of_handle(&self, handle: u32) -> (r: Option<usize>)
        requires
            self.wf(),
        ensures
            r == slot_of_handle_spec(self@, handle),
    {
        let mut i: usize = 0;
        while i < CONTROLLER_MAX
            invariant
                self.wf(),
                i <= CONTROLLER_MAX,
                forall|j: int| 0 <= j < i ==> !((#[trigger] self@[j]).plug && self@[j].handle == handle),
            decreases CONTROLLER_MAX - i,
        {
            let d = &self.controllers[i];
            assert(self@[i as int] == d@);
            if d.plug_state() && d.handle() == handle {
                proof {
                    let s = self@;
                    let k = choose|k: int|
                        0 <= k < s.len() && s[k].plug && s[k].handle == handle && forall|j: int|
                            0 <= j < k ==> !(s[j].plug && s[j].handle == handle);
                    assert(k == i as int) by {
                        if k < i {
                            assert(!(s[k].plug && s[k].handle == handle));
                        } else if k > i {
                            assert(!(s[i as int].plug && s[i as int].handle == handle));
                        }
                    }
                }
                return Some(i);
            }
            i = i + 1;
        }
        None
    }

    /// Places a newly discovered device in the first vacant slot. Returns
    /// that slot, or `None`, changing nothing, when every slot is taken.
    pub fn connect(&mut self, name: &[u8], handle: u32, hardware_id: u32, abs_min: i32, abs_max: i32) -> (r:
        Option<usize>)
        requires
            old(self).wf(),
        ensures
            final(self).wf(),
            final(self)@.len() == CONTROLLER_MAX,
            r == first_vacant_spec(old(self)@),
            r.is_some() ==> final(self)@ == old(self)@.update(
                r.unwrap() as int,
                fresh_device(handle, hardware_id, abs_min, abs_max),
            ),
            r.is_some() ==> final(self).node_names() == old(self).node_names().update(
                r.unwrap() as int,
                name@,
            ),
            r.is_none() ==> final(self)@ == old(self)@,
            r.is_none() ==> final(self).node_names() == old(self).node_names(),
    {
        match self.first_vacant() {
            Some(i) => {
                proof {
                    let s = self@;
                    let k = choose|k: int|
                        0 <= k < s.len() && !s[k].plug && forall|j: int| 0 <= j < k ==> s[j].plug;
                }
                let owned = copy_bytes(name);
                self.place(i, owned, handle, hardware_id, abs_min, abs_max);
                Some(i)
            },
            None => None,
        }
    }

    /// The first plugged-in slot whose node has the name `name`, if any.
    pub fn slot_of_name(&self, name: &[u8]) -> (r: Option<usize>)
        requires
            self.wf(),
        ensures
            r == slot_of_name_spec(self@, self.node_names(), name@),
    {
        let mut i: usize = 0;
        while i < CONTROLLER_MAX
            invariant
                self.wf(),
                i <= CONTROLLER_MAX,
                forall|j: int|
                    0 <= j < i ==> !((#[trigger] self@[j]).plug && self.node_names()[j] == name@),
            decreases CONTROLLER_MAX - i,
        {
            let d = &self.controllers[i];
            assert(self@[i as int] == d@);
            assert(self.node_names()[i as int] == self.names@[i as int]@);
            if d.plug_state() && bytes_eq(self.names[i].as_slice(), name) {
                proof {
                    let s = self@;
                    let n = self.node_names();
                    let k = choose|k: int|
                        0 <= k < s.len() && s[k].plug && n[k] == name@ && forall|j: int|
                            0 <= j < k ==> !(s[j].plug && n[j] == name@);
                    assert(k == i as int) by {
                        if k < i {
                            assert(!(s[k].plug && n[k] == name@));
                        } else if k > i {
                            assert(!(s[i as int].plug && n[i as int] == name@));
                        }
                    }
                }
                return Some(i);
            }
            i = i + 1;
        }
        None
    }

    /// Acts on one hot-plug notification record. A creation asks the caller
    /// to open the node; a deletion of the node of a plugged-in device
    /// removes that device's slot and asks the caller to close its handle;
    /// anything else is ignored.
    pub fn on_notice(&mut self, bytes: &[u8]) -> (r: NoticeStep)
        requires
            old(self).wf(),
        ensures
            final(self).wf(),
            final(self)@.len() == CONTROLLER_MAX,
            final(self).node_names() == old(self).node_names(),
            match notice_spec(bytes@) {
                Some((Change::Added, name)) => r is Open && r->Open_0@ == name && final(self)@ == old(
                    self,
                )@,
                Some((Change::Removed, name)) => match slot_of_name_spec(
                    old(self)@,
                    old(self).node_names(),
                    name,
                ) {
                    Some(i) => r is Closed && r->slot == i && r->handle == old(self)@[i as int].handle
                        && final(self)@ == unplug_spec(old(self)@, i as int),
                    None => r is Ignore && final(self)@ == old(self)@,
                },
                None => r is Ignore && final(self)@ == old(self)@,
            },
    {
        match parse_notice(bytes) {
            Some(n) => {
                if n.change == Change::Added {
                    NoticeStep::Open(n.name)
                } else {
                    match self.slot_of_name(n.name.as_slice()) {
                        Some(i) => {
                            proof {
                                let s = self@;
                                let names = self.node_names();
                                let k = choose|k: int|
                                    0 <= k < s.len() && s[k].plug && names[k] == n.name@ && forall|j: int|
                                        0 <= j < k ==> !(s[j].plug && names[j] == n.name@);
                            }
                            let handle = self.controllers[i].handle();
                            self.remove(i);
                            NoticeStep::Closed { handle, slot: i }
                        },
                        None => NoticeStep::Ignore,
                    }
                }
            },
            None => NoticeStep::Ignore,
        }
    }

    /// One step of draining a ready device handle. `read` is what one read
    /// of slot `slot`'s handle gave; `got` is whether earlier steps of this
    /// drain applied a record. A whole record is applied and the handle is
    /// read again; a short read ends the drain, reporting the slot if
    /// records were applied; a failed read removes the device and goes on
    /// without a report.
    pub fn drain_step(&mut self, slot: usize, read: &Read, got: bool) -> (r: Next)
        requires
            old(self).wf(),
            slot < CONTROLLER_MAX,
        ensures
            final(self).wf(),
            final(self)@.len() == CONTROLLER_MAX,
            final(self).node_names() == old(self).node_names(),
            match read {
                Read::Record(b) => if b@.len() == EVENT_SIZE {
                    &&& r == (if old(self)@[slot as int].plug && recognized(
                        old(self)@[slot as int],
                        event_of(b@),
                    ) {
                        Next::ReadAgain
                    } else {
                        Next::Skipped
                    })
                    &&& final(self)@ == (if old(self)@[slot as int].plug {
                        old(self)@.update(
                            slot as int,
                            apply_spec(old(self)@[slot as int], event_of(b@)),
                        )
                    } else {
                        old(self)@
                    })
                } else {
                    &&& final(self)@ == old(self)@
                    &&& r == (if got {
                        Next::Report(slot as u8)
                    } else {
                        Next::NextHandle
                    })
                },
                Read::Failed => r == Next::NextHandle && final(self)@ == (if old(
                    self,
                )@[slot as int].plug {
                    unplug_spec(old(self)@, slot as int)
                } else {
                    old(self)@
                }),
            },
    {
        match read {
            Read::Record(b) => {
                if b.len() == EVENT_SIZE {
                    if self.input(slot, b.as_slice()) {
                        Next::ReadAgain
                    } else {
                        Next::Skipped
                    }
                } else if got {
                    Next::Report(slot as u8)
                } else {
                    Next::NextHandle
                }
            },
            Read::Failed => {
                self.remove(slot);
                Next::NextHandle
            },
        }
    }

    /// Marks the slot whose device reads from `handle` as removed. Returns
    /// that slot, or `None`, changing nothing, when no plugged-in device
    /// reads from it.
    pub fn disconnect(&mut self, handle: u32) -> (r: Option<usize>)
        requires
            old(self).wf(),
        ensures
            final(self).wf(),
            final(self)@.len() == CONTROLLER_MAX,
            final(self).node_names() == old(self).node_names(),
            r == slot_of_handle_spec(old(self)@, handle),
            r.is_some() ==> final(self)@ == unplug_spec(old(self)@, r.unwrap() as int),
            r.is_none() ==> final(self)@ == old(self)@,
    {
        match self.slot_of_handle(handle) {
            Some(i) => {
                proof {
                    let s = self@;
                    let k = choose|k: int|
                        0 <= k < s.len() && s[k].plug && s[k].handle == handle && forall|j: int|
                            0 <= j < k ==> !(s[j].plug && s[j].handle == handle);
                }
                self.remove(i);
                Some(i)
            },
            None => None,
        }
    }

    /// Decodes one raw record and applies it to the device in slot `index`.
    /// Returns whether a recognised record was applied: `false`, changing
    /// nothing, when the slot is out of range or vacant, the bytes are not one
    /// whole record, or the record is not one that the decoder acts on.
    pub fn input(&mut self, index: usize, bytes: &[u8]) -> (r: bool)
        requires
            old(self).wf(),
        ensures
            final(self).wf(),
            final(self)@.len() == CONTROLLER_MAX,
            final(self).node_names() == old(self).node_names(),
            r == (index < CONTROLLER_MAX && old(self)@[index as int].plug && bytes@.len()
                == EVENT_SIZE && recognized(old(self)@[index as int], event_of(bytes@))),
            index < CONTROLLER_MAX && old(self)@[index as int].plug && bytes@.len() == EVENT_SIZE
                ==> final(self)@ == old(self)@.update(
                index as int,
                apply_spec(old(self)@[index as int], event_of(bytes@)),
            ),
            !r ==> final(self)@ == old(self)@,
    {
        if index >= CONTROLLER_MAX || !self.controllers[index].plug_state() {
            return false;
        }
        let ghost before = self@;
        let mut d = self.controllers[index];
        assert(d@ == before[index as int]);
        if bytes.len() != EVENT_SIZE {
            return false;
        }
        let applied = joystick_poll_event(bytes, &mut d);
        proof {
            lemma_num_present_update(before, index as int, d@);
        }
        self.controllers.set(index, d);
        assert(self@ =~= before.update(index as int, d@));
        proof {
            if !applied {
                assert(self@ =~= before);
            }
        }
        applied
    }

    /// The state of the device in slot `stick`, or `None` when the slot is
    /// out of range or has no device plugged in.
    pub fn get(&self, stick: u8) -> (r: Option<&Device>)
        requires
            self.wf(),
        ensures
            r.is_some() == (stick < CONTROLLER_MAX && self@[stick as int].plug),
            r.is_some() ==> r.unwrap()@ == self@[stick as int],
    {
        let i = stick as usize;
        if i < CONTROLLER_MAX && self.controllers[i].plug_state() {
            Some(&self.controllers[i])
        } else {
            None
        }
    }

    /// Exchanges the entire contents of two slots, live state included.
    /// Fails, changing nothing, when either index is out of range.
    pub fn swap(&mut self, a: u8, b: u8) -> (r: Result<(), SlotError>)
        requires
            old(self).wf(),
        ensures
            final(self).wf(),
            final(self)@.len() == CONTROLLER_MAX,
            r.is_ok() == (a < CONTROLLER_MAX && b < CONTROLLER_MAX),
            r.is_ok() ==> final(self)@ == swap_spec(old(self)@, a as int, b as int),
            r.is_ok() ==> final(self).node_names() == swap_spec(
                old(self).node_names(),
                a as int,
                b as int,
            ),
            r.is_err() ==> final(self).node_names() == old(self).node_names(),
            r.is_err() ==> final(self)@ == old(self)@,
    {
        let i = a as usize;
        let j = b as usize;
        if i >= CONTROLLER_MAX || j >= CONTROLLER_MAX {
            return Err(SlotError::OutOfRange);
        }
        let ghost before = self@;
        let di = self.controllers[i];
        let dj = self.controllers[j];
        proof {
            lemma_num_present_update(before, i as int, dj@);
            lemma_num_present_update(before.update(i as int, dj@), j as int, di@);
        }
        self.controllers.set(i, dj);
        self.controllers.set(j, di);
        let ghost names_before = self.node_names();
        let ni = copy_bytes(self.names[i].as_slice());
        let nj = copy_bytes(self.names[j].as_slice());
        assert(ni@ == names_before[i as int] && nj@ == names_before[j as int]);
        self.names.set(i, nj);
        self.names.set(j, ni);
        assert(self.node_names() =~= swap_spec(names_before, i as int, j as int));
        assert(self@ =~= swap_spec(before, i as int, j as int));
        Ok(())
    }

    /// The name of the device in a slot; names are not resolved.
    pub fn name(&self, a: u8) -> (r: String)
        ensures
            r@ == "Unknown"@,
    {
        String::from_str("Unknown")
    }

    /// The number of plugged-in devices.
    pub fn count(&self) -> (r: u8)
        requires
            self.wf(),
        ensures
            r == num_present(self@),
    {
        proof {
            lemma_num_present_bound(self@);
        }
        self.count as u8
    }
}

/// Swapping the same two slots twice restores every slot exactly.
pub proof fn lemma_swap_twice<T>(s: Seq<T>, a: int, b: int)
    requires
        0 <= a < s.len(),
        0 <= b < s.len(),
    ensures
        swap_spec(swap_spec(s, a, b), a, b) == s,
{
    assert(swap_spec(swap_spec(s, a, b), a, b) =~= s);
}

impl Default for Port {
    fn default() -> (r: Port)
        ensures
            r.wf(),
            r@.len() == CONTROLLER_MAX,
            forall|i: int| 0 <= i < CONTROLLER_MAX ==> !(#[trigger] r@[i]).plug,
    {
        Port::new()
    }
}

/// Removing a plugged-in device clears its presence flag, lowers the number
/// of plugged-in slots by one, and leaves every other slot as it was.
pub proof fn lemma_remove_lowers_count(s: Seq<DeviceView>, i: int)
    requires
        0 <= i < s.len(),
        s[i].plug,
    ensures
        !unplug_spec(s, i)[i].plug,
        num_present(unplug_spec(s, i)) + 1 == num_present(s),
        forall|j: int| 0 <= j < s.len() && j != i ==> unplug_spec(s, i)[j] == s[j],
{
    lemma_num_present_update(s, i, DeviceView { plug: false, ..s[i] });
}

/// Swapping two slots keeps the number of plugged-in slots.
pub proof fn lemma_swap_keeps_count(s: Seq<DeviceView>, a: int, b: int)
    requires
        0 <= a < s.len(),
        0 <= b < s.len(),
    ensures
        num_present(swap_spec(s, a, b)) == num_present(s),
{
    lemma_num_present_update(s, a, s[b]);
    lemma_num_present_update(s.update(a, s[b]), b, s[a]);
}

proof fn lemma_no_plug_none(s: Seq<DeviceView>)
    requires
        forall|j: int| 0 <= j < s.len() ==> !(#[trigger] s[j]).plug,
    ensures
        num_present(s) == 0,
    decreases s.len(),
{
    if s.len() > 0 {
        lemma_no_plug_none(s.drop_last());
    }
}

} // verus!
