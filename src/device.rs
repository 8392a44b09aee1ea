//! Multi-device addressing, the multi-device frame, and the registry that
//! tracks which remote devices are present.

use vstd::prelude::*;

use crate::fixed::{
    address_list, address_list_new, address_list_push, frame_as_slice, frame_bytes, frame_new,
    frame_push, wire_bytes, wire_new, wire_push, FRAME_CAPACITY,
};

verus! {

/// Maximum number of devices that can be connected simultaneously.
pub const MAX_DEVICES: usize = 8;

/// The reserved device id of a device that has no id yet.
pub const UNASSIGNED_ID: u16 = 0x0000;

/// The reserved device id that addresses every device.
pub const BROADCAST_ID: u16 = 0xFFFF;

/// The pipe of the broadcast address.
pub const BROADCAST_PIPE: u8 = 0xFF;

/// Timeout that a new registry starts with, in milliseconds.
pub const DEFAULT_TIMEOUT_MS: u64 = 5000;

/// Bytes in front of the payload of a serialized multi-device frame.
pub const FRAME_HEADER_LEN: usize = 3;

/// Address of one device: its persistent id and the radio pipe it uses.
#[derive(Debug, Clone, Copy, PartialEq, Eq, Structural)]
pub struct DeviceAddress {
    /// Unique device identifier.
    pub device_id: u16,
    /// Wireless pipe/channel number.
    pub pipe: u8,
}

impl DeviceAddress {
    /// Whether the id denotes a real device: neither unassigned nor broadcast.
    pub open spec fn spec_is_valid(&self) -> bool {
        self.device_id != UNASSIGNED_ID && self.device_id != BROADCAST_ID
    }

    /// Create a new device address.
    pub fn new(device_id: u16, pipe: u8) -> (r: Self)
        ensures
            r == (DeviceAddress { device_id, pipe }),
    {
        DeviceAddress { device_id, pipe }
    }

    /// Check if the device address denotes a real device.
    pub fn is_valid(&self) -> (r: bool)
        ensures
            r == self.spec_is_valid(),
    {
        self.device_id != UNASSIGNED_ID && self.device_id != BROADCAST_ID
    }

    /// The broadcast address, which targets all devices.
    pub fn broadcast() -> (r: Self)
        ensures
            r == (DeviceAddress { device_id: BROADCAST_ID, pipe: BROADCAST_PIPE }),
    {
        DeviceAddress { device_id: BROADCAST_ID, pipe: BROADCAST_PIPE }
    }
}

/// The high byte of a device id.
pub open spec fn id_high(id: u16) -> u8 {
    (id / 256) as u8
}

/// The low byte of a device id.
pub open spec fn id_low(id: u16) -> u8 {
    (id % 256) as u8
}

/// The device id made of a high and a low byte.
pub open spec fn id_of(high: u8, low: u8) -> u16 {
    (high * 256 + low) as u16
}

/// The serialized form of a frame: the id big-endian, the payload length,
/// then the payload.
pub open spec fn wire_format(id: u16, payload: Seq<u8>) -> Seq<u8> {
    seq![id_high(id), id_low(id), payload.len() as u8] + payload
}

/// The payload length that a serialized frame declares.
pub open spec fn declared_len(data: Seq<u8>) -> int {
    data[2] as int
}

/// Whether bytes hold a whole frame: a header, and a declared payload that
/// fits both in the bytes and in a frame buffer.
pub open spec fn parses(data: Seq<u8>) -> bool {
    &&& data.len() >= FRAME_HEADER_LEN
    &&& FRAME_HEADER_LEN + declared_len(data) <= data.len()
    &&& declared_len(data) <= FRAME_CAPACITY
}

/// The device id that serialized bytes carry.
pub open spec fn parsed_id(data: Seq<u8>) -> u16 {
    id_of(data[0], data[1])
}

/// The payload that serialized bytes carry.
pub open spec fn parsed_payload(data: Seq<u8>) -> Seq<u8> {
    data.subrange(FRAME_HEADER_LEN as int, FRAME_HEADER_LEN + declared_len(data))
}

/// A frame tagged with the device it comes from or goes to, so that several
/// devices can share one channel.
#[derive(Debug, Clone)]
pub struct MultiDeviceFrame {
    /// Source/destination device address.
    pub device_addr: DeviceAddress,
    /// Frame payload.
    pub payload: heapless::Vec<u8, 64>,
}

impl MultiDeviceFrame {
    /// Create a new multi-device frame.
    pub fn new(device_addr: DeviceAddress, payload: heapless::Vec<u8, 64>) -> (r: Self)
        ensures
            r.device_addr == device_addr,
            r.payload == payload,
    {
        MultiDeviceFrame { device_addr, payload }
    }

    /// Serialize the frame: `[device_id_hi, device_id_lo, len, ...payload]`.
    pub fn serialize(&self) -> (r: Result<heapless::Vec<u8, 67>, ()>)
        ensures
            r is Ok,
            r is Ok ==> wire_bytes(r->Ok_0) == wire_format(
                self.device_addr.device_id,
                frame_bytes(self.payload),
            ),
    {
        let id = self.device_addr.device_id;
        let high = (id / 256) as u8;
        let low = (id % 256) as u8;
        let payload = frame_as_slice(&self.payload);
        let mut buf = wire_new();
        if wire_push(&mut buf, high).is_err() {
            return Err(());
        }
        if wire_push(&mut buf, low).is_err() {
            return Err(());
        }
        if wire_push(&mut buf, payload.len() as u8).is_err() {
            return Err(());
        }
        let ghost header = seq![high, low, payload.len() as u8];
        assert(wire_bytes(buf) =~= header);
        let mut i: usize = 0;
        while i < payload.len()
            invariant
                i <= payload@.len(),
                payload@.len() <= FRAME_CAPACITY,
                header.len() == FRAME_HEADER_LEN,
                wire_bytes(buf) == header + payload@.subrange(0, i as int),
            decreases payload@.len() - i,
        {
            assert(wire_bytes(buf).len() == FRAME_HEADER_LEN + i);
            if wire_push(&mut buf, payload[i]).is_err() {
                return Err(());
            }
            assert(payload@.subrange(0, i + 1) =~= payload@.subrange(0, i as int).push(payload@[i as int]));
            assert(header + payload@.subrange(0, i + 1) =~= (header + payload@.subrange(0, i as int)).push(payload@[i as int]));
            i += 1;
        }
        assert(payload@.subrange(0, i as int) =~= payload@);
        Ok(buf)
    }

    /// Deserialize a frame. Fails on fewer than three bytes, on a declared
    /// length beyond the bytes given, or beyond the payload capacity. The
    /// pipe is not carried on the wire and is reported as 0.
    pub fn deserialize(data: &[u8]) -> (r: Result<Self, ()>)
        ensures
            r is Ok <==> parses(data@),
            r is Ok ==> r->Ok_0.device_addr == (DeviceAddress {
                device_id: parsed_id(data@),
                pipe: 0,
            }) && frame_bytes(r->Ok_0.payload) == parsed_payload(data@),
    {
        if data.len() < FRAME_HEADER_LEN {
            return Err(());
        }
        let high = data[0];
        let low = data[1];
        let device_id = ((high as u16) << 8) | (low as u16);
        assert(device_id == id_of(high, low)) by (bit_vector)
            requires
                device_id == ((high as u16) << 8) | (low as u16),
        ;
        let len = data[2] as usize;
        if data.len() - FRAME_HEADER_LEN < len {
            return Err(());
        }
        let mut payload = frame_new();
        let mut i: usize = 0;
        while i < len
            invariant
                i <= len,
                len == declared_len(data@),
                FRAME_HEADER_LEN + len <= data@.len(),
                i <= FRAME_CAPACITY,
                frame_bytes(payload) == data@.subrange(FRAME_HEADER_LEN as int, FRAME_HEADER_LEN + i),
            decreases len - i,
        {
            if frame_push(&mut payload, data[FRAME_HEADER_LEN + i]).is_err() {
                assert(len > FRAME_CAPACITY);
                return Err(());
            }
            assert(data@.subrange(FRAME_HEADER_LEN as int, FRAME_HEADER_LEN + i + 1)
                =~= data@.subrange(FRAME_HEADER_LEN as int, FRAME_HEADER_LEN + i).push(data@[FRAME_HEADER_LEN + i]));
            i += 1;
        }
        Ok(MultiDeviceFrame { device_addr: DeviceAddress { device_id, pipe: 0 }, payload })
    }
}

/// Serializing a payload of at most a frame's capacity and deserializing the
/// bytes gives back the device id and the payload.
pub proof fn lemma_frame_round_trip(id: u16, payload: Seq<u8>)
    requires
        payload.len() <= FRAME_CAPACITY,
    ensures
        parses(wire_format(id, payload)),
        parsed_id(wire_format(id, payload)) == id,
        parsed_payload(wire_format(id, payload)) == payload,
{
    let w = wire_format(id, payload);
    assert(w[0] == id_high(id) && w[1] == id_low(id) && w[2] == payload.len() as u8);
    assert(id_of(id_high(id), id_low(id)) == id);
    assert(parsed_payload(w) =~= payload);
}

/// Connection state of a registered device.
#[derive(Debug, Clone, Copy, PartialEq, Eq, Structural)]
pub enum DeviceState {
    /// Device is disconnected
    Disconnected,
    /// Device is connecting
    Connecting,
    /// Device is connected and active
    Connected,
    /// Device connection is lost (but not explicitly disconnected)
    Lost,
}

/// What the registry knows of one device.
#[derive(Debug, Clone, Copy)]
pub struct ConnectedDevice {
    /// Device address
    pub address: DeviceAddress,
    /// Current connection state
    pub state: DeviceState,
    /// Timestamp of the last packet received, in milliseconds
    pub last_seen_ms: u64,
    /// Signal strength in dBm, if known
    pub rssi: Option<i8>,
}

/// `a - b`, or 0 where `b` is larger.
pub open spec fn saturating_diff(a: u64, b: u64) -> u64 {
    if a >= b {
        (a - b) as u64
    } else {
        0
    }
}

impl ConnectedDevice {
    /// A device that has just registered: connecting, never seen, no RSSI.
    pub open spec fn fresh(address: DeviceAddress) -> ConnectedDevice {
        ConnectedDevice { address, state: DeviceState::Connecting, last_seen_ms: 0, rssi: None }
    }

    /// Whether the device is connected or connecting.
    pub open spec fn spec_is_active(&self) -> bool {
        self.state == DeviceState::Connected || self.state == DeviceState::Connecting
    }

    /// The device after a packet at `timestamp_ms`: connecting and lost
    /// devices become connected.
    pub open spec fn seen_at(self, timestamp_ms: u64) -> ConnectedDevice {
        ConnectedDevice {
            last_seen_ms: timestamp_ms,
            state: if self.state == DeviceState::Connecting || self.state == DeviceState::Lost {
                DeviceState::Connected
            } else {
                self.state
            },
            ..self
        }
    }

    /// Whether more than `timeout_ms` has passed since the device was seen.
    pub open spec fn spec_timed_out(&self, current_time_ms: u64, timeout_ms: u64) -> bool {
        saturating_diff(current_time_ms, self.last_seen_ms) > timeout_ms
    }

    /// Create a new connected device entry.
    pub fn new(address: DeviceAddress) -> (r: Self)
        ensures
            r == ConnectedDevice::fresh(address),
    {
        ConnectedDevice { address, state: DeviceState::Connecting, last_seen_ms: 0, rssi: None }
    }

    /// Check if the device is active (connected or connecting).
    pub fn is_active(&self) -> (r: bool)
        ensures
            r == self.spec_is_active(),
    {
        match self.state {
            DeviceState::Connected | DeviceState::Connecting => true,
            _ => false,
        }
    }

    /// Record a packet at `timestamp_ms`.
    pub fn update_last_seen(&mut self, timestamp_ms: u64)
        ensures
            *final(self) == old(self).seen_at(timestamp_ms),
    {
        self.last_seen_ms = timestamp_ms;
        if self.state == DeviceState::Connecting || self.state == DeviceState::Lost {
            self.state = DeviceState::Connected;
        }
    }

    /// Check if the device timed out; a clock behind `last_seen_ms` never
    /// times it out.
    pub fn is_timed_out(&self, current_time_ms: u64, timeout_ms: u64) -> (r: bool)
        ensures
            r == self.spec_timed_out(current_time_ms, timeout_ms),
    {
        current_time_ms.saturating_sub(self.last_seen_ms) > timeout_ms
    }
}

/// Whether a slot holds the device with id `id`.
pub open spec fn slot_has(slot: Option<ConnectedDevice>, id: u16) -> bool {
    slot is Some && slot->Some_0.address.device_id == id
}

/// Whether some slot holds the device with id `id`.
pub open spec fn holds_id(slots: Seq<Option<ConnectedDevice>>, id: u16) -> bool {
    exists|i: int| 0 <= i < slots.len() && #[trigger] slot_has(slots[i], id)
}

/// Whether no two occupied slots hold the same device id.
pub open spec fn ids_unique(slots: Seq<Option<ConnectedDevice>>) -> bool {
    forall|i: int, j: int|
        0 <= i < slots.len() && 0 <= j < slots.len() && i != j && #[trigger] slots[i] is Some
            && #[trigger] slots[j] is Some ==> slots[i]->Some_0.address.device_id
            != slots[j]->Some_0.address.device_id
}

/// The slot that holds the device with id `id`.
pub open spec fn slot_of(slots: Seq<Option<ConnectedDevice>>, id: u16) -> int {
    choose|i: int| 0 <= i < slots.len() && #[trigger] slot_has(slots[i], id)
}

/// Whether some slot is empty.
pub open spec fn has_free(slots: Seq<Option<ConnectedDevice>>) -> bool {
    exists|j: int| 0 <= j < slots.len() && #[trigger] slots[j] is None
}

/// Whether `j` is the first empty slot.
pub open spec fn is_first_free(slots: Seq<Option<ConnectedDevice>>, j: int) -> bool {
    &&& 0 <= j < slots.len()
    &&& slots[j] is None
    &&& forall|k: int| 0 <= k < j ==> #[trigger] slots[k] is Some
}

/// The first empty slot.
pub open spec fn first_free(slots: Seq<Option<ConnectedDevice>>) -> int {
    choose|j: int| is_first_free(slots, j)
}

/// Whether registering a device with id `id` succeeds: it is there already,
/// or a slot is free.
pub open spec fn accepts(slots: Seq<Option<ConnectedDevice>>, id: u16) -> bool {
    holds_id(slots, id) || has_free(slots)
}

/// The table after registering `address`: unchanged when its id is there
/// already or no slot is free, else a fresh entry in the first free slot.
pub open spec fn registered(slots: Seq<Option<ConnectedDevice>>, address: DeviceAddress) -> Seq<
    Option<ConnectedDevice>,
> {
    if holds_id(slots, address.device_id) || !has_free(slots) {
        slots
    } else {
        slots.update(first_free(slots), Some(ConnectedDevice::fresh(address)))
    }
}

/// The table after unregistering the device with id `id`.
pub open spec fn unregistered(slots: Seq<Option<ConnectedDevice>>, id: u16) -> Seq<
    Option<ConnectedDevice>,
> {
    if holds_id(slots, id) {
        slots.update(slot_of(slots, id), None)
    } else {
        slots
    }
}

/// The device with id `id`, if registered.
pub open spec fn lookup(slots: Seq<Option<ConnectedDevice>>, id: u16) -> Option<ConnectedDevice> {
    if holds_id(slots, id) {
        slots[slot_of(slots, id)]
    } else {
        None
    }
}

/// The table after a packet from the device with id `id` at `timestamp_ms`
/// with signal strength `rssi`; unknown ids change nothing.
pub open spec fn touched(
    slots: Seq<Option<ConnectedDevice>>,
    id: u16,
    timestamp_ms: u64,
    rssi: Option<i8>,
) -> Seq<Option<ConnectedDevice>> {
    if holds_id(slots, id) {
        let d = slots[slot_of(slots, id)]->Some_0;
        slots.update(slot_of(slots, id), Some(ConnectedDevice { rssi, ..d.seen_at(timestamp_ms) }))
    } else {
        slots
    }
}

/// One slot after a timeout sweep at `now_ms`: an active device that has
/// not been seen for longer than `timeout_ms` is lost.
pub open spec fn swept_slot(slot: Option<ConnectedDevice>, now_ms: u64, timeout_ms: u64) -> Option<
    ConnectedDevice,
> {
    match slot {
        Some(d) => if d.spec_is_active() && d.spec_timed_out(now_ms, timeout_ms) {
            Some(ConnectedDevice { state: DeviceState::Lost, ..d })
        } else {
            slot
        },
        None => None,
    }
}

/// The table after a timeout sweep at `now_ms`.
pub open spec fn swept(slots: Seq<Option<ConnectedDevice>>, now_ms: u64, timeout_ms: u64) -> Seq<
    Option<ConnectedDevice>,
> {
    Seq::new(slots.len(), |i: int| swept_slot(slots[i], now_ms, timeout_ms))
}

/// Whether a slot holds a connected device.
pub open spec fn is_connected_slot(slot: Option<ConnectedDevice>) -> bool {
    slot is Some && slot->Some_0.state == DeviceState::Connected
}

/// The number of connected devices in the table.
pub open spec fn count_connected(slots: Seq<Option<ConnectedDevice>>) -> nat
    decreases slots.len(),
{
    if slots.len() == 0 {
        0
    } else {
        count_connected(slots.drop_last()) + if is_connected_slot(slots.last()) {
            1nat
        } else {
            0nat
        }
    }
}

/// The number of occupied slots in the table.
pub open spec fn count_occupied(slots: Seq<Option<ConnectedDevice>>) -> nat
    decreases slots.len(),
{
    if slots.len() == 0 {
        0
    } else {
        count_occupied(slots.drop_last()) + if slots.last() is Some {
            1nat
        } else {
            0nat
        }
    }
}

/// Whether a slot holds a connected or connecting device.
pub open spec fn is_active_slot(slot: Option<ConnectedDevice>) -> bool {
    slot is Some && slot->Some_0.spec_is_active()
}

/// The addresses of the connected or connecting devices, in table order.
pub open spec fn active_addresses(slots: Seq<Option<ConnectedDevice>>) -> Seq<DeviceAddress>
    decreases slots.len(),
{
    if slots.len() == 0 {
        Seq::empty()
    } else if is_active_slot(slots.last()) {
        active_addresses(slots.drop_last()).push(slots.last()->Some_0.address)
    } else {
        active_addresses(slots.drop_last())
    }
}

/// The registry of remote devices on the receiving side: a fixed table of
/// slots and the timeout after which a silent device counts as lost.
pub struct DeviceManager {
    devices: [Option<ConnectedDevice>; MAX_DEVICES],
    device_timeout_ms: u64,
}

impl DeviceManager {
    /// The table, slot by slot.
    pub closed spec fn slots(&self) -> Seq<Option<ConnectedDevice>> {
        self.devices@
    }

    /// The timeout after which a silent device is lost, in milliseconds.
    pub closed spec fn timeout(&self) -> u64 {
        self.device_timeout_ms
    }

    /// The table has `MAX_DEVICES` slots and no device id twice.
    pub open spec fn wf(&self) -> bool {
        self.slots().len() == MAX_DEVICES && ids_unique(self.slots())
    }

    /// Create an empty registry with the default timeout.
    pub fn new() -> (r: Self)
        ensures
            r.wf(),
            r.slots() == Seq::new(MAX_DEVICES as nat, |i: int| None::<ConnectedDevice>),
            r.timeout() == DEFAULT_TIMEOUT_MS,
    {
        let r = DeviceManager {
            devices: [None, None, None, None, None, None, None, None],
            device_timeout_ms: DEFAULT_TIMEOUT_MS,
        };
        assert(r.slots() =~= Seq::new(MAX_DEVICES as nat, |i: int| None::<ConnectedDevice>));
        r
    }

    /// Set the device timeout, in milliseconds.
    pub fn set_timeout(&mut self, timeout_ms: u64)
        ensures
            final(self).slots() == old(self).slots(),
            final(self).timeout() == timeout_ms,
    {
        self.device_timeout_ms = timeout_ms;
    }

    /// Register a device. Registering an id that is already present
    /// succeeds and changes nothing; otherwise the device takes the first
    /// free slot, and with no slot free registration fails.
    pub fn register_device(&mut self, address: DeviceAddress) -> (r: Result<(), ()>)
        requires
            old(self).wf(),
        ensures
            final(self).wf(),
            final(self).slots() == registered(old(self).slots(), address),
            final(self).timeout() == old(self).timeout(),
            r is Ok <==> accepts(old(self).slots(), address.device_id),
    {
        let ghost slots = old(self).devices@;
        let mut i: usize = 0;
        while i < MAX_DEVICES
            invariant
                self.devices@ == slots,
                slots == old(self).devices@,
                self.device_timeout_ms == old(self).device_timeout_ms,
                slots.len() == MAX_DEVICES,
                ids_unique(slots),
                i <= MAX_DEVICES,
                forall|k: int| 0 <= k < i ==> !#[trigger] slot_has(slots[k], address.device_id),
            decreases MAX_DEVICES - i,
        {
            if let Some(dev) = &self.devices[i] {
                if dev.address.device_id == address.device_id {
                    assert(slot_has(slots[i as int], address.device_id));
                    return Ok(());
                }
            }
            i += 1;
        }
        assert(!holds_id(slots, address.device_id));
        let mut j: usize = 0;
        while j < MAX_DEVICES
            invariant
                self.devices@ == slots,
                slots == old(self).devices@,
                self.device_timeout_ms == old(self).device_timeout_ms,
                slots.len() == MAX_DEVICES,
                ids_unique(slots),
                !holds_id(slots, address.device_id),
                j <= MAX_DEVICES,
                forall|k: int| 0 <= k < j ==> #[trigger] slots[k] is Some,
            decreases MAX_DEVICES - j,
        {
            if self.devices[j].is_none() {
                self.devices[j] = Some(ConnectedDevice::new(address));
                proof {
                    assert(is_first_free(slots, j as int));
                    lemma_first_free_unique(slots, j as int, first_free(slots));
                    let new_slots = self.devices@;
                    assert forall|a: int, b: int|
                        0 <= a < new_slots.len() && 0 <= b < new_slots.len() && a != b
                            && #[trigger] new_slots[a] is Some && #[trigger] new_slots[b] is Some
                        implies new_slots[a]->Some_0.address.device_id
                            != new_slots[b]->Some_0.address.device_id by {
                        if a == j {
                            assert(!slot_has(slots[b], address.device_id));
                        } else if b == j {
                            assert(!slot_has(slots[a], address.device_id));
                        }
                    }
                }
                return Ok(());
            }
            j += 1;
        }
        Err(())
    }

    /// Unregister the device with id `device_id`; unknown ids change nothing.
    pub fn unregister_device(&mut self, device_id: u16)
        requires
            old(self).wf(),
        ensures
            final(self).wf(),
            final(self).slots() == unregistered(old(self).slots(), device_id),
            final(self).timeout() == old(self).timeout(),
    {
        let ghost slots = old(self).devices@;
        let mut i: usize = 0;
        while i < MAX_DEVICES
            invariant
                self.devices@ == slots,
                slots == old(self).devices@,
                self.device_timeout_ms == old(self).device_timeout_ms,
                slots.len() == MAX_DEVICES,
                ids_unique(slots),
                i <= MAX_DEVICES,
                forall|k: int| 0 <= k < i ==> !#[trigger] slot_has(slots[k], device_id),
            decreases MAX_DEVICES - i,
        {
            let found = match &self.devices[i] {
                Some(dev) => dev.address.device_id == device_id,
                None => false,
            };
            if found {
                self.devices[i] = None;
                proof {
                    lemma_slot_of_unique(slots, device_id, i as int);
                    let new_slots = self.devices@;
                    assert forall|a: int, b: int|
                        0 <= a < new_slots.len() && 0 <= b < new_slots.len() && a != b
                            && #[trigger] new_slots[a] is Some && #[trigger] new_slots[b] is Some
                        implies new_slots[a]->Some_0.address.device_id
                            != new_slots[b]->Some_0.address.device_id by {
                        assert(slots[a] is Some && slots[b] is Some);
                    }
                }
                return;
            }
            i += 1;
        }
        assert(!holds_id(slots, device_id));
    }

    /// The device with id `device_id`, if registered.
    pub fn get_device(&self, device_id: u16) -> (r: Option<&ConnectedDevice>)
        requires
            self.wf(),
        ensures
            r is Some <==> holds_id(self.slots(), device_id),
            r is Some ==> lookup(self.slots(), device_id) == Some(*r->Some_0),
    {
        let ghost slots = self.devices@;
        let mut i: usize = 0;
        while i < MAX_DEVICES
            invariant
                self.devices@ == slots,
                slots.len() == MAX_DEVICES,
                ids_unique(slots),
                i <= MAX_DEVICES,
                forall|k: int| 0 <= k < i ==> !#[trigger] slot_has(slots[k], device_id),
            decreases MAX_DEVICES - i,
        {
            if let Some(dev) = &self.devices[i] {
                if dev.address.device_id == device_id {
                    proof {
                        lemma_slot_of_unique(slots, device_id, i as int);
                    }
                    return Some(dev);
                }
            }
            i += 1;
        }
        assert(!holds_id(slots, device_id));
        None
    }

    /// The device with id `device_id`, if registered, for changing it in place.
    pub fn get_device_mut(&mut self, device_id: u16) -> (r: Option<&mut ConnectedDevice>)
        requires
            old(self).wf(),
        ensures
            r is Some <==> holds_id(old(self).slots(), device_id),
            r is None ==> final(self).slots() == old(self).slots(),
            r matches Some(d) ==> {
                &&& lookup(old(self).slots(), device_id) == Some(*d)
                &&& final(self).slots() == old(self).slots().update(
                    slot_of(old(self).slots(), device_id),
                    Some(*final(d)),
                )
            },
            final(self).timeout() == old(self).timeout(),
    {
        let ghost slots = old(self).devices@;
        let mut i: usize = 0;
        while i < MAX_DEVICES
            invariant
                self.devices@ == slots,
                slots == old(self).devices@,
                self.device_timeout_ms == old(self).device_timeout_ms,
                slots.len() == MAX_DEVICES,
                ids_unique(slots),
                i <= MAX_DEVICES,
                forall|k: int| 0 <= k < i ==> !#[trigger] slot_has(slots[k], device_id),
            decreases MAX_DEVICES - i,
        {
            let found = match &self.devices[i] {
                Some(dev) => dev.address.device_id == device_id,
                None => false,
            };
            if found {
                proof {
                    lemma_slot_of_unique(slots, device_id, i as int);
                }
                match &mut self.devices[i] {
                    Some(dev) => {
                        return Some(dev);
                    },
                    None => {
                        return None;
                    },
                }
            }
            i += 1;
        }
        assert(!holds_id(slots, device_id));
        None
    }
}

impl DeviceManager {
    /// Record a packet from the device with id `device_id` at `timestamp_ms`
    /// with signal strength `rssi`; unknown ids change nothing.
    pub fn update_device(&mut self, device_id: u16, timestamp_ms: u64, rssi: Option<i8>)
        requires
            old(self).wf(),
        ensures
            final(self).wf(),
            final(self).slots() == touched(old(self).slots(), device_id, timestamp_ms, rssi),
            final(self).timeout() == old(self).timeout(),
    {
        let ghost slots = old(self).slots();
        if let Some(device) = self.get_device_mut(device_id) {
            device.update_last_seen(timestamp_ms);
            device.rssi = rssi;
        }
        proof {
            let new_slots = self.slots();
            assert forall|a: int, b: int|
                0 <= a < new_slots.len() && 0 <= b < new_slots.len() && a != b
                    && #[trigger] new_slots[a] is Some && #[trigger] new_slots[b] is Some
                implies new_slots[a]->Some_0.address.device_id
                    != new_slots[b]->Some_0.address.device_id by {
                assert(slots[a] is Some && slots[b] is Some);
            }
        }
    }

    /// Mark as lost every connected or connecting device that has not been
    /// seen for longer than the timeout. Entries are never removed.
    pub fn check_timeouts(&mut self, current_time_ms: u64)
        requires
            old(self).wf(),
        ensures
            final(self).wf(),
            final(self).slots() == swept(old(self).slots(), current_time_ms, old(self).timeout()),
            final(self).timeout() == old(self).timeout(),
    {
        let ghost slots = old(self).devices@;
        let timeout_ms = self.device_timeout_ms;
        let mut i: usize = 0;
        while i < MAX_DEVICES
            invariant
                slots == old(self).devices@,
                slots.len() == MAX_DEVICES,
                self.devices@.len() == MAX_DEVICES,
                self.device_timeout_ms == old(self).device_timeout_ms,
                timeout_ms == old(self).device_timeout_ms,
                i <= MAX_DEVICES,
                forall|k: int|
                    0 <= k < i ==> #[trigger] self.devices@[k] == swept_slot(
                        slots[k],
                        current_time_ms,
                        timeout_ms,
                    ),
                forall|k: int| i <= k < MAX_DEVICES ==> #[trigger] self.devices@[k] == slots[k],
            decreases MAX_DEVICES - i,
        {
            if let Some(d) = self.devices[i] {
                if d.is_active() && d.is_timed_out(current_time_ms, timeout_ms) {
                    self.devices[i] = Some(ConnectedDevice { state: DeviceState::Lost, ..d });
                }
            }
            i += 1;
        }
        assert(self.devices@ =~= swept(slots, current_time_ms, timeout_ms));
        proof {
            let new_slots = self.devices@;
            assert forall|a: int, b: int|
                0 <= a < new_slots.len() && 0 <= b < new_slots.len() && a != b
                    && #[trigger] new_slots[a] is Some && #[trigger] new_slots[b] is Some
                implies new_slots[a]->Some_0.address.device_id
                    != new_slots[b]->Some_0.address.device_id by {
                assert(slots[a] is Some && slots[b] is Some);
            }
        }
    }

    /// The addresses of all connected or connecting devices, in table order.
    pub fn active_devices(&self) -> (r: heapless::Vec<DeviceAddress, MAX_DEVICES>)
        requires
            self.wf(),
        ensures
            address_list(r) == active_addresses(self.slots()),
    {
        let ghost slots = self.devices@;
        let mut list = address_list_new();
        let mut i: usize = 0;
        while i < MAX_DEVICES
            invariant
                slots == self.devices@,
                slots.len() == MAX_DEVICES,
                i <= MAX_DEVICES,
                address_list(list) == active_addresses(slots.subrange(0, i as int)),
                address_list(list).len() <= i,
            decreases MAX_DEVICES - i,
        {
            assert(slots.subrange(0, i + 1).drop_last() =~= slots.subrange(0, i as int));
            if let Some(dev) = &self.devices[i] {
                if dev.is_active() {
                    let _ = address_list_push(&mut list, dev.address);
                }
            }
            i += 1;
        }
        assert(slots.subrange(0, MAX_DEVICES as int) =~= slots);
        list
    }

    /// The number of devices in the `Connected` state.
    pub fn connected_count(&self) -> (r: usize)
        requires
            self.wf(),
        ensures
            r == count_connected(self.slots()),
    {
        let ghost slots = self.devices@;
        let mut count: usize = 0;
        let mut i: usize = 0;
        while i < MAX_DEVICES
            invariant
                slots == self.devices@,
                slots.len() == MAX_DEVICES,
                i <= MAX_DEVICES,
                count == count_connected(slots.subrange(0, i as int)),
                count <= i,
            decreases MAX_DEVICES - i,
        {
            assert(slots.subrange(0, i + 1).drop_last() =~= slots.subrange(0, i as int));
            if let Some(dev) = &self.devices[i] {
                if dev.state == DeviceState::Connected {
                    count += 1;
                }
            }
            i += 1;
        }
        assert(slots.subrange(0, MAX_DEVICES as int) =~= slots);
        count
    }
}

impl Default for DeviceManager {
    fn default() -> (r: Self)
        ensures
            r.wf(),
            r.slots() == Seq::new(MAX_DEVICES as nat, |i: int| None::<ConnectedDevice>),
            r.timeout() == DEFAULT_TIMEOUT_MS,
    {
        Self::new()
    }
}

/// Two first free slots are the same slot.
proof fn lemma_first_free_unique(slots: Seq<Option<ConnectedDevice>>, a: int, b: int)
    requires
        is_first_free(slots, a),
        is_first_free(slots, b),
    ensures
        a == b,
{
    if a < b {
        assert(slots[a] is Some);
    } else if b < a {
        assert(slots[b] is Some);
    }
}

/// In a table without duplicate ids, the slot holding an id is `slot_of`.
proof fn lemma_slot_of_unique(slots: Seq<Option<ConnectedDevice>>, id: u16, i: int)
    requires
        ids_unique(slots),
        0 <= i < slots.len(),
        slot_has(slots[i], id),
    ensures
        holds_id(slots, id),
        slot_of(slots, id) == i,
{
    assert(slot_has(slots[i], id));
    let j = slot_of(slots, id);
    assert(slot_has(slots[j], id));
    if j != i {
        assert(slots[i] is Some && slots[j] is Some);
    }
}

/// A table with a free slot has a first free slot.
proof fn lemma_first_free_exists(slots: Seq<Option<ConnectedDevice>>)
    requires
        has_free(slots),
    ensures
        is_first_free(slots, first_free(slots)),
{
    let j = choose|j: int| 0 <= j < slots.len() && #[trigger] slots[j] is None;
    lemma_free_below(slots, j);
}

/// Below any empty slot, or at it, lies a first free slot.
proof fn lemma_free_below(slots: Seq<Option<ConnectedDevice>>, j: int)
    requires
        0 <= j < slots.len(),
        slots[j] is None,
    ensures
        exists|m: int| is_first_free(slots, m),
    decreases j,
{
    if forall|k: int| 0 <= k < j ==> #[trigger] slots[k] is Some {
        assert(is_first_free(slots, j));
    } else {
        let k = choose|k: int| 0 <= k < j && !(#[trigger] slots[k] is Some);
        lemma_free_below(slots, k);
    }
}

/// Registering a second address with the same device id right after the
/// first leaves the table, and so its connected and occupied counts, as the
/// first registration left it.
pub proof fn lemma_register_idempotent(
    slots: Seq<Option<ConnectedDevice>>,
    first: DeviceAddress,
    second: DeviceAddress,
)
    requires
        first.device_id == second.device_id,
    ensures
        registered(registered(slots, first), second) == registered(slots, first),
        count_connected(registered(registered(slots, first), second)) == count_connected(
            registered(slots, first),
        ),
        count_occupied(registered(registered(slots, first), second)) == count_occupied(
            registered(slots, first),
        ),
{
    let id = first.device_id;
    if !holds_id(slots, id) && has_free(slots) {
        lemma_first_free_exists(slots);
        let j = first_free(slots);
        let once = registered(slots, first);
        assert(slot_has(once[j], id));
        assert(holds_id(once, id));
    }
}

/// A device seen at `t0` is left as it is by a sweep at `t0 + timeout - 1`,
/// and one that was connected is lost after a sweep at `t0 + timeout + 1`.
pub proof fn lemma_timeout_boundary(
    slots: Seq<Option<ConnectedDevice>>,
    i: int,
    t0: u64,
    timeout_ms: u64,
)
    requires
        0 <= i < slots.len(),
        slots[i] is Some,
        slots[i]->Some_0.last_seen_ms == t0,
        1 <= t0 + timeout_ms,
        t0 + timeout_ms + 1 <= u64::MAX,
    ensures
        swept(slots, (t0 + timeout_ms - 1) as u64, timeout_ms)[i] == slots[i],
        slots[i]->Some_0.state == DeviceState::Connected ==> swept(
            slots,
            (t0 + timeout_ms + 1) as u64,
            timeout_ms,
        )[i] == Some(ConnectedDevice { state: DeviceState::Lost, ..slots[i]->Some_0 }),
{
}

/// The empty table.
pub open spec fn empty_table() -> Seq<Option<ConnectedDevice>> {
    Seq::new(MAX_DEVICES as nat, |i: int| None::<ConnectedDevice>)
}

/// The table after registering each address in turn.
pub open spec fn register_all(slots: Seq<Option<ConnectedDevice>>, addrs: Seq<DeviceAddress>) -> Seq<
    Option<ConnectedDevice>,
>
    decreases addrs.len(),
{
    if addrs.len() == 0 {
        slots
    } else {
        registered(register_all(slots, addrs.drop_last()), addrs.last())
    }
}

/// Whether no two addresses share a device id.
pub open spec fn distinct_ids(addrs: Seq<DeviceAddress>) -> bool {
    forall|i: int, j: int|
        0 <= i < addrs.len() && 0 <= j < addrs.len() && i != j ==> #[trigger] addrs[i].device_id
            != #[trigger] addrs[j].device_id
}

/// The first `k` of `addrs`, registered into an empty table, fill the
/// first `k` slots in order.
proof fn lemma_fill_in_order(addrs: Seq<DeviceAddress>, k: int)
    requires
        addrs.len() == MAX_DEVICES,
        distinct_ids(addrs),
        0 <= k <= MAX_DEVICES,
    ensures
        register_all(empty_table(), addrs.subrange(0, k)) == Seq::new(
            MAX_DEVICES as nat,
            |i: int|
                if i < k {
                    Some(ConnectedDevice::fresh(addrs[i]))
                } else {
                    None
                },
        ),
    decreases k,
{
    let filled = Seq::new(
        MAX_DEVICES as nat,
        |i: int|
            if i < k {
                Some(ConnectedDevice::fresh(addrs[i]))
            } else {
                None
            },
    );
    if k == 0 {
        assert(register_all(empty_table(), addrs.subrange(0, 0)) =~= filled);
    } else {
        lemma_fill_in_order(addrs, k - 1);
        let before = register_all(empty_table(), addrs.subrange(0, k - 1));
        assert(addrs.subrange(0, k).drop_last() =~= addrs.subrange(0, k - 1));
        lemma_fill_step(addrs, k - 1);
        assert(before.update(k - 1, Some(ConnectedDevice::fresh(addrs[k - 1]))) =~= filled);
    }
}

/// Registering the `k`-th of distinct addresses after the first `k` puts it
/// in slot `k`.
proof fn lemma_fill_step(addrs: Seq<DeviceAddress>, k: int)
    requires
        addrs.len() == MAX_DEVICES,
        distinct_ids(addrs),
        0 <= k < MAX_DEVICES,
        register_all(empty_table(), addrs.subrange(0, k)) == Seq::new(
            MAX_DEVICES as nat,
            |i: int|
                if i < k {
                    Some(ConnectedDevice::fresh(addrs[i]))
                } else {
                    None
                },
        ),
    ensures
        accepts(register_all(empty_table(), addrs.subrange(0, k)), addrs[k].device_id),
        registered(register_all(empty_table(), addrs.subrange(0, k)), addrs[k])
            == register_all(empty_table(), addrs.subrange(0, k)).update(
            k,
            Some(ConnectedDevice::fresh(addrs[k])),
        ),
{
    let before = register_all(empty_table(), addrs.subrange(0, k));
    let id = addrs[k].device_id;
    assert forall|i: int| 0 <= i < before.len() implies !#[trigger] slot_has(before[i], id) by {
        if i < k {
            assert(addrs[i].device_id != addrs[k].device_id);
        }
    }
    assert(before[k] is None);
    assert(is_first_free(before, k));
    lemma_first_free_exists(before);
    lemma_first_free_unique(before, k, first_free(before));
}

/// Into an empty table, `MAX_DEVICES` addresses with distinct ids all
/// register; then registering one more distinct id fails and leaves the
/// table as it was.
pub proof fn lemma_capacity_boundary(addrs: Seq<DeviceAddress>, extra: DeviceAddress)
    requires
        addrs.len() == MAX_DEVICES,
        distinct_ids(addrs),
        forall|i: int| 0 <= i < addrs.len() ==> #[trigger] addrs[i].device_id != extra.device_id,
    ensures
        forall|k: int|
            0 <= k < MAX_DEVICES ==> accepts(
                register_all(empty_table(), addrs.subrange(0, k)),
                #[trigger] addrs[k].device_id,
            ),
        !accepts(register_all(empty_table(), addrs), extra.device_id),
        registered(register_all(empty_table(), addrs), extra) == register_all(
            empty_table(),
            addrs,
        ),
{
    assert forall|k: int|
        0 <= k < MAX_DEVICES implies accepts(
        register_all(empty_table(), addrs.subrange(0, k)),
        #[trigger] addrs[k].device_id,
    ) by {
        lemma_fill_in_order(addrs, k);
        lemma_fill_step(addrs, k);
    }
    lemma_fill_in_order(addrs, MAX_DEVICES as int);
    assert(addrs.subrange(0, MAX_DEVICES as int) =~= addrs);
    let full = register_all(empty_table(), addrs);
    assert forall|i: int| 0 <= i < full.len() implies !#[trigger] slot_has(full[i], extra.device_id) by {
    }
    assert forall|j: int| 0 <= j < full.len() implies !(#[trigger] full[j] is None) by {
    }
}

} // verus!
