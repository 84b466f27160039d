//! The BLE (GATT) transport.
//!
//! The radio layer enumerates adapters and peripherals, connects,
//! discovers services and delivers notifications; those are opaque
//! capabilities outside this library.  What is decided here: which
//! adapter and peripheral to use, whether a discovered characteristic set
//! carries the three UUIDs the RPC link needs, and how notification
//! payloads and outgoing frames pass through the framing codec.  The
//! state machines work over plain values — adapter counts, advertised
//! names as UTF-8 bytes, characteristic UUIDs as 128-bit integers and
//! positions in the discovery order — which the radio layer translates
//! from and to its own handles.

use vstd::prelude::*;

use crate::codec::FlipperCodec;
use crate::consts::{
    BLE_OVERFLOW_CHARACTERISTIC_UUID, BLE_RX_CHARACTERISTIC_UUID, BLE_TX_CHARACTERISTIC_UUID,
};
use crate::error::FlipperError;
use crate::transport::serial::{find_subsequence, spec_contains_seq};
use crate::transport::{FlipperFrameReceiver, FlipperFrameSender, FlipperTransport};

verus! {

// ---------------------------------------------------------------------
// The scanner.
// ---------------------------------------------------------------------

/// Chooses among the radio adapters present on the host and, through the
/// selected one, looks for the device by advertised name.  The radio
/// layer enumerates; this state machine holds the count and the
/// selection.
#[derive(Debug)]
pub struct FlipperScanner {
    /// How many adapters enumeration found.
    pub adapter_count: usize,
    /// The selected adapter's position in the enumeration order.
    pub adapter_idx: usize,
}

/// `name` is an advertised name (none, for a device that advertises no
/// name) that contains `pattern`.
pub open spec fn spec_name_matches(name: Option<Vec<u8>>, pattern: Seq<u8>) -> bool {
    name matches Some(s) && spec_contains_seq(s@, pattern)
}

impl FlipperScanner {
    /// A scanner over `adapter_count` discovered adapters, the first one
    /// selected.  Fails with `AdapterUnavailable` when there is none to
    /// select.
    pub fn new(adapter_count: usize) -> (r: Result<Self, FlipperError>)
        ensures
            adapter_count == 0 ==> r == Err::<Self, FlipperError>(
                FlipperError::AdapterUnavailable,
            ),
            adapter_count > 0 ==> (r matches Ok(s) && s.adapter_count == adapter_count
                && s.adapter_idx == 0),
    {
        if adapter_count == 0 {
            Err(FlipperError::AdapterUnavailable)
        } else {
            Ok(FlipperScanner { adapter_count, adapter_idx: 0 })
        }
    }

    /// Select the adapter at `idx`; out-of-range indices are rejected and
    /// leave the selection unchanged.
    pub fn set_adapter(&mut self, idx: usize) -> (r: Result<(), FlipperError>)
        ensures
            final(self).adapter_count == old(self).adapter_count,
            idx < old(self).adapter_count ==> r == Ok::<(), FlipperError>(())
                && final(self).adapter_idx == idx,
            idx >= old(self).adapter_count ==> r == Err::<(), FlipperError>(
                FlipperError::OutOfBounds,
            ) && final(self).adapter_idx == old(self).adapter_idx,
    {
        if idx < self.adapter_count {
            self.adapter_idx = idx;
            Ok(())
        } else {
            Err(FlipperError::OutOfBounds)
        }
    }

    /// Position of the first peripheral whose advertised name contains
    /// `name`, given the peripherals' advertised names in enumeration
    /// order.  Absence is a valid outcome, not an error.
    pub fn search_flipper_by_name(&self, names: &Vec<Option<Vec<u8>>>, name: &[u8]) -> (r: Option<
        usize,
    >)
        ensures
            match r {
                Some(i) => i < names@.len() && spec_name_matches(names@[i as int], name@)
                    && forall|j: int| 0 <= j < i ==> !spec_name_matches(names@[j], name@),
                None => forall|j: int|
                    0 <= j < names@.len() ==> !spec_name_matches(names@[j], name@),
            },
    {
        let mut i: usize = 0;
        while i < names.len()
            invariant
                i <= names@.len(),
                forall|j: int| 0 <= j < i ==> !spec_name_matches(names@[j], name@),
            decreases names@.len() - i,
        {
            match &names[i] {
                Some(s) => {
                    if find_subsequence(s.as_slice(), name).is_some() {
                        return Some(i);
                    }
                },
                None => {},
            }
            i = i + 1;
        }
        None
    }
}

// ---------------------------------------------------------------------
// The transport state machine.
// ---------------------------------------------------------------------

/// The three GATT characteristics the RPC link uses, each given as its
/// position in the discovered characteristic list.  The radio layer keeps
/// the handles themselves; discovery binds these positions once, and they
/// are read-only afterwards.
#[derive(Clone, Copy, Debug)]
pub struct FlipperCharacteristics {
    /// Notify source, device to host.
    pub rx: usize,
    /// Write target, host to device.
    pub tx: usize,
    /// Remaining-buffer indicator for flow control.
    pub ovf: usize,
}

/// Where the radio connection stands.
#[derive(Clone, Copy, Debug, PartialEq, Eq, Structural)]
pub enum BTLEState {
    /// Nothing attempted yet.
    Uninitialized,
    /// The physical connection attempt is under way.
    Connecting,
    /// Connected; waiting for the discovered services.
    DiscoveringServices,
    /// Characteristics bound and notifications subscribed: frame I/O may
    /// start.
    Ready,
}

/// `uuids` holds `target` somewhere.
pub open spec fn spec_has_uuid(uuids: Seq<u128>, target: u128) -> bool {
    exists|j: int| 0 <= j < uuids.len() && uuids[j] == target
}

/// `i` is the first position at which `uuids` holds `target`.
pub open spec fn spec_first_uuid_at(uuids: Seq<u128>, target: u128, i: int) -> bool {
    &&& 0 <= i < uuids.len()
    &&& uuids[i] == target
    &&& forall|j: int| 0 <= j < i ==> uuids[j] != target
}

/// Position of the first characteristic carrying the given UUID.
fn find_characteristic(uuids: &Vec<u128>, target: u128) -> (r: Option<usize>)
    ensures
        match r {
            Some(i) => spec_first_uuid_at(uuids@, target, i as int),
            None => !spec_has_uuid(uuids@, target),
        },
{
    let mut i: usize = 0;
    while i < uuids.len()
        invariant
            i <= uuids@.len(),
            forall|j: int| 0 <= j < i ==> uuids@[j] != target,
        decreases uuids@.len() - i,
    {
        if uuids[i] == target {
            return Some(i);
        }
        i = i + 1;
    }
    None
}

/// The BLE transport state machine for one peripheral.  The radio layer
/// connects, discovers and subscribes; this type decides what each of
/// those outcomes means for the session.
pub struct BTLETransport {
    /// Connection progress.
    pub state: BTLEState,
    /// The bound characteristics, once discovery has succeeded.
    pub chars: Option<FlipperCharacteristics>,
    /// Framing state for notification payloads.
    pub codec: FlipperCodec,
}

impl BTLETransport {
    /// A transport for a discovered peripheral, not yet connected.
    pub fn new() -> (r: Self)
        ensures
            r.state is Uninitialized,
            r.chars is None,
            r.codec@ == Seq::<u8>::empty(),
    {
        BTLETransport { state: BTLEState::Uninitialized, chars: None, codec: FlipperCodec::default() }
    }

    /// Record that the physical connection attempt has started.
    pub fn begin_connect(&mut self)
        requires
            old(self).state is Uninitialized,
        ensures
            final(self).state is Connecting,
            final(self).chars == old(self).chars,
            final(self).codec@ == old(self).codec@,
    {
        self.state = BTLEState::Connecting;
    }

    /// Record that the connection is up and service discovery has begun.
    pub fn on_connected(&mut self)
        requires
            old(self).state is Connecting,
        ensures
            final(self).state is DiscoveringServices,
            final(self).chars == old(self).chars,
            final(self).codec@ == old(self).codec@,
    {
        self.state = BTLEState::DiscoveringServices;
    }

    /// Bind the three required characteristics out of the UUIDs that
    /// service discovery produced, in discovery order.  Fails with
    /// `BTNoCharacteristics`, and stays in discovery, when any of the
    /// three is absent; the connection is then unusable for frames.  On
    /// success the radio layer must subscribe to notifications on the
    /// bound notify characteristic before frame I/O starts.
    pub fn on_services_discovered(&mut self, uuids: &Vec<u128>) -> (r: Result<(), FlipperError>)
        requires
            old(self).state is DiscoveringServices,
        ensures
            final(self).codec@ == old(self).codec@,
            ({
                let found = spec_has_uuid(uuids@, BLE_RX_CHARACTERISTIC_UUID) && spec_has_uuid(
                    uuids@,
                    BLE_TX_CHARACTERISTIC_UUID,
                ) && spec_has_uuid(uuids@, BLE_OVERFLOW_CHARACTERISTIC_UUID);
                if found {
                    &&& r == Ok::<(), FlipperError>(())
                    &&& final(self).state is Ready
                    &&& final(self).chars matches Some(c) && spec_first_uuid_at(
                        uuids@,
                        BLE_RX_CHARACTERISTIC_UUID,
                        c.rx as int,
                    ) && spec_first_uuid_at(uuids@, BLE_TX_CHARACTERISTIC_UUID, c.tx as int)
                        && spec_first_uuid_at(
                        uuids@,
                        BLE_OVERFLOW_CHARACTERISTIC_UUID,
                        c.ovf as int,
                    )
                } else {
                    &&& r == Err::<(), FlipperError>(FlipperError::BTNoCharacteristics)
                    &&& final(self).state is DiscoveringServices
                    &&& final(self).chars == old(self).chars
                }
            }),
    {
        let rx = match find_characteristic(uuids, BLE_RX_CHARACTERISTIC_UUID) {
            Some(i) => i,
            None => {
                return Err(FlipperError::BTNoCharacteristics);
            },
        };
        let tx = match find_characteristic(uuids, BLE_TX_CHARACTERISTIC_UUID) {
            Some(i) => i,
            None => {
                return Err(FlipperError::BTNoCharacteristics);
            },
        };
        let ovf = match find_characteristic(uuids, BLE_OVERFLOW_CHARACTERISTIC_UUID) {
            Some(i) => i,
            None => {
                return Err(FlipperError::BTNoCharacteristics);
            },
        };
        self.chars = Some(FlipperCharacteristics { rx, tx, ovf });
        self.state = BTLEState::Ready;
        Ok(())
    }
}

impl FlipperFrameReceiver for BTLETransport {
    open spec fn rx_ready(&self) -> bool {
        self.state is Ready
    }

    open spec fn rx_buffer(&self) -> Seq<u8> {
        self.codec@
    }

    fn read_frame(&mut self, chunk: &[u8]) -> (r: Result<Option<Vec<u8>>, FlipperError>) {
        self.codec.decode(chunk)
    }
}

impl FlipperFrameSender for BTLETransport {
    open spec fn tx_ready(&self) -> bool {
        self.state is Ready
    }

    fn write_frame(&mut self, data: &[u8]) -> (r: Result<Vec<u8>, FlipperError>) {
        self.codec.encode(data)
    }
}

/// The big-endian unsigned integer a four-byte value carries.
pub open spec fn spec_be_u32(b: Seq<u8>) -> nat {
    (b[0] as nat) * 0x1000000 + (b[1] as nat) * 0x10000 + (b[2] as nat) * 0x100 + (b[3] as nat)
}

/// Decode the overflow characteristic's value: a four-byte big-endian
/// count of the bytes still free in the device's receive buffer.  The
/// transport reads it before writing but does not yet act on it; frames
/// larger than the free space are neither chunked nor delayed.
pub fn parse_overflow_value(value: &[u8]) -> (r: u32)
    requires
        value@.len() == 4,
    ensures
        r as nat == spec_be_u32(value@),
{
    (value[0] as u32) * 0x1000000 + (value[1] as u32) * 0x10000 + (value[2] as u32) * 0x100 + (
    value[3] as u32)
}

// ---------------------------------------------------------------------
// The split halves.
// ---------------------------------------------------------------------

/// The sending half of a split BLE connection: the positions of the
/// write-target and flow-control characteristics, plus its own framing
/// state.  The shared peripheral handle lives with the radio layer, which
/// must take it only for the duration of one write, never across an
/// unrelated wait, so that the receiving half is not stalled.
pub struct BTLEFrameSender {
    /// Position of the write characteristic in the discovery order.
    pub tx_characteristic: usize,
    /// Position of the overflow characteristic in the discovery order.
    pub ovf_characteristic: usize,
    /// Framing state of this half, independent of the receiver's.
    pub codec: FlipperCodec,
}

impl BTLEFrameSender {
    /// A sender half over the given bound characteristics.
    pub fn new(tx_chr: usize, ovf_chr: usize) -> (r: Self)
        ensures
            r.tx_characteristic == tx_chr,
            r.ovf_characteristic == ovf_chr,
            r.codec@ == Seq::<u8>::empty(),
    {
        BTLEFrameSender {
            tx_characteristic: tx_chr,
            ovf_characteristic: ovf_chr,
            codec: FlipperCodec::default(),
        }
    }
}

impl FlipperFrameSender for BTLEFrameSender {
    open spec fn tx_ready(&self) -> bool {
        true
    }

    fn write_frame(&mut self, data: &[u8]) -> (r: Result<Vec<u8>, FlipperError>) {
        self.codec.encode(data)
    }
}

/// The receiving half of a split BLE connection: the position of the
/// subscribed notify characteristic, plus its own framing state.
/// Notification delivery is push-driven, so this half never contends with
/// the sender for the shared handle.
pub struct BTLEFrameReceiver {
    /// Position of the notify characteristic in the discovery order.
    pub rx_characteristic: usize,
    /// Framing state of this half, independent of the sender's.
    pub codec: FlipperCodec,
}

impl BTLEFrameReceiver {
    /// A receiver half over the given bound characteristic.
    pub fn new(rx_chr: usize) -> (r: Self)
        ensures
            r.rx_characteristic == rx_chr,
            r.codec@ == Seq::<u8>::empty(),
    {
        BTLEFrameReceiver { rx_characteristic: rx_chr, codec: FlipperCodec::default() }
    }
}

impl FlipperFrameReceiver for BTLEFrameReceiver {
    open spec fn rx_ready(&self) -> bool {
        true
    }

    open spec fn rx_buffer(&self) -> Seq<u8> {
        self.codec@
    }

    fn read_frame(&mut self, chunk: &[u8]) -> (r: Result<Option<Vec<u8>>, FlipperError>) {
        self.codec.decode(chunk)
    }
}

impl FlipperTransport for BTLETransport {
    type Receiver = BTLEFrameReceiver;

    type Sender = BTLEFrameSender;

    open spec fn ready(&self) -> bool {
        self.state is Ready && self.chars is Some
    }

    /// Split the connection into its two halves: the receiver keeps the
    /// notify characteristic, the sender the write and flow-control
    /// characteristics, and each gets fresh framing state.  The radio
    /// layer shares the one peripheral handle between them under
    /// per-operation mutual exclusion.
    fn split_stream(self) -> (r: (BTLEFrameReceiver, BTLEFrameSender))
        ensures
            ({
                &&& self.chars matches Some(c)
                &&& r.0.rx_characteristic == c.rx
                &&& r.1.tx_characteristic == c.tx
                &&& r.1.ovf_characteristic == c.ovf
            }),
    {
        let chars = match self.chars {
            Some(c) => c,
            None => unreached(),
        };
        (BTLEFrameReceiver::new(chars.rx), BTLEFrameSender::new(chars.tx, chars.ovf))
    }
}

} // verus!
