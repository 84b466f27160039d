//! The transport abstraction shared by the serial and BLE links.
//!
//! Both transports are connection state machines around the same framing
//! codec.  The surrounding I/O layer performs the reads, writes and waits;
//! the state machines here decide what each batch of bytes means and what
//! must happen next.  A transport that has reached its ready state can be
//! split into a receiver half and a sender half that share the underlying
//! connection but keep independent framing state, so different tasks can
//! drive them concurrently.

use vstd::prelude::*;

use crate::codec::{spec_decode_post, spec_frame, spec_step_rest};
use crate::consts::MAX_FRAME_LENGTH;
use crate::error::FlipperError;

pub mod ble;
pub mod serial;

verus! {

/// The frame-sending capability of a connection.
pub trait FlipperFrameSender {
    /// Whether the connection is ready for frame output.
    spec fn tx_ready(&self) -> bool;

    /// Turn `data` into the next outgoing wire frame: its length as a
    /// varint, then the bytes themselves.  The surrounding I/O layer
    /// writes the returned bytes to the link in full.  Fails with
    /// `DataTooLarge` when the body exceeds the maximum frame length.
    fn write_frame(&mut self, data: &[u8]) -> (r: Result<Vec<u8>, FlipperError>)
        requires
            old(self).tx_ready(),
        ensures
            final(self).tx_ready(),
            data@.len() > MAX_FRAME_LENGTH ==> r == Err::<Vec<u8>, FlipperError>(
                FlipperError::DataTooLarge(data@.len() as usize),
            ),
            data@.len() <= MAX_FRAME_LENGTH ==> (r matches Ok(w) && w@ == spec_frame(data@)),
    ;
}

/// The frame-receiving capability of a connection.
pub trait FlipperFrameReceiver {
    /// Whether the connection is ready for frame input.
    spec fn rx_ready(&self) -> bool;

    /// The bytes received but not yet drained as frames.
    spec fn rx_buffer(&self) -> Seq<u8>;

    /// Feed bytes that arrived from the link and drain at most one
    /// complete frame.  Call with an empty chunk to drain a frame that
    /// earlier chunks may already have completed; call repeatedly to
    /// drain several buffered frames one at a time, in arrival order.
    fn read_frame(&mut self, chunk: &[u8]) -> (r: Result<Option<Vec<u8>>, FlipperError>)
        requires
            old(self).rx_ready(),
        ensures
            final(self).rx_ready(),
            spec_decode_post(old(self).rx_buffer() + chunk@, r, final(self).rx_buffer()),
    ;
}

/// A connection that, once ready, can be split into independently usable
/// halves.
pub trait FlipperTransport {
    /// The receiving half this transport splits into.
    type Receiver: FlipperFrameReceiver;

    /// The sending half this transport splits into.
    type Sender: FlipperFrameSender;

    /// Whether initialization has completed and frame I/O may start.
    spec fn ready(&self) -> bool;

    /// Consume the transport and hand out its two halves.  Each half
    /// starts with fresh framing state: read and write framing are
    /// independent, and the transport's own partial-decode buffer is
    /// discarded with it.
    fn split_stream(self) -> (r: (Self::Receiver, Self::Sender))
        requires
            self.ready(),
        ensures
            r.0.rx_ready(),
            r.0.rx_buffer() == Seq::<u8>::empty(),
            r.1.tx_ready(),
    ;
}

/// One operation on a split connection, in the order the two halves'
/// tasks happen to interleave: a send of a frame body, or a receive of a
/// chunk that arrived from the link.
pub enum ChannelOp {
    /// The sender half encodes and sends this body.
    Send(Seq<u8>),
    /// The receiver half feeds this chunk through its codec.
    Receive(Seq<u8>),
}

/// The receiver half's buffered bytes after a sequence of operations,
/// starting from `buf`: each receive appends its chunk and drains what
/// one decode call drains; a send is not the receiver's operation at all.
pub open spec fn spec_rx_after(buf: Seq<u8>, ops: Seq<ChannelOp>) -> Seq<u8>
    decreases ops.len(),
{
    if ops.len() == 0 {
        buf
    } else {
        let rest = spec_rx_after(buf, ops.drop_last());
        match ops.last() {
            ChannelOp::Send(_) => rest,
            ChannelOp::Receive(c) => spec_step_rest(rest + c),
        }
    }
}

/// The receives of an operation sequence, in order.
pub open spec fn spec_receives_of(ops: Seq<ChannelOp>) -> Seq<ChannelOp>
    decreases ops.len(),
{
    if ops.len() == 0 {
        ops
    } else {
        let rest = spec_receives_of(ops.drop_last());
        if ops.last() is Receive {
            rest.push(ops.last())
        } else {
            rest
        }
    }
}

/// Split independence: however sends and receives interleave after a
/// split, the receiver half's state is exactly what the receives alone
/// produce — concurrent sends change neither what it holds nor, since
/// each call's outcome is a function of that state and its chunk, what
/// any of its calls yields.  (The sender half's contract speaks of the
/// sent body alone, so the converse holds by its `ensures`.)
pub proof fn lemma_split_independence(buf: Seq<u8>, ops: Seq<ChannelOp>)
    ensures
        spec_rx_after(buf, ops) == spec_rx_after(buf, spec_receives_of(ops)),
    decreases ops.len(),
{
    if ops.len() == 0 {
    } else {
        let pre = ops.drop_last();
        lemma_split_independence(buf, pre);
        if ops.last() is Receive {
            assert(spec_receives_of(pre).push(ops.last()).drop_last() =~= spec_receives_of(pre));
            assert(spec_receives_of(pre).push(ops.last()).last() == ops.last());
        }
    }
}

} // verus!
