//! Raw frame accumulation for a byte-stream bridge: bytes from a START
//! up to and including the STOP are collected verbatim, with no
//! unescaping, so a whole frame can be forwarded in one write.

use vstd::prelude::*;

use crate::message::CMRI_START_BYTE;
use crate::message::CMRI_STOP_BYTE;

verus! {

/// One raw frame in flight through the bridge.
#[derive(Debug, Clone)]
pub struct CmriPacket {
    pub payload: Vec<u8>,
}

impl CmriPacket {
    /// An empty packet.
    pub fn new() -> (r: CmriPacket)
        ensures
            r.payload@ == Seq::<u8>::empty(),
    {
        CmriPacket { payload: Vec::new() }
    }

    /// Append the bytes of the slice, in order, to the packet.
    pub fn append(&mut self, buf: &[u8])
        ensures
            final(self).payload@ == old(self).payload@ + buf@,
    {
        let n = buf.len();
        let mut i: usize = 0;
        while i < n
            invariant
                i <= n,
                n == buf@.len(),
                self.payload@ == old(self).payload@ + buf@.take(i as int),
            decreases n - i,
        {
            let b = buf[i];
            self.payload.push(b);
            proof {
                assert(old(self).payload@ + buf@.take(i as int + 1) =~= (old(
                    self,
                ).payload@ + buf@.take(i as int)).push(b));
            }
            i = i + 1;
        }
        proof {
            assert(buf@.take(n as int) =~= buf@);
        }
    }

    /// Number of bytes accumulated so far.
    pub fn len(&self) -> (n: usize)
        ensures
            n == self.payload@.len(),
    {
        self.payload.len()
    }
}

/// Where the bridge stands between frames.
#[derive(Copy, Clone, Debug, PartialEq, Eq, Structural)]
pub enum BridgeState {
    /// Between frames; bytes other than START are idle fill.
    Idle,
    /// Inside a frame; bytes are collected until STOP.
    Receiving,
}

/// What the bridge does with the byte it just read.
#[derive(Copy, Clone, Debug, PartialEq, Eq, Structural)]
pub enum BridgeAction {
    /// Begin a new packet holding this byte.
    StartPacket,
    /// Append this byte to the packet in flight.
    Append,
    /// Append this byte, then hand the finished packet on and begin an
    /// empty one.
    Emit,
    /// Drop the byte; it is idle fill between frames.
    Ignore,
}

/// The bridge's per-byte decision: a START always opens a new packet,
/// a STOP always closes one, and anything else is kept only while a
/// frame is in flight.
pub open spec fn spec_bridge_step(s: BridgeState, byte: u8) -> (BridgeState, BridgeAction) {
    if byte == CMRI_START_BYTE {
        (BridgeState::Receiving, BridgeAction::StartPacket)
    } else if byte == CMRI_STOP_BYTE {
        (BridgeState::Idle, BridgeAction::Emit)
    } else {
        match s {
            BridgeState::Receiving => (BridgeState::Receiving, BridgeAction::Append),
            BridgeState::Idle => (BridgeState::Idle, BridgeAction::Ignore),
        }
    }
}

/// Decide what to do with one byte read off the stream.
pub fn bridge_step(s: BridgeState, byte: u8) -> (r: (BridgeState, BridgeAction))
    ensures
        r == spec_bridge_step(s, byte),
{
    if byte == CMRI_START_BYTE {
        (BridgeState::Receiving, BridgeAction::StartPacket)
    } else if byte == CMRI_STOP_BYTE {
        (BridgeState::Idle, BridgeAction::Emit)
    } else {
        match s {
            BridgeState::Receiving => (BridgeState::Receiving, BridgeAction::Append),
            BridgeState::Idle => (BridgeState::Idle, BridgeAction::Ignore),
        }
    }
}

} // verus!
