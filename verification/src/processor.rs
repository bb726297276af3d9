//! The node-side processor: 64 input and 64 output bits kept as one
//! `u64` each, wrapped around a framing machine that consumes received
//! bytes. Reading and writing the bytes off the transport is the
//! caller's business; this type holds the state and the bit access.

use vstd::prelude::*;

use crate::decoder::spec_step;
use crate::decoder::CmriState;
use crate::decoder::CmriStateMachine;
use crate::decoder::DecoderModel;
use crate::decoder::RxState;
use crate::error::Error;
use crate::message::MessageType;

verus! {

/// Bits are numbered from the most significant end, so bit 0 is the
/// top bit and byte 0 the top byte of the word.
pub const OUTPUT_BITS: u8 = 64;

/// The output word seen as big-endian bytes.
pub const OUTPUT_BYTES: u8 = OUTPUT_BITS / 8;

/// One addressed bit of a 64-bit word, counted from the most
/// significant end.
pub open spec fn spec_get_bit(bits: u64, bit: u8) -> bool
    recommends
        bit < 64,
{
    (bits >> ((63 - bit) as u64)) & 1 == 1
}

/// One addressed byte of a 64-bit word, counted from the most
/// significant end.
pub open spec fn spec_get_byte(bits: u64, byte: u8) -> u8
    recommends
        byte < 8,
{
    ((bits >> (((7 - byte) as u64) * 8)) & 0xff) as u8
}

/// The word with one addressed byte replaced, all other bits kept.
pub open spec fn spec_set_byte(bits: u64, byte: u8, val: u8) -> u64
    recommends
        byte < 8,
{
    (bits & !(0xffu64 << (((7 - byte) as u64) * 8))) | ((val as u64) << (((7 - byte) as u64) * 8))
}

/// Stores 64 input and 64 output bits as u64, plus the framing machine
/// that fills them from the wire.
pub struct CmriProcessor {
    pub input_bits: u64,
    pub output_bits: u64,
    pub state: CmriStateMachine,
}

impl CmriProcessor {
    /// The owned framing machine keeps its buffer discipline.
    pub closed spec fn wf(&self) -> bool {
        self.state.wf()
    }

    /// The model of the owned framing machine.
    pub closed spec fn decoder(&self) -> DecoderModel {
        self.state@
    }

    /// A fresh processor: all bits clear, framing machine idle. The
    /// transport (UART or otherwise) is configured by the caller.
    pub fn new() -> (r: CmriProcessor)
        ensures
            r.wf(),
            r.input_bits == 0,
            r.output_bits == 0,
            r.decoder().state == CmriState::Idle,
            r.decoder().address == None::<u8>,
            r.decoder().message_type == None::<MessageType>,
            r.decoder().payload == Seq::<u8>::empty(),
            r.decoder().filter == None::<u8>,
    {
        CmriProcessor { input_bits: 0, output_bits: 0, state: CmriStateMachine::new() }
    }

    /// Feed one received byte to the framing machine. Returns true
    /// when a complete message has arrived, so the caller can update
    /// hardware outputs and pull new sensor data in before the next
    /// poll; type-specific handling of the message is the caller's.
    pub fn process(&mut self, byte: u8) -> (done: bool)
        requires
            old(self).wf(),
        ensures
            final(self).wf(),
            final(self).input_bits == old(self).input_bits,
            final(self).output_bits == old(self).output_bits,
            ({
                let (m, res) = spec_step(old(self).decoder(), byte);
                final(self).decoder() == m && done == (res == Ok::<RxState, Error>(
                    RxState::Complete,
                ))
            }),
    {
        match self.state.process(byte) {
            Ok(RxState::Complete) => true,
            _ => false,
        }
    }

    /// Read one output bit; a bit number past the end reads as clear.
    pub fn get_bit(&self, bit: u8) -> (r: bool)
        ensures
            bit < OUTPUT_BITS ==> r == spec_get_bit(self.output_bits, bit),
            bit >= OUTPUT_BITS ==> r == false,
    {
        // Ignore overflows
        if bit > OUTPUT_BITS - 1 {
            return false;
        }
        let sh: u64 = (63 - bit) as u64;
        let mask: u64 = 1u64 << sh;
        let r = self.output_bits & mask != 0;
        proof {
            let x = self.output_bits;
            assert(sh < 64 ==> ((x & (1u64 << sh) != 0) == ((x >> sh) & 1 == 1))) by (bit_vector);
        }
        r
    }

    /// Read one output byte, big-endian; a byte number past the end
    /// reads as zero.
    pub fn get_byte(&self, byte: u8) -> (r: u8)
        ensures
            byte < OUTPUT_BYTES ==> r == spec_get_byte(self.output_bits, byte),
            byte >= OUTPUT_BYTES ==> r == 0,
    {
        // ignore overflows
        if byte > OUTPUT_BYTES - 1 {
            return 0;
        }
        let sh: u64 = (7 - byte) as u64 * 8;
        ((self.output_bits >> sh) & 0xff) as u8
    }

    /// Replace one input byte, big-endian; a byte number past the end
    /// changes nothing.
    pub fn set_byte(&mut self, byte: u8, state: u8)
        ensures
            final(self).output_bits == old(self).output_bits,
            final(self).decoder() == old(self).decoder(),
            final(self).wf() == old(self).wf(),
            byte >= OUTPUT_BYTES ==> final(self).input_bits == old(self).input_bits,
            byte < OUTPUT_BYTES ==> final(self).input_bits == spec_set_byte(
                old(self).input_bits,
                byte,
                state,
            ),
    {
        // ignore overflows
        if byte > OUTPUT_BYTES - 1 {
            return;
        }
        let sh: u64 = (7 - byte) as u64 * 8;
        self.input_bits = (self.input_bits & !(0xffu64 << sh)) | ((state as u64) << sh);
    }
}

} // verus!
