//! The streaming decoder: a byte-at-a-time state machine that recovers
//! framed messages from an unstructured byte stream and resynchronises
//! itself on any malformed input.
//!
//! The machine is modelled by [`DecoderModel`] and the pure transition
//! function [`spec_step`]; `CmriStateMachine::process` is proved to
//! follow that function exactly, one input byte per call.

use vstd::prelude::*;

use crate::error::Error;
use crate::message::CmriMessage;
use crate::message::MessageType;
use crate::message::spec_message_type_of;
use crate::message::CMRI_ESCAPE_BYTE;
use crate::message::CMRI_PREAMBLE_BYTE;
use crate::message::CMRI_START_BYTE;
use crate::message::CMRI_STOP_BYTE;
use crate::message::MAX_PAYLOAD_LEN;

verus! {

/// Possible states of the C/MRI framing machine.
#[derive(Copy, Clone, Debug, PartialEq, Eq, Structural)]
pub enum CmriState {
    /// Listening for the first PREAMBLE; idle-fill bytes are ignored.
    Idle,
    /// One PREAMBLE seen; a second confirms a frame start.
    Attn,
    /// Both PREAMBLEs seen; expecting the START byte.
    Start,
    /// Expecting the address byte.
    Addr,
    /// Expecting the message-type byte.
    Type,
    /// Accepting payload bytes until STOP.
    Data,
    /// The next byte is literal payload data, whatever its value.
    Escape,
}

/// What one processed byte meant to the caller.
#[derive(Copy, Clone, Debug, PartialEq, Eq, Structural)]
pub enum RxState {
    /// Frame in progress, or idle: keep feeding bytes.
    Listening,
    /// A full message has been decoded and is ready to be read.
    Complete,
}

/// The mathematical state of a decoder: framing state, the in-progress
/// message, and the optional address filter.
#[verifier::ext_equal]
pub ghost struct DecoderModel {
    pub state: CmriState,
    pub address: Option<u8>,
    pub message_type: Option<MessageType>,
    pub payload: Seq<u8>,
    pub filter: Option<u8>,
}

/// The model after the decoder discards its in-progress frame and
/// resynchronises; only the address filter survives.
pub open spec fn spec_cleared(d: DecoderModel) -> DecoderModel {
    DecoderModel {
        state: CmriState::Idle,
        address: None,
        message_type: None,
        payload: Seq::empty(),
        filter: d.filter,
    }
}

/// The transition table of the decoder: one input byte takes the model
/// to its next state and yields the outcome reported to the caller.
pub open spec fn spec_step(d: DecoderModel, byte: u8) -> (DecoderModel, Result<
    RxState,
    Error,
>) {
    match d.state {
        CmriState::Idle => if byte == CMRI_PREAMBLE_BYTE {
            (
                DecoderModel { state: CmriState::Attn, ..spec_cleared(d) },
                Ok(RxState::Listening),
            )
        } else {
            (d, Ok(RxState::Listening))
        },
        CmriState::Attn => if byte == CMRI_PREAMBLE_BYTE {
            (DecoderModel { state: CmriState::Start, ..d }, Ok(RxState::Listening))
        } else {
            (spec_cleared(d), Ok(RxState::Listening))
        },
        CmriState::Start => if byte == CMRI_START_BYTE {
            (DecoderModel { state: CmriState::Addr, ..d }, Ok(RxState::Listening))
        } else {
            (spec_cleared(d), Ok(RxState::Listening))
        },
        CmriState::Addr => match d.filter {
            Some(f) => if f != byte {
                (spec_cleared(d), Ok(RxState::Listening))
            } else {
                (
                    DecoderModel { state: CmriState::Type, address: Some(byte), ..d },
                    Ok(RxState::Listening),
                )
            },
            None => (
                DecoderModel { state: CmriState::Type, address: Some(byte), ..d },
                Ok(RxState::Listening),
            ),
        },
        CmriState::Type => match spec_message_type_of(byte) {
            Some(t) => (
                DecoderModel { state: CmriState::Data, message_type: Some(t), ..d },
                Ok(RxState::Listening),
            ),
            None => (spec_cleared(d), Ok(RxState::Listening)),
        },
        CmriState::Data => if byte == CMRI_ESCAPE_BYTE {
            (DecoderModel { state: CmriState::Escape, ..d }, Ok(RxState::Listening))
        } else if byte == CMRI_STOP_BYTE {
            (DecoderModel { state: CmriState::Idle, ..d }, Ok(RxState::Complete))
        } else if d.payload.len() < MAX_PAYLOAD_LEN {
            (DecoderModel { payload: d.payload.push(byte), ..d }, Ok(RxState::Listening))
        } else {
            (spec_cleared(d), Err(Error::DataTooLong))
        },
        CmriState::Escape => if d.payload.len() < MAX_PAYLOAD_LEN {
            (
                DecoderModel { state: CmriState::Data, payload: d.payload.push(byte), ..d },
                Ok(RxState::Listening),
            )
        } else {
            (spec_cleared(d), Err(Error::DataTooLong))
        },
    }
}

/// The model after a whole sequence of bytes has been processed.
pub open spec fn spec_run(d: DecoderModel, bytes: Seq<u8>) -> DecoderModel
    decreases bytes.len(),
{
    if bytes.len() == 0 {
        d
    } else {
        spec_run(spec_step(d, bytes.first()).0, bytes.drop_first())
    }
}

/// Every byte of the sequence is answered with `Ok(Listening)`.
pub open spec fn spec_all_listening(d: DecoderModel, bytes: Seq<u8>) -> bool
    decreases bytes.len(),
{
    bytes.len() == 0 || (spec_step(d, bytes.first()).1 == Ok::<RxState, Error>(RxState::Listening)
        && spec_all_listening(spec_step(d, bytes.first()).0, bytes.drop_first()))
}

/// The outcome reported for the last byte of a non-empty sequence.
pub open spec fn spec_last_outcome(d: DecoderModel, bytes: Seq<u8>) -> Result<RxState, Error>
    recommends
        bytes.len() > 0,
    decreases bytes.len(),
{
    if bytes.len() <= 1 {
        spec_step(d, bytes.first()).1
    } else {
        spec_last_outcome(spec_step(d, bytes.first()).0, bytes.drop_first())
    }
}

/// Running a concatenation is running the parts one after the other.
pub proof fn lemma_spec_run_append(d: DecoderModel, s1: Seq<u8>, s2: Seq<u8>)
    ensures
        spec_run(d, s1 + s2) == spec_run(spec_run(d, s1), s2),
    decreases s1.len(),
{
    if s1.len() == 0 {
        assert(s1 + s2 =~= s2);
    } else {
        assert((s1 + s2).first() == s1.first());
        assert((s1 + s2).drop_first() =~= s1.drop_first() + s2);
        lemma_spec_run_append(spec_step(d, s1.first()).0, s1.drop_first(), s2);
    }
}

/// A concatenation keeps the caller listening exactly when both parts do.
pub proof fn lemma_spec_all_listening_append(d: DecoderModel, s1: Seq<u8>, s2: Seq<u8>)
    ensures
        spec_all_listening(d, s1 + s2) == (spec_all_listening(d, s1) && spec_all_listening(
            spec_run(d, s1),
            s2,
        )),
    decreases s1.len(),
{
    if s1.len() == 0 {
        assert(s1 + s2 =~= s2);
    } else {
        assert((s1 + s2).first() == s1.first());
        assert((s1 + s2).drop_first() =~= s1.drop_first() + s2);
        lemma_spec_all_listening_append(spec_step(d, s1.first()).0, s1.drop_first(), s2);
    }
}

/// The outcome of the last byte only depends on the state reached
/// before the trailing part begins.
pub proof fn lemma_spec_last_outcome_append(d: DecoderModel, s1: Seq<u8>, s2: Seq<u8>)
    requires
        s2.len() > 0,
    ensures
        spec_last_outcome(d, s1 + s2) == spec_last_outcome(spec_run(d, s1), s2),
    decreases s1.len(),
{
    if s1.len() == 0 {
        assert(s1 + s2 =~= s2);
    } else {
        assert((s1 + s2).first() == s1.first());
        assert((s1 + s2).drop_first() =~= s1.drop_first() + s2);
        lemma_spec_last_outcome_append(spec_step(d, s1.first()).0, s1.drop_first(), s2);
    }
}

/// Main state machine, including decoding logic. Owns exactly one
/// in-progress message, the current framing state, and the optional
/// address filter.
pub struct CmriStateMachine {
    state: CmriState,
    message: CmriMessage,
    /// If set, decoding will only accept messages directed at this
    /// address and discard all others.
    address_filter: Option<u8>,
}

impl View for CmriStateMachine {
    type V = DecoderModel;

    closed spec fn view(&self) -> DecoderModel {
        DecoderModel {
            state: self.state,
            address: self.message.address,
            message_type: self.message.message_type,
            payload: self.message.payload_view(),
            filter: self.address_filter,
        }
    }
}

impl CmriStateMachine {
    /// The owned message keeps its buffer discipline.
    pub closed spec fn wf(&self) -> bool {
        self.message.wf()
    }

    /// The raw bytes of the owned message's payload buffer, the stale
    /// region beyond the logical length included.
    pub closed spec fn payload_buffer(&self) -> Seq<u8> {
        self.message.payload@
    }

    /// A fresh decoder: `Idle`, empty message over a zeroed buffer,
    /// no filter.
    pub fn new() -> (r: CmriStateMachine)
        ensures
            r.wf(),
            r@.state == CmriState::Idle,
            r@.address == None::<u8>,
            r@.message_type == None::<MessageType>,
            r@.payload == Seq::<u8>::empty(),
            r@.filter == None::<u8>,
            r.payload_buffer().len() == MAX_PAYLOAD_LEN,
            forall|j: int| 0 <= j < MAX_PAYLOAD_LEN ==> r.payload_buffer()[j] == 0u8,
    {
        let r = CmriStateMachine {
            state: CmriState::Idle,
            message: CmriMessage::new(),
            address_filter: None,
        };
        r
    }

    /// Returns the current state of the system.
    pub fn state(&self) -> (s: CmriState)
        ensures
            s == self@.state,
    {
        self.state
    }

    /// Sets an address filter so that the state machine will only
    /// accept messages targeted at us; a new value replaces the old.
    pub fn filter(&mut self, addr: u8)
        requires
            old(self).wf(),
        ensures
            final(self).wf(),
            final(self)@ == (DecoderModel { filter: Some(addr), ..old(self)@ }),
    {
        self.address_filter = Some(addr);
    }

    /// Gets a reference to the decoded (or in-progress) message.
    pub fn message(&self) -> (m: &CmriMessage)
        requires
            self.wf(),
        ensures
            m.wf(),
            m.address == self@.address,
            m.message_type == self@.message_type,
            m.payload_view() == self@.payload,
            m.payload@ == self.payload_buffer(),
    {
        &self.message
    }

    /// Discard the in-progress message and return to `Idle`: the
    /// payload buffer is zeroed whole, so no stale byte survives.
    pub fn clear(&mut self)
        requires
            old(self).wf(),
        ensures
            final(self).wf(),
            final(self)@ == spec_cleared(old(self)@),
            final(self).payload_buffer().len() == MAX_PAYLOAD_LEN,
            forall|j: int| 0 <= j < MAX_PAYLOAD_LEN ==> final(self).payload_buffer()[j] == 0u8,
    {
        self.message.clear();
        self.state = CmriState::Idle;
    }

    /// Main process function. Takes in one byte off the wire, advances
    /// the framing state exactly as [`spec_step`] says, and reports
    /// completion or a payload overflow.
    pub fn process(&mut self, byte: u8) -> (r: Result<RxState, Error>)
        requires
            old(self).wf(),
        ensures
            final(self).wf(),
            ({
                let (m, res) = spec_step(old(self)@, byte);
                final(self)@ == m && r == res
            }),
    {
        match self.state {
            CmriState::Idle => {
                // Idle to Attn if byte is PREAMBLE
                if byte == CMRI_PREAMBLE_BYTE {
                    self.clear();
                    self.state = CmriState::Attn;
                }
                // Ignore other bytes while Idle
            },
            CmriState::Attn => {
                // Attn to Start if byte is PREAMBLE
                if byte == CMRI_PREAMBLE_BYTE {
                    self.state = CmriState::Start;
                } else {
                    // Otherwise discard and reset to Idle
                    self.clear();
                }
            },
            CmriState::Start => {
                // start byte must be valid
                if byte == CMRI_START_BYTE {
                    self.state = CmriState::Addr;
                } else {
                    // Otherwise discard and reset to Idle
                    self.clear();
                }
            },
            CmriState::Addr => {
                // Take the next byte as-is for an address
                if let Some(addr) = self.address_filter {
                    // A filter has been defined
                    if addr != byte {
                        // Not our address, discard the message
                        self.clear();
                        return Ok(RxState::Listening);
                    }
                }
                self.message.address = Some(byte);
                self.state = CmriState::Type;
            },
            CmriState::Type => {
                // Decode the message type and reset if it is invalid
                match MessageType::try_from(byte) {
                    Ok(mtype) => {
                        self.message.message_type = Some(mtype);
                        self.state = CmriState::Data;
                    },
                    Err(_) => {
                        // Invalid message type; reset
                        self.clear();
                    },
                }
            },
            CmriState::Data => {
                if byte == CMRI_ESCAPE_BYTE {
                    // escape the next byte; the escape byte itself is
                    // never pushed to the payload
                    self.state = CmriState::Escape;
                } else if byte == CMRI_STOP_BYTE {
                    // end transmission
                    self.state = CmriState::Idle;
                    return Ok(RxState::Complete);
                } else {
                    // any other byte we take as data
                    match self.message.push(byte) {
                        Ok(_) => {},
                        Err(e) => {
                            // Reset the state machine so that we can
                            // start afresh
                            self.clear();
                            return Err(e);
                        },
                    }
                }
            },
            CmriState::Escape => {
                // Escape the next byte, so accept it as data.
                match self.message.push(byte) {
                    Ok(_) => {
                        self.state = CmriState::Data;
                    },
                    Err(e) => {
                        // Error writing message -> reset state machine
                        self.clear();
                        return Err(e);
                    },
                }
            },
        }
        Ok(RxState::Listening)
    }
}

impl Default for CmriStateMachine {
    /// Same as [`CmriStateMachine::new`].
    fn default() -> (r: Self)
        ensures
            r.wf(),
            r@.state == CmriState::Idle,
            r@.address == None::<u8>,
            r@.message_type == None::<MessageType>,
            r@.payload == Seq::<u8>::empty(),
            r@.filter == None::<u8>,
    {
        CmriStateMachine::new()
    }
}

} // verus!
