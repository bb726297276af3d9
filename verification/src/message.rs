//! The message model shared by the decoder and the encoder: wire-format
//! constants, the message-type code table, and the bounded payload buffer.

use vstd::prelude::*;

use crate::error::Error;

verus! {

/// Longest payload a message may carry (64 i/o cards at 32 bits each,
/// plus the packet type and address bytes).
pub const MAX_PAYLOAD_LEN: usize = 256;

/// Worst-case size of an encoded frame:
/// * payload of `MAX_PAYLOAD_LEN` bytes, every one escaped,
/// * two PREAMBLE bytes and one START,
/// * one address and one type byte,
/// * one STOP.
pub const TX_BUFFER_LEN: usize = 2 * MAX_PAYLOAD_LEN + 3 + 2 + 1;

/// Frame start marker; appears twice at the head of every frame.
pub const CMRI_PREAMBLE_BYTE: u8 = 0xff;
/// Start-of-address marker, following the two preambles.
pub const CMRI_START_BYTE: u8 = 0x02;
/// End-of-message marker.
pub const CMRI_STOP_BYTE: u8 = 0x03;
/// Marks the next byte as literal payload data, never a control byte.
pub const CMRI_ESCAPE_BYTE: u8 = 0x10;

/// The closed set of message types; each corresponds to one printable
/// ASCII byte on the wire.
#[derive(Copy, Clone, Debug, PartialEq, Eq, Structural)]
pub enum MessageType {
    /// Initialisation (`'I'`)
    Init,
    /// Controller -> Node (`'T'`)
    Transmit,
    /// Node -> Controller (`'R'`)
    Get,
    /// Controller requests status from node (`'P'`)
    Poll,
}

/// The single-byte wire code of each message type.
pub open spec fn spec_message_type_byte(t: MessageType) -> u8 {
    match t {
        MessageType::Init => 0x49,
        MessageType::Transmit => 0x54,
        MessageType::Get => 0x52,
        MessageType::Poll => 0x50,
    }
}

/// Which message type, if any, a wire byte decodes to.
pub open spec fn spec_message_type_of(b: u8) -> Option<MessageType> {
    if b == 0x49 {
        Some(MessageType::Init)
    } else if b == 0x54 {
        Some(MessageType::Transmit)
    } else if b == 0x52 {
        Some(MessageType::Get)
    } else if b == 0x50 {
        Some(MessageType::Poll)
    } else {
        None
    }
}

impl MessageType {
    /// The byte this type is written as on the wire.
    pub fn to_byte(self) -> (b: u8)
        ensures
            b == spec_message_type_byte(self),
    {
        match self {
            MessageType::Init => 0x49,
            MessageType::Transmit => 0x54,
            MessageType::Get => 0x52,
            MessageType::Poll => 0x50,
        }
    }

    /// Decode a wire byte; every byte outside the closed code set is
    /// rejected, never coerced to a default variant.
    pub fn try_from(t: u8) -> (r: Result<MessageType, Error>)
        ensures
            (match spec_message_type_of(t) {
                Some(m) => r == Ok::<MessageType, Error>(m),
                None => r == Err::<MessageType, Error>(Error::InvalidMessageType),
            }),
    {
        if t == 0x49 {
            Ok(MessageType::Init)
        } else if t == 0x54 {
            Ok(MessageType::Transmit)
        } else if t == 0x52 {
            Ok(MessageType::Get)
        } else if t == 0x50 {
            Ok(MessageType::Poll)
        } else {
            Err(Error::InvalidMessageType)
        }
    }
}

/// Encoding and decoding are inverse on the type codes.
pub proof fn lemma_message_type_byte_roundtrip(t: MessageType)
    ensures
        spec_message_type_of(spec_message_type_byte(t)) == Some(t),
{
}

/// True of the payload bytes that must be escaped on the wire;
/// currently only STOP and ESCAPE.
pub open spec fn spec_needs_escape(byte: u8) -> bool {
    byte == CMRI_STOP_BYTE || byte == CMRI_ESCAPE_BYTE
}

/// Returns TRUE if the byte is one which needs escaping.
pub fn needs_escape(byte: u8) -> (r: bool)
    ensures
        r == spec_needs_escape(byte),
{
    byte == CMRI_STOP_BYTE || byte == CMRI_ESCAPE_BYTE
}

/// Takes a slice and embeds it in a payload buffer, leaving the bytes
/// beyond the slice as they were.
pub fn payload_from_slice(payload_buffer: &mut Vec<u8>, input_payload: &[u8]) -> (r: Result<
    (),
    Error,
>)
    requires
        old(payload_buffer)@.len() == MAX_PAYLOAD_LEN,
    ensures
        final(payload_buffer)@.len() == MAX_PAYLOAD_LEN,
        input_payload@.len() > MAX_PAYLOAD_LEN ==> r == Err::<(), Error>(Error::DataTooLong)
            && final(payload_buffer)@ == old(payload_buffer)@,
        input_payload@.len() <= MAX_PAYLOAD_LEN ==> r == Ok::<(), Error>(())
            && final(payload_buffer)@ == input_payload@
            + old(payload_buffer)@.skip(input_payload@.len() as int),
{
    if input_payload.len() > MAX_PAYLOAD_LEN {
        return Err(Error::DataTooLong);
    }
    let n = input_payload.len();
    let mut i: usize = 0;
    while i < n
        invariant
            i <= n,
            n == input_payload@.len(),
            n <= MAX_PAYLOAD_LEN,
            payload_buffer@.len() == MAX_PAYLOAD_LEN,
            forall|j: int| 0 <= j < i ==> payload_buffer@[j] == input_payload@[j],
            forall|j: int| i <= j < MAX_PAYLOAD_LEN ==> payload_buffer@[j] == old(
                payload_buffer,
            )@[j],
        decreases n - i,
    {
        payload_buffer[i] = input_payload[i];
        i += 1;
    }
    proof {
        assert(payload_buffer@ =~= input_payload@ + old(payload_buffer)@.skip(
            input_payload@.len() as int,
        ));
    }
    Ok(())
}

/// What one payload byte contributes to the wire: the byte itself,
/// escaped first if its value collides with a control byte.
pub open spec fn spec_escape_byte(b: u8) -> Seq<u8> {
    if spec_needs_escape(b) {
        seq![CMRI_ESCAPE_BYTE, b]
    } else {
        seq![b]
    }
}

/// The byte-stuffed wire form of a payload: every STOP or ESCAPE value
/// is preceded by an ESCAPE byte, all other bytes pass through.
pub open spec fn spec_escape(p: Seq<u8>) -> Seq<u8>
    decreases p.len(),
{
    if p.len() == 0 {
        Seq::empty()
    } else {
        spec_escape_byte(p.first()) + spec_escape(p.drop_first())
    }
}

/// Escaping a payload one byte longer appends that byte's wire form.
pub proof fn lemma_spec_escape_push(p: Seq<u8>, b: u8)
    ensures
        spec_escape(p.push(b)) == spec_escape(p) + spec_escape_byte(b),
    decreases p.len(),
{
    if p.len() == 0 {
        assert(p.push(b).first() == b);
        assert(p.push(b).drop_first() =~= Seq::<u8>::empty());
        assert(spec_escape(p.push(b)) == spec_escape_byte(b) + spec_escape(Seq::<u8>::empty()));
        assert(spec_escape_byte(b) + Seq::<u8>::empty() =~= spec_escape(p) + spec_escape_byte(b));
    } else {
        assert(p.push(b).first() == p.first());
        assert(p.push(b).drop_first() =~= p.drop_first().push(b));
        lemma_spec_escape_push(p.drop_first(), b);
        assert(spec_escape(p.push(b)) == spec_escape_byte(p.first()) + (spec_escape(p.drop_first())
            + spec_escape_byte(b)));
        assert(spec_escape_byte(p.first()) + (spec_escape(p.drop_first()) + spec_escape_byte(b))
            =~= (spec_escape_byte(p.first()) + spec_escape(p.drop_first())) + spec_escape_byte(b));
    }
}

/// The complete wire frame of a message: two PREAMBLEs, START, the raw
/// address and type bytes, the escaped payload, then STOP.
pub open spec fn spec_frame(addr: u8, t: MessageType, p: Seq<u8>) -> Seq<u8> {
    seq![
        CMRI_PREAMBLE_BYTE,
        CMRI_PREAMBLE_BYTE,
        CMRI_START_BYTE,
        addr,
        spec_message_type_byte(t),
    ] + spec_escape(p) + seq![CMRI_STOP_BYTE]
}

/// The unit of communication: an optional address and type, plus a
/// bounded payload held in a fixed-size buffer with an explicit length.
#[derive(Debug, Clone)]
pub struct CmriMessage {
    pub address: Option<u8>,
    pub message_type: Option<MessageType>,
    pub payload: Vec<u8>,
    pub len: usize,
}

impl CmriMessage {
    /// The buffer keeps its full capacity at all times and the logical
    /// length never exceeds it.
    pub open spec fn wf(&self) -> bool {
        &&& self.payload@.len() == MAX_PAYLOAD_LEN
        &&& self.len <= MAX_PAYLOAD_LEN
    }

    /// The valid prefix of the payload buffer: the only bytes a
    /// consumer may read.
    pub open spec fn payload_view(&self) -> Seq<u8> {
        self.payload@.take(self.len as int)
    }

    /// An empty message: no address, no type, zeroed payload.
    pub fn new() -> (r: CmriMessage)
        ensures
            r.wf(),
            r.address == None::<u8>,
            r.message_type == None::<MessageType>,
            r.len == 0,
            r.payload_view() == Seq::<u8>::empty(),
            forall|j: int| 0 <= j < MAX_PAYLOAD_LEN ==> r.payload@[j] == 0u8,
    {
        let r = CmriMessage {
            address: None,
            message_type: None,
            payload: vec![0u8; MAX_PAYLOAD_LEN],
            len: 0,
        };
        proof {
            assert(r.payload_view() =~= Seq::<u8>::empty());
        }
        r
    }

    /// Assign the address field.
    pub fn address(&mut self, addr: u8)
        ensures
            *final(self) == (CmriMessage { address: Some(addr), ..*old(self) }),
    {
        self.address = Some(addr);
    }

    /// Assign the type field.
    pub fn message_type(&mut self, t: MessageType)
        ensures
            *final(self) == (CmriMessage { message_type: Some(t), ..*old(self) }),
    {
        self.message_type = Some(t);
    }

    /// Replace the payload with a copy of the given slice.
    pub fn payload(&mut self, payload: &[u8]) -> (r: Result<(), Error>)
        requires
            old(self).wf(),
        ensures
            final(self).wf(),
            final(self).address == old(self).address,
            final(self).message_type == old(self).message_type,
            payload@.len() > MAX_PAYLOAD_LEN ==> r == Err::<(), Error>(Error::DataTooLong)
                && *final(self) == *old(self),
            payload@.len() <= MAX_PAYLOAD_LEN ==> r == Ok::<(), Error>(())
                && final(self).payload_view() == payload@,
    {
        if payload.len() > MAX_PAYLOAD_LEN {
            return Err(Error::DataTooLong);
        }
        payload_from_slice(&mut self.payload, payload)?;
        self.len = payload.len();
        proof {
            assert(self.payload_view() =~= payload@);
        }
        Ok(())
    }

    /// Push a byte onto the payload; a full buffer rejects the byte
    /// rather than wrapping or truncating.
    pub fn push(&mut self, byte: u8) -> (r: Result<(), Error>)
        requires
            old(self).wf(),
        ensures
            final(self).wf(),
            old(self).len == MAX_PAYLOAD_LEN ==> r == Err::<(), Error>(Error::DataTooLong)
                && *final(self) == *old(self),
            old(self).len < MAX_PAYLOAD_LEN ==> r == Ok::<(), Error>(())
                && final(self).len == old(self).len + 1
                && final(self).payload@ == old(self).payload@.update(old(self).len as int, byte)
                && final(self).payload_view() == old(self).payload_view().push(byte)
                && final(self).address == old(self).address
                && final(self).message_type == old(self).message_type,
    {
        if self.len == MAX_PAYLOAD_LEN {
            // Buffer is full, which is problematic
            return Err(Error::DataTooLong);
        }
        self.payload[self.len] = byte;
        self.len = self.len + 1;
        proof {
            assert(self.payload_view() =~= old(self).payload_view().push(byte));
        }
        Ok(())
    }

    /// Encode the message into a transmit buffer of `TX_BUFFER_LEN`
    /// bytes. On success the frame [`spec_frame`] stands at the start
    /// of the buffer and every byte after it is untouched. An unset
    /// address or type is a caller-construction error, reported as its
    /// own distinct error before anything is emitted: the buffer is
    /// then left entirely unchanged.
    pub fn encode(&self, buf: &mut Vec<u8>) -> (r: Result<(), Error>)
        requires
            self.wf(),
            old(buf)@.len() == TX_BUFFER_LEN,
        ensures
            final(buf)@.len() == TX_BUFFER_LEN,
            (match (self.address, self.message_type) {
                (None, _) => r == Err::<(), Error>(Error::MissingAddress) && final(buf)@ == old(
                    buf,
                )@,
                (Some(_), None) => r == Err::<(), Error>(Error::MissingType) && final(buf)@ == old(
                    buf,
                )@,
                (Some(a), Some(t)) => {
                    let frame = spec_frame(a, t, self.payload_view());
                    r == Ok::<(), Error>(()) && final(buf)@ == frame + old(buf)@.skip(
                        frame.len() as int,
                    )
                },
            }),
    {
        // Check the message is complete before the first write: no
        // wire bytes are emitted for an incomplete message.
        let addr = match self.address {
            Some(a) => a,
            None => {
                return Err(Error::MissingAddress);
            },
        };
        let mtype = match self.message_type {
            Some(t) => t,
            None => {
                return Err(Error::MissingType);
            },
        };

        let mut pos: usize = 0;

        // Two PREAMBLEs
        buf[pos] = CMRI_PREAMBLE_BYTE;
        pos = pos + 1;
        buf[pos] = CMRI_PREAMBLE_BYTE;
        pos = pos + 1;

        // One START
        buf[pos] = CMRI_START_BYTE;
        pos = pos + 1;

        // One ADDRESS
        buf[pos] = addr;
        pos = pos + 1;

        // One TYPE
        buf[pos] = mtype.to_byte();
        pos = pos + 1;

        let ghost header: Seq<u8> = seq![
            CMRI_PREAMBLE_BYTE,
            CMRI_PREAMBLE_BYTE,
            CMRI_START_BYTE,
            addr,
            spec_message_type_byte(mtype),
        ];
        assert(buf@.take(pos as int) =~= header);

        // Insert the PAYLOAD, escaping control bytes as we go
        let mut i: usize = 0;
        while i < self.len
            invariant
                i <= self.len,
                self.wf(),
                buf@.len() == TX_BUFFER_LEN,
                header.len() == 5,
                pos == 5 + spec_escape(self.payload_view().take(i as int)).len(),
                pos <= 5 + 2 * i,
                buf@.take(pos as int) == header + spec_escape(self.payload_view().take(i as int)),
                forall|j: int| pos <= j < TX_BUFFER_LEN ==> buf@[j] == old(buf)@[j],
            decreases self.len - i,
        {
            let ghost done = self.payload_view().take(i as int);
            let payload_byte = self.payload[i];
            proof {
                assert(self.payload_view().take(i + 1 as int) =~= done.push(payload_byte));
                lemma_spec_escape_push(done, payload_byte);
            }
            if needs_escape(payload_byte) {
                buf[pos] = CMRI_ESCAPE_BYTE;
                pos = pos + 1;
            }
            buf[pos] = payload_byte;
            pos = pos + 1;
            proof {
                assert(buf@.take(pos as int) =~= header + spec_escape(done)
                    + spec_escape_byte(payload_byte));
            }
            i = i + 1;
        }

        // One STOP
        buf[pos] = CMRI_STOP_BYTE;
        proof {
            let frame = spec_frame(addr, mtype, self.payload_view());
            assert(self.payload_view().take(self.len as int) =~= self.payload_view());
            assert(buf@ =~= frame + old(buf)@.skip(frame.len() as int));
        }
        Ok(())
    }

    /// Empty the message: length to zero, buffer zeroed, address and
    /// type back to unset, so no stale byte is ever read again.
    pub fn clear(&mut self)
        requires
            old(self).wf(),
        ensures
            final(self).wf(),
            final(self).address == None::<u8>,
            final(self).message_type == None::<MessageType>,
            final(self).len == 0,
            final(self).payload_view() == Seq::<u8>::empty(),
            forall|j: int| 0 <= j < MAX_PAYLOAD_LEN ==> final(self).payload@[j] == 0u8,
    {
        self.address = None;
        self.message_type = None;
        self.len = 0;
        let mut i: usize = 0;
        while i < MAX_PAYLOAD_LEN
        invariant
            self.payload@.len() == MAX_PAYLOAD_LEN,
            i <= MAX_PAYLOAD_LEN,
            self.len == 0,
            self.address == None::<u8>,
            self.message_type == None::<MessageType>,
            forall|j: int| 0 <= j < i ==> self.payload@[j] == 0u8,
        decreases MAX_PAYLOAD_LEN - i,
        {
            self.payload[i] = 0;
            i += 1;
        }
        proof {
            assert(self.payload_view() =~= Seq::<u8>::empty());
        }
    }
}

impl Default for CmriMessage {
    /// Same as [`CmriMessage::new`].
    fn default() -> (r: Self)
        ensures
            r.wf(),
            r.address == None::<u8>,
            r.message_type == None::<MessageType>,
            r.len == 0,
            r.payload_view() == Seq::<u8>::empty(),
    {
        CmriMessage::new()
    }
}

} // verus!
