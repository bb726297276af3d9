//! A whole-buffer parser for the same wire format the streaming
//! decoder accepts: one frame is parsed out of a byte slice and the
//! index of the first unconsumed byte is returned alongside it.
//!
//! The grammar is pinned down by [`spec_parse`]; `laws` proves that a
//! frame this parser accepts drives the streaming decoder to exactly
//! the same message.

use vstd::prelude::*;

use crate::error::Error;
use crate::message::spec_message_type_of;
use crate::message::MessageType;
use crate::message::CMRI_ESCAPE_BYTE;
use crate::message::CMRI_PREAMBLE_BYTE;
use crate::message::CMRI_START_BYTE;
use crate::message::CMRI_STOP_BYTE;
use crate::message::MAX_PAYLOAD_LEN;

verus! {

/// Why a batch parse did not produce a message.
#[derive(Copy, Clone, Debug, PartialEq, Eq, Structural)]
pub enum ParseError {
    /// The input ended before the frame was complete.
    Incomplete,
    /// A tag byte (PREAMBLE/START, or STOP or ESCAPE for the
    /// single-byte combinators) did not match the input.
    Mismatch,
    /// The type byte matched none of the recognised codes.
    InvalidType,
    /// The payload region holds more than `MAX_PAYLOAD_LEN` unescaped
    /// bytes.
    TooLong,
}

/// To avoid allocations, payloads live in a fixed-length buffer with
/// the logical length kept alongside.
#[derive(Debug, Clone)]
pub struct Payload {
    buf: Vec<u8>,
    len: usize,
}

impl View for Payload {
    type V = Seq<u8>;

    /// A payload is read as its valid prefix.
    closed spec fn view(&self) -> Seq<u8> {
        self.buf@.take(self.len as int)
    }
}

impl Payload {
    /// The buffer keeps its full capacity and the logical length never
    /// exceeds it.
    pub closed spec fn wf(&self) -> bool {
        &&& self.buf@.len() == MAX_PAYLOAD_LEN
        &&& self.len <= MAX_PAYLOAD_LEN
    }

    /// Number of payload bytes held.
    pub fn len(&self) -> (n: usize)
        requires
            self.wf(),
        ensures
            n == self@.len(),
            n <= MAX_PAYLOAD_LEN,
    {
        self.len
    }

    /// An empty payload over a zeroed buffer.
    pub fn new() -> (r: Payload)
        ensures
            r.wf(),
            r@ == Seq::<u8>::empty(),
    {
        let r = Payload { buf: vec![0u8; MAX_PAYLOAD_LEN], len: 0 };
        proof {
            assert(r@ =~= Seq::<u8>::empty());
        }
        r
    }

    /// Append one byte; a full buffer rejects it.
    pub fn try_push(&mut self, inp: u8) -> (r: Result<(), Error>)
        requires
            old(self).wf(),
        ensures
            final(self).wf(),
            final(self)@.len() <= MAX_PAYLOAD_LEN,
            old(self)@.len() == MAX_PAYLOAD_LEN ==> r == Err::<(), Error>(Error::DataTooLong)
                && *final(self) == *old(self),
            old(self)@.len() < MAX_PAYLOAD_LEN ==> r == Ok::<(), Error>(())
                && final(self)@ == old(self)@.push(inp),
    {
        if self.len == MAX_PAYLOAD_LEN {
            return Err(Error::DataTooLong);
        }
        self.buf[self.len] = inp;
        self.len = self.len + 1;
        proof {
            assert(self@ =~= old(self)@.push(inp));
        }
        Ok(())
    }

    /// Drop all held bytes.
    pub fn clear(&mut self)
        requires
            old(self).wf(),
        ensures
            final(self).wf(),
            final(self)@ == Seq::<u8>::empty(),
    {
        self.len = 0;
        proof {
            assert(self@ =~= Seq::<u8>::empty());
        }
    }

    /// The valid prefix as a slice.
    pub fn as_slice(&self) -> (r: &[u8])
        requires
            self.wf(),
        ensures
            r@ == self@,
    {
        let r = &self.buf[0..self.len];
        proof {
            assert(r@ =~= self@);
        }
        r
    }
}

impl Default for Payload {
    /// Same as [`Payload::new`].
    fn default() -> (r: Self)
        ensures
            r.wf(),
            r@ == Seq::<u8>::empty(),
    {
        Payload::new()
    }
}

/// One message as the batch parser returns it: all fields present.
#[derive(Debug, Clone)]
pub struct CmriMessage {
    pub address: u8,
    pub message_type: MessageType,
    pub payload: Payload,
}

/// The three bytes every frame must begin with.
pub open spec fn spec_preamble_tag() -> Seq<u8> {
    seq![CMRI_PREAMBLE_BYTE, CMRI_PREAMBLE_BYTE, CMRI_START_BYTE]
}

/// Some byte available in the input differs from the frame tag.
pub open spec fn spec_tag_mismatch(inp: Seq<u8>) -> bool {
    exists|i: int| 0 <= i < 3 && i < inp.len() && inp[i] != spec_preamble_tag()[i]
}

/// What parsing a payload region yields when the parser has just seen
/// an ESCAPE byte: the next byte is taken literally, whatever it is.
pub open spec fn spec_payload_escaped(inp: Seq<u8>, acc: Seq<u8>) -> Result<
    (int, Seq<u8>),
    ParseError,
>
    decreases inp.len(),
{
    if inp.len() == 0 {
        Err(ParseError::Incomplete)
    } else if acc.len() >= MAX_PAYLOAD_LEN {
        Err(ParseError::TooLong)
    } else {
        match spec_payload(inp.drop_first(), acc.push(inp.first())) {
            Ok(cp) => Ok((cp.0 + 1, cp.1)),
            Err(e) => Err(e),
        }
    }
}

/// What parsing a payload region yields: the unescaped bytes up to an
/// unescaped STOP, together with how many input bytes that took.
pub open spec fn spec_payload(inp: Seq<u8>, acc: Seq<u8>) -> Result<(int, Seq<u8>), ParseError>
    decreases inp.len(),
{
    if inp.len() == 0 {
        Err(ParseError::Incomplete)
    } else if inp.first() == CMRI_ESCAPE_BYTE {
        match spec_payload_escaped(inp.drop_first(), acc) {
            Ok(cp) => Ok((cp.0 + 1, cp.1)),
            Err(e) => Err(e),
        }
    } else if inp.first() == CMRI_STOP_BYTE {
        Ok((1, acc))
    } else if acc.len() >= MAX_PAYLOAD_LEN {
        Err(ParseError::TooLong)
    } else {
        match spec_payload(inp.drop_first(), acc.push(inp.first())) {
            Ok(cp) => Ok((cp.0 + 1, cp.1)),
            Err(e) => Err(e),
        }
    }
}

/// What parsing a whole frame yields: consumed length, address, type
/// and payload, or the first failure.
pub open spec fn spec_parse(inp: Seq<u8>) -> Result<(int, u8, MessageType, Seq<u8>), ParseError> {
    if spec_tag_mismatch(inp) {
        Err(ParseError::Mismatch)
    } else if inp.len() < 5 {
        Err(ParseError::Incomplete)
    } else {
        match spec_message_type_of(inp[4]) {
            None => Err(ParseError::InvalidType),
            Some(t) => match spec_payload(inp.skip(5), Seq::empty()) {
                Ok(cp) => Ok((cp.0 + 5, inp[3], t, cp.1)),
                Err(e) => Err(e),
            },
        }
    }
}

/// Recognise the three-byte frame tag at the start of the input. A
/// wrong byte within reach is reported over a merely short input.
pub fn preamble(inp: &[u8]) -> (r: Result<usize, ParseError>)
    ensures
        (match r {
            Ok(n) => n == 3 && inp@.len() >= 3 && inp@.take(3) == spec_preamble_tag(),
            Err(ParseError::Mismatch) => spec_tag_mismatch(inp@),
            Err(ParseError::Incomplete) => !spec_tag_mismatch(inp@) && inp@.len() < 3,
            Err(_) => false,
        }),
{
    if inp.len() >= 1 && inp[0] != CMRI_PREAMBLE_BYTE {
        return Err(ParseError::Mismatch);
    }
    if inp.len() >= 2 && inp[1] != CMRI_PREAMBLE_BYTE {
        return Err(ParseError::Mismatch);
    }
    if inp.len() >= 3 && inp[2] != CMRI_START_BYTE {
        return Err(ParseError::Mismatch);
    }
    if inp.len() < 3 {
        return Err(ParseError::Incomplete);
    }
    proof {
        assert(inp@.take(3) =~= spec_preamble_tag());
    }
    Ok(3)
}

/// Recognise a single STOP byte.
pub fn stop(inp: &[u8]) -> (r: Result<usize, ParseError>)
    ensures
        (match r {
            Ok(n) => n == 1 && inp@.len() >= 1 && inp@[0] == CMRI_STOP_BYTE,
            Err(ParseError::Mismatch) => inp@.len() >= 1 && inp@[0] != CMRI_STOP_BYTE,
            Err(ParseError::Incomplete) => inp@.len() == 0,
            Err(_) => false,
        }),
{
    if inp.len() == 0 {
        return Err(ParseError::Incomplete);
    }
    if inp[0] != CMRI_STOP_BYTE {
        return Err(ParseError::Mismatch);
    }
    Ok(1)
}

/// Recognise a single ESCAPE byte.
pub fn esc(inp: &[u8]) -> (r: Result<usize, ParseError>)
    ensures
        (match r {
            Ok(n) => n == 1 && inp@.len() >= 1 && inp@[0] == CMRI_ESCAPE_BYTE,
            Err(ParseError::Mismatch) => inp@.len() >= 1 && inp@[0] != CMRI_ESCAPE_BYTE,
            Err(ParseError::Incomplete) => inp@.len() == 0,
            Err(_) => false,
        }),
{
    if inp.len() == 0 {
        return Err(ParseError::Incomplete);
    }
    if inp[0] != CMRI_ESCAPE_BYTE {
        return Err(ParseError::Mismatch);
    }
    Ok(1)
}

/// Recognise one of the four message-type bytes.
pub fn message_type(inp: &[u8]) -> (r: Result<(usize, MessageType), ParseError>)
    ensures
        (match r {
            Ok((n, t)) => n == 1 && inp@.len() >= 1 && spec_message_type_of(inp@[0]) == Some(t),
            Err(ParseError::InvalidType) => inp@.len() >= 1 && spec_message_type_of(inp@[0])
                == None::<MessageType>,
            Err(ParseError::Incomplete) => inp@.len() == 0,
            Err(_) => false,
        }),
{
    if inp.len() == 0 {
        return Err(ParseError::Incomplete);
    }
    match MessageType::try_from(inp[0]) {
        Ok(t) => Ok((1, t)),
        Err(_) => Err(ParseError::InvalidType),
    }
}

/// Parse the payload region of a frame: unescape every escaped byte,
/// stop at the first unescaped STOP, and report how many input bytes
/// were consumed, the STOP included.
pub fn payload(inp: &[u8]) -> (r: Result<(usize, Payload), ParseError>)
    ensures
        (match r {
            Ok((consumed, p)) => p.wf() && 1 <= consumed <= inp@.len() && spec_payload(
                inp@,
                Seq::empty(),
            ) == Ok::<(int, Seq<u8>), ParseError>((consumed as int, p@)),
            Err(e) => spec_payload(inp@, Seq::empty()) == Err::<(int, Seq<u8>), ParseError>(e),
        }),
{
    let mut p = Payload::new();
    let mut is_escape = false;
    let mut idx: usize = 0;
    let n = inp.len();
    proof {
        assert(inp@.skip(0) =~= inp@);
        match spec_payload(inp@, Seq::<u8>::empty()) {
            Ok(cp) => {
                assert(Ok::<(int, Seq<u8>), ParseError>((cp.0 + 0, cp.1)) == Ok::<
                    (int, Seq<u8>),
                    ParseError,
                >(cp));
            },
            Err(_) => {},
        }
    }
    while idx < n
        invariant
            idx <= n,
            n == inp@.len(),
            p.wf(),
            ({
                let whole = spec_payload(inp@, Seq::<u8>::empty());
                let rest = if is_escape {
                    spec_payload_escaped(inp@.skip(idx as int), p@)
                } else {
                    spec_payload(inp@.skip(idx as int), p@)
                };
                match rest {
                    Ok(cp) => whole == Ok::<(int, Seq<u8>), ParseError>((cp.0 + idx, cp.1)),
                    Err(e) => whole == Err::<(int, Seq<u8>), ParseError>(e),
                }
            }),
        decreases n - idx,
    {
        let ghost prev = p@;
        let ghost restseq = inp@.skip(idx as int);
        proof {
            assert(restseq.first() == inp@[idx as int]);
            assert(restseq.drop_first() =~= inp@.skip(idx as int + 1));
        }
        let byte = inp[idx];
        if is_escape {
            match p.try_push(byte) {
                Ok(_) => {},
                Err(_) => {
                    return Err(ParseError::TooLong);
                },
            }
            is_escape = false;
        } else if byte == CMRI_STOP_BYTE {
            // Message complete; the remaining input starts right after
            // the STOP byte
            return Ok((idx + 1, p));
        } else if byte == CMRI_ESCAPE_BYTE {
            // Escape byte -> ignore this and accept the next byte
            // verbatim
            is_escape = true;
        } else {
            // Any other byte is accepted
            match p.try_push(byte) {
                Ok(_) => {},
                Err(_) => {
                    return Err(ParseError::TooLong);
                },
            }
        }
        idx = idx + 1;
    }
    // Reached end of input without a STOP byte
    proof {
        assert(inp@.skip(idx as int) =~= Seq::<u8>::empty());
    }
    Err(ParseError::Incomplete)
}

/// Parse one complete frame from the start of the input: the tag, the
/// address and type bytes, then the payload up to its STOP. Returns
/// the index of the first byte after the frame and the message.
pub fn parse_cmri(inp: &[u8]) -> (r: Result<(usize, CmriMessage), ParseError>)
    ensures
        (match r {
            Ok((consumed, m)) => m.payload.wf() && 5 < consumed <= inp@.len() && spec_parse(inp@)
                == Ok::<(int, u8, MessageType, Seq<u8>), ParseError>(
                (consumed as int, m.address, m.message_type, m.payload@),
            ),
            Err(e) => spec_parse(inp@) == Err::<(int, u8, MessageType, Seq<u8>), ParseError>(e),
        }),
{
    match preamble(inp) {
        Ok(_) => {},
        Err(e) => {
            return Err(e);
        },
    }
    proof {
        assert(forall|i: int| 0 <= i < 3 ==> inp@[i] == spec_preamble_tag()[i]) by {
            assert(forall|i: int| 0 <= i < 3 ==> inp@.take(3)[i] == inp@[i]);
        }
        assert(!spec_tag_mismatch(inp@));
    }
    if inp.len() < 4 {
        return Err(ParseError::Incomplete);
    }
    let addr = inp[3];
    let rest4 = &inp[4..inp.len()];
    proof {
        assert(rest4@ =~= inp@.skip(4));
    }
    let mtype = match message_type(rest4) {
        Ok((_, t)) => t,
        Err(e) => {
            return Err(e);
        },
    };
    let rest5 = &inp[5..inp.len()];
    proof {
        assert(rest5@ =~= inp@.skip(5));
    }
    let (pconsumed, p) = match payload(rest5) {
        Ok(x) => x,
        Err(e) => {
            return Err(e);
        },
    };
    proof {
        assert(rest4@[0] == inp@[4]);
        assert(spec_message_type_of(inp@[4]) == Some(mtype));
        assert(spec_payload(inp@.skip(5), Seq::<u8>::empty()) == Ok::<(int, Seq<u8>), ParseError>(
            ((pconsumed as int, p@)),
        ));
    }
    Ok((5 + pconsumed, CmriMessage { address: addr, message_type: mtype, payload: p }))
}

} // verus!
