//! The protocol-level guarantees that tie the encoder and the decoder
//! together, stated over the decoder's transition model and the
//! encoder's frame function and proved once and for all.

use vstd::prelude::*;

use crate::decoder::lemma_spec_all_listening_append;
use crate::decoder::lemma_spec_last_outcome_append;
use crate::decoder::lemma_spec_run_append;
use crate::decoder::spec_all_listening;
use crate::decoder::spec_cleared;
use crate::decoder::spec_last_outcome;
use crate::decoder::spec_run;
use crate::decoder::spec_step;
use crate::decoder::CmriState;
use crate::decoder::DecoderModel;
use crate::decoder::RxState;
use crate::error::Error;
use crate::message::lemma_message_type_byte_roundtrip;
use crate::message::spec_escape;
use crate::message::spec_escape_byte;
use crate::message::spec_frame;
use crate::message::spec_message_type_byte;
use crate::message::spec_needs_escape;
use crate::message::MessageType;
use crate::message::CMRI_ESCAPE_BYTE;
use crate::message::CMRI_PREAMBLE_BYTE;
use crate::message::CMRI_START_BYTE;
use crate::message::CMRI_STOP_BYTE;
use crate::message::MAX_PAYLOAD_LEN;
use crate::message::spec_message_type_of;
use crate::parser::spec_parse;
use crate::parser::spec_payload;
use crate::parser::spec_payload_escaped;
use crate::parser::spec_preamble_tag;
use crate::parser::spec_tag_mismatch;
use crate::parser::ParseError;

verus! {

/// A decoder that is collecting payload consumes an escaped payload
/// followed by STOP without a single error, appends exactly the
/// unescaped bytes, and reports completion on the STOP byte.
proof fn lemma_run_escaped_payload(d: DecoderModel, p: Seq<u8>)
    requires
        d.state == CmriState::Data,
        d.payload.len() + p.len() <= MAX_PAYLOAD_LEN,
    ensures
        spec_run(d, spec_escape(p) + seq![CMRI_STOP_BYTE]) == (DecoderModel {
            state: CmriState::Idle,
            payload: d.payload + p,
            ..d
        }),
        spec_all_listening(d, spec_escape(p)),
        spec_last_outcome(d, spec_escape(p) + seq![CMRI_STOP_BYTE]) == Ok::<RxState, Error>(
            RxState::Complete,
        ),
    decreases p.len(),
{
    let stop = seq![CMRI_STOP_BYTE];
    assert(stop.first() == CMRI_STOP_BYTE);
    assert(stop.drop_first() =~= Seq::<u8>::empty());
    if p.len() == 0 {
        let dm = DecoderModel { state: CmriState::Idle, payload: d.payload + p, ..d };
        assert(d.payload + p =~= d.payload);
        assert(spec_escape(p) + stop =~= stop);
        assert(spec_step(d, CMRI_STOP_BYTE).0 =~= dm);
        assert(spec_run(d, stop) == spec_run(dm, Seq::<u8>::empty()));
        assert(spec_run(dm, Seq::<u8>::empty()) == dm);
        assert(spec_all_listening(d, Seq::<u8>::empty()));
        assert(spec_last_outcome(d, stop) == spec_step(d, CMRI_STOP_BYTE).1);
    } else {
        let b = p.first();
        let rest = p.drop_first();
        let eb = spec_escape_byte(b);
        let tail = spec_escape(rest) + stop;
        assert(spec_escape(p) == eb + spec_escape(rest));
        assert(spec_escape(p) + stop =~= eb + tail);

        // Step the decoder over the one or two bytes that encode `b`.
        let d2 = DecoderModel { state: CmriState::Data, payload: d.payload.push(b), ..d };
        if spec_needs_escape(b) {
            let de = DecoderModel { state: CmriState::Escape, ..d };
            assert(eb =~= seq![CMRI_ESCAPE_BYTE, b]);
            assert(eb.first() == CMRI_ESCAPE_BYTE);
            assert(eb.drop_first() =~= seq![b]);
            assert(seq![b].first() == b);
            assert(seq![b].drop_first() =~= Seq::<u8>::empty());
            assert(spec_step(d, CMRI_ESCAPE_BYTE).0 == de);
            assert(spec_step(de, b).0 =~= d2);
            assert(spec_run(d, eb) == spec_run(de, seq![b]));
            assert(spec_run(de, seq![b]) == spec_run(d2, Seq::<u8>::empty()));
            assert(spec_run(d2, Seq::<u8>::empty()) == d2);
            assert(spec_all_listening(d2, Seq::<u8>::empty()));
            assert(spec_all_listening(de, seq![b]));
            assert(spec_all_listening(d, eb));
        } else {
            assert(eb =~= seq![b]);
            assert(eb.first() == b);
            assert(eb.drop_first() =~= Seq::<u8>::empty());
            assert(spec_step(d, b).0 =~= d2);
            assert(spec_run(d, eb) == spec_run(d2, Seq::<u8>::empty()));
            assert(spec_run(d2, Seq::<u8>::empty()) == d2);
            assert(spec_all_listening(d2, Seq::<u8>::empty()));
            assert(spec_all_listening(d, eb));
        }

        lemma_run_escaped_payload(d2, rest);

        lemma_spec_run_append(d, eb, tail);
        assert(spec_run(d, spec_escape(p) + stop) == spec_run(d2, tail));
        assert(d2.payload + rest =~= d.payload + p);
        assert(spec_run(d, spec_escape(p) + stop) =~= (DecoderModel {
            state: CmriState::Idle,
            payload: d.payload + p,
            ..d
        }));

        lemma_spec_all_listening_append(d, eb, spec_escape(rest));
        assert(spec_all_listening(d, eb + spec_escape(rest)));
        assert(eb + spec_escape(rest) =~= spec_escape(p));

        lemma_spec_last_outcome_append(d, eb, tail);
        assert(spec_last_outcome(d, spec_escape(p) + stop) == Ok::<RxState, Error>(
            RxState::Complete,
        ));
    }
}

/// Round trip: a decoder standing idle, with no filter or one that
/// matches the address, decodes the encoded frame of any message with
/// payload of at most `MAX_PAYLOAD_LEN` bytes back to exactly that
/// address, type and payload. Every byte before the final STOP is
/// answered with `Ok(Listening)` and the STOP with `Ok(Complete)`.
pub proof fn lemma_encode_decode_roundtrip(d: DecoderModel, addr: u8, t: MessageType, p: Seq<u8>)
    requires
        d.state == CmriState::Idle,
        d.filter == None::<u8> || d.filter == Some(addr),
        p.len() <= MAX_PAYLOAD_LEN,
    ensures
        spec_run(d, spec_frame(addr, t, p)) == (DecoderModel {
            state: CmriState::Idle,
            address: Some(addr),
            message_type: Some(t),
            payload: p,
            filter: d.filter,
        }),
        spec_all_listening(d, spec_frame(addr, t, p).drop_last()),
        spec_last_outcome(d, spec_frame(addr, t, p)) == Ok::<RxState, Error>(RxState::Complete),
{
    let tb = spec_message_type_byte(t);
    let header = seq![CMRI_PREAMBLE_BYTE, CMRI_PREAMBLE_BYTE, CMRI_START_BYTE, addr, tb];
    let stop = seq![CMRI_STOP_BYTE];
    let frame = spec_frame(addr, t, p);
    let tail = spec_escape(p) + stop;
    assert(frame =~= header + tail);

    // Walk the decoder through the five header bytes one at a time.
    let d1 = DecoderModel { state: CmriState::Attn, ..spec_cleared(d) };
    let d2 = DecoderModel { state: CmriState::Start, ..d1 };
    let d3 = DecoderModel { state: CmriState::Addr, ..d2 };
    let d4 = DecoderModel { state: CmriState::Type, address: Some(addr), ..d3 };
    let d5 = DecoderModel { state: CmriState::Data, message_type: Some(t), ..d4 };
    let h1 = seq![CMRI_PREAMBLE_BYTE, CMRI_START_BYTE, addr, tb];
    let h2 = seq![CMRI_START_BYTE, addr, tb];
    let h3 = seq![addr, tb];
    let h4 = seq![tb];
    assert(header.first() == CMRI_PREAMBLE_BYTE && header.drop_first() =~= h1);
    assert(h1.first() == CMRI_PREAMBLE_BYTE && h1.drop_first() =~= h2);
    assert(h2.first() == CMRI_START_BYTE && h2.drop_first() =~= h3);
    assert(h3.first() == addr && h3.drop_first() =~= h4);
    assert(h4.first() == tb && h4.drop_first() =~= Seq::<u8>::empty());
    assert(spec_step(d, CMRI_PREAMBLE_BYTE).0 =~= d1);
    assert(spec_step(d1, CMRI_PREAMBLE_BYTE).0 =~= d2);
    assert(spec_step(d2, CMRI_START_BYTE).0 =~= d3);
    assert(spec_step(d3, addr).0 =~= d4);
    lemma_message_type_byte_roundtrip(t);
    assert(spec_step(d4, tb).0 =~= d5);
    assert(spec_run(d, header) == spec_run(d1, h1));
    assert(spec_run(d1, h1) == spec_run(d2, h2));
    assert(spec_run(d2, h2) == spec_run(d3, h3));
    assert(spec_run(d3, h3) == spec_run(d4, h4));
    assert(spec_run(d4, h4) == spec_run(d5, Seq::<u8>::empty()));
    assert(spec_run(d5, Seq::<u8>::empty()) == d5);
    assert(spec_all_listening(d5, Seq::<u8>::empty()));
    assert(spec_all_listening(d4, h4));
    assert(spec_all_listening(d3, h3));
    assert(spec_all_listening(d2, h2));
    assert(spec_all_listening(d1, h1));
    assert(spec_all_listening(d, header));

    // The payload region and the STOP byte.
    assert(d5.payload.len() + p.len() <= MAX_PAYLOAD_LEN);
    lemma_run_escaped_payload(d5, p);

    lemma_spec_run_append(d, header, tail);
    assert(spec_run(d, frame) == spec_run(d5, tail));
    assert(d5.payload + p =~= p);
    assert(spec_run(d, frame) =~= (DecoderModel {
        state: CmriState::Idle,
        address: Some(addr),
        message_type: Some(t),
        payload: p,
        filter: d.filter,
    }));

    lemma_spec_all_listening_append(d, header, spec_escape(p));
    assert(spec_all_listening(d, header + spec_escape(p)));
    assert(frame.drop_last() =~= header + spec_escape(p));

    lemma_spec_last_outcome_append(d, header, tail);
    assert(spec_last_outcome(d, frame) == Ok::<RxState, Error>(RxState::Complete));
}

/// A payload region the batch parser accepts drives a decoder that is
/// collecting payload through exactly the same bytes: the same
/// unescaped bytes are appended and the STOP byte reports completion.
proof fn lemma_payload_stream(d: DecoderModel, inp: Seq<u8>, consumed: int, pl: Seq<u8>)
    requires
        d.state == CmriState::Data,
        spec_payload(inp, d.payload) == Ok::<(int, Seq<u8>), ParseError>((consumed, pl)),
    ensures
        0 < consumed <= inp.len(),
        spec_run(d, inp.take(consumed)) == (DecoderModel {
            state: CmriState::Idle,
            payload: pl,
            ..d
        }),
        spec_last_outcome(d, inp.take(consumed)) == Ok::<RxState, Error>(RxState::Complete),
    decreases inp.len(),
{
    assert(inp.len() > 0);
    let b = inp.first();
    if b == CMRI_ESCAPE_BYTE {
        match spec_payload_escaped(inp.drop_first(), d.payload) {
            Err(_) => {
                assert(false);
            },
            Ok(cp1) => {
                assert(inp.drop_first().len() > 0);
                assert(d.payload.len() < MAX_PAYLOAD_LEN);
                assert(inp.drop_first().first() == inp[1]);
                assert(inp.drop_first().drop_first() =~= inp.skip(2));
                let d2 = DecoderModel {
                    state: CmriState::Data,
                    payload: d.payload.push(inp[1]),
                    ..d
                };
                match spec_payload(inp.skip(2), d.payload.push(inp[1])) {
                    Err(_) => {
                        assert(false);
                    },
                    Ok(cp2) => {
                        assert(cp2.0 == consumed - 2 && cp2.1 == pl);
                        lemma_payload_stream(d2, inp.skip(2), consumed - 2, pl);

                        let es = seq![CMRI_ESCAPE_BYTE, inp[1]];
                        let rest = inp.skip(2).take(consumed - 2);
                        assert(inp.take(consumed) =~= es + rest);
                        let de = DecoderModel { state: CmriState::Escape, ..d };
                        assert(es.first() == CMRI_ESCAPE_BYTE);
                        assert(es.drop_first() =~= seq![inp[1]]);
                        assert(seq![inp[1]].first() == inp[1]);
                        assert(seq![inp[1]].drop_first() =~= Seq::<u8>::empty());
                        assert(spec_step(d, CMRI_ESCAPE_BYTE).0 == de);
                        assert(spec_step(de, inp[1]).0 =~= d2);
                        assert(spec_run(d, es) == spec_run(de, seq![inp[1]]));
                        assert(spec_run(de, seq![inp[1]]) == spec_run(d2, Seq::<u8>::empty()));
                        assert(spec_run(d2, Seq::<u8>::empty()) == d2);

                        lemma_spec_run_append(d, es, rest);
                        assert(spec_run(d, inp.take(consumed)) =~= (DecoderModel {
                            state: CmriState::Idle,
                            payload: pl,
                            ..d
                        }));
                        lemma_spec_last_outcome_append(d, es, rest);
                    },
                }
            },
        }
    } else if b == CMRI_STOP_BYTE {
        assert(consumed == 1 && pl == d.payload);
        assert(inp.take(1) =~= seq![CMRI_STOP_BYTE]);
        assert(seq![CMRI_STOP_BYTE].first() == CMRI_STOP_BYTE);
        assert(seq![CMRI_STOP_BYTE].drop_first() =~= Seq::<u8>::empty());
        let dm = DecoderModel { state: CmriState::Idle, payload: pl, ..d };
        assert(spec_step(d, CMRI_STOP_BYTE).0 =~= dm);
        assert(spec_run(d, inp.take(1)) == spec_run(dm, Seq::<u8>::empty()));
        assert(spec_run(dm, Seq::<u8>::empty()) == dm);
    } else {
        match spec_payload(inp.drop_first(), d.payload.push(b)) {
            Err(_) => {
                assert(false);
            },
            Ok(cp) => {
                assert(cp.0 == consumed - 1 && cp.1 == pl);
                assert(d.payload.len() < MAX_PAYLOAD_LEN);
                let d2 = DecoderModel { state: CmriState::Data, payload: d.payload.push(b), ..d };
                lemma_payload_stream(d2, inp.drop_first(), consumed - 1, pl);

                let sb = seq![b];
                let rest = inp.drop_first().take(consumed - 1);
                assert(inp.take(consumed) =~= sb + rest);
                assert(sb.first() == b);
                assert(sb.drop_first() =~= Seq::<u8>::empty());
                assert(spec_step(d, b).0 =~= d2);
                assert(spec_run(d, sb) == spec_run(d2, Seq::<u8>::empty()));
                assert(spec_run(d2, Seq::<u8>::empty()) == d2);

                lemma_spec_run_append(d, sb, rest);
                assert(spec_run(d, inp.take(consumed)) =~= (DecoderModel {
                    state: CmriState::Idle,
                    payload: pl,
                    ..d
                }));
                lemma_spec_last_outcome_append(d, sb, rest);
            },
        }
    }
}

/// Streaming and batch decoding agree: any frame the whole-buffer
/// parser accepts drives an idle decoder (unfiltered, or filtered on
/// that frame's address) to exactly the same address, type and
/// payload, with completion reported on the frame's final byte.
pub proof fn lemma_batch_stream_agree(
    d: DecoderModel,
    inp: Seq<u8>,
    consumed: int,
    addr: u8,
    t: MessageType,
    pl: Seq<u8>,
)
    requires
        d.state == CmriState::Idle,
        d.filter == None::<u8> || d.filter == Some(addr),
        spec_parse(inp) == Ok::<(int, u8, MessageType, Seq<u8>), ParseError>(
            (consumed, addr, t, pl),
        ),
    ensures
        5 < consumed <= inp.len(),
        spec_run(d, inp.take(consumed)) == (DecoderModel {
            state: CmriState::Idle,
            address: Some(addr),
            message_type: Some(t),
            payload: pl,
            filter: d.filter,
        }),
        spec_last_outcome(d, inp.take(consumed)) == Ok::<RxState, Error>(RxState::Complete),
{
    // Unpack what acceptance says about the input.
    assert(!spec_tag_mismatch(inp));
    assert(inp.len() >= 5);
    assert(inp[0] == CMRI_PREAMBLE_BYTE) by {
        if inp[0] != CMRI_PREAMBLE_BYTE {
            assert(0 <= 0 < 3 && 0 < inp.len() && inp[0] != spec_preamble_tag()[0]);
        }
    }
    assert(inp[1] == CMRI_PREAMBLE_BYTE) by {
        if inp[1] != CMRI_PREAMBLE_BYTE {
            assert(0 <= 1 < 3 && 1 < inp.len() && inp[1] != spec_preamble_tag()[1]);
        }
    }
    assert(inp[2] == CMRI_START_BYTE) by {
        if inp[2] != CMRI_START_BYTE {
            assert(0 <= 2 < 3 && 2 < inp.len() && inp[2] != spec_preamble_tag()[2]);
        }
    }
    assert(spec_message_type_of(inp[4]) == Some(t) && addr == inp[3]);
    match spec_payload(inp.skip(5), Seq::<u8>::empty()) {
        Err(_) => {
            assert(false);
        },
        Ok(cp) => {
            assert(cp.0 == consumed - 5 && cp.1 == pl);
        },
    }

    // Walk the decoder through the five header bytes.
    let header = seq![CMRI_PREAMBLE_BYTE, CMRI_PREAMBLE_BYTE, CMRI_START_BYTE, inp[3], inp[4]];
    let d1 = DecoderModel { state: CmriState::Attn, ..spec_cleared(d) };
    let d2 = DecoderModel { state: CmriState::Start, ..d1 };
    let d3 = DecoderModel { state: CmriState::Addr, ..d2 };
    let d4 = DecoderModel { state: CmriState::Type, address: Some(addr), ..d3 };
    let d5 = DecoderModel { state: CmriState::Data, message_type: Some(t), ..d4 };
    let h1 = seq![CMRI_PREAMBLE_BYTE, CMRI_START_BYTE, inp[3], inp[4]];
    let h2 = seq![CMRI_START_BYTE, inp[3], inp[4]];
    let h3 = seq![inp[3], inp[4]];
    let h4 = seq![inp[4]];
    assert(header.first() == CMRI_PREAMBLE_BYTE && header.drop_first() =~= h1);
    assert(h1.first() == CMRI_PREAMBLE_BYTE && h1.drop_first() =~= h2);
    assert(h2.first() == CMRI_START_BYTE && h2.drop_first() =~= h3);
    assert(h3.first() == inp[3] && h3.drop_first() =~= h4);
    assert(h4.first() == inp[4] && h4.drop_first() =~= Seq::<u8>::empty());
    assert(spec_step(d, CMRI_PREAMBLE_BYTE).0 =~= d1);
    assert(spec_step(d1, CMRI_PREAMBLE_BYTE).0 =~= d2);
    assert(spec_step(d2, CMRI_START_BYTE).0 =~= d3);
    assert(spec_step(d3, inp[3]).0 =~= d4);
    assert(spec_step(d4, inp[4]).0 =~= d5);
    assert(spec_run(d, header) == spec_run(d1, h1));
    assert(spec_run(d1, h1) == spec_run(d2, h2));
    assert(spec_run(d2, h2) == spec_run(d3, h3));
    assert(spec_run(d3, h3) == spec_run(d4, h4));
    assert(spec_run(d4, h4) == spec_run(d5, Seq::<u8>::empty()));
    assert(spec_run(d5, Seq::<u8>::empty()) == d5);

    // The payload region after the header.
    assert(d5.payload =~= Seq::<u8>::empty());
    assert(spec_payload(inp.skip(5), d5.payload) == Ok::<(int, Seq<u8>), ParseError>(
        ((consumed - 5, pl)),
    ));
    lemma_payload_stream(d5, inp.skip(5), consumed - 5, pl);

    let rest = inp.skip(5).take(consumed - 5);
    assert(inp.take(consumed) =~= header + rest);
    lemma_spec_run_append(d, header, rest);
    assert(spec_run(d, inp.take(consumed)) =~= (DecoderModel {
        state: CmriState::Idle,
        address: Some(addr),
        message_type: Some(t),
        payload: pl,
        filter: d.filter,
    }));
    lemma_spec_last_outcome_append(d, header, rest);
}

/// A single stray PREAMBLE followed by any other byte leaves an idle
/// decoder back in `Idle` with an empty message, both bytes answered
/// with `Ok(Listening)`.
pub proof fn lemma_stray_preamble(d: DecoderModel, b: u8)
    requires
        d.state == CmriState::Idle,
        b != CMRI_PREAMBLE_BYTE,
    ensures
        spec_run(d, seq![CMRI_PREAMBLE_BYTE, b]) == spec_cleared(d),
        spec_all_listening(d, seq![CMRI_PREAMBLE_BYTE, b]),
{
    let s = seq![CMRI_PREAMBLE_BYTE, b];
    assert(s.first() == CMRI_PREAMBLE_BYTE && s.drop_first() =~= seq![b]);
    assert(seq![b].first() == b && seq![b].drop_first() =~= Seq::<u8>::empty());
    let d1 = DecoderModel { state: CmriState::Attn, ..spec_cleared(d) };
    assert(spec_step(d, CMRI_PREAMBLE_BYTE).0 =~= d1);
    assert(spec_step(d1, b).0 =~= spec_cleared(d));
    assert(spec_run(d, s) == spec_run(d1, seq![b]));
    assert(spec_run(d1, seq![b]) == spec_run(spec_cleared(d), Seq::<u8>::empty()));
    assert(spec_run(spec_cleared(d), Seq::<u8>::empty()) == spec_cleared(d));
    assert(spec_all_listening(spec_cleared(d), Seq::<u8>::empty()));
    assert(spec_all_listening(d1, seq![b]));
    assert(spec_all_listening(d, s));
}

/// A decoder with an address filter drops a frame addressed elsewhere
/// at the address byte itself: it resynchronises to `Idle` with an
/// empty message, never reaching the `Type` state.
pub proof fn lemma_address_filter(d: DecoderModel, f: u8, b: u8)
    requires
        d.state == CmriState::Addr,
        d.filter == Some(f),
        b != f,
    ensures
        spec_step(d, b).0 == spec_cleared(d),
        spec_step(d, b).0.state == CmriState::Idle,
        spec_step(d, b).0.message_type == None::<MessageType>,
        spec_step(d, b).1 == Ok::<RxState, Error>(RxState::Listening),
{
}

/// A payload byte arriving when the payload already holds
/// `MAX_PAYLOAD_LEN` bytes is answered with `DataTooLong` and the
/// decoder has already resynchronised to `Idle`, message discarded.
pub proof fn lemma_payload_overflow(d: DecoderModel, b: u8)
    requires
        d.payload.len() == MAX_PAYLOAD_LEN,
        (d.state == CmriState::Data && b != CMRI_ESCAPE_BYTE && b != CMRI_STOP_BYTE) || d.state
            == CmriState::Escape,
    ensures
        spec_step(d, b).0 == spec_cleared(d),
        spec_step(d, b).0.state == CmriState::Idle,
        spec_step(d, b).0.payload == Seq::<u8>::empty(),
        spec_step(d, b).1 == Err::<RxState, Error>(Error::DataTooLong),
{
}

} // verus!
