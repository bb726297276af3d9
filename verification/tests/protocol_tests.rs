use cmri::needs_escape;
use cmri::packet::bridge_step;
use cmri::packet::BridgeAction;
use cmri::packet::BridgeState;
use cmri::parser::parse_cmri;
use cmri::CmriMessage;
use cmri::CmriPacket;
use cmri::CmriProcessor;
use cmri::CmriState;
use cmri::CmriStateMachine;
use cmri::Error;
use cmri::MessageType;
use cmri::NodeType;
use cmri::RxState;
use cmri::CMRI_ESCAPE_BYTE;
use cmri::CMRI_PREAMBLE_BYTE;
use cmri::CMRI_START_BYTE;
use cmri::CMRI_STOP_BYTE;
use cmri::MAX_PAYLOAD_LEN;
use cmri::TX_BUFFER_LEN;

/// Build a message from plain parts.
fn build_message(addr: u8, t: MessageType, payload: &[u8]) -> CmriMessage {
    let mut m = CmriMessage::new();
    m.address(addr);
    m.message_type(t);
    m.payload(payload).unwrap();
    m
}

/// Encode a message, feed the bytes one at a time to a fresh decoder,
/// and return the decoder once it signals completion.
fn encode_then_decode(m: &CmriMessage) -> CmriStateMachine {
    let mut tx_buffer = vec![0u8; TX_BUFFER_LEN];
    m.encode(&mut tx_buffer).unwrap();

    let mut s = CmriStateMachine::new();
    let mut complete = false;
    for byte in tx_buffer.iter() {
        if s.process(*byte).unwrap() == RxState::Complete {
            complete = true;
            break;
        }
    }
    assert!(complete, "decoder never signalled completion");
    s
}

#[test]
fn round_trip_with_reserved_bytes() {
    // A payload holding every reserved value, escaped ones included
    let payload = [
        0x41,
        CMRI_STOP_BYTE,
        CMRI_ESCAPE_BYTE,
        CMRI_PREAMBLE_BYTE,
        CMRI_START_BYTE,
        0x00,
        0xfe,
    ];
    let m = build_message(0x42, MessageType::Get, &payload);
    let s = encode_then_decode(&m);

    let decoded = s.message();
    assert_eq!(decoded.address, Some(0x42));
    assert_eq!(decoded.message_type, Some(MessageType::Get));
    assert_eq!(decoded.payload[..decoded.len], payload);
}

#[test]
fn round_trip_worst_case_payload() {
    // Every payload byte needs escaping and the payload is full: the
    // frame fills the transmit buffer completely
    let payload = [CMRI_ESCAPE_BYTE; MAX_PAYLOAD_LEN];
    let m = build_message(0x01, MessageType::Poll, &payload);

    let mut tx_buffer = vec![0u8; TX_BUFFER_LEN];
    m.encode(&mut tx_buffer).unwrap();
    assert_eq!(tx_buffer[TX_BUFFER_LEN - 1], CMRI_STOP_BYTE);

    let s = encode_then_decode(&m);
    let decoded = s.message();
    assert_eq!(decoded.address, Some(0x01));
    assert_eq!(decoded.message_type, Some(MessageType::Poll));
    assert_eq!(decoded.len, MAX_PAYLOAD_LEN);
    assert_eq!(decoded.payload[..decoded.len], payload);
}

#[test]
fn round_trip_empty_payload() {
    let m = build_message(0x10, MessageType::Init, &[]);
    let s = encode_then_decode(&m);
    let decoded = s.message();
    assert_eq!(decoded.address, Some(0x10));
    assert_eq!(decoded.message_type, Some(MessageType::Init));
    assert_eq!(decoded.len, 0);
}

#[test]
fn decode_escaped_stream() {
    // Escaped STOP and escaped ESCAPE become literal payload data
    let stream = [
        0xff, 0xff, 0x02, 0xa2, 0x49, 0x41, 0x41, 0x41, 0x41, 0x10, 0x03, 0x42, 0x42, 0x42, 0x42,
        0x10, 0x10, 0x43, 0x43, 0x43, 0x43, 0x03,
    ];
    let mut s = CmriStateMachine::new();
    let mut last = RxState::Listening;
    for byte in stream.iter() {
        last = s.process(*byte).unwrap();
    }
    assert_eq!(last, RxState::Complete);

    let m = s.message();
    assert_eq!(m.address, Some(0xa2));
    assert_eq!(m.message_type, Some(MessageType::Init));
    assert_eq!(
        m.payload[..m.len],
        [0x41, 0x41, 0x41, 0x41, 0x03, 0x42, 0x42, 0x42, 0x42, 0x10, 0x43, 0x43, 0x43, 0x43]
    );
}

#[test]
fn stray_preamble_returns_to_idle() {
    let mut s = CmriStateMachine::new();
    assert_eq!(s.process(CMRI_PREAMBLE_BYTE), Ok(RxState::Listening));
    assert_eq!(s.state(), CmriState::Attn);
    assert_eq!(s.process(0x55), Ok(RxState::Listening));
    assert_eq!(s.state(), CmriState::Idle);
    assert_eq!(s.message().len, 0);
    assert_eq!(s.message().address, None);
    assert_eq!(s.message().message_type, None);
}

#[test]
fn decoder_payload_overflow() {
    let mut s = CmriStateMachine::new();
    s.process(CMRI_PREAMBLE_BYTE).unwrap();
    s.process(CMRI_PREAMBLE_BYTE).unwrap();
    s.process(CMRI_START_BYTE).unwrap();
    s.process(0x01).unwrap();
    s.process(MessageType::Get.to_byte()).unwrap();
    for _ in 0..MAX_PAYLOAD_LEN {
        assert_eq!(s.process(0x41), Ok(RxState::Listening));
    }
    // One byte past capacity: the frame is aborted and reported
    let res = s.process(0x41);
    assert_eq!(res, Err(Error::DataTooLong));
    assert_eq!(s.state(), CmriState::Idle);
    assert_eq!(s.message().len, 0);
}

#[test]
fn decoder_rejects_unknown_type_byte() {
    let mut s = CmriStateMachine::new();
    s.process(CMRI_PREAMBLE_BYTE).unwrap();
    s.process(CMRI_PREAMBLE_BYTE).unwrap();
    s.process(CMRI_START_BYTE).unwrap();
    s.process(0x01).unwrap();
    // 'L' is not a recognised type code: the whole frame is dropped
    let res = s.process(b'L');
    assert_eq!(res, Ok(RxState::Listening));
    assert_eq!(s.state(), CmriState::Idle);
    assert_eq!(s.message().message_type, None);
}

#[test]
fn encode_missing_fields() {
    let mut m = CmriMessage::new();
    let mut tx_buffer = vec![0u8; TX_BUFFER_LEN];
    assert_eq!(m.encode(&mut tx_buffer), Err(Error::MissingAddress));
    // A caller-construction error emits no wire bytes at all
    assert_eq!(tx_buffer, vec![0u8; TX_BUFFER_LEN]);

    m.address(0x20);
    assert_eq!(m.encode(&mut tx_buffer), Err(Error::MissingType));
    assert_eq!(tx_buffer, vec![0u8; TX_BUFFER_LEN]);

    m.message_type(MessageType::Poll);
    assert_eq!(m.encode(&mut tx_buffer), Ok(()));
    assert_eq!(tx_buffer[0], 0xff);
}

#[test]
fn message_type_codes() {
    assert_eq!(MessageType::Init.to_byte(), b'I');
    assert_eq!(MessageType::Transmit.to_byte(), b'T');
    assert_eq!(MessageType::Get.to_byte(), b'R');
    assert_eq!(MessageType::Poll.to_byte(), b'P');
    assert_eq!(MessageType::try_from(b'I'), Ok(MessageType::Init));
    assert_eq!(MessageType::try_from(b'T'), Ok(MessageType::Transmit));
    assert_eq!(MessageType::try_from(b'R'), Ok(MessageType::Get));
    assert_eq!(MessageType::try_from(b'P'), Ok(MessageType::Poll));
    assert_eq!(MessageType::try_from(b'L'), Err(Error::InvalidMessageType));
}

#[test]
fn node_type_codes() {
    assert_eq!(NodeType::try_from(b'N'), Ok(NodeType::Usic));
    assert_eq!(NodeType::try_from(b'X'), Ok(NodeType::Susic));
    assert_eq!(NodeType::try_from(b'M'), Ok(NodeType::Smini));
    assert_eq!(NodeType::try_from(b'C'), Ok(NodeType::Cpnode));
    assert_eq!(NodeType::try_from(b'Z'), Err(Error::InvalidNodeType));
}

#[test]
fn needs_escape_reserved_bytes_only() {
    assert!(needs_escape(CMRI_STOP_BYTE));
    assert!(needs_escape(CMRI_ESCAPE_BYTE));
    assert!(!needs_escape(CMRI_PREAMBLE_BYTE));
    assert!(!needs_escape(CMRI_START_BYTE));
    assert!(!needs_escape(0x00));
    assert!(!needs_escape(0x41));
}

#[test]
fn batch_and_stream_agree() {
    // The same frame through the whole-buffer parser and through the
    // byte-at-a-time decoder yields the same message
    let stream = [
        0xff, 0xff, 0x02, 0x58, 0x52, 0x41, 0x10, 0x03, 0x42, 0x10, 0x10, 0x43, 0x03, 0x99, 0x98,
    ];
    let (consumed, batch) = parse_cmri(&stream).unwrap();
    assert_eq!(consumed, 13);

    let mut s = CmriStateMachine::new();
    let mut last = RxState::Listening;
    for byte in stream[..consumed].iter() {
        last = s.process(*byte).unwrap();
    }
    assert_eq!(last, RxState::Complete);

    let streamed = s.message();
    assert_eq!(streamed.address, Some(batch.address));
    assert_eq!(streamed.message_type, Some(batch.message_type));
    assert_eq!(&streamed.payload[..streamed.len], batch.payload.as_slice());
}

#[test]
fn processor_consumes_full_frame() {
    let mut p = CmriProcessor::new();
    let frame = [
        CMRI_PREAMBLE_BYTE,
        CMRI_PREAMBLE_BYTE,
        CMRI_START_BYTE,
        0x30,
        MessageType::Transmit.to_byte(),
        0x01,
        0x02,
        CMRI_STOP_BYTE,
    ];
    let mut done = false;
    for byte in frame.iter() {
        done = p.process(*byte);
    }
    assert!(done);
    assert_eq!(p.state.message().address, Some(0x30));
}

#[test]
fn packet_accumulates_bytes() {
    let mut packet = CmriPacket::new();
    assert_eq!(packet.len(), 0);
    packet.append(&[CMRI_START_BYTE]);
    packet.append(&[0x41, 0x42]);
    packet.append(&[CMRI_STOP_BYTE]);
    assert_eq!(packet.len(), 4);
    assert_eq!(packet.payload, vec![CMRI_START_BYTE, 0x41, 0x42, CMRI_STOP_BYTE]);
}

#[test]
fn bridge_decisions() {
    assert_eq!(
        bridge_step(BridgeState::Idle, CMRI_START_BYTE),
        (BridgeState::Receiving, BridgeAction::StartPacket)
    );
    assert_eq!(
        bridge_step(BridgeState::Receiving, CMRI_STOP_BYTE),
        (BridgeState::Idle, BridgeAction::Emit)
    );
    assert_eq!(
        bridge_step(BridgeState::Receiving, 0x41),
        (BridgeState::Receiving, BridgeAction::Append)
    );
    assert_eq!(
        bridge_step(BridgeState::Idle, 0xff),
        (BridgeState::Idle, BridgeAction::Ignore)
    );
}
