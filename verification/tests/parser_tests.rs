use cmri::parser::esc;
use cmri::parser::message_type;
use cmri::parser::parse_cmri;
use cmri::parser::payload;
use cmri::parser::preamble;
use cmri::parser::stop;
use cmri::parser::ParseError;
use cmri::MessageType;
use cmri::CMRI_ESCAPE_BYTE;
use cmri::CMRI_PREAMBLE_BYTE;
use cmri::CMRI_START_BYTE;
use cmri::CMRI_STOP_BYTE;
use cmri::MAX_PAYLOAD_LEN;

#[test]
fn test_preamble() {
    let pre = [CMRI_PREAMBLE_BYTE, CMRI_PREAMBLE_BYTE, CMRI_START_BYTE];

    let inp = b"\xff\xff\x02";
    let consumed = preamble(inp).unwrap();
    assert_eq!(inp[..consumed], pre);

    let inp = b"\xff\xfe\x02";
    let res = preamble(inp);
    assert!(res.is_err());
}

#[test]
fn test_message_type() {
    let inp = b"I";
    let (_, parsed) = message_type(inp).unwrap();
    assert_eq!(parsed, MessageType::Init);

    let inp = b"T";
    let (_, parsed) = message_type(inp).unwrap();
    assert_eq!(parsed, MessageType::Transmit);

    let inp = b"R";
    let (_, parsed) = message_type(inp).unwrap();
    assert_eq!(parsed, MessageType::Get);

    let inp = b"P";
    let (_, parsed) = message_type(inp).unwrap();
    assert_eq!(parsed, MessageType::Poll);

    let inp = b"L";
    let res = message_type(inp);
    assert!(res.is_err());
}

#[test]
fn test_stop() {
    let inp = b"\x03other stuff";
    let consumed = stop(inp).unwrap();
    assert_eq!(inp[..consumed], [CMRI_STOP_BYTE]);

    let inp = b"\x04other";
    let res = stop(inp);
    assert!(res.is_err());
}

#[test]
fn test_esc() {
    let inp = b"\x10other stuff";
    let consumed = esc(inp).unwrap();
    assert_eq!(inp[..consumed], [CMRI_ESCAPE_BYTE]);

    let inp = b"\x11other";
    let res = esc(inp);
    assert!(res.is_err());
}

#[test]
fn test_payload() {
    // Regular, valid message
    // STOP = 0x03
    let inp: [u8; 9] = *b"ABCDEFG\x03H";
    let (consumed, p) = payload(&inp).unwrap();
    // Should match the input without the stop byte
    assert_eq!(p.as_slice(), b"ABCDEFG", "regular - values");
    let rem = &inp[consumed..];
    println!("rem: {:?}", rem);
    assert_eq!(rem.len(), 1, "regular - remainder len");
    assert_eq!(rem[0], b'H', "regular - remainder val");

    // Test escape byte = 0x10
    let inp: &[u8] = &[
        0x13,
        0x12,
        0x11,
        CMRI_ESCAPE_BYTE,
        CMRI_ESCAPE_BYTE,
        0x09,
        0x08,
        CMRI_STOP_BYTE,
    ];
    let (consumed, p) = payload(inp).unwrap();
    assert_eq!(
        p.as_slice(),
        &[0x13, 0x12, 0x11, 0x10, 0x09, 0x08],
        "esc - values"
    );
    let rem = &inp[consumed..];
    println!("rem: {:?}", rem);
    assert_eq!(rem.len(), 0, "esc - remainder len");

    // Escape a few bytes to make sure the counters line up
    let inp: &[u8] = &[
        b'A',
        b'B',
        b'C',
        b'D',
        CMRI_ESCAPE_BYTE,
        CMRI_ESCAPE_BYTE,
        b'E',
        b'F',
        CMRI_ESCAPE_BYTE,
        CMRI_STOP_BYTE,
        CMRI_ESCAPE_BYTE,
        CMRI_STOP_BYTE,
        b'G',
        b'H',
        b'I',
        CMRI_ESCAPE_BYTE,
        CMRI_ESCAPE_BYTE,
        CMRI_ESCAPE_BYTE,
        CMRI_STOP_BYTE,
        CMRI_STOP_BYTE,
        b'S',
        b'P',
        b'A',
        b'R',
        b'E',
    ];
    let (consumed, p) = payload(inp).unwrap();
    assert_eq!(p.as_slice(), b"ABCD\x10EF\x03\x03GHI\x10\x03");
    assert_eq!(&inp[consumed..], b"SPARE");

    // Test a message that's too short and missing its STOP byte
    let inp: &[u8] = b"HELLO THIS IS A MESSAGE";
    let res = payload(inp);
    assert!(res.is_err());
    if let Err(ParseError::Incomplete) = res {
        // all OK!
    } else {
        panic!("Expected INCOMPLETE error");
    }

    // Test a message that never terminates (and is too long)
    let inp: &[u8] = &[b'A'; MAX_PAYLOAD_LEN + 10];
    let res = payload(inp);

    assert!(res.is_err());
    if let Err(e) = res {
        assert_eq!(e, ParseError::TooLong);
    } else {
        panic!("Expected FAILURE error!");
    }
}

#[test]
fn parser_decode_full_message() {
    let message1 = [
        CMRI_PREAMBLE_BYTE,
        CMRI_PREAMBLE_BYTE,
        CMRI_START_BYTE,
        0x86,                               // Address
        MessageType::Init.to_byte(),        // Type
        0x41, 0x41, 0x41, 0x41,             // Message
        CMRI_STOP_BYTE,
    ];

    let (_, msg1) = parse_cmri(&message1).unwrap();
    assert_eq!(msg1.address, 0x86);
    assert_eq!(msg1.message_type, MessageType::Init);
    assert_eq!(msg1.payload.as_slice(), b"AAAA");

    let message2 = [
        CMRI_PREAMBLE_BYTE,
        CMRI_PREAMBLE_BYTE,
        CMRI_START_BYTE,
        0xa2,                               // Address
        MessageType::Init.to_byte(),        // Type
        0x41, 0x41, 0x41, 0x41,             // Message
        CMRI_ESCAPE_BYTE, CMRI_STOP_BYTE,   // Message
        0x42, 0x42, 0x42, 0x42,             // Message
        CMRI_ESCAPE_BYTE, CMRI_ESCAPE_BYTE, // Message
        0x43, 0x43, 0x43, 0x43,             // Message
        CMRI_STOP_BYTE,
    ];

    let (_, msg2) = parse_cmri(&message2).unwrap();
    assert_eq!(msg2.address, 0xa2);
    assert_eq!(msg2.message_type, MessageType::Init);
    assert_eq!(msg2.payload.as_slice(), b"AAAA\x03BBBB\x10CCCC");
}
