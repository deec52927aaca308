use fwlink::crc::crc16_ccitt;
use fwlink::error::{ProtocolError, TransportError};
use fwlink::frame::Frame;
use fwlink::protocol::{write_payload, CommandId, ResponseId, VerifyResponse};
use fwlink::update::chunk_image;

fn encode(cmd: CommandId, payload: Vec<u8>) -> Vec<u8> {
    Frame::new(cmd, payload).to_bytes()
}

#[test]
fn crc_check_value() {
    assert_eq!(crc16_ccitt(b"123456789"), 0x29B1);
}

#[test]
fn crc_of_nothing_is_initial_register() {
    assert_eq!(crc16_ccitt(&[]), 0xFFFF);
}

#[test]
fn hello_frame_bytes() {
    let bytes = encode(CommandId::Hello, vec![]);
    assert_eq!(bytes, vec![0xAA, 0x55, 0x01, 0x01, 0x00, 0x00, 0xC5, 0x44]);
}

#[test]
fn write_frame_bytes() {
    let payload = write_payload(0, &[0xAB]);
    assert_eq!(payload, vec![0, 0, 0, 0, 0xAB]);
    let bytes = encode(CommandId::Write, payload);
    assert_eq!(
        bytes,
        vec![0xAA, 0x55, 0x01, 0x11, 0x00, 0x05, 0, 0, 0, 0, 0xAB, 0xCE, 0xB6]
    );
}

#[test]
fn write_payload_offset_is_big_endian() {
    assert_eq!(
        write_payload(0x0102_0304, &[9, 8]),
        vec![0x01, 0x02, 0x03, 0x04, 9, 8]
    );
}

#[test]
fn command_codes() {
    assert_eq!(CommandId::Hello.code(), 0x01);
    assert_eq!(CommandId::Erase.code(), 0x10);
    assert_eq!(CommandId::Write.code(), 0x11);
    assert_eq!(CommandId::Verify.code(), 0x12);
    assert_eq!(CommandId::SetMeta.code(), 0x13);
    assert_eq!(CommandId::Start.code(), 0x14);
    assert_eq!(CommandId::LiveFrame.code(), 0x21);
}

#[test]
fn response_codes_round_trip() {
    for id in [ResponseId::Ack, ResponseId::Nak, ResponseId::Hello, ResponseId::Verify] {
        assert_eq!(ResponseId::try_from(id.code()), Ok(id));
    }
    assert_eq!(ResponseId::try_from(0x80), Ok(ResponseId::Ack));
    assert_eq!(ResponseId::try_from(0x83), Ok(ResponseId::Verify));
}

#[test]
fn unknown_response_byte_is_refused() {
    assert_eq!(
        ResponseId::try_from(0x42),
        Err(ProtocolError::UnknownResponse(0x42))
    );
    assert_eq!(
        ResponseId::try_from(0x01),
        Err(ProtocolError::UnknownResponse(0x01))
    );
}

#[test]
fn round_trip_various_payloads() {
    let cases: Vec<(CommandId, Vec<u8>)> = vec![
        (CommandId::Hello, vec![]),
        (CommandId::Erase, vec![0x00]),
        (CommandId::Write, (0..=255u8).collect()),
        (CommandId::LiveFrame, vec![0xAA, 0x55, 0x01]),
    ];
    for (cmd, payload) in cases {
        let bytes = encode(cmd, payload.clone());
        assert_eq!(bytes.len(), payload.len() + 8);
        let (frame, used) = Frame::from_bytes(&bytes).unwrap();
        assert_eq!(frame.cmd, cmd.code());
        assert_eq!(frame.payload, payload);
        assert_eq!(used, bytes.len());
    }
}

#[test]
fn round_trip_largest_payload() {
    let payload: Vec<u8> = (0..65535u32).map(|i| (i % 251) as u8).collect();
    let bytes = encode(CommandId::Write, payload.clone());
    assert_eq!(&bytes[4..6], &[0xFF, 0xFF]);
    let (frame, used) = Frame::from_bytes(&bytes).unwrap();
    assert_eq!(frame.payload, payload);
    assert_eq!(used, 65535 + 8);
}

#[test]
fn decode_takes_only_the_first_frame() {
    let mut bytes = encode(CommandId::Erase, vec![1, 2]);
    let first = bytes.len();
    bytes.extend(encode(CommandId::Start, vec![]));
    let (frame, used) = Frame::from_bytes(&bytes).unwrap();
    assert_eq!(frame.cmd, 0x10);
    assert_eq!(used, first);
}

#[test]
fn single_bit_flips_are_detected() {
    let bytes = encode(CommandId::Write, vec![0x00, 0x10, 0xFF, 0x7E]);
    let mut positions: Vec<usize> = vec![3];
    positions.extend(6..bytes.len());
    for pos in positions {
        for bit in 0..8 {
            let mut bad = bytes.clone();
            bad[pos] ^= 1 << bit;
            assert_eq!(
                Frame::from_bytes(&bad).map(|(f, _)| f.cmd),
                Err(ProtocolError::ChecksumMismatch),
                "byte {} bit {}",
                pos,
                bit
            );
        }
    }
}

#[test]
fn bad_magic_is_refused() {
    let mut bytes = encode(CommandId::Hello, vec![]);
    bytes[0] = 0xAB;
    assert_eq!(
        Frame::from_bytes(&bytes).map(|(f, _)| f.cmd),
        Err(ProtocolError::BadMagic)
    );
    let mut bytes = encode(CommandId::Hello, vec![]);
    bytes[1] = 0x54;
    assert_eq!(
        Frame::from_bytes(&bytes).map(|(f, _)| f.cmd),
        Err(ProtocolError::BadMagic)
    );
}

#[test]
fn wrong_version_is_refused() {
    let mut bytes = encode(CommandId::Hello, vec![]);
    bytes[2] = 0x02;
    assert_eq!(
        Frame::from_bytes(&bytes).map(|(f, _)| f.cmd),
        Err(ProtocolError::UnsupportedVersion)
    );
}

#[test]
fn short_input_is_a_transport_error() {
    let bytes = encode(CommandId::Write, vec![1, 2, 3]);
    for cut in [0, 3, 5, 6, 8, bytes.len() - 1] {
        assert_eq!(
            Frame::from_bytes(&bytes[..cut]).map(|(f, _)| f.cmd),
            Err(ProtocolError::Transport(TransportError::UnexpectedEof))
        );
    }
}

#[test]
fn header_and_parts() {
    let bytes = encode(CommandId::Verify, vec![7, 8, 9]);
    assert_eq!(Frame::check_header(&bytes[..6]), Ok(3));
    let frame = Frame::from_parts(&bytes[..6], bytes[6..9].to_vec(), &bytes[9..11]).unwrap();
    assert_eq!(frame.cmd, 0x12);
    assert_eq!(frame.payload, vec![7, 8, 9]);
    let bad = Frame::from_parts(&bytes[..6], vec![7, 8, 10], &bytes[9..11]);
    assert_eq!(bad.map(|f| f.cmd), Err(ProtocolError::ChecksumMismatch));
    assert_eq!(
        Frame::check_header(&[0x00, 0x55, 0x01, 0x80, 0, 0]),
        Err(ProtocolError::BadMagic)
    );
    assert_eq!(
        Frame::check_header(&[0xAA, 0x55, 0x07, 0x80, 0, 0]),
        Err(ProtocolError::UnsupportedVersion)
    );
    assert_eq!(Frame::check_header(&[0xAA, 0x55, 0x01, 0x80, 0x01, 0x02]), Ok(258));
}

#[test]
fn verify_payload_parses_big_endian() {
    assert_eq!(
        VerifyResponse::from_payload(&[0x12, 0x34]),
        Ok(VerifyResponse { crc: 0x1234 })
    );
}

#[test]
fn verify_payload_must_be_two_bytes() {
    for p in [vec![], vec![0x12], vec![0x12, 0x34, 0x56]] {
        assert_eq!(
            VerifyResponse::from_payload(&p),
            Err(ProtocolError::MalformedPayload)
        );
    }
}

#[test]
fn chunks_cover_the_image() {
    let image: Vec<u8> = (0..600u32).map(|i| (i % 256) as u8).collect();
    let chunks = chunk_image(&image, 256);
    assert_eq!(chunks.len(), 3);
    assert_eq!(
        chunks.iter().map(|c| c.offset).collect::<Vec<_>>(),
        vec![0, 256, 512]
    );
    assert_eq!(
        chunks.iter().map(|c| c.data.len()).collect::<Vec<_>>(),
        vec![256, 256, 88]
    );
    let joined: Vec<u8> = chunks.iter().flat_map(|c| c.data.clone()).collect();
    assert_eq!(joined, image);
}

#[test]
fn chunks_of_exact_multiple_and_empty() {
    let image = vec![5u8; 512];
    let chunks = chunk_image(&image, 256);
    assert_eq!(chunks.len(), 2);
    assert_eq!(chunks[1].offset, 256);
    assert_eq!(chunks[1].data.len(), 256);
    assert!(chunk_image(&[], 256).is_empty());
    let one = chunk_image(&[1, 2, 3], 1);
    assert_eq!(one.len(), 3);
    assert_eq!(one[2].offset, 2);
    assert_eq!(one[2].data, vec![3]);
}
