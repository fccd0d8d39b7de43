use dolittle::framing::parser::FrameParser;
use dolittle::framing::types::{
    ByteOne, ByteTwo, ByteTwoPayloadLength, Frame, MaskedPayload, MaskingKey, OpCode, PayloadData,
};

#[test]
fn parse_zero_bytes() {
    let p = FrameParser::new().parse_all(&[]);

    assert!(p.byte_one == None);
    assert!(p.byte_two == None);
}

#[test]
fn parse_two_bytes_together() {
    let p = FrameParser::new().parse_all(&[0x08, 0x0A]);

    assert!(p.byte_one == Some(ByteOne(0x08)));
    assert!(p.byte_two == Some(ByteTwo(0x0A)));
}

#[test]
fn parse_two_bytes_one_at_a_time() {
    let p = FrameParser::new().parse_all(&[0x08]).parse_all(&[0x0A]);

    assert!(p.byte_one == Some(ByteOne(0x08)));
    assert!(p.byte_two == Some(ByteTwo(0x0A)));
}

#[test]
fn parse_short_payload_length() {
    let p = FrameParser::new().parse_all(&[0x08]).parse_all(&[0x8A]);

    assert!(p.payload_length == Some(0x0A));
}

#[test]
fn parse_parse_two_byte_payload_length() {
    let p = FrameParser::new().parse_all(&[0x00, 126, 0x7A, 0x4B]);

    assert!(p.payload_length == Some(0x7A4B));
}

#[test]
fn parse_parse_eight_byte_payload_length() {
    let p = FrameParser::new().parse_all(&[0x00, 127, 0x7A, 0x4B, 0x64, 0xF2, 0xC4, 0x42, 0x99, 0x88]);

    assert!(p.payload_length == Some(0x7A4B64F2C4429988));
}

#[test]
fn parse_mask_after_short_payload_length() {
    let p = FrameParser::new().parse_all(&[0x00, 0x80, 0x7A, 0x4B, 0x64, 0xF2]);

    assert!(p.masking_key == Some(MaskingKey(0x7A4B64F2)));
}

#[test]
fn parse_mask_after_two_byte_payload_length() {
    let p = FrameParser::new().parse_all(&[0x00, 0xFE, 0xCC, 0xCC, 0x7A, 0x4B, 0x64, 0xF2]);

    assert!(p.masking_key == Some(MaskingKey(0x7A4B64F2)));
}

#[test]
fn parse_mask_after_eight_byte_payload_length() {
    let p = FrameParser::new().parse_all(&[
        0x00, 0xFF, 0xCC, 0xCC, 0xCC, 0xCC, 0xCC, 0xCC, 0xCC, 0xCC, 0x7A, 0x4B, 0x64, 0xF2,
    ]);

    assert!(p.masking_key == Some(MaskingKey(0x7A4B64F2)));
}

#[test]
fn parse_payload_data_after_mask() {
    let p = FrameParser::new().parse_all(&[
        0x00, 0x85, 0x7A, 0x4B, 0x64, 0xF2, 0x55, 0x44, 0x33, 0x22, 0x11,
    ]);

    assert!(p.payload_data == MaskedPayload(PayloadData(vec![0x55, 0x44, 0x33, 0x22, 0x11])));
    assert!(p.is_done());
}

#[test]
fn parse_payload_data_without_mask() {
    let p = FrameParser::new().parse_all(&[0x00, 0x05, 0x55, 0x44, 0x33, 0x22, 0x11]);

    assert!(p.payload_data == MaskedPayload(PayloadData(vec![0x55, 0x44, 0x33, 0x22, 0x11])));
    assert!(p.is_done());
}

#[test]
fn parse_with_extra_bytes() {
    let result = FrameParser::new().parse(&[0x00, 0x01, 0x55, 0x44, 0x33, 0x22, 0x11]);

    assert!(result.parser.is_done());
    assert!(result.bytes_parsed == 3);
}

#[test]
fn parse_with_no_bytes_parsed() {
    let result = FrameParser::new()
        .parse_all(&[0x00, 0x02, 0x55, 0x44])
        .parse(&[0x44, 0x33, 0x22, 0x11]);

    assert!(result.bytes_parsed == 0);
}

#[test]
fn parse_payload_in_multiple_chunks() {
    let result = FrameParser::new()
        .parse_all(&[0x00, 0x0A, 0x01, 0x02])
        .parse_all(&[3, 4, 5, 6])
        .parse_all(&[7, 8])
        .parse(&[9, 10, 0x22, 0x11]);

    assert!(result.bytes_parsed == 2);
    assert!(result.parser.payload_data == MaskedPayload(PayloadData(vec![1, 2, 3, 4, 5, 6, 7, 8, 9, 10])));
}

#[test]
fn compose_base_case_1() {
    let frame = Frame {
        fin: true,
        reserved: true,
        op_code: OpCode::TEXT,
        masking_key: None,
        payload_data: MaskedPayload(PayloadData(vec![0x00, 0x12])),
    };

    let parser = FrameParser::new();
    let result = parser.parse(frame.compose().as_slice());

    assert!(result.make_frame_done() == frame);
}

#[test]
fn compose_base_case_2() {
    let frame = Frame {
        fin: false,
        reserved: false,
        op_code: OpCode::BINARY,
        masking_key: Some(MaskingKey(0xFFFFFFFF)),
        payload_data: MaskedPayload(PayloadData(vec![0x00, 0x12, 0x13])),
    };

    let parser = FrameParser::new();
    let result = parser.parse(frame.compose().as_slice());

    assert!(result.make_frame_done() == frame);
}

fn test_compose_long_payload(length: usize) {
    let data = vec![0x0F; length];

    let frame = Frame {
        fin: false,
        reserved: false,
        op_code: OpCode::BINARY,
        masking_key: Some(MaskingKey(0xFFFFFFFF)),
        payload_data: MaskedPayload(PayloadData::from_bytes(data.as_slice())),
    };

    let composed = frame.compose();
    let parser = FrameParser::new();
    let result = parser.parse(composed.as_slice());

    assert!(result.bytes_parsed == composed.len());
    assert!(result.make_frame_done() == frame);
}

#[test]
fn compose_with_long_payloads() {
    test_compose_long_payload(126);
    test_compose_long_payload(127);
    test_compose_long_payload(0x0100);
    test_compose_long_payload(0x010000);
}

#[test]
fn compose_sixteen_bit_length_layout() {
    let frame = Frame {
        fin: false,
        reserved: false,
        op_code: OpCode::BINARY,
        masking_key: Some(MaskingKey(0xFFFFFFFF)),
        payload_data: MaskedPayload(PayloadData(vec![0x0F; 256])),
    };

    let composed = frame.compose();

    assert!(composed.len() == 2 + 2 + 4 + 256);
    assert!(composed[0] == 0x02);
    assert!(composed[1] == 0x80 | 126);
    assert!(composed[2] == 0x01);
    assert!(composed[3] == 0x00);
    assert!(&composed[4..8] == &[0xFF, 0xFF, 0xFF, 0xFF]);
}

#[test]
fn compose_then_parse_round_trips() {
    let frame = Frame {
        fin: true,
        reserved: false,
        op_code: OpCode::TEXT,
        masking_key: Some(MaskingKey(0x12345678)),
        payload_data: MaskedPayload(PayloadData(vec![7; 300])),
    };

    let (parsed, consumed) = dolittle::framing::composer::compose_then_parse(&frame);

    assert!(consumed == frame.compose().len());
    assert!(parsed == frame);
}

#[test]
fn frame_chunk_boundary_invariance() {
    let bytes: Vec<u8> = vec![0x82, 0x85, 0x7A, 0x4B, 0x64, 0xF2, 0x55, 0x44, 0x33, 0x22, 0x11];
    let whole = FrameParser::new().parse_all(&bytes);

    for split in 0..bytes.len() {
        let p = FrameParser::new()
            .parse_all(&bytes[..split])
            .parse_all(&bytes[split..]);
        assert!(p.byte_one == whole.byte_one);
        assert!(p.byte_two == whole.byte_two);
        assert!(p.payload_length == whole.payload_length);
        assert!(p.masking_key == whole.masking_key);
        assert!(p.payload_data == whole.payload_data);
        assert!(p.is_done() == whole.is_done());
    }
}

#[test]
fn frame_byte_1_bit_0_is_fin() {
    assert!(ByteOne(0x80).is_fin());
    assert!(!ByteOne(0x00).is_fin());
    assert!(!ByteOne(0x40).is_fin());
}

#[test]
fn frame_byte_1_bits_123_is_reserved() {
    assert!(ByteOne(0x40).is_reserved());
    assert!(ByteOne(0x30).is_reserved());
    assert!(ByteOne(0x10).is_reserved());
    assert!(!ByteOne(0x00).is_reserved());
    assert!(!ByteOne(0x80).is_reserved());
}

#[test]
fn frame_byte_1_bits_5678_is_opcode() {
    assert!(ByteOne(0x00).op_code() == OpCode::CONTINUATION);
    assert!(ByteOne(0xF0).op_code() == OpCode::CONTINUATION);
    assert!(ByteOne(0xFF).op_code() == OpCode::RESERVED_CONTROL(0xF));
}

#[test]
fn opcode_decoding() {
    assert!(OpCode::from_byte(0x0) == OpCode::CONTINUATION);
    assert!(OpCode::from_byte(0x1) == OpCode::TEXT);
    assert!(OpCode::from_byte(0x2) == OpCode::BINARY);
    assert!(OpCode::from_byte(0x3) == OpCode::RESERVED_NON_CONTROL(0x3));
    assert!(OpCode::from_byte(0x4) == OpCode::RESERVED_NON_CONTROL(0x4));
    assert!(OpCode::from_byte(0x5) == OpCode::RESERVED_NON_CONTROL(0x5));
    assert!(OpCode::from_byte(0x6) == OpCode::RESERVED_NON_CONTROL(0x6));
    assert!(OpCode::from_byte(0x7) == OpCode::RESERVED_NON_CONTROL(0x7));
    assert!(OpCode::from_byte(0x8) == OpCode::CONNECTION_CLOSE);
    assert!(OpCode::from_byte(0x9) == OpCode::PING);
    assert!(OpCode::from_byte(0xA) == OpCode::PONG);
    assert!(OpCode::from_byte(0xB) == OpCode::RESERVED_CONTROL(0xB));
    assert!(OpCode::from_byte(0xC) == OpCode::RESERVED_CONTROL(0xC));
    assert!(OpCode::from_byte(0xD) == OpCode::RESERVED_CONTROL(0xD));
    assert!(OpCode::from_byte(0xE) == OpCode::RESERVED_CONTROL(0xE));
    assert!(OpCode::from_byte(0xF) == OpCode::RESERVED_CONTROL(0xF));
}

fn non_control_opcode_bytes() -> Vec<u8> {
    vec![0x0, 0x1, 0x2, 0x3, 0x4, 0x5, 0x6, 0x7]
}

fn control_opcode_bytes() -> Vec<u8> {
    vec![0x8, 0x9, 0xA, 0xB, 0xC, 0xD, 0xE, 0xF]
}

fn all_opcode_bytes() -> Vec<u8> {
    let mut all = non_control_opcode_bytes();
    all.extend_from_slice(control_opcode_bytes().as_slice());
    all
}

#[test]
fn opcode_is_control() {
    for byte in non_control_opcode_bytes() {
        assert!(!OpCode::from_byte(byte).is_control());
    }

    for byte in control_opcode_bytes() {
        assert!(OpCode::from_byte(byte).is_control());
    }
}

#[test]
fn opcode_to_byte() {
    for byte in all_opcode_bytes() {
        assert!(OpCode::from_byte(byte).to_byte() == byte);
    }
}

#[test]
fn frame_byte_2_bit_0_is_mask() {
    assert!(ByteTwo(0x80).is_mask());
    assert!(!ByteTwo(0x00).is_mask());
    assert!(!ByteTwo(0x40).is_mask());
}

#[test]
fn frame_byte_2_bits_1234567_payload_length() {
    assert!(ByteTwo(0x00).payload_length() == ByteTwoPayloadLength::Length(0));
    assert!(ByteTwo(0x80).payload_length() == ByteTwoPayloadLength::Length(0));
    assert!(ByteTwo(1).payload_length() == ByteTwoPayloadLength::Length(1));
    assert!(ByteTwo(125).payload_length() == ByteTwoPayloadLength::Length(125));
    assert!(ByteTwo(126).payload_length() == ByteTwoPayloadLength::NextTwoBytesAreLength);
    assert!(ByteTwo(127).payload_length() == ByteTwoPayloadLength::NextEightBytesAreLength);
}

#[test]
fn frame_byte_2_bits_1234567_payload_bytes_to_read() {
    assert!(ByteTwo(0x00).payload_bytes_to_read() == 0);
    assert!(ByteTwo(126).payload_bytes_to_read() == 2);
    assert!(ByteTwo(127).payload_bytes_to_read() == 8);
}

#[test]
fn frame_byte_2_bits_1234567_is_extended_payload_length() {
    assert!(!ByteTwo(0x00).is_extended_payload_length());
    assert!(!ByteTwo(125).is_extended_payload_length());
    assert!(!ByteTwo(0x80).is_extended_payload_length());
    assert!(ByteTwo(126).is_extended_payload_length());
    assert!(ByteTwo(127).is_extended_payload_length());
}

#[test]
fn masking_key_byte_mask() {
    let key = MaskingKey(0xFFF00F00);

    assert!(key.byte_mask(0) == 0xFF);
    assert!(key.byte_mask(1) == 0xF0);
    assert!(key.byte_mask(2) == 0x0F);
    assert!(key.byte_mask(3) == 0x00);
    assert!(key.byte_mask(4) == 0xFF);
}

#[test]
fn masking_key_apply() {
    let key = MaskingKey(0xFFF00F00);
    let masked = key.apply(&PayloadData(vec![0x0F, 0xF0, 0x0F, 0xF0, 0xF0, 0xFF]));

    assert!(masked == PayloadData(vec![0xF0, 0x00, 0x00, 0xF0, 0x0F, 0x0F]));
}

#[test]
fn masking_key_apply_twice_restores() {
    let key = MaskingKey(0xDEADBEEF);
    let payload = PayloadData(vec![1, 2, 3, 4, 5, 6, 7, 8, 9]);

    let twice = key.apply(&key.apply(&payload));

    assert!(twice == payload);
}

#[test]
fn masking_key_to_bytes() {
    let key = MaskingKey(0xFFF00F00);
    assert!(key.to_bytes() == vec![0xFF, 0xF0, 0x0F, 0x00])
}
