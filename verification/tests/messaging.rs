use dolittle::framing::types::{Frame, MaskedPayload, MaskingKey, OpCode, PayloadData};
use dolittle::messaging::{Message, Receiver, Reception, ReceptionError};

fn data_frame(op_code: OpCode, fin: bool, bytes: Vec<u8>) -> Frame {
    Frame {
        fin,
        reserved: false,
        op_code,
        masking_key: None,
        payload_data: MaskedPayload(PayloadData(bytes)),
    }
}

fn assert_receiving(reception: Reception) -> Receiver {
    match reception {
        Reception::Receiving(r) => r,
        _ => panic!("Receiver wasn't Receiving"),
    }
}

#[test]
fn test_assemble_data_message_in_one_fragment() {
    let result = Receiver::new().next_fragment(&data_frame(OpCode::BINARY, true, vec![0, 1, 2]));

    assert!(result == Reception::Received(Message::Data(vec![0, 1, 2])));
}

#[test]
fn test_assemble_data_message_in_multiple_fragments() {
    let receiver = assert_receiving(
        Receiver::new().next_fragment(&data_frame(OpCode::BINARY, false, vec![0, 1, 2])),
    );

    let result = receiver.next_fragment(&data_frame(OpCode::CONTINUATION, true, vec![3, 4]));
    assert!(result == Reception::Received(Message::Data(vec![0, 1, 2, 3, 4])));
}

#[test]
fn test_assemble_text_message_in_one_fragment() {
    let data = vec![105, 32, 226, 153, 165, 32, 117];
    let result = Receiver::new().next_fragment(&data_frame(OpCode::TEXT, true, data));

    assert!(result == Reception::Received(Message::Text("i ♥ u".to_string())));
}

#[test]
fn test_assemble_text_message_in_multiple_fragment() {
    let receiver = assert_receiving(
        Receiver::new().next_fragment(&data_frame(OpCode::TEXT, false, vec![105, 32, 226])),
    );

    let result = receiver.next_fragment(&data_frame(OpCode::CONTINUATION, true, vec![153, 165, 32, 117]));
    assert!(result == Reception::Received(Message::Text("i ♥ u".to_string())));
}

#[test]
fn test_error_when_initial_frame_is_continuation() {
    let result = Receiver::new().next_fragment(&data_frame(OpCode::CONTINUATION, false, vec![0]));

    assert!(result == Reception::ReceptionError(ReceptionError::CONTINUATION_AS_FIRST_FRAME));
}

#[test]
fn test_error_when_text_is_invalid_utf8() {
    let result = Receiver::new().next_fragment(&data_frame(OpCode::TEXT, true, vec![0xFF, 0xFE]));

    assert!(result == Reception::ReceptionError(ReceptionError::INVALID_UTF8));
}

#[test]
fn test_error_when_data_frame_arrives_mid_message() {
    let receiver = assert_receiving(
        Receiver::new().next_fragment(&data_frame(OpCode::TEXT, false, vec![104, 105])),
    );

    let result = receiver.next_fragment(&data_frame(OpCode::BINARY, true, vec![0]));
    assert!(
        result
            == Reception::ReceptionError(ReceptionError::INVALID_MESSAGE_TYPE(
                dolittle::messaging::FragmentType::Data
            ))
    );
}

#[test]
fn test_masked_fragment_is_unmasked() {
    let key = MaskingKey(0xFFF00F00);
    let plain = PayloadData(vec![104, 105]);
    let masked = plain.mask(Some(key));
    let frame = Frame {
        fin: true,
        reserved: false,
        op_code: OpCode::TEXT,
        masking_key: Some(key),
        payload_data: masked,
    };

    let result = Receiver::new().next_fragment(&frame);
    assert!(result == Reception::Received(Message::Text("hi".to_string())));
}
