use dolittle::base64::base64_encode;
use dolittle::driver::{handle_control_frame, handle_data_frame, ControlAction};
use dolittle::framing::parser::FrameParser;
use dolittle::framing::types::{Frame, MaskedPayload, MaskingKey, OpCode, PayloadData};
use dolittle::messaging::{Message, Receiver};
use dolittle::parser::initial_parser;
use dolittle::protocol::{accept_request, to_websocket_response_str};

#[test]
fn base64_known_vectors() {
    assert!(base64_encode(b"") == "");
    assert!(base64_encode(b"M") == "TQ==");
    assert!(base64_encode(b"Ma") == "TWE=");
    assert!(base64_encode(b"Man") == "TWFu");
    assert!(base64_encode(b"light work.") == "bGlnaHQgd29yay4=");
}

#[test]
fn full_handshake_through_parser() {
    let request = "GET /chat HTTP/1.1\nHost: server.example.com\nUpgrade: websocket\nConnection: Upgrade\nSec-WebSocket-Key: dGhlIHNhbXBsZSBub25jZQ==\nOrigin: http://example.com\nSec-WebSocket-Version: 13\n\n";

    let parser = initial_parser().parse(request.as_bytes());
    assert!(parser.upgrade());

    let result = accept_request(&parser);
    let response = to_websocket_response_str(&result);

    assert!(
        response
            == "HTTP/1.1 101 Switching Protocols\r\nUpgrade: websocket\r\nConnection: Upgrade\r\nSec-WebSocket-Accept: s3pPLMBiTxaQ9kYGzzhZRbK+xOo=\r\n\r\n"
    );
}

#[test]
fn rejected_handshake_through_parser() {
    let request = "GET /chat HTTP/1.1\nHost: server.example.com\nUpgrade: !!not-websockets!!\nConnection: Upgrade\nSec-WebSocket-Key: dGhlIHNhbXBsZSBub25jZQ==\nSec-WebSocket-Version: 13\n\n";

    let parser = initial_parser().parse(request.as_bytes());
    let result = accept_request(&parser);
    assert!(result.is_err());

    let response = to_websocket_response_str(&result);
    assert!(response == "HTTP/1.1 400 Bad Request\r\n\r\n");
}

#[test]
fn ping_is_answered_with_pong_echoing_payload() {
    let key = MaskingKey(0x0F0F0F0F);
    let plain = PayloadData(vec![1, 2, 3]);
    let ping = Frame {
        fin: true,
        reserved: false,
        op_code: OpCode::PING,
        masking_key: Some(key),
        payload_data: plain.mask(Some(key)),
    };

    match handle_control_frame(&ping) {
        ControlAction::ReplyPong(pong) => {
            assert!(pong.fin);
            assert!(!pong.reserved);
            assert!(pong.op_code == OpCode::PONG);
            assert!(pong.masking_key == None);
            assert!(pong.payload_data == MaskedPayload(PayloadData(vec![1, 2, 3])));
        },
        _ => panic!("expected a pong reply"),
    }
}

#[test]
fn close_is_answered_and_stops() {
    let close = Frame {
        fin: true,
        reserved: false,
        op_code: OpCode::CONNECTION_CLOSE,
        masking_key: None,
        payload_data: MaskedPayload(PayloadData(vec![])),
    };

    match handle_control_frame(&close) {
        ControlAction::ReplyCloseAndStop(reply) => {
            assert!(reply.op_code == OpCode::CONNECTION_CLOSE);
            assert!(reply.payload_data == MaskedPayload(PayloadData(vec![])));
        },
        _ => panic!("expected a close reply"),
    }
}

#[test]
fn pong_and_reserved_control_are_ignored() {
    let pong = Frame {
        fin: true,
        reserved: false,
        op_code: OpCode::PONG,
        masking_key: None,
        payload_data: MaskedPayload(PayloadData(vec![9])),
    };
    assert!(handle_control_frame(&pong) == ControlAction::Ignore);

    let reserved = Frame {
        fin: true,
        reserved: false,
        op_code: OpCode::RESERVED_CONTROL(0xB),
        masking_key: None,
        payload_data: MaskedPayload(PayloadData(vec![])),
    };
    assert!(handle_control_frame(&reserved) == ControlAction::Ignore);
}

#[test]
fn data_frames_assemble_through_the_driver() {
    let first = Frame {
        fin: false,
        reserved: false,
        op_code: OpCode::BINARY,
        masking_key: None,
        payload_data: MaskedPayload(PayloadData(vec![1, 2])),
    };
    let second = Frame {
        fin: true,
        reserved: false,
        op_code: OpCode::CONTINUATION,
        masking_key: None,
        payload_data: MaskedPayload(PayloadData(vec![3])),
    };

    let (receiver, message, error) = handle_data_frame(Receiver::new(), &first);
    assert!(message == None);
    assert!(error == None);

    let (receiver, message, error) = handle_data_frame(receiver, &second);
    assert!(receiver == Receiver::Unstarted);
    assert!(message == Some(Message::Data(vec![1, 2, 3])));
    assert!(error == None);
}

#[test]
fn upgrade_boundary_feeds_frame_parser() {
    let head = "GET /chat HTTP/1.1\nHost: h\nUpgrade: websocket\nConnection: Upgrade\nSec-WebSocket-Key: k\nSec-WebSocket-Version: 13\n\n";
    let mut wire = head.as_bytes().to_vec();
    wire.extend_from_slice(&[0x81, 0x02, 0x68, 0x69]);

    let parser = initial_parser().parse(&wire);
    assert!(parser.upgrade());

    let rest = &wire[parser.offset..];
    let result = FrameParser::new().parse(rest);
    assert!(result.is_done());
    assert!(result.bytes_parsed == 4);

    let frame = result.make_frame_done();
    let (_, message, error) = handle_data_frame(Receiver::new(), &frame);
    assert!(message == Some(Message::Text("hi".to_string())));
    assert!(error == None);
}
