//! The message reassembler: collects the unmasked payloads of a
//! continuation chain into one text or binary message. Control frames are
//! never given to it; text payloads are UTF-8-decoded only once the whole
//! message has arrived.

use vstd::prelude::*;
use vstd::utf8::{decode_utf8, valid_utf8};

use crate::framing::types::{spec_frame_unmasked, Frame, OpCode};
use crate::strutil::utf8_to_string;

verus! {

/// What a data frame contributes to a message: the start of a text or
/// binary message, or the continuation of the current one.
#[derive(Clone, Copy, PartialEq, Eq, Structural, Debug)]
pub enum FragmentType {
    Text,
    Data,
    Continuation,
}

/// The fragment role of a data opcode; control opcodes have none.
pub open spec fn spec_fragment_type(op: OpCode) -> Option<FragmentType> {
    match op {
        OpCode::CONTINUATION => Some(FragmentType::Continuation),
        OpCode::TEXT => Some(FragmentType::Text),
        OpCode::BINARY => Some(FragmentType::Data),
        _ => None,
    }
}

impl Frame {
    /// The fragment role of this frame's opcode.
    pub fn fragment_type(&self) -> (r: FragmentType)
        requires
            spec_fragment_type(self.op_code) is Some,
        ensures
            Some(r) == spec_fragment_type(self.op_code),
    {
        match self.op_code {
            OpCode::CONTINUATION => FragmentType::Continuation,
            OpCode::TEXT => FragmentType::Text,
            _ => FragmentType::Data,
        }
    }

    /// The payload bytes this frame contributes: its payload unmasked.
    pub fn fragment_bytes(&self) -> (r: Vec<u8>)
        ensures
            r@ == spec_frame_unmasked(*self),
    {
        self.unmasked_payload().to_bytes()
    }
}

/// A complete application message.
#[derive(Clone, PartialEq, Eq, Debug)]
pub enum Message {
    Text(String),
    Data(Vec<u8>),
}

/// Why a fragment was refused.
#[allow(non_camel_case_types)]
#[derive(Clone, Copy, PartialEq, Eq, Structural, Debug)]
pub enum ReceptionError {
    CONTINUATION_AS_FIRST_FRAME,
    INVALID_MESSAGE_TYPE(FragmentType),
    INVALID_UTF8,
}

/// The reassembler's state: idle, or collecting a message of a known
/// type.
#[derive(Clone, PartialEq, Eq, Debug)]
pub enum Receiver {
    Unstarted,
    InProgress { kind: FragmentType, data: Vec<u8> },
}

/// The outcome of one fragment: a complete message, a receiver still
/// collecting, or an error.
#[derive(Clone, PartialEq, Eq, Debug)]
pub enum Reception {
    Received(Message),
    Receiving(Receiver),
    ReceptionError(ReceptionError),
}

/// What delivering `buf` as a message of type `kind` must produce once
/// the final fragment has arrived (`fin`), or while still collecting.
pub open spec fn spec_delivery(r: Reception, kind: FragmentType, buf: Seq<u8>, fin: bool) -> bool {
    if !fin {
        r matches Reception::Receiving(Receiver::InProgress { kind: k, data }) && k == kind
            && data@ == buf
    } else {
        match kind {
            FragmentType::Data => r matches Reception::Received(Message::Data(v)) && v@ == buf,
            FragmentType::Text => if valid_utf8(buf) {
                r matches Reception::Received(Message::Text(s)) && s@ == decode_utf8(buf)
            } else {
                r == Reception::ReceptionError(ReceptionError::INVALID_UTF8)
            },
            FragmentType::Continuation => r == Reception::ReceptionError(
                ReceptionError::INVALID_MESSAGE_TYPE(FragmentType::Continuation),
            ),
        }
    }
}

impl Receiver {
    pub fn new() -> (r: Receiver)
        ensures
            r == Receiver::Unstarted,
    {
        Receiver::Unstarted
    }

    /// Take in one data frame. A continuation extends the message being
    /// collected; a text or binary frame starts one when idle and is an
    /// error in the middle of another message; the final fragment yields
    /// the complete message, decoding text as UTF-8.
    pub fn next_fragment(&self, frame: &Frame) -> (r: Reception)
        requires
            spec_fragment_type(frame.op_code) is Some,
        ensures
            ({
                let ft = spec_fragment_type(frame.op_code)->0;
                let piece = spec_frame_unmasked(*frame);
                match *self {
                    Receiver::Unstarted => {
                        if ft is Continuation {
                            r == Reception::ReceptionError(
                                ReceptionError::CONTINUATION_AS_FIRST_FRAME,
                            )
                        } else {
                            spec_delivery(r, ft, piece, frame.fin)
                        }
                    },
                    Receiver::InProgress { kind, data } => {
                        if ft is Continuation {
                            spec_delivery(r, kind, data@ + piece, frame.fin)
                        } else {
                            r == Reception::ReceptionError(
                                ReceptionError::INVALID_MESSAGE_TYPE(ft),
                            )
                        }
                    },
                }
            }),
    {
        let ft = frame.fragment_type();
        match self {
            Receiver::Unstarted => {
                if ft == FragmentType::Continuation {
                    Reception::ReceptionError(ReceptionError::CONTINUATION_AS_FIRST_FRAME)
                } else {
                    handle_fragment(ft, Vec::new(), frame)
                }
            },
            Receiver::InProgress { kind, data } => {
                if ft == FragmentType::Continuation {
                    handle_fragment(*kind, crate::strutil::copy_bytes(data.as_slice()), frame)
                } else {
                    Reception::ReceptionError(ReceptionError::INVALID_MESSAGE_TYPE(ft))
                }
            },
        }
    }
}

/// Append the frame's unmasked payload to the message collected so far,
/// and either deliver it (on the final fragment) or keep collecting.
pub fn handle_fragment(kind: FragmentType, so_far: Vec<u8>, frame: &Frame) -> (r: Reception)
    ensures
        spec_delivery(r, kind, so_far@ + spec_frame_unmasked(*frame), frame.fin),
{
    let mut message = so_far;
    let piece = frame.fragment_bytes();
    message.extend_from_slice(piece.as_slice());
    proof {
        assert(message@ =~= so_far@ + spec_frame_unmasked(*frame));
    }
    if frame.is_fin() {
        build_message_reception(kind, message)
    } else {
        Reception::Receiving(Receiver::InProgress { kind, data: message })
    }
}

/// Turn a complete payload into a message of the given type: binary
/// bytes verbatim, text decoded as UTF-8 with invalid bytes refused, and
/// a continuation type refused outright.
pub fn build_message_reception(kind: FragmentType, message: Vec<u8>) -> (r: Reception)
    ensures
        spec_delivery(r, kind, message@, true),
{
    match kind {
        FragmentType::Data => Reception::Received(Message::Data(message)),
        FragmentType::Text => match utf8_to_string(message) {
            Some(s) => Reception::Received(Message::Text(s)),
            None => Reception::ReceptionError(ReceptionError::INVALID_UTF8),
        },
        FragmentType::Continuation => Reception::ReceptionError(
            ReceptionError::INVALID_MESSAGE_TYPE(FragmentType::Continuation),
        ),
    }
}

} // verus!
