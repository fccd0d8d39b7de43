//! The per-frame decisions of a connection: what a control frame demands
//! in reply, and how a data frame advances the message reassembler. The
//! surrounding socket loop performs the reads and writes; every decision
//! it acts on is made here.

use vstd::prelude::*;

use crate::framing::types::{
    op_code_is_control, spec_frame_unmasked, Frame, MaskedPayload, OpCode, PayloadData,
};
use crate::messaging::{spec_fragment_type, FragmentType, Message, Receiver, Reception, ReceptionError};
use vstd::utf8::{decode_utf8, valid_utf8};

verus! {

/// What the connection must do about a control frame.
#[derive(Clone, PartialEq, Eq, Debug)]
pub enum ControlAction {
    /// Write this frame back (a pong echoing a ping's payload).
    ReplyPong(Frame),
    /// Write this close frame back, then terminate the connection.
    ReplyCloseAndStop(Frame),
    /// Nothing: pongs and reserved control frames are dropped.
    Ignore,
}

/// How the connection must treat a completed frame: handle it inline as
/// a control frame, hand it to the reassembler as a data frame, or refuse
/// its reserved non-control opcode as a policy violation.
#[derive(Clone, Copy, PartialEq, Eq, Structural, Debug)]
pub enum FrameClass {
    Control,
    Data,
    Reserved,
}

/// Classify a frame by its opcode. Rejecting reserved opcodes is the
/// driver's decision, not the frame parser's.
pub fn classify_frame(frame: &Frame) -> (r: FrameClass)
    requires
        crate::framing::types::op_code_wf(frame.op_code),
    ensures
        r is Control <==> op_code_is_control(frame.op_code),
        r is Data <==> spec_fragment_type(frame.op_code) is Some,
        r is Reserved <==> !op_code_is_control(frame.op_code) && spec_fragment_type(
            frame.op_code,
        ) is None,
{
    proof {
        crate::framing::types::lemma_control_opcodes(frame.op_code);
    }
    match frame.op_code {
        OpCode::CONTINUATION | OpCode::TEXT | OpCode::BINARY => FrameClass::Data,
        OpCode::RESERVED_NON_CONTROL(_) => FrameClass::Reserved,
        _ => FrameClass::Control,
    }
}

/// The pong owed for a ping: final, unreserved, unmasked, echoing the
/// ping's unmasked payload.
pub fn pong_frame(ping: &Frame) -> (r: Frame)
    ensures
        r.fin == true,
        r.reserved == false,
        r.op_code == OpCode::PONG,
        r.masking_key is None,
        r.payload_data@ == spec_frame_unmasked(*ping),
{
    Frame {
        fin: true,
        reserved: false,
        op_code: OpCode::PONG,
        masking_key: None,
        payload_data: MaskedPayload(ping.unmasked_payload()),
    }
}

/// The close frame written back before terminating: final, unreserved,
/// unmasked, with an empty payload.
pub fn close_frame() -> (r: Frame)
    ensures
        r.fin == true,
        r.reserved == false,
        r.op_code == OpCode::CONNECTION_CLOSE,
        r.masking_key is None,
        r.payload_data@ == Seq::<u8>::empty(),
{
    Frame {
        fin: true,
        reserved: false,
        op_code: OpCode::CONNECTION_CLOSE,
        masking_key: None,
        payload_data: MaskedPayload(PayloadData::new()),
    }
}

/// Decide the reply to a control frame: a ping is answered with a pong
/// carrying the same payload, a close is answered with a close and ends
/// the connection, and everything else is ignored.
pub fn handle_control_frame(frame: &Frame) -> (r: ControlAction)
    requires
        op_code_is_control(frame.op_code),
    ensures
        frame.op_code is PING ==> (r matches ControlAction::ReplyPong(p) && p.fin && !p.reserved
            && p.op_code == OpCode::PONG && p.masking_key is None && p.payload_data@
            == spec_frame_unmasked(*frame)),
        frame.op_code is CONNECTION_CLOSE ==> (r matches ControlAction::ReplyCloseAndStop(c)
            && c.fin && !c.reserved && c.op_code == OpCode::CONNECTION_CLOSE
            && c.masking_key is None && c.payload_data@ == Seq::<u8>::empty()),
        !(frame.op_code is PING) && !(frame.op_code is CONNECTION_CLOSE) ==> r
            == ControlAction::Ignore,
    {
    match frame.op_code {
        OpCode::PING => ControlAction::ReplyPong(pong_frame(frame)),
        OpCode::CONNECTION_CLOSE => ControlAction::ReplyCloseAndStop(close_frame()),
        _ => ControlAction::Ignore,
    }
}

/// What advancing the reassembler with `buf` collected for a message of
/// type `kind` must yield: still collecting while the fragment is not
/// final, otherwise the complete message (text decoded as UTF-8) and a
/// reset receiver, or an error and a reset receiver.
pub open spec fn spec_frame_outcome(
    r: (Receiver, Option<Message>, Option<ReceptionError>),
    kind: FragmentType,
    buf: Seq<u8>,
    fin: bool,
) -> bool {
    if !fin {
        r.0 matches Receiver::InProgress { kind: k, data } && k == kind && data@ == buf
            && r.1 is None && r.2 is None
    } else {
        r.0 == Receiver::Unstarted && match kind {
            FragmentType::Data => r.1 matches Some(Message::Data(v)) && v@ == buf && r.2 is None,
            FragmentType::Text => if valid_utf8(buf) {
                r.1 matches Some(Message::Text(s)) && s@ == decode_utf8(buf) && r.2 is None
            } else {
                r.1 is None && r.2 == Some(ReceptionError::INVALID_UTF8)
            },
            FragmentType::Continuation => r.1 is None && r.2 == Some(
                ReceptionError::INVALID_MESSAGE_TYPE(FragmentType::Continuation),
            ),
        }
    }
}

/// Advance the reassembler by one data frame: the receiver to keep, the
/// message delivered if one completed, and the error if the fragment was
/// refused. On a completed message or an error the receiver is reset.
pub fn handle_data_frame(receiver: Receiver, frame: &Frame) -> (r: (
    Receiver,
    Option<Message>,
    Option<ReceptionError>,
))
    requires
        spec_fragment_type(frame.op_code) is Some,
    ensures
        ({
            let ft = spec_fragment_type(frame.op_code)->0;
            let piece = spec_frame_unmasked(*frame);
            match receiver {
                Receiver::Unstarted => {
                    if ft is Continuation {
                        r.0 == Receiver::Unstarted && r.1 is None && r.2 == Some(
                            ReceptionError::CONTINUATION_AS_FIRST_FRAME,
                        )
                    } else {
                        spec_frame_outcome(r, ft, piece, frame.fin)
                    }
                },
                Receiver::InProgress { kind, data } => {
                    if ft is Continuation {
                        spec_frame_outcome(r, kind, data@ + piece, frame.fin)
                    } else {
                        r.0 == Receiver::Unstarted && r.1 is None && r.2 == Some(
                            ReceptionError::INVALID_MESSAGE_TYPE(ft),
                        )
                    }
                },
            }
        }),
    {
    match receiver.next_fragment(frame) {
        Reception::Receiving(next) => (next, None, None),
        Reception::Received(message) => (Receiver::new(), Some(message), None),
        Reception::ReceptionError(error) => (Receiver::new(), None, Some(error)),
    }
}

} // verus!
