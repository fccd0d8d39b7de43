//! Frame-level data types: the two header bytes, opcodes, the masking key,
//! and payload containers, together with their bit-level meaning.

use vstd::prelude::*;

verus! {

/// Bit of byte one that marks the final fragment of a message.
pub const FIN_MASK: u8 = 0x80;
/// Bits of byte one reserved by RFC 6455 extensions.
pub const RESERVED_MASK: u8 = 0x70;
/// Bits of byte one that carry the opcode nibble.
pub const OP_CODE_MASK: u8 = 0x0F;
/// Bit of byte two that marks a masked payload.
pub const MASK_MASK: u8 = 0x80;
/// Bits of byte two that carry the 7-bit payload length.
pub const PAYLOAD_LENGTH_MASK: u8 = 0x7F;

/// A payload length as carried on the wire (up to 64 bits).
pub type PayloadLength = u64;

/// One WebSocket frame. `payload_data` holds the wire bytes, still masked
/// when `masking_key` is present.
#[derive(Clone, PartialEq, Eq, Debug)]
pub struct Frame {
    pub fin: bool,
    pub reserved: bool,
    pub op_code: OpCode,
    pub masking_key: Option<MaskingKey>,
    pub payload_data: MaskedPayload,
}

impl Frame {
    /// The payload with the masking key applied (the identity when the
    /// frame is unmasked).
    pub fn unmasked_payload(&self) -> (r: PayloadData)
        ensures
            r@ == spec_unmask(self.masking_key, self.payload_data@),
    {
        self.payload_data.unmask(self.masking_key)
    }

    pub fn is_fin(&self) -> (r: bool)
        ensures
            r == self.fin,
    {
        self.fin
    }

    pub fn is_reserved(&self) -> (r: bool)
        ensures
            r == self.reserved,
    {
        self.reserved
    }
}

/// The payload bytes that `frame` contributes to a message: its payload
/// after unmasking.
pub open spec fn spec_frame_unmasked(frame: Frame) -> Seq<u8> {
    spec_unmask(frame.masking_key, frame.payload_data@)
}

/// The first header byte of a frame.
#[derive(Clone, Copy, PartialEq, Eq, Structural, Debug)]
pub struct ByteOne(pub u8);

/// The second header byte of a frame.
#[derive(Clone, Copy, PartialEq, Eq, Structural, Debug)]
pub struct ByteTwo(pub u8);

impl ByteOne {
    pub fn is_fin(&self) -> (r: bool)
        ensures
            r == (self.0 & FIN_MASK != 0),
    {
        self.0 & FIN_MASK != 0
    }

    pub fn is_reserved(&self) -> (r: bool)
        ensures
            r == (self.0 & RESERVED_MASK != 0),
    {
        self.0 & RESERVED_MASK != 0
    }

    pub fn op_code(&self) -> (r: OpCode)
        ensures
            r == spec_op_code_from(self.0),
            op_code_wf(r),
    {
        proof {
            let b = self.0;
            assert((b & 0x0F) & 0x0F == b & 0x0F) by (bit_vector);
        }
        OpCode::from_byte(self.0 & OP_CODE_MASK)
    }
}

/// Opcode of a frame. The reserved variants carry their nibble so that
/// decoding and re-encoding a byte is the identity on the low four bits.
#[allow(non_camel_case_types)]
#[derive(Clone, Copy, PartialEq, Eq, Structural, Debug)]
pub enum OpCode {
    CONTINUATION,
    TEXT,
    BINARY,
    RESERVED_NON_CONTROL(u8),
    CONNECTION_CLOSE,
    PING,
    PONG,
    RESERVED_CONTROL(u8),
}

/// The nibble a given opcode encodes to.
pub open spec fn op_code_nibble(op: OpCode) -> u8 {
    match op {
        OpCode::CONTINUATION => 0x0,
        OpCode::TEXT => 0x1,
        OpCode::BINARY => 0x2,
        OpCode::RESERVED_NON_CONTROL(b) => b,
        OpCode::CONNECTION_CLOSE => 0x8,
        OpCode::PING => 0x9,
        OpCode::PONG => 0xA,
        OpCode::RESERVED_CONTROL(b) => b,
    }
}

/// A well-formed opcode carries a nibble consistent with its tag, so that
/// `from_byte` and `to_byte` are mutually inverse on it.
pub open spec fn op_code_wf(op: OpCode) -> bool {
    match op {
        OpCode::RESERVED_NON_CONTROL(b) => 0x3 <= b <= 0x7,
        OpCode::RESERVED_CONTROL(b) => 0xB <= b <= 0xF,
        _ => true,
    }
}

/// The opcode a byte decodes to; only the low nibble matters.
pub open spec fn spec_op_code_from(byte: u8) -> OpCode {
    let n = byte & 0x0F;
    if n == 0x0 {
        OpCode::CONTINUATION
    } else if n == 0x1 {
        OpCode::TEXT
    } else if n == 0x2 {
        OpCode::BINARY
    } else if n <= 0x7 {
        OpCode::RESERVED_NON_CONTROL(n)
    } else if n == 0x8 {
        OpCode::CONNECTION_CLOSE
    } else if n == 0x9 {
        OpCode::PING
    } else if n == 0xA {
        OpCode::PONG
    } else {
        OpCode::RESERVED_CONTROL(n)
    }
}

impl OpCode {
    /// Decode the low nibble of `byte` into an opcode.
    pub fn from_byte(byte: u8) -> (r: OpCode)
        ensures
            r == spec_op_code_from(byte),
            op_code_wf(r),
            op_code_nibble(r) == byte & 0x0F,
    {
        proof {
            assert(byte & 0x0F <= 0x0F) by (bit_vector);
        }
        let n = byte & 0x0F;
        if n == 0x0 {
            OpCode::CONTINUATION
        } else if n == 0x1 {
            OpCode::TEXT
        } else if n == 0x2 {
            OpCode::BINARY
        } else if n <= 0x7 {
            OpCode::RESERVED_NON_CONTROL(n)
        } else if n == 0x8 {
            OpCode::CONNECTION_CLOSE
        } else if n == 0x9 {
            OpCode::PING
        } else if n == 0xA {
            OpCode::PONG
        } else {
            OpCode::RESERVED_CONTROL(n)
        }
    }

    /// The nibble this opcode encodes to.
    pub fn to_byte(&self) -> (r: u8)
        ensures
            r == op_code_nibble(*self),
    {
        match *self {
            OpCode::CONTINUATION => 0x0,
            OpCode::TEXT => 0x1,
            OpCode::BINARY => 0x2,
            OpCode::RESERVED_NON_CONTROL(b) => b,
            OpCode::CONNECTION_CLOSE => 0x8,
            OpCode::PING => 0x9,
            OpCode::PONG => 0xA,
            OpCode::RESERVED_CONTROL(b) => b,
        }
    }

    /// Control opcodes are those whose nibble has the high bit set.
    pub fn is_control(&self) -> (r: bool)
        ensures
            r == op_code_is_control(*self),
    {
        (self.to_byte() & 0x8) == 0x8
    }
}

/// True of opcodes whose nibble has its high bit set (close, ping, pong and
/// the reserved control range).
pub open spec fn op_code_is_control(op: OpCode) -> bool {
    op_code_nibble(op) & 0x8 == 0x8
}

/// For well-formed opcodes, being a control opcode is the same as being
/// close, ping, pong or a reserved control variant.
pub proof fn lemma_control_opcodes(op: OpCode)
    requires
        op_code_wf(op),
    ensures
        op_code_is_control(op) <==> (op is CONNECTION_CLOSE || op is PING || op is PONG
            || op is RESERVED_CONTROL),
{
    let n = op_code_nibble(op);
    assert(0x0u8 & 0x8 != 0x8 && 0x1u8 & 0x8 != 0x8 && 0x2u8 & 0x8 != 0x8 && 0x8u8 & 0x8 == 0x8
        && 0x9u8 & 0x8 == 0x8 && 0xAu8 & 0x8 == 0x8) by (bit_vector);
    match op {
        OpCode::RESERVED_NON_CONTROL(_) => {
            assert(n & 0x8 != 0x8) by (bit_vector)
                requires
                    0x3 <= n <= 0x7,
            ;
        },
        OpCode::RESERVED_CONTROL(_) => {
            assert(n & 0x8 == 0x8) by (bit_vector)
                requires
                    0xB <= n <= 0xF,
            ;
        },
        _ => {},
    }
}

/// Decoding a byte and re-encoding the result yields the byte's low nibble.
pub proof fn lemma_op_code_round_trip(byte: u8)
    ensures
        op_code_nibble(spec_op_code_from(byte)) == byte & 0x0F,
{
    assert(byte & 0x0F <= 0x0F) by (bit_vector);
}

impl ByteTwo {
    pub fn is_mask(&self) -> (r: bool)
        ensures
            r == (self.0 & MASK_MASK != 0),
    {
        self.0 & MASK_MASK != 0
    }

    /// The 7-bit length field: either a literal length, or a marker that
    /// the next two or eight bytes carry the length.
    pub fn payload_length(&self) -> (r: ByteTwoPayloadLength)
        ensures
            r == spec_byte_two_payload_length(self.0),
    {
        let len = self.0 & PAYLOAD_LENGTH_MASK;
        if len == 127 {
            ByteTwoPayloadLength::NextEightBytesAreLength
        } else if len == 126 {
            ByteTwoPayloadLength::NextTwoBytesAreLength
        } else {
            ByteTwoPayloadLength::Length(len)
        }
    }

    pub fn is_extended_payload_length(&self) -> (r: bool)
        ensures
            r == ((self.0 & PAYLOAD_LENGTH_MASK) > 125),
    {
        (self.0 & PAYLOAD_LENGTH_MASK) > 125
    }

    /// How many extended length bytes follow byte two.
    pub fn payload_bytes_to_read(&self) -> (r: u8)
        ensures
            r == spec_payload_bytes_to_read(self.0),
    {
        match self.payload_length() {
            ByteTwoPayloadLength::NextEightBytesAreLength => 8,
            ByteTwoPayloadLength::NextTwoBytesAreLength => 2,
            _ => 0,
        }
    }
}

pub open spec fn spec_byte_two_payload_length(byte: u8) -> ByteTwoPayloadLength {
    let len = byte & 0x7F;
    if len == 127 {
        ByteTwoPayloadLength::NextEightBytesAreLength
    } else if len == 126 {
        ByteTwoPayloadLength::NextTwoBytesAreLength
    } else {
        ByteTwoPayloadLength::Length(len)
    }
}

pub open spec fn spec_payload_bytes_to_read(byte: u8) -> u8 {
    let len = byte & 0x7F;
    if len == 127 {
        8
    } else if len == 126 {
        2
    } else {
        0
    }
}

/// The four masking bytes in network order, XOR-combined with the payload
/// by position modulo four.
#[derive(Clone, Copy, PartialEq, Eq, Structural, Debug)]
pub struct MaskingKey(pub u32);

/// The masking byte applied at payload position `i`: byte `i % 4` of the
/// key, most significant first.
pub open spec fn spec_byte_mask(key: u32, i: int) -> u8 {
    ((key >> ((8 * (3 - (i % 4))) as u32)) & 0xFF) as u8
}

/// `payload` XOR-combined position-wise with the mask bytes of `key`.
pub open spec fn spec_apply_mask(key: u32, payload: Seq<u8>) -> Seq<u8> {
    Seq::new(payload.len(), |i: int| payload[i] ^ spec_byte_mask(key, i))
}

/// The payload resulting from unmasking with an optional key.
pub open spec fn spec_unmask(key: Option<MaskingKey>, payload: Seq<u8>) -> Seq<u8> {
    match key {
        Some(k) => spec_apply_mask(k.0, payload),
        None => payload,
    }
}

impl MaskingKey {
    pub fn byte_mask(&self, index: usize) -> (r: u8)
        ensures
            r == spec_byte_mask(self.0, index as int),
    {
        let rem: u32 = (index % 4) as u32;
        let shift: u32 = 8 * (3 - rem);
        ((self.0 >> shift) & 0xFF) as u8
    }

    /// XOR the payload with this key, position-wise. Applying the key twice
    /// restores the original payload.
    pub fn apply(&self, payload: &PayloadData) -> (r: PayloadData)
        ensures
            r@ == spec_apply_mask(self.0, payload@),
    {
        let n = payload.0.len();
        let mut out: Vec<u8> = Vec::new();
        let mut i: usize = 0;
        while i < n
            invariant
                i <= n,
                n == payload@.len(),
                out@ == spec_apply_mask(self.0, payload@.take(i as int)),
            decreases n - i,
        {
            let b = payload.0[i] ^ self.byte_mask(i);
            out.push(b);
            proof {
                assert(out@ =~= spec_apply_mask(self.0, payload@.take(i as int + 1)));
            }
            i = i + 1;
        }
        proof {
            assert(payload@.take(n as int) =~= payload@);
        }
        PayloadData(out)
    }

    /// The four key bytes, most significant first.
    pub fn to_bytes(&self) -> (r: Vec<u8>)
        ensures
            r@ == spec_mask_bytes(self.0),
    {
        let mut out: Vec<u8> = Vec::new();
        out.push(self.byte_mask(0));
        out.push(self.byte_mask(1));
        out.push(self.byte_mask(2));
        out.push(self.byte_mask(3));
        proof {
            assert(out@ =~= spec_mask_bytes(self.0));
        }
        out
    }
}

/// The four bytes of a masking key, most significant first.
pub open spec fn spec_mask_bytes(key: u32) -> Seq<u8> {
    seq![
        spec_byte_mask(key, 0),
        spec_byte_mask(key, 1),
        spec_byte_mask(key, 2),
        spec_byte_mask(key, 3),
    ]
}

/// Masking is an involution: applying the same key twice restores the
/// payload unchanged.
pub proof fn lemma_masking_involution(key: MaskingKey, payload: Seq<u8>)
    ensures
        spec_apply_mask(key.0, spec_apply_mask(key.0, payload)) == payload,
{
    let once = spec_apply_mask(key.0, payload);
    let twice = spec_apply_mask(key.0, once);
    assert forall|i: int| 0 <= i < payload.len() implies twice[i] == payload[i] by {
        let m = spec_byte_mask(key.0, i);
        let b = payload[i];
        assert((b ^ m) ^ m == b) by (bit_vector);
    }
    assert(twice =~= payload);
}

/// A payload as it stands on the wire: masked when the frame carries a key.
#[derive(Clone, PartialEq, Eq, Debug)]
pub struct MaskedPayload(pub PayloadData);

impl View for MaskedPayload {
    type V = Seq<u8>;

    open spec fn view(&self) -> Seq<u8> {
        self.0@
    }
}

impl MaskedPayload {
    pub fn new() -> (r: MaskedPayload)
        ensures
            r@ == Seq::<u8>::empty(),
    {
        MaskedPayload(PayloadData::new())
    }

    /// Apply `key` when present; the identity otherwise.
    pub fn unmask(&self, key: Option<MaskingKey>) -> (r: PayloadData)
        ensures
            r@ == spec_unmask(key, self@),
    {
        match key {
            Some(key) => key.apply(&self.0),
            None => self.0.clone_data(),
        }
    }

    /// This payload extended with `bytes`.
    pub fn add_bytes(&self, bytes: &[u8]) -> (r: MaskedPayload)
        ensures
            r@ == self@ + bytes@,
    {
        MaskedPayload(self.0.add_bytes(bytes))
    }
}

/// A sequence of plain payload bytes.
#[derive(Clone, PartialEq, Eq, Debug)]
pub struct PayloadData(pub Vec<u8>);

impl View for PayloadData {
    type V = Seq<u8>;

    open spec fn view(&self) -> Seq<u8> {
        self.0@
    }
}

impl PayloadData {
    pub fn new() -> (r: PayloadData)
        ensures
            r@ == Seq::<u8>::empty(),
    {
        PayloadData(Vec::new())
    }

    /// This payload extended with `bytes`.
    pub fn add_bytes(&self, bytes: &[u8]) -> (r: PayloadData)
        ensures
            r@ == self@ + bytes@,
    {
        let mut out: Vec<u8> = Vec::new();
        out.extend_from_slice(self.0.as_slice());
        out.extend_from_slice(bytes);
        proof {
            assert(out@ =~= self@ + bytes@);
        }
        PayloadData(out)
    }

    pub fn length(&self) -> (r: usize)
        ensures
            r == self@.len(),
    {
        self.0.len()
    }

    pub fn from_bytes(bytes: &[u8]) -> (r: PayloadData)
        ensures
            r@ == bytes@,
    {
        let r = PayloadData::new().add_bytes(bytes);
        proof {
            assert(r@ =~= bytes@);
        }
        r
    }

    /// Mask this payload with `key` when present.
    pub fn mask(&self, key: Option<MaskingKey>) -> (r: MaskedPayload)
        ensures
            r@ == spec_unmask(key, self@),
    {
        match key {
            Some(key) => MaskedPayload(key.apply(self)),
            None => MaskedPayload(self.clone_data()),
        }
    }

    /// A fresh copy of the payload bytes.
    pub fn to_bytes(&self) -> (r: Vec<u8>)
        ensures
            r@ == self@,
    {
        let mut out: Vec<u8> = Vec::new();
        out.extend_from_slice(self.0.as_slice());
        proof {
            assert(out@ =~= self@);
        }
        out
    }

    /// A copy of this container.
    pub fn clone_data(&self) -> (r: PayloadData)
        ensures
            r@ == self@,
    {
        PayloadData(self.to_bytes())
    }
}

/// The three shapes of the 7-bit length field of byte two.
#[derive(Clone, Copy, PartialEq, Eq, Structural, Debug)]
pub enum ByteTwoPayloadLength {
    Length(u8),
    NextTwoBytesAreLength,
    NextEightBytesAreLength,
}

} // verus!
