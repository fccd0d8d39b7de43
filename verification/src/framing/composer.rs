//! The frame composer: serialises a [`Frame`] to wire bytes, the inverse of
//! the frame parser. The round-trip law is proved here: parsing the bytes
//! of a composed well-formed frame consumes them all and recovers the frame.

use vstd::prelude::*;

use crate::framing::parser::{
    fconsumed, frame_parser_init, frame_parser_wf, frun, fstep, some_or_zero_u8, spec_add_byte,
    state_after_length, view_masking_key, Buffer, FrameParserV, ParserState,
};
use crate::framing::types::{
    op_code_nibble, op_code_wf, spec_byte_mask, spec_byte_two_payload_length, spec_mask_bytes,
    spec_op_code_from, spec_payload_bytes_to_read, ByteTwoPayloadLength, Frame, MaskingKey,
    FIN_MASK, MASK_MASK, OP_CODE_MASK, PAYLOAD_LENGTH_MASK, RESERVED_MASK,
};

verus! {

/// `mask` when `test` holds, zero otherwise.
pub open spec fn spec_mask_flag(test: bool, mask: u8) -> u8 {
    if test {
        mask
    } else {
        0
    }
}

/// Byte one: fin bit, reserved bits, opcode nibble.
pub open spec fn spec_compose_byte_one(f: Frame) -> u8 {
    spec_mask_flag(f.fin, FIN_MASK) | spec_mask_flag(f.reserved, RESERVED_MASK) | op_code_nibble(
        f.op_code,
    )
}

/// The 7-bit length field: the length itself below 126, else a marker for
/// the two- or eight-byte extended length.
pub open spec fn spec_length_indicator(len: u64) -> u8 {
    if len < 126 {
        len as u8
    } else if len <= 0xFFFF {
        126
    } else {
        127
    }
}

/// Byte two: mask bit and length indicator.
pub open spec fn spec_compose_byte_two(f: Frame, len: u64) -> u8 {
    spec_mask_flag(f.masking_key is Some, MASK_MASK) | spec_length_indicator(len)
}

/// The extended length bytes, most significant first: none below 126,
/// two bytes up to 0xFFFF, eight bytes beyond.
pub open spec fn spec_extended_length_bytes(len: u64) -> Seq<u8> {
    if len < 126 {
        Seq::<u8>::empty()
    } else if len <= 0xFFFF {
        seq![(len >> 8u64) as u8, len as u8]
    } else {
        seq![
            (len >> 56u64) as u8,
            (len >> 48u64) as u8,
            (len >> 40u64) as u8,
            (len >> 32u64) as u8,
            (len >> 24u64) as u8,
            (len >> 16u64) as u8,
            (len >> 8u64) as u8,
            len as u8,
        ]
    }
}

/// The four key bytes when the frame is masked, nothing otherwise.
pub open spec fn spec_compose_mask_bytes(key: Option<MaskingKey>) -> Seq<u8> {
    match key {
        Some(k) => spec_mask_bytes(k.0),
        None => Seq::<u8>::empty(),
    }
}

/// The full wire encoding of a frame: two header bytes, the extended
/// length when the payload needs one, the mask bytes when present, then
/// the payload verbatim.
pub open spec fn spec_compose(f: Frame) -> Seq<u8> {
    let len = f.payload_data@.len() as u64;
    seq![spec_compose_byte_one(f), spec_compose_byte_two(f, len)]
        + spec_extended_length_bytes(len) + spec_compose_mask_bytes(f.masking_key)
        + f.payload_data@
}

fn mask_if(test: bool, mask: u8) -> (r: u8)
    ensures
        r == spec_mask_flag(test, mask),
{
    if test {
        mask
    } else {
        0x00
    }
}

impl Frame {
    /// Serialise this frame to its wire bytes.
    pub fn compose(&self) -> (r: Vec<u8>)
        ensures
            r@ == spec_compose(*self),
    {
        let length = self.payload_data.0.length();
        let len64 = length as u64;
        let mut out: Vec<u8> = Vec::new();
        out.push(self.compose_byte_one());
        out.push(self.compose_byte_two(len64));
        let ext = self.compose_payload_length(len64);
        out.extend_from_slice(ext.as_slice());
        let mask = self.compose_mask_bytes();
        out.extend_from_slice(mask.as_slice());
        out.extend_from_slice(self.payload_data.0.0.as_slice());
        proof {
            assert(out@ =~= spec_compose(*self));
        }
        out
    }

    fn compose_byte_one(&self) -> (r: u8)
        ensures
            r == spec_compose_byte_one(*self),
    {
        let fin = mask_if(self.is_fin(), FIN_MASK);
        let resv = mask_if(self.is_reserved(), RESERVED_MASK);
        fin | resv | self.op_code.to_byte()
    }

    fn compose_byte_two(&self, length: u64) -> (r: u8)
        ensures
            r == spec_compose_byte_two(*self, length),
    {
        let mask = mask_if(self.masking_key.is_some(), MASK_MASK);
        let len: u8 = if length < 126 {
            proof {
                assert((length as u8) & 0x7F == length as u8) by (bit_vector)
                    requires
                        length < 126,
                ;
            }
            (length as u8) & PAYLOAD_LENGTH_MASK
        } else if length <= 0xFFFF {
            126
        } else {
            127
        };
        mask | len
    }

    fn compose_payload_length(&self, length: u64) -> (r: Vec<u8>)
        ensures
            r@ == spec_extended_length_bytes(length),
    {
        let mut out: Vec<u8> = Vec::new();
        if length < 126 {
        } else if length <= 0xFFFF {
            out.push(#[verifier::truncate] ((length >> 8u64) as u8));
            out.push(#[verifier::truncate] (length as u8));
        } else {
            out.push(#[verifier::truncate] ((length >> 56u64) as u8));
            out.push(#[verifier::truncate] ((length >> 48u64) as u8));
            out.push(#[verifier::truncate] ((length >> 40u64) as u8));
            out.push(#[verifier::truncate] ((length >> 32u64) as u8));
            out.push(#[verifier::truncate] ((length >> 24u64) as u8));
            out.push(#[verifier::truncate] ((length >> 16u64) as u8));
            out.push(#[verifier::truncate] ((length >> 8u64) as u8));
            out.push(#[verifier::truncate] (length as u8));
        }
        proof {
            assert(out@ =~= spec_extended_length_bytes(length));
        }
        out
    }

    fn compose_mask_bytes(&self) -> (r: Vec<u8>)
        ensures
            r@ == spec_compose_mask_bytes(self.masking_key),
    {
        match self.masking_key {
            Some(key) => key.to_bytes(),
            None => Vec::new(),
        }
    }
}

/// The round-trip law in executable form: composing a well-formed frame
/// and parsing the bytes with a fresh parser consumes every byte and
/// yields the frame back, field for field.
pub fn compose_then_parse(f: &Frame) -> (r: (Frame, usize))
    requires
        op_code_wf(f.op_code),
    ensures
        r.1 == spec_compose(*f).len(),
        r.0.fin == f.fin,
        r.0.reserved == f.reserved,
        r.0.op_code == f.op_code,
        r.0.masking_key == f.masking_key,
        r.0.payload_data@ == f.payload_data@,
{
    let _payload_len = f.payload_data.0.length();
    let bytes = f.compose();
    let result = crate::framing::parser::FrameParser::new().parse(bytes.as_slice());
    proof {
        lemma_compose_parse_round_trip(*f);
    }
    let frame = result.make_frame_done();
    (frame, result.bytes_parsed)
}

/// Big-endian accumulation of a byte sequence onto `val`, mirroring how
/// the parser gathers extended length and mask fields.
pub open spec fn spec_accum(val: u64, q: Seq<u8>) -> u64
    decreases q.len(),
{
    if q.len() == 0 {
        val
    } else {
        spec_accum((val << 8u64) | (q[0] as u64), q.drop_first())
    }
}

/// Feeding exactly the missing extended-length bytes completes the length
/// field and moves past it.
proof fn lemma_feed_length_bytes(v: FrameParserV, q: Seq<u8>)
    requires
        frame_parser_wf(v),
        v.state matches ParserState::ReadingPayloadLength(buf) && buf.bytes_read + q.len()
            == spec_payload_bytes_to_read(some_or_zero_u8(v.byte_two)),
        q.len() >= 1,
    ensures
        ({
            let buf = v.state->ReadingPayloadLength_0;
            let lv = spec_accum(buf.buf_value, q);
            frun(v, q) == (FrameParserV {
                state: state_after_length(some_or_zero_u8(v.byte_two), lv, v.payload.len()),
                payload_length: Some(lv),
                ..v
            })
        }),
        fconsumed(v, q) == q.len(),
    decreases q.len(),
{
    let buf = v.state->ReadingPayloadLength_0;
    let b = q[0];
    let nb = spec_add_byte(buf, b);
    let v1 = fstep(v, b);
    assert(frun(v, q) == frun(v1, q.drop_first()));
    if q.len() == 1 {
        assert(nb.bytes_read == spec_payload_bytes_to_read(some_or_zero_u8(v.byte_two)));
        assert(spec_accum(buf.buf_value, q) == spec_accum(nb.buf_value, q.drop_first()));
        assert(q.drop_first().len() == 0);
        assert(frun(v1, q.drop_first()) == v1);
        assert(fconsumed(v1, q.drop_first()) == 0);
    } else {
        assert(nb.bytes_read < spec_payload_bytes_to_read(some_or_zero_u8(v.byte_two)));
        assert(v1.state == ParserState::ReadingPayloadLength(nb));
        lemma_feed_length_bytes(v1, q.drop_first());
        assert(spec_accum(buf.buf_value, q) == spec_accum(nb.buf_value, q.drop_first()));
    }
}

/// Feeding exactly the missing mask bytes completes the masking key and
/// moves to the payload (or straight to done when none is owed).
proof fn lemma_feed_mask_bytes(v: FrameParserV, q: Seq<u8>)
    requires
        frame_parser_wf(v),
        v.state matches ParserState::ReadingMask(buf) && buf.bytes_read + q.len() == 4,
        q.len() >= 1,
    ensures
        ({
            let buf = v.state->ReadingMask_0;
            let kv = spec_accum(buf.buf_value, q) as u32;
            frun(v, q) == (FrameParserV {
                state: if v.payload.len() == (v.payload_length->0) as nat {
                    ParserState::Done
                } else {
                    ParserState::ReadingPayload
                },
                masking_key: Some(kv),
                ..v
            })
        }),
        fconsumed(v, q) == q.len(),
    decreases q.len(),
{
    let buf = v.state->ReadingMask_0;
    let b = q[0];
    let nb = spec_add_byte(buf, b);
    let v1 = fstep(v, b);
    assert(frun(v, q) == frun(v1, q.drop_first()));
    if q.len() == 1 {
        assert(nb.bytes_read == 4);
        assert(spec_accum(buf.buf_value, q) == spec_accum(nb.buf_value, q.drop_first()));
        assert(frun(v1, q.drop_first()) == v1);
        assert(fconsumed(v1, q.drop_first()) == 0);
    } else {
        assert(nb.bytes_read < 4);
        assert(v1.state == ParserState::ReadingMask(nb));
        lemma_feed_mask_bytes(v1, q.drop_first());
        assert(spec_accum(buf.buf_value, q) == spec_accum(nb.buf_value, q.drop_first()));
    }
}

/// Feeding exactly the missing payload bytes finishes the frame.
proof fn lemma_feed_payload(v: FrameParserV, p: Seq<u8>)
    requires
        frame_parser_wf(v),
        v.state is ReadingPayload,
        v.payload.len() + p.len() == (v.payload_length->0) as nat,
        p.len() >= 1,
    ensures
        frun(v, p) == (FrameParserV { state: ParserState::Done, payload: v.payload + p, ..v }),
        fconsumed(v, p) == p.len(),
    decreases p.len(),
{
    let b = p[0];
    let v1 = fstep(v, b);
    assert(frun(v, p) == frun(v1, p.drop_first()));
    if p.len() == 1 {
        assert(v1.state is Done);
        assert(v1.payload =~= v.payload + p);
        assert(frun(v1, p.drop_first()) == v1);
        assert(fconsumed(v1, p.drop_first()) == 0);
    } else {
        assert(v1.state is ReadingPayload);
        lemma_feed_payload(v1, p.drop_first());
        assert(v.payload.push(b) + p.drop_first() =~= v.payload + p);
    }
}

/// A well-formed opcode is recovered from any byte whose low nibble is its
/// encoding.
proof fn lemma_op_code_from_nibble(op: crate::framing::types::OpCode, b: u8)
    requires
        op_code_wf(op),
        b & 0x0F == op_code_nibble(op),
    ensures
        spec_op_code_from(b) == op,
{
}

/// Accumulating the two extended-length bytes of a 16-bit length restores
/// the length.
proof fn lemma_accum_len_2(len: u64)
    requires
        126 <= len <= 0xFFFF,
    ensures
        spec_accum(0, spec_extended_length_bytes(len)) == len,
{
    {
        let e0 = (len >> 8u64) as u8;
        let e1 = len as u8;
        let q = seq![e0, e1];
        assert(spec_extended_length_bytes(len) =~= q);
        assert(q.drop_first() =~= seq![e1]);
        assert(seq![e1].drop_first() =~= Seq::<u8>::empty());
        let s0: u64 = (0u64 << 8u64) | (e0 as u64);
        let s1: u64 = (s0 << 8u64) | (e1 as u64);
        assert(spec_accum(0, q) == spec_accum(s0, seq![e1]));
        assert(spec_accum(s1, Seq::<u8>::empty()) == s1);
        assert(spec_accum(s0, seq![e1]) == s1);
        assert(s1 == len) by (bit_vector)
            requires
                len <= 0xFFFF && e0 == (len >> 8u64) as u8 && e1 == len as u8 && s0 == (0u64
                    << 8u64) | (e0 as u64) && s1 == (s0 << 8u64) | (e1 as u64),
        ;
    }
}

/// Accumulating the eight extended-length bytes of a 64-bit length
/// restores the length.
proof fn lemma_accum_len_8(len: u64)
    requires
        len > 0xFFFF,
    ensures
        spec_accum(0, spec_extended_length_bytes(len)) == len,
{
    let e0 = (len >> 56u64) as u8;
    let e1 = (len >> 48u64) as u8;
    let e2 = (len >> 40u64) as u8;
    let e3 = (len >> 32u64) as u8;
    let e4 = (len >> 24u64) as u8;
    let e5 = (len >> 16u64) as u8;
    let e6 = (len >> 8u64) as u8;
    let e7 = len as u8;
    let q = seq![e0, e1, e2, e3, e4, e5, e6, e7];
    assert(spec_extended_length_bytes(len) =~= q);
    assert(q.drop_first() =~= seq![e1, e2, e3, e4, e5, e6, e7]);
    assert(seq![e1, e2, e3, e4, e5, e6, e7].drop_first() =~= seq![e2, e3, e4, e5, e6, e7]);
    assert(seq![e2, e3, e4, e5, e6, e7].drop_first() =~= seq![e3, e4, e5, e6, e7]);
    assert(seq![e3, e4, e5, e6, e7].drop_first() =~= seq![e4, e5, e6, e7]);
    assert(seq![e4, e5, e6, e7].drop_first() =~= seq![e5, e6, e7]);
    assert(seq![e5, e6, e7].drop_first() =~= seq![e6, e7]);
    assert(seq![e6, e7].drop_first() =~= seq![e7]);
    assert(seq![e7].drop_first() =~= Seq::<u8>::empty());
    let s0: u64 = (0u64 << 8u64) | (e0 as u64);
    let s1: u64 = (s0 << 8u64) | (e1 as u64);
    let s2: u64 = (s1 << 8u64) | (e2 as u64);
    let s3: u64 = (s2 << 8u64) | (e3 as u64);
    let s4: u64 = (s3 << 8u64) | (e4 as u64);
    let s5: u64 = (s4 << 8u64) | (e5 as u64);
    let s6: u64 = (s5 << 8u64) | (e6 as u64);
    let s7: u64 = (s6 << 8u64) | (e7 as u64);
    assert(spec_accum(0, q) == spec_accum(s0, seq![e1, e2, e3, e4, e5, e6, e7]));
    assert(spec_accum(s0, seq![e1, e2, e3, e4, e5, e6, e7]) == spec_accum(
        s1,
        seq![e2, e3, e4, e5, e6, e7],
    ));
    assert(spec_accum(s1, seq![e2, e3, e4, e5, e6, e7]) == spec_accum(s2, seq![e3, e4, e5, e6, e7]));
    assert(spec_accum(s2, seq![e3, e4, e5, e6, e7]) == spec_accum(s3, seq![e4, e5, e6, e7]));
    assert(spec_accum(s3, seq![e4, e5, e6, e7]) == spec_accum(s4, seq![e5, e6, e7]));
    assert(spec_accum(s4, seq![e5, e6, e7]) == spec_accum(s5, seq![e6, e7]));
    assert(spec_accum(s5, seq![e6, e7]) == spec_accum(s6, seq![e7]));
    assert(spec_accum(s7, Seq::<u8>::empty()) == s7);
    assert(spec_accum(s6, seq![e7]) == s7);
    assert(s0 == (len >> 56u64)) by (bit_vector)
        requires
            e0 == (len >> 56u64) as u8 && s0 == (0u64 << 8u64) | (e0 as u64),
    ;
    assert(s1 == (len >> 48u64)) by (bit_vector)
        requires
            e1 == (len >> 48u64) as u8 && s1 == (s0 << 8u64) | (e1 as u64) && s0 == (len >> 56u64),
    ;
    assert(s2 == (len >> 40u64)) by (bit_vector)
        requires
            e2 == (len >> 40u64) as u8 && s2 == (s1 << 8u64) | (e2 as u64) && s1 == (len >> 48u64),
    ;
    assert(s3 == (len >> 32u64)) by (bit_vector)
        requires
            e3 == (len >> 32u64) as u8 && s3 == (s2 << 8u64) | (e3 as u64) && s2 == (len >> 40u64),
    ;
    assert(s4 == (len >> 24u64)) by (bit_vector)
        requires
            e4 == (len >> 24u64) as u8 && s4 == (s3 << 8u64) | (e4 as u64) && s3 == (len >> 32u64),
    ;
    assert(s5 == (len >> 16u64)) by (bit_vector)
        requires
            e5 == (len >> 16u64) as u8 && s5 == (s4 << 8u64) | (e5 as u64) && s4 == (len >> 24u64),
    ;
    assert(s6 == (len >> 8u64)) by (bit_vector)
        requires
            e6 == (len >> 8u64) as u8 && s6 == (s5 << 8u64) | (e6 as u64) && s5 == (len >> 16u64),
    ;
    assert(s7 == len) by (bit_vector)
        requires
            e7 == len as u8 && s7 == (s6 << 8u64) | (e7 as u64) && s6 == (len >> 8u64),
    ;
}

/// Accumulating the four mask bytes of a key restores the key.
proof fn lemma_accum_mask(kk: u32)
    ensures
        spec_accum(0, spec_mask_bytes(kk)) as u32 == kk,
{
    let m0 = spec_byte_mask(kk, 0);
    let m1 = spec_byte_mask(kk, 1);
    let m2 = spec_byte_mask(kk, 2);
    let m3 = spec_byte_mask(kk, 3);
    let q = seq![m0, m1, m2, m3];
    assert(spec_mask_bytes(kk) =~= q);
    assert(q.drop_first() =~= seq![m1, m2, m3]);
    assert(seq![m1, m2, m3].drop_first() =~= seq![m2, m3]);
    assert(seq![m2, m3].drop_first() =~= seq![m3]);
    assert(seq![m3].drop_first() =~= Seq::<u8>::empty());
    let s0: u64 = (0u64 << 8u64) | (m0 as u64);
    let s1: u64 = (s0 << 8u64) | (m1 as u64);
    let s2: u64 = (s1 << 8u64) | (m2 as u64);
    let s3: u64 = (s2 << 8u64) | (m3 as u64);
    assert(spec_accum(0, q) == spec_accum(s0, seq![m1, m2, m3]));
    assert(spec_accum(s0, seq![m1, m2, m3]) == spec_accum(s1, seq![m2, m3]));
    assert(spec_accum(s1, seq![m2, m3]) == spec_accum(s2, seq![m3]));
    assert(spec_accum(s3, Seq::<u8>::empty()) == s3);
    assert(spec_accum(s2, seq![m3]) == s3);
    assert(m0 == ((kk >> 24u32) & 0xFF) as u8);
    assert(m1 == ((kk >> 16u32) & 0xFF) as u8);
    assert(m2 == ((kk >> 8u32) & 0xFF) as u8);
    assert(m3 == ((kk >> 0u32) & 0xFF) as u8);
    assert(s0 == ((kk >> 24u32) as u64)) by (bit_vector)
        requires
            m0 == ((kk >> 24u32) & 0xFF) as u8 && s0 == (0u64 << 8u64) | (m0 as u64),
    ;
    assert(s1 == ((kk >> 16u32) as u64)) by (bit_vector)
        requires
            m1 == ((kk >> 16u32) & 0xFF) as u8 && s1 == (s0 << 8u64) | (m1 as u64) && s0 == ((kk
                >> 24u32) as u64),
    ;
    assert(s2 == ((kk >> 8u32) as u64)) by (bit_vector)
        requires
            m2 == ((kk >> 8u32) & 0xFF) as u8 && s2 == (s1 << 8u64) | (m2 as u64) && s1 == ((kk
                >> 16u32) as u64),
    ;
    assert(s3 as u32 == kk) by (bit_vector)
        requires
            m3 == ((kk >> 0u32) & 0xFF) as u8 && s3 == (s2 << 8u64) | (m3 as u64) && s2 == ((kk
                >> 8u32) as u64),
    ;
}

/// The round-trip law: parsing the composition of a well-formed frame
/// from a fresh parser consumes every byte, finishes the frame, and
/// recovers the fin flag, the reserved flag, the opcode, the masking key
/// and the payload exactly.
pub proof fn lemma_compose_parse_round_trip(f: Frame)
    requires
        op_code_wf(f.op_code),
        f.payload_data@.len() <= u64::MAX,
    ensures
        ({
            let bs = spec_compose(f);
            let v = frun(frame_parser_init(), bs);
            &&& v.state is Done
            &&& fconsumed(frame_parser_init(), bs) == bs.len()
            &&& v.byte_one is Some
            &&& (some_or_zero_u8(v.byte_one) & FIN_MASK != 0) == f.fin
            &&& (some_or_zero_u8(v.byte_one) & RESERVED_MASK != 0) == f.reserved
            &&& spec_op_code_from(some_or_zero_u8(v.byte_one)) == f.op_code
            &&& v.masking_key == view_masking_key(f.masking_key)
            &&& v.payload == f.payload_data@
            &&& v.payload_length == Some(f.payload_data@.len() as u64)
        }),
{
    let len = f.payload_data@.len() as u64;
    let pay = f.payload_data@;
    let b1 = spec_compose_byte_one(f);
    let b2 = spec_compose_byte_two(f, len);
    let ext = spec_extended_length_bytes(len);
    let mb = spec_compose_mask_bytes(f.masking_key);
    let bs = spec_compose(f);
    let head = seq![b1, b2];
    assert(bs =~= head + (ext + (mb + pay)));

    let v0 = frame_parser_init();

    // Byte one: fin, reserved and the opcode nibble are recoverable.
    let fm = spec_mask_flag(f.fin, FIN_MASK);
    let rm = spec_mask_flag(f.reserved, RESERVED_MASK);
    let nib = op_code_nibble(f.op_code);
    assert(nib <= 0x0F);
    assert(((fm | rm | nib) & 0x80 != 0) == (fm == 0x80) && ((fm | rm | nib) & 0x70 != 0) == (rm
        == 0x70) && ((fm | rm | nib) & 0x0F) == nib) by (bit_vector)
        requires
            (fm == 0x80 || fm == 0) && (rm == 0x70 || rm == 0) && nib <= 0x0F,
    ;
    lemma_op_code_from_nibble(f.op_code, b1);

    let v1 = fstep(v0, b1);
    assert(v1.state is AwaitingByteTwo && v1.byte_one == Some(b1) && v1.payload.len() == 0);

    // Byte two: the mask bit and the length indicator are recoverable.
    let mf = spec_mask_flag(f.masking_key is Some, MASK_MASK);
    let ind = spec_length_indicator(len);
    assert(ind <= 127);
    assert(((mf | ind) & 0x7F) == ind && (((mf | ind) & 0x80) != 0) == (mf == 0x80))
        by (bit_vector)
        requires
            (mf == 0x80 || mf == 0) && ind <= 127,
    ;

    let v2 = fstep(v1, b2);
    assert(frun(v0, head) == v2) by {
        assert(head.drop_first() =~= seq![b2]);
        assert(seq![b2].drop_first() =~= Seq::<u8>::empty());
        assert(frun(v0, head) == frun(v1, seq![b2]));
        assert(frun(v1, seq![b2]) == frun(v2, Seq::<u8>::empty()));
    }
    assert(fconsumed(v0, head) == 2) by {
        assert(head.drop_first() =~= seq![b2]);
        assert(seq![b2].drop_first() =~= Seq::<u8>::empty());
        assert(fconsumed(v2, Seq::<u8>::empty()) == 0);
        assert(fconsumed(v1, seq![b2]) == 1);
        assert(fconsumed(v0, head) == 2);
    }

    // After the header, either the length is in byte two or the extended
    // bytes carry it.
    let v3 = frun(v0, head + ext);
    crate::framing::parser::lemma_frun_append(v0, head, ext);
    crate::framing::parser::lemma_fconsumed_append(v0, head, ext);
    if len < 126 {
        assert(spec_byte_two_payload_length(b2) == ByteTwoPayloadLength::Length(ind));
        assert((ind as u64) == len) by (bit_vector)
            requires
                len < 126 && ind == len as u8,
        ;
        assert(ext =~= Seq::<u8>::empty());
        assert(v3 == v2);
        assert(v3.state == state_after_length(b2, len, 0) && v3.payload_length == Some(len));
    } else {
        if len <= 0xFFFF {
            assert(ind == 126);
            assert((b2 & 0x7F) == 126 && (b2 & 0x7F) != 127) by (bit_vector)
                requires
                    b2 == (mf | ind) && (mf == 0x80 || mf == 0) && ind == 126,
            ;
            assert(spec_byte_two_payload_length(b2) == ByteTwoPayloadLength::NextTwoBytesAreLength);
            assert(spec_payload_bytes_to_read(b2) == 2);
            assert(v2.state == ParserState::ReadingPayloadLength(
                Buffer { bytes_read: 0, buf_value: 0 },
            ));
            lemma_feed_length_bytes(v2, ext);
            lemma_accum_len_2(len);
            assert(spec_accum(0, ext) == len);
        } else {
            assert(ind == 127);
            assert((b2 & 0x7F) == 127) by (bit_vector)
                requires
                    b2 == (mf | ind) && (mf == 0x80 || mf == 0) && ind == 127,
            ;
            assert(spec_byte_two_payload_length(b2)
                == ByteTwoPayloadLength::NextEightBytesAreLength);
            assert(spec_payload_bytes_to_read(b2) == 8);
            assert(v2.state == ParserState::ReadingPayloadLength(
                Buffer { bytes_read: 0, buf_value: 0 },
            ));
            lemma_feed_length_bytes(v2, ext);
            lemma_accum_len_8(len);
            assert(spec_accum(0, ext) == len);
        }
        assert(v3.state == state_after_length(b2, len, 0) && v3.payload_length == Some(len));
        assert(fconsumed(v0, head + ext) == head.len() + ext.len());
    }
    assert(v3.byte_one == Some(b1) && v3.payload.len() == 0 && v3.payload_length == Some(len));
    assert(fconsumed(v0, head + ext) == (head + ext).len());

    // The mask bytes, when the frame carries a key.
    let v4 = frun(v0, (head + ext) + mb);
    crate::framing::parser::lemma_frun_append(v0, head + ext, mb);
    crate::framing::parser::lemma_fconsumed_append(v0, head + ext, mb);
    match f.masking_key {
        Some(k) => {
            assert(mf == 0x80);
            assert(b2 & MASK_MASK != 0);
            assert(v3.state == ParserState::ReadingMask(Buffer { bytes_read: 0, buf_value: 0 }));
            lemma_feed_mask_bytes(v3, mb);
            lemma_accum_mask(k.0);
            assert(v4.masking_key == Some(k.0));
            assert(v4.state == if len == 0 {
                ParserState::Done
            } else {
                ParserState::ReadingPayload
            });
        },
        None => {
            assert(mf == 0);
            assert(b2 & MASK_MASK == 0);
            assert(mb =~= Seq::<u8>::empty());
            assert(v4 == v3);
            assert(v4.masking_key is None);
            assert(v4.state == if len == 0 {
                ParserState::Done
            } else {
                ParserState::ReadingPayload
            });
        },
    }
    assert(v4.byte_one == Some(b1) && v4.payload.len() == 0 && v4.payload_length == Some(len));
    assert(fconsumed(v0, (head + ext) + mb) == ((head + ext) + mb).len());

    // The payload itself.
    let v5 = frun(v0, ((head + ext) + mb) + pay);
    crate::framing::parser::lemma_frun_append(v0, (head + ext) + mb, pay);
    crate::framing::parser::lemma_fconsumed_append(v0, (head + ext) + mb, pay);
    if pay.len() == 0 {
        assert(len == 0);
        assert(v5 == v4);
        assert(v5.payload =~= pay);
    } else {
        assert(len > 0);
        assert(v4.state is ReadingPayload);
        crate::framing::parser::lemma_frun_wf(v0, (head + ext) + mb);
        lemma_feed_payload(v4, pay);
        assert(v5.payload =~= pay);
    }
    assert(bs =~= ((head + ext) + mb) + pay);
    assert(frun(v0, bs) == v5);
    assert(fconsumed(v0, bs) == bs.len());
}

} // verus!
